use hueclient::client::{collection_path, resource_path, scene_command};
use hueclient::resolve::{resolve_room_children, resolve_rooms, resolve_zones};
use hueclient::resource::{Device, Metadata, ResourceIdentifier, Room, Zone};

fn rid(rid: &str, rtype: &str) -> ResourceIdentifier {
    ResourceIdentifier { rid: rid.to_string(), rtype: rtype.to_string() }
}

fn device(id: &str, services: Vec<ResourceIdentifier>) -> Device {
    Device { id: id.to_string(), id_v1: None, product_data: None, metadata: None, services: Some(services) }
}

fn ids(v: &[&str]) -> Vec<String> {
    v.iter().map(|s| s.to_string()).collect()
}

#[test]
fn room_resolves_through_device() {
    let devices = vec![device("d1", vec![rid("l2", "light"), rid("z1", "zigbee_connectivity"), rid("l1", "light")])];
    let lights = ids(&["l1", "l2", "l3"]);
    let children = vec![rid("d1", "device"), rid("gone", "device")];
    assert_eq!(resolve_room_children(&children, &devices, &lights), vec![1, 0]);
}

#[test]
fn unresolvable_child_keeps_siblings() {
    let devices = vec![device("d1", vec![rid("l1", "light")]), device("d2", vec![rid("l3", "light"), rid("missing", "light")])];
    let lights = ids(&["l1", "l2", "l3"]);
    let children = vec![rid("nothing", "device"), rid("d2", "device"), rid("d1", "device")];
    assert_eq!(resolve_room_children(&children, &devices, &lights), vec![2, 0]);
    let no_services = vec![Device { id: "d1".to_string(), id_v1: None, product_data: None, metadata: None, services: None }];
    assert_eq!(resolve_room_children(&vec![rid("d1", "device")], &no_services, &lights), Vec::<usize>::new());
}

#[test]
fn rooms_keep_order_and_fields() {
    let devices = vec![device("d1", vec![rid("l1", "light")])];
    let lights = ids(&["l1"]);
    let rooms = vec![
        Room {
            id: "r1".to_string(),
            id_v1: Some("/groups/1".to_string()),
            children: Some(vec![rid("d1", "device")]),
            services: Some(vec![rid("g1", "grouped_light")]),
            metadata: Some(Metadata { name: Some("Kitchen".to_string()), archetype: None }),
        },
        Room { id: "r2".to_string(), id_v1: None, children: None, services: None, metadata: None },
    ];
    let resolved = resolve_rooms(rooms, &devices, &lights);
    assert_eq!(resolved.len(), 2);
    assert_eq!(resolved[0].id, "r1");
    assert_eq!(resolved[0].id_v1.as_deref(), Some("/groups/1"));
    assert_eq!(resolved[0].children, vec![0]);
    assert_eq!(resolved[0].services[0].rid, "g1");
    assert_eq!(resolved[0].metadata.as_ref().unwrap().name.as_deref(), Some("Kitchen"));
    assert_eq!(resolved[1].id, "r2");
    assert!(resolved[1].children.is_empty());
    assert!(resolved[1].services.is_empty());
}

#[test]
fn zones_resolve_lights_directly() {
    let lights = ids(&["l1", "l2", "l3"]);
    let zones = vec![Zone {
        id: "z".to_string(),
        id_v1: None,
        children: Some(vec![rid("l3", "light"), rid("nope", "light"), rid("l1", "light")]),
        services: None,
        metadata: None,
    }];
    let resolved = resolve_zones(zones, &lights);
    assert_eq!(resolved[0].children, vec![2, 0]);
}

#[test]
fn device_light_ids() {
    let d = device("d", vec![rid("a", "light"), rid("b", "zigbee_connectivity"), rid("c", "light")]);
    assert_eq!(d.get_lights(), Some(ids(&["a", "c"])));
    let bare = Device { id: "d".to_string(), id_v1: None, product_data: None, metadata: None, services: None };
    assert_eq!(bare.get_lights(), None);
}

#[test]
fn endpoint_paths_and_scene_commands() {
    assert_eq!(collection_path("light"), "/clip/v2/resource/light");
    assert_eq!(resource_path("grouped_light", "abc"), "/clip/v2/resource/grouped_light/abc");
    assert_eq!(scene_command(false).recall.action, "active");
    assert_eq!(scene_command(true).recall.action, "activate");
}
