//! The resolution engine: joins rooms and zones, through devices, to the
//! lights they contain. Lights stand here as their ids, in the order they were
//! fetched; a resolved view names each light by its position in that list.
//! A reference that leads nowhere is dropped, not an error.
use vstd::prelude::*;
use crate::resource::{Device, Metadata, ResourceIdentifier, Room, Zone};

verus! {

/// A room with its lights resolved, as positions in the fetched light list.
#[derive(Debug)]
pub struct ResolvedRoom {
    pub id: String,
    pub id_v1: Option<String>,
    pub metadata: Option<Metadata>,
    pub children: Vec<usize>,
    pub services: Vec<ResourceIdentifier>,
}

/// A zone with its lights resolved, as positions in the fetched light list.
#[derive(Debug)]
pub struct ResolvedZone {
    pub id: String,
    pub id_v1: Option<String>,
    pub metadata: Option<Metadata>,
    pub children: Vec<usize>,
    pub services: Vec<ResourceIdentifier>,
}

/// The ids that the light services among `services` point to, in order.
pub open spec fn light_service_ids(services: Seq<ResourceIdentifier>) -> Seq<Seq<char>>
    decreases services.len(),
{
    if services.len() == 0 {
        Seq::empty()
    } else {
        let rest = light_service_ids(services.drop_last());
        if services.last().rtype@ == "light"@ {
            rest.push(services.last().rid@)
        } else {
            rest
        }
    }
}

/// The views of a list of strings.
pub open spec fn views(v: Seq<String>) -> Seq<Seq<char>> {
    v.map_values(|s: String| s@)
}

/// Positions as integers.
pub open spec fn positions(v: Seq<usize>) -> Seq<int> {
    v.map_values(|i: usize| i as int)
}

fn is_light_type(rtype: &String) -> (r: bool)
    ensures
        r == (rtype@ == "light"@),
{
    *rtype == "light".to_owned()
}

impl Device {
    /// The ids of this device's light services, in order; `None` when the
    /// device lists no services at all.
    pub fn get_lights(&self) -> (r: Option<Vec<String>>)
        ensures
            match self.services {
                Some(s) => r matches Some(v) && views(v@) == light_service_ids(s@),
                None => r is None,
            },
    {
        match &self.services {
            None => None,
            Some(services) => {
                let mut ids: Vec<String> = Vec::new();
                let mut i: usize = 0;
                while i < services.len()
                    invariant
                        i <= services.len(),
                        views(ids@) == light_service_ids(services@.subrange(0, i as int)),
                    decreases services.len() - i,
                {
                    assert(services@.subrange(0, i + 1).drop_last() =~= services@.subrange(0, i as int));
                    if is_light_type(&services[i].rtype) {
                        ids.push(services[i].rid.clone());
                        assert(views(ids@) =~= light_service_ids(services@.subrange(0, i as int)).push(services@[i as int].rid@));
                    }
                    i = i + 1;
                }
                assert(services@.subrange(0, services.len() as int) =~= services@);
                Some(ids)
            },
        }
    }
}

/// The position of the last of `ids` equal to `key`: a later entry replaces an
/// earlier one, as in a map filled in order.
pub open spec fn last_index_of(ids: Seq<String>, key: Seq<char>) -> Option<int>
    decreases ids.len(),
{
    if ids.len() == 0 {
        None
    } else if ids.last()@ == key {
        Some(ids.len() - 1)
    } else {
        last_index_of(ids.drop_last(), key)
    }
}

/// The position of the last device with id `key`.
pub open spec fn device_index_of(devices: Seq<Device>, key: Seq<char>) -> Option<int>
    decreases devices.len(),
{
    if devices.len() == 0 {
        None
    } else if devices.last().id@ == key {
        Some(devices.len() - 1)
    } else {
        device_index_of(devices.drop_last(), key)
    }
}

fn find_light(lights: &Vec<String>, key: &String) -> (r: Option<usize>)
    ensures
        match r {
            Some(i) => last_index_of(lights@, key@) == Some(i as int),
            None => last_index_of(lights@, key@) is None,
        },
{
    let mut found: Option<usize> = None;
    let mut i: usize = 0;
    while i < lights.len()
        invariant
            i <= lights.len(),
            match found {
                Some(f) => last_index_of(lights@.subrange(0, i as int), key@) == Some(f as int),
                None => last_index_of(lights@.subrange(0, i as int), key@) is None,
            },
        decreases lights.len() - i,
    {
        assert(lights@.subrange(0, i + 1).drop_last() =~= lights@.subrange(0, i as int));
        if lights[i] == *key {
            found = Some(i);
        }
        i = i + 1;
    }
    assert(lights@.subrange(0, lights.len() as int) =~= lights@);
    found
}

fn find_device(devices: &Vec<Device>, key: &String) -> (r: Option<usize>)
    ensures
        match r {
            Some(i) => device_index_of(devices@, key@) == Some(i as int) && i < devices.len(),
            None => device_index_of(devices@, key@) is None,
        },
{
    let mut found: Option<usize> = None;
    let mut i: usize = 0;
    while i < devices.len()
        invariant
            i <= devices.len(),
            match found {
                Some(f) => device_index_of(devices@.subrange(0, i as int), key@) == Some(f as int)
                    && f < i,
                None => device_index_of(devices@.subrange(0, i as int), key@) is None,
            },
        decreases devices.len() - i,
    {
        assert(devices@.subrange(0, i + 1).drop_last() =~= devices@.subrange(0, i as int));
        if devices[i].id == *key {
            found = Some(i);
        }
        i = i + 1;
    }
    assert(devices@.subrange(0, devices.len() as int) =~= devices@);
    found
}

/// The positions in `lights` of the lights with the given ids, in order,
/// dropping the ids that no light has.
pub open spec fn positions_of_ids(ids: Seq<Seq<char>>, lights: Seq<String>) -> Seq<int>
    decreases ids.len(),
{
    if ids.len() == 0 {
        Seq::empty()
    } else {
        let rest = positions_of_ids(ids.drop_last(), lights);
        match last_index_of(lights, ids.last()) {
            Some(i) => rest.push(i),
            None => rest,
        }
    }
}

/// The lights of a device, as positions in `lights`.
pub open spec fn device_lights(device: Device, lights: Seq<String>) -> Seq<int> {
    match device.services {
        Some(s) => positions_of_ids(light_service_ids(s@), lights),
        None => Seq::empty(),
    }
}

/// The lights of a room: for each child, in order, the lights of the device it
/// names; a child that names no device contributes none.
pub open spec fn room_lights(children: Seq<ResourceIdentifier>, devices: Seq<Device>, lights: Seq<String>) -> Seq<int>
    decreases children.len(),
{
    if children.len() == 0 {
        Seq::empty()
    } else {
        room_lights(children.drop_last(), devices, lights) + match device_index_of(
            devices,
            children.last().rid@,
        ) {
            Some(d) => device_lights(devices[d], lights),
            None => Seq::empty(),
        }
    }
}

/// The lights of a zone: each child, in order, that names a light.
pub open spec fn zone_lights(children: Seq<ResourceIdentifier>, lights: Seq<String>) -> Seq<int>
    decreases children.len(),
{
    if children.len() == 0 {
        Seq::empty()
    } else {
        let rest = zone_lights(children.drop_last(), lights);
        match last_index_of(lights, children.last().rid@) {
            Some(i) => rest.push(i),
            None => rest,
        }
    }
}

/// The lights of a device, as positions in the fetched light list.
pub fn device_light_positions(device: &Device, lights: &Vec<String>) -> (r: Vec<usize>)
    ensures
        positions(r@) == device_lights(*device, lights@),
{
    let mut r: Vec<usize> = Vec::new();
    match device.get_lights() {
        None => {
            assert(positions(r@) =~= Seq::<int>::empty());
        },
        Some(ids) => {
            let mut k: usize = 0;
            while k < ids.len()
                invariant
                    k <= ids.len(),
                    positions(r@) == positions_of_ids(views(ids@).subrange(0, k as int), lights@),
                decreases ids.len() - k,
            {
                assert(views(ids@).subrange(0, k + 1).drop_last() =~= views(ids@).subrange(0, k as int));
                assert(views(ids@).subrange(0, k + 1).last() == ids@[k as int]@);
                match find_light(lights, &ids[k]) {
                    Some(i) => {
                        r.push(i);
                        assert(positions(r@) =~= positions_of_ids(views(ids@).subrange(0, k as int), lights@).push(i as int));
                    },
                    None => {},
                }
                k = k + 1;
            }
            assert(views(ids@).subrange(0, ids.len() as int) =~= views(ids@));
        },
    }
    r
}

/// The lights of a room's children, as positions in the fetched light list.
pub fn resolve_room_children(
    children: &Vec<ResourceIdentifier>,
    devices: &Vec<Device>,
    lights: &Vec<String>,
) -> (r: Vec<usize>)
    ensures
        positions(r@) == room_lights(children@, devices@, lights@),
{
    let mut r: Vec<usize> = Vec::new();
    let mut i: usize = 0;
    while i < children.len()
        invariant
            i <= children.len(),
            positions(r@) == room_lights(children@.subrange(0, i as int), devices@, lights@),
        decreases children.len() - i,
    {
        let ghost before = r@;
        assert(children@.subrange(0, i + 1).drop_last() =~= children@.subrange(0, i as int));
        match find_device(devices, &children[i].rid) {
            Some(d) => {
                let mut found = device_light_positions(&devices[d], lights);
                r.append(&mut found);
                assert(positions(r@) =~= positions(before) + device_lights(devices@[d as int], lights@));
            },
            None => {
                assert(positions(r@) =~= positions(before) + Seq::<int>::empty());
            },
        }
        i = i + 1;
    }
    assert(children@.subrange(0, children.len() as int) =~= children@);
    r
}

/// The lights of a zone's children, as positions in the fetched light list.
pub fn resolve_zone_children(children: &Vec<ResourceIdentifier>, lights: &Vec<String>) -> (r: Vec<usize>)
    ensures
        positions(r@) == zone_lights(children@, lights@),
{
    let mut r: Vec<usize> = Vec::new();
    let mut i: usize = 0;
    while i < children.len()
        invariant
            i <= children.len(),
            positions(r@) == zone_lights(children@.subrange(0, i as int), lights@),
        decreases children.len() - i,
    {
        assert(children@.subrange(0, i + 1).drop_last() =~= children@.subrange(0, i as int));
        match find_light(lights, &children[i].rid) {
            Some(l) => {
                r.push(l);
                assert(positions(r@) =~= zone_lights(children@.subrange(0, i as int), lights@).push(l as int));
            },
            None => {},
        }
        i = i + 1;
    }
    assert(children@.subrange(0, children.len() as int) =~= children@);
    r
}

/// The references of an optional list, an absent list holding none.
pub open spec fn refs_or_empty(o: Option<Vec<ResourceIdentifier>>) -> Seq<ResourceIdentifier> {
    match o {
        Some(v) => v@,
        None => Seq::empty(),
    }
}

/// `out` is `room` resolved against `devices` and `lights`.
pub open spec fn is_resolved_room(room: Room, devices: Seq<Device>, lights: Seq<String>, out: ResolvedRoom) -> bool {
    &&& out.id == room.id
    &&& out.id_v1 == room.id_v1
    &&& out.metadata == room.metadata
    &&& positions(out.children@) == room_lights(refs_or_empty(room.children), devices, lights)
    &&& out.services@ == refs_or_empty(room.services)
}

/// `out` is `zone` resolved against `lights`.
pub open spec fn is_resolved_zone(zone: Zone, lights: Seq<String>, out: ResolvedZone) -> bool {
    &&& out.id == zone.id
    &&& out.id_v1 == zone.id_v1
    &&& out.metadata == zone.metadata
    &&& positions(out.children@) == zone_lights(refs_or_empty(zone.children), lights)
    &&& out.services@ == refs_or_empty(zone.services)
}

/// Resolves each room, in the order given, against the fetched devices and
/// the ids of the fetched lights.
pub fn resolve_rooms(rooms: Vec<Room>, devices: &Vec<Device>, lights: &Vec<String>) -> (r: Vec<ResolvedRoom>)
    ensures
        r@.len() == rooms@.len(),
        forall|i: int| 0 <= i < rooms@.len() ==> is_resolved_room(rooms@[i], devices@, lights@, #[trigger] r@[i]),
{
    let ghost all = rooms@;
    let mut rooms = rooms;
    let mut out: Vec<ResolvedRoom> = Vec::new();
    while rooms.len() > 0
        invariant
            out@.len() + rooms@.len() == all.len(),
            rooms@ == all.subrange(out@.len() as int, all.len() as int),
            forall|i: int| 0 <= i < out@.len() ==> is_resolved_room(all[i], devices@, lights@, #[trigger] out@[i]),
        decreases rooms@.len(),
    {
        let ghost k: int = out@.len() as int;
        let room = rooms.remove(0);
        assert(room == all[k]);
        assert(rooms@ =~= all.subrange(k + 1, all.len() as int));
        let Room { id, id_v1, children, services, metadata } = room;
        let lit = match &children {
            Some(c) => resolve_room_children(c, devices, lights),
            None => {
                let v: Vec<usize> = Vec::new();
                assert(positions(v@) =~= Seq::<int>::empty());
                v
            },
        };
        let services = match services {
            Some(s) => s,
            None => Vec::new(),
        };
        out.push(ResolvedRoom { id, id_v1, metadata, children: lit, services });
        assert(is_resolved_room(all[k], devices@, lights@, out@[k]));
    }
    out
}

/// Resolves each zone, in the order given, against the ids of the fetched lights.
pub fn resolve_zones(zones: Vec<Zone>, lights: &Vec<String>) -> (r: Vec<ResolvedZone>)
    ensures
        r@.len() == zones@.len(),
        forall|i: int| 0 <= i < zones@.len() ==> is_resolved_zone(zones@[i], lights@, #[trigger] r@[i]),
{
    let ghost all = zones@;
    let mut zones = zones;
    let mut out: Vec<ResolvedZone> = Vec::new();
    while zones.len() > 0
        invariant
            out@.len() + zones@.len() == all.len(),
            zones@ == all.subrange(out@.len() as int, all.len() as int),
            forall|i: int| 0 <= i < out@.len() ==> is_resolved_zone(all[i], lights@, #[trigger] out@[i]),
        decreases zones@.len(),
    {
        let ghost k: int = out@.len() as int;
        let zone = zones.remove(0);
        assert(zone == all[k]);
        assert(zones@ =~= all.subrange(k + 1, all.len() as int));
        let Zone { id, id_v1, children, services, metadata } = zone;
        let lit = match &children {
            Some(c) => resolve_zone_children(c, lights),
            None => {
                let v: Vec<usize> = Vec::new();
                assert(positions(v@) =~= Seq::<int>::empty());
                v
            },
        };
        let services = match services {
            Some(s) => s,
            None => Vec::new(),
        };
        out.push(ResolvedZone { id, id_v1, metadata, children: lit, services });
        assert(is_resolved_zone(all[k], lights@, out@[k]));
    }
    out
}

proof fn lemma_room_lights_append(
    a: Seq<ResourceIdentifier>,
    b: Seq<ResourceIdentifier>,
    devices: Seq<Device>,
    lights: Seq<String>,
)
    ensures
        room_lights(a + b, devices, lights) == room_lights(a, devices, lights) + room_lights(b, devices, lights),
    decreases b.len(),
{
    if b.len() == 0 {
        assert(a + b =~= a);
        assert(room_lights(a, devices, lights) + Seq::<int>::empty() =~= room_lights(a, devices, lights));
    } else {
        assert((a + b).drop_last() =~= a + b.drop_last());
        lemma_room_lights_append(a, b.drop_last(), devices, lights);
        assert(room_lights(a + b, devices, lights) =~= room_lights(a, devices, lights) + room_lights(b, devices, lights));
    }
}

/// Siblings resolve independently: the lights of a room's children are the
/// lights of its first children followed by those of the rest.
pub proof fn lemma_siblings_resolve_independently(
    first: Seq<ResourceIdentifier>,
    rest: Seq<ResourceIdentifier>,
    devices: Seq<Device>,
    lights: Seq<String>,
)
    ensures
        room_lights(first + rest, devices, lights) == room_lights(first, devices, lights) + room_lights(rest, devices, lights),
{
    lemma_room_lights_append(first, rest, devices, lights);
}

/// A child that names no fetched device contributes no light, and takes none
/// away from its siblings.
pub proof fn lemma_unresolved_child_dropped(
    before: Seq<ResourceIdentifier>,
    child: ResourceIdentifier,
    after: Seq<ResourceIdentifier>,
    devices: Seq<Device>,
    lights: Seq<String>,
)
    requires
        device_index_of(devices, child.rid@) is None,
    ensures
        room_lights(before + seq![child] + after, devices, lights) == room_lights(before, devices, lights)
            + room_lights(after, devices, lights),
{
    lemma_room_lights_append(before + seq![child], after, devices, lights);
    lemma_room_lights_append(before, seq![child], devices, lights);
    let one = seq![child];
    assert(one.drop_last() =~= Seq::<ResourceIdentifier>::empty());
    assert(room_lights(one.drop_last(), devices, lights) == Seq::<int>::empty());
    assert(one.last() == child);
    assert(room_lights(one, devices, lights) =~= Seq::<int>::empty());
    assert(room_lights(before, devices, lights) + Seq::<int>::empty() =~= room_lights(before, devices, lights));
}

/// A child that names a fetched device contributes that device's lights, in
/// the order of its services.
pub proof fn lemma_device_child_lights(
    child: ResourceIdentifier,
    devices: Seq<Device>,
    lights: Seq<String>,
)
    requires
        device_index_of(devices, child.rid@) is Some,
    ensures
        room_lights(seq![child], devices, lights) == device_lights(
            devices[device_index_of(devices, child.rid@)->0],
            lights,
        ),
{
    let one = seq![child];
    assert(one.drop_last() =~= Seq::<ResourceIdentifier>::empty());
    assert(room_lights(one.drop_last(), devices, lights) == Seq::<int>::empty());
    assert(one.last() == child);
    let d = device_index_of(devices, child.rid@)->0;
    assert(Seq::<int>::empty() + device_lights(devices[d], lights) =~= device_lights(devices[d], lights));
}

} // verus!
