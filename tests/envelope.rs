use hueclient::collection::{collection_from_envelope, order_by_id};
use hueclient::envelope::{
    registration_key, BridgeError, BridgeErrorInner, BridgeErrorV2, BridgeResponse, BridgeResponseV2,
    EMPTY_ARRAY_MSG, UNKNOWN_SHAPE_MSG,
};
use hueclient::error::HueError;
use hueclient::resource::Device;

fn bridge_error(code: usize, description: &str) -> BridgeError {
    BridgeError {
        error: BridgeErrorInner { address: "/".to_string(), description: description.to_string(), error_type: code },
    }
}

fn device(id: &str) -> Device {
    Device { id: id.to_string(), id_v1: None, product_data: None, metadata: None, services: None }
}

#[test]
fn legacy_list_yields_last() {
    assert_eq!(BridgeResponse::List(vec!["A", "B"]).get(), Ok("B"));
    assert_eq!(BridgeResponse::Element("A").get(), Ok("A"));
}

#[test]
fn legacy_empty_list_fails() {
    assert_eq!(
        BridgeResponse::<u8>::List(vec![]).get(),
        Err(HueError::ProtocolError { msg: EMPTY_ARRAY_MSG.to_string() })
    );
    assert_eq!(EMPTY_ARRAY_MSG, "expected non-empty array");
}

#[test]
fn legacy_error_list_surfaces_last() {
    let r = BridgeResponse::<u8>::Errors(vec![bridge_error(1, "e1"), bridge_error(101, "e2")]).get();
    assert_eq!(r, Err(HueError::BridgeError { code: 101, msg: "e2".to_string() }));
}

#[test]
fn current_envelope_returns_data() {
    let r = BridgeResponseV2 { errors: vec![], data: vec!["X", "Y"] }.get();
    assert_eq!(r, Ok(vec!["X", "Y"]));
    let empty = BridgeResponseV2::<u8> { errors: vec![], data: vec![] }.get();
    assert_eq!(empty, Ok(vec![]));
}

#[test]
fn current_envelope_errors_win() {
    let r = BridgeResponseV2 { errors: vec![BridgeErrorV2 { description: "E".to_string() }], data: vec!["X"] }.get();
    assert_eq!(r, Err(HueError::BridgeErrorV2 { description: "E".to_string() }));
    let two = BridgeResponseV2::<u8> {
        errors: vec![BridgeErrorV2 { description: "first".to_string() }, BridgeErrorV2 { description: "last".to_string() }],
        data: vec![],
    };
    assert_eq!(two.get(), Err(HueError::BridgeErrorV2 { description: "last".to_string() }));
}

#[test]
fn registration_success_list() {
    assert_eq!(registration_key(r#"[{"success":{"username":"83b7780291a6ceffbe0bd049104df"}}]"#), Ok("83b7780291a6ceffbe0bd049104df".to_string()));
    assert_eq!(registration_key(r#"[{"success":{"username":"a"}},{"success":{"username":"b"}}]"#), Ok("b".to_string()));
    assert_eq!(registration_key(r#"{"success":{"username":"solo"}}"#), Ok("solo".to_string()));
}

#[test]
fn registration_link_button_error() {
    let body = r#"[{"error":{"type":101,"address":"","description":"link button not pressed"}}]"#;
    assert_eq!(registration_key(body), Err(HueError::BridgeError { code: 101, msg: "link button not pressed".to_string() }));
    let two = r#"[{"error":{"type":1,"address":"/","description":"unauthorized user"}},{"error":{"type":7,"address":"/","description":"invalid value"}}]"#;
    assert_eq!(registration_key(two), Err(HueError::BridgeError { code: 7, msg: "invalid value".to_string() }));
}

#[test]
fn registration_other_shapes() {
    assert_eq!(registration_key("[]"), Err(HueError::ProtocolError { msg: EMPTY_ARRAY_MSG.to_string() }));
    assert_eq!(registration_key(r#""text""#), Err(HueError::DecodeError { msg: UNKNOWN_SHAPE_MSG.to_string() }));
    assert_eq!(registration_key(r#"[{"error":{"type":-1,"address":"","description":"x"}}]"#), Err(HueError::DecodeError { msg: UNKNOWN_SHAPE_MSG.to_string() }));
    assert!(matches!(registration_key("not json"), Err(HueError::DecodeError { msg }) if msg != UNKNOWN_SHAPE_MSG));
}

#[test]
fn collection_is_sorted_by_id() {
    let resp = BridgeResponseV2 { errors: vec![], data: vec![device("c"), device("a"), device("b"), device("B")] };
    let ids: Vec<String> = collection_from_envelope(resp).unwrap().into_iter().map(|d| d.id).collect();
    assert_eq!(ids, vec!["B", "a", "b", "c"]);
    let failed = collection_from_envelope(BridgeResponseV2 {
        errors: vec![BridgeErrorV2 { description: "E".to_string() }],
        data: vec![device("a")],
    });
    assert!(matches!(failed, Err(HueError::BridgeErrorV2 { .. })));
}

#[test]
fn ids_ordered_with_positions() {
    let ids: Vec<String> = ["l3", "l1", "L2", "l1"].iter().map(|s| s.to_string()).collect();
    let order: Vec<(String, usize)> = order_by_id(&ids).into_iter().map(|k| (k.id, k.index)).collect();
    assert_eq!(order, vec![("L2".to_string(), 2), ("l1".to_string(), 1), ("l1".to_string(), 3), ("l3".to_string(), 0)]);
    assert!(order_by_id(&Vec::new()).is_empty());
}
