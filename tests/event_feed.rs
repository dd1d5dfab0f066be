use hueclient::events::{decode_message, feed_step, EventData, EventType, FeedItem, HueEvent, EVENT_SHAPE_MSG};

#[test]
fn known_and_unknown_resources_decode_together() {
    let body = r#"[{"creationtime":"2023-01-01T00:00:00Z","id":"e1","type":"update","data":[{"id":"l1","type":"light","on":{"on":true}},{"id":"x","type":"geofence_client"}]}]"#;
    match decode_message(body) {
        HueEvent::Events(events) => {
            assert_eq!(events.len(), 1);
            assert_eq!(events[0].event_type, EventType::Update);
            assert_eq!(events[0].data.len(), 2);
            assert!(matches!(events[0].data[0], EventData::Light(_)));
            assert!(matches!(events[0].data[1], EventData::Unknown));
        },
        other => panic!("unexpected {:?}", other),
    }
}

#[test]
fn two_events_in_one_message() {
    let body = r#"[{"type":"add","data":[{"type":"room","id":"r"}]},{"type":"delete","data":[{"type":"future_thing"}]}]"#;
    match decode_message(body) {
        HueEvent::Events(events) => {
            assert_eq!(events.len(), 2);
            assert_eq!(events[0].event_type, EventType::Add);
            assert!(matches!(events[0].data[0], EventData::Room(_)));
            assert_eq!(events[1].event_type, EventType::Delete);
            assert!(matches!(events[1].data[0], EventData::Unknown));
        },
        other => panic!("unexpected {:?}", other),
    }
}

#[test]
fn unreadable_batches_become_errors() {
    assert!(matches!(decode_message(r#"[{"type":"rename","data":[]}]"#), HueEvent::Error(m) if m == EVENT_SHAPE_MSG));
    assert!(matches!(decode_message(r#"[{"type":"update","data":[{"id":"no tag"}]}]"#), HueEvent::Error(m) if m == EVENT_SHAPE_MSG));
    assert!(matches!(decode_message(r#"{"type":"update"}"#), HueEvent::Error(m) if m == EVENT_SHAPE_MSG));
    assert!(matches!(decode_message("[]"), HueEvent::Events(v) if v.is_empty()));
}

#[test]
fn known_record_needs_string_id() {
    let no_id = r#"[{"type":"update","data":[{"type":"device","metadata":{}}]}]"#;
    assert!(matches!(decode_message(no_id), HueEvent::Error(m) if m == EVENT_SHAPE_MSG));
    let number_id = r#"[{"type":"update","data":[{"type":"room","id":7}]}]"#;
    assert!(matches!(decode_message(number_id), HueEvent::Error(m) if m == EVENT_SHAPE_MSG));
    let unknown_without_id = r#"[{"type":"update","data":[{"type":"motion"}]}]"#;
    assert!(matches!(decode_message(unknown_without_id), HueEvent::Events(v) if matches!(v[0].data[0], EventData::Unknown)));
}

#[test]
fn bad_body_yields_error_and_feed_goes_on() {
    let step = feed_step(FeedItem::Message("{not json".to_string()));
    assert!(step.go_on);
    assert!(matches!(step.emit, Some(HueEvent::Error(m)) if !m.is_empty() && m != EVENT_SHAPE_MSG));
    let next = feed_step(FeedItem::Message(r#"[{"type":"update","data":[]}]"#.to_string()));
    assert!(next.go_on);
    assert!(matches!(next.emit, Some(HueEvent::Events(v)) if v.len() == 1));
}

#[test]
fn open_and_failure() {
    let open = feed_step(FeedItem::Open);
    assert!(open.go_on);
    assert!(open.emit.is_none());
    let fail = feed_step(FeedItem::Failure("connection reset".to_string()));
    assert!(!fail.go_on);
    assert!(matches!(fail.emit, Some(HueEvent::Error(m)) if m == "connection reset"));
}
