use hueclient::address::IpAddress;
use hueclient::disco::{
    discovery_step, mdns_step, BridgeInfo, DiscoveryAction, DiscoveryStage, MdnsEvent, MdnsStep,
    HUE_SERVICE_NAME, MDNS_QUERY_ID, MDNS_TIMEOUT_MSG, DISCOVERY_FAILED_MSG,
};
use hueclient::dns::{build_query, is_valid_service_name, validate_response};
use hueclient::error::HueError;

fn name_wire(name: &str) -> Vec<u8> {
    let mut out = Vec::new();
    for part in name.split('.') {
        out.push(part.len() as u8);
        out.extend_from_slice(part.as_bytes());
    }
    out.push(0);
    out
}

fn record(name: &str, rtype: u16, rdata: &[u8]) -> Vec<u8> {
    let mut out = name_wire(name);
    out.extend_from_slice(&rtype.to_be_bytes());
    out.extend_from_slice(&1u16.to_be_bytes());
    out.extend_from_slice(&120u32.to_be_bytes());
    out.extend_from_slice(&(rdata.len() as u16).to_be_bytes());
    out.extend_from_slice(rdata);
    out
}

fn response(id: u16, answers: &[Vec<u8>], additional: &[Vec<u8>]) -> Vec<u8> {
    let mut out = Vec::new();
    out.extend_from_slice(&id.to_be_bytes());
    out.extend_from_slice(&[0x84, 0x00]);
    out.extend_from_slice(&0u16.to_be_bytes());
    out.extend_from_slice(&(answers.len() as u16).to_be_bytes());
    out.extend_from_slice(&0u16.to_be_bytes());
    out.extend_from_slice(&(additional.len() as u16).to_be_bytes());
    for a in answers {
        out.extend_from_slice(a);
    }
    for a in additional {
        out.extend_from_slice(a);
    }
    out
}

fn bridge_response(id: u16) -> Vec<u8> {
    let ptr = record(HUE_SERVICE_NAME, 12, &name_wire("Hue Bridge - 1A2B3C._hue._tcp.local"));
    let a = record("1A2B3C.local", 1, &[192, 168, 1, 149]);
    response(id, &[ptr], &[a])
}

#[test]
fn query_bytes_are_exact() {
    let q = build_query(4343, "_hue._tcp.local").unwrap();
    let mut expected = vec![0x10, 0xf7, 0, 0, 0, 1, 0, 0, 0, 0, 0, 0];
    expected.extend_from_slice(&name_wire("_hue._tcp.local"));
    expected.extend_from_slice(&[0, 12, 0x80, 1]);
    assert_eq!(q, expected);
}

#[test]
fn query_question_round_trips_through_dns_parser() {
    for name in ["_hue._tcp.local", "_http._tcp.example.local", "a.b"] {
        let q = build_query(7, name).unwrap();
        let packet = dns_parser::Packet::parse(&q).unwrap();
        assert_eq!(packet.header.id, 7);
        assert_eq!(packet.questions.len(), 1);
        assert_eq!(packet.questions[0].qname.to_string(), name);
        assert_eq!(packet.questions[0].qtype, dns_parser::QueryType::PTR);
        assert_eq!(packet.questions[0].qclass, dns_parser::QueryClass::IN);
        assert!(packet.questions[0].prefer_unicast);
    }
}

#[test]
fn invalid_service_names_build_nothing() {
    assert!(build_query(1, "").is_none());
    assert!(build_query(1, "a..b").is_none());
    assert!(build_query(1, ".local").is_none());
    assert!(build_query(1, "local.").is_none());
    assert!(build_query(1, &"x".repeat(63)).is_none());
    assert!(build_query(1, &"x".repeat(62)).is_some());
    assert!(build_query(1, "caf\u{e9}.local").is_none());
    let long = vec!["abcdefgh"; 29].join(".");
    assert_eq!(long.len(), 260);
    assert!(!is_valid_service_name(&long));
    let edge = vec!["abcdefgh"; 28].join(".") + ".abcde";
    assert_eq!(edge.len(), 257);
    assert!(!is_valid_service_name(&edge));
    let fits = vec!["abcdefgh"; 28].join(".") + ".a";
    assert_eq!(fits.len(), 253);
    assert!(is_valid_service_name(&fits));
}

#[test]
fn matching_response_gives_first_a_record() {
    let bytes = bridge_response(MDNS_QUERY_ID);
    assert_eq!(validate_response(&bytes, HUE_SERVICE_NAME, MDNS_QUERY_ID), Some([192, 168, 1, 149]));
}

#[test]
fn first_of_several_a_records_wins() {
    let ptr = record(HUE_SERVICE_NAME, 12, &name_wire("x._hue._tcp.local"));
    let txt = record("x.local", 16, &[0]);
    let a1 = record("x.local", 1, &[10, 0, 0, 2]);
    let a2 = record("x.local", 1, &[10, 0, 0, 3]);
    let bytes = response(9, &[ptr], &[txt, a1, a2]);
    assert_eq!(validate_response(&bytes, HUE_SERVICE_NAME, 9), Some([10, 0, 0, 2]));
}

#[test]
fn mismatched_id_is_rejected() {
    let bytes = bridge_response(MDNS_QUERY_ID + 1);
    assert_eq!(validate_response(&bytes, HUE_SERVICE_NAME, MDNS_QUERY_ID), None);
}

#[test]
fn response_without_ptr_answer_is_rejected() {
    let a_answer = record(HUE_SERVICE_NAME, 1, &[192, 168, 1, 2]);
    let a = record("1A2B3C.local", 1, &[192, 168, 1, 149]);
    let bytes = response(MDNS_QUERY_ID, &[a_answer], &[a.clone()]);
    assert_eq!(validate_response(&bytes, HUE_SERVICE_NAME, MDNS_QUERY_ID), None);
    let none = response(MDNS_QUERY_ID, &[], &[a]);
    assert_eq!(validate_response(&none, HUE_SERVICE_NAME, MDNS_QUERY_ID), None);
}

#[test]
fn ptr_for_another_service_is_rejected() {
    let ptr = record("_airplay._tcp.local", 12, &name_wire("tv._airplay._tcp.local"));
    let a = record("tv.local", 1, &[192, 168, 1, 7]);
    let bytes = response(MDNS_QUERY_ID, &[ptr], &[a]);
    assert_eq!(validate_response(&bytes, HUE_SERVICE_NAME, MDNS_QUERY_ID), None);
}

#[test]
fn response_without_a_record_gives_nothing() {
    let ptr = record(HUE_SERVICE_NAME, 12, &name_wire("x._hue._tcp.local"));
    let bytes = response(MDNS_QUERY_ID, &[ptr], &[]);
    assert_eq!(validate_response(&bytes, HUE_SERVICE_NAME, MDNS_QUERY_ID), None);
}

#[test]
fn malformed_datagrams_are_not_responses() {
    assert_eq!(validate_response(&[], HUE_SERVICE_NAME, MDNS_QUERY_ID), None);
    assert_eq!(validate_response(&[0x10, 0xf7, 0x84], HUE_SERVICE_NAME, MDNS_QUERY_ID), None);
    let mut truncated = bridge_response(MDNS_QUERY_ID);
    truncated.truncate(truncated.len() - 3);
    assert_eq!(validate_response(&truncated, HUE_SERVICE_NAME, MDNS_QUERY_ID), None);
}

#[test]
fn mdns_step_outcomes() {
    let found = mdns_step(HUE_SERVICE_NAME, MDNS_QUERY_ID, &MdnsEvent::Datagram(bridge_response(MDNS_QUERY_ID)));
    assert!(matches!(found, MdnsStep::Found([192, 168, 1, 149])));
    let skip = mdns_step(HUE_SERVICE_NAME, MDNS_QUERY_ID, &MdnsEvent::Datagram(vec![1, 2, 3]));
    assert!(matches!(skip, MdnsStep::AwaitNext));
    match mdns_step(HUE_SERVICE_NAME, MDNS_QUERY_ID, &MdnsEvent::TimedOut) {
        MdnsStep::Failed(HueError::MdnsError { msg }) => assert_eq!(msg, MDNS_TIMEOUT_MSG),
        other => panic!("unexpected {:?}", other),
    }
    match mdns_step(HUE_SERVICE_NAME, MDNS_QUERY_ID, &MdnsEvent::SocketError("refused".to_string())) {
        MdnsStep::Failed(HueError::MdnsError { msg }) => assert_eq!(msg, "refused"),
        other => panic!("unexpected {:?}", other),
    }
}

#[test]
fn fallback_runs_n_upnp_after_mdns_timeout() {
    let first = discovery_step(
        DiscoveryStage::Mdns,
        Err(HueError::MdnsError { msg: MDNS_TIMEOUT_MSG.to_string() }),
    );
    assert!(matches!(first, DiscoveryAction::RunNUpnp));
    let bridge = BridgeInfo { ip: IpAddress::V4([192, 168, 2, 23]), id: Some("001788fffe100491".to_string()) };
    match discovery_step(DiscoveryStage::NUpnp, Ok(bridge)) {
        DiscoveryAction::Done(b) => {
            assert_eq!(b.ip, IpAddress::V4([192, 168, 2, 23]));
            assert_eq!(b.id.as_deref(), Some("001788fffe100491"));
        },
        other => panic!("unexpected {:?}", other),
    }
}

#[test]
fn both_discovery_failures_give_one_error() {
    let a = discovery_step(DiscoveryStage::NUpnp, Err(HueError::DiscoveryError { msg: "Expected id".to_string() }));
    let b = discovery_step(DiscoveryStage::NUpnp, Err(HueError::DecodeError { msg: "bad".to_string() }));
    for action in [a, b] {
        match action {
            DiscoveryAction::GiveUp(e) => {
                assert_eq!(e, HueError::DiscoveryError { msg: DISCOVERY_FAILED_MSG.to_string() })
            },
            other => panic!("unexpected {:?}", other),
        }
    }
}

#[test]
fn mdns_success_needs_no_fallback() {
    let bridge = BridgeInfo { ip: IpAddress::V4([10, 0, 0, 1]), id: None };
    assert!(matches!(discovery_step(DiscoveryStage::Mdns, Ok(bridge)), DiscoveryAction::Done(_)));
}
