//! Discovery of the bridge. The mDNS exchange and the nUPnP request are
//! performed by the caller; this module holds what they decide: the step of
//! the mDNS receive loop, the reading of the nUPnP answer, and the fallback
//! policy that joins them (mDNS first, then nUPnP once, then one failure).
use vstd::prelude::*;
use crate::address::{ip_denotes, ipv4_of, ipv6_of, parse_ip, IpAddress};
use crate::dns::{datagram_address, validate_response};
use crate::error::HueError;
use crate::json::{field_of, get_field, json_decoded, parse_json, Json};

verus! {

/// The DNS-SD service that the bridge announces.
pub const HUE_SERVICE_NAME: &'static str = "_hue._tcp.local";

/// The transaction id of the discovery query.
pub const MDNS_QUERY_ID: u16 = 4343;

/// The multicast group of mDNS.
pub const MDNS_GROUP: [u8; 4] = [224, 0, 0, 251];

/// The port of mDNS.
pub const MDNS_PORT: u16 = 5353;

/// How long the receive loop waits for an answer, counted from before the first receive.
pub const MDNS_DEADLINE_SECS: u64 = 3;

/// The cloud endpoint of nUPnP discovery.
pub const N_UPNP_URL: &'static str = "https://discovery.meethue.com/";

/// The message of the error when no answer came before the deadline.
pub const MDNS_TIMEOUT_MSG: &'static str = "mDNS response was not received on time";

/// The message of the one error that failed discovery surfaces.
pub const DISCOVERY_FAILED_MSG: &'static str = "Could not discover bridge";

/// A discovered bridge: its address and, where the method gives it, its id.
#[derive(Debug, Clone)]
pub struct BridgeInfo {
    pub ip: IpAddress,
    pub id: Option<String>,
}

/// What the mDNS receive loop hands to its step.
#[derive(Debug)]
pub enum MdnsEvent {
    /// A datagram arrived.
    Datagram(Vec<u8>),
    /// The deadline passed.
    TimedOut,
    /// The socket failed, with the error's text.
    SocketError(String),
}

/// What the mDNS receive loop does next.
#[derive(Debug)]
pub enum MdnsStep {
    /// Receive the next datagram.
    AwaitNext,
    /// Stop: the bridge answered from this address.
    Found([u8; 4]),
    /// Stop: discovery by mDNS failed.
    Failed(HueError),
}

/// An mDNS failure with the given text.
pub open spec fn is_mdns_error(e: HueError, text: Seq<char>) -> bool {
    e matches HueError::MdnsError { msg } && msg@ == text
}

/// One step of the mDNS receive loop: a datagram that answers the query ends
/// it with the bridge's address, any other datagram is skipped; the deadline
/// and socket errors end it with an error.
pub fn mdns_step(service_name: &str, query_id: u16, event: &MdnsEvent) -> (r: MdnsStep)
    ensures
        match event {
            MdnsEvent::Datagram(b) => match datagram_address(b@, service_name@, query_id) {
                Some(ip) => r == MdnsStep::Found(ip),
                None => r is AwaitNext,
            },
            MdnsEvent::TimedOut => r matches MdnsStep::Failed(e) && is_mdns_error(e, MDNS_TIMEOUT_MSG@),
            MdnsEvent::SocketError(m) => r matches MdnsStep::Failed(e) && is_mdns_error(e, m@),
        },
{
    match event {
        MdnsEvent::Datagram(b) => match validate_response(b.as_slice(), service_name, query_id) {
            Some(ip) => MdnsStep::Found(ip),
            None => MdnsStep::AwaitNext,
        },
        MdnsEvent::TimedOut => MdnsStep::Failed(HueError::MdnsError { msg: MDNS_TIMEOUT_MSG.to_owned() }),
        MdnsEvent::SocketError(m) => MdnsStep::Failed(HueError::MdnsError { msg: m.clone() }),
    }
}

/// Why an nUPnP answer gives no bridge.
#[derive(Debug, Clone, Copy, PartialEq, Eq)]
pub enum NUpnpError {
    /// The answer is not an array of objects.
    NotAList,
    /// The array is empty.
    Empty,
    /// The first object has no `internalipaddress`.
    MissingAddress,
    /// Its `internalipaddress` is not a string.
    AddressNotText,
    /// Its `internalipaddress` is not an IP address.
    BadAddress,
    /// The first object has no `id`.
    MissingId,
    /// Its `id` is not a string.
    IdNotText,
}

/// Every item is an object.
pub open spec fn all_objects(items: Seq<Json>) -> bool {
    forall|i: int| 0 <= i < items.len() ==> #[trigger] items[i] is Object
}

/// The address text and id that an nUPnP answer gives: those of its first object.
pub open spec fn n_upnp_outcome(j: Json) -> Result<(Seq<char>, Seq<char>), NUpnpError> {
    match j {
        Json::Array(items) => if !all_objects(items@) {
            Err(NUpnpError::NotAList)
        } else if items@.len() == 0 {
            Err(NUpnpError::Empty)
        } else {
            let first = items@[0];
            match field_of(first, "internalipaddress"@) {
                None => Err(NUpnpError::MissingAddress),
                Some(Json::Str(t)) => if ipv4_of(t@) is None && ipv6_of(t@) is None {
                    Err(NUpnpError::BadAddress)
                } else {
                    match field_of(first, "id"@) {
                        None => Err(NUpnpError::MissingId),
                        Some(Json::Str(id)) => Ok((t@, id@)),
                        Some(_) => Err(NUpnpError::IdNotText),
                    }
                },
                Some(_) => Err(NUpnpError::AddressNotText),
            }
        },
        _ => Err(NUpnpError::NotAList),
    }
}

/// Reads the bridge out of a decoded nUPnP answer.
pub fn bridge_from_n_upnp(j: &Json) -> (r: Result<BridgeInfo, NUpnpError>)
    ensures
        match r {
            Ok(b) => b.id matches Some(id) && n_upnp_outcome(*j) matches Ok((t, i)) && i == id@
                && ip_denotes(b.ip, t),
            Err(e) => n_upnp_outcome(*j) == Err::<(Seq<char>, Seq<char>), NUpnpError>(e),
        },
{
    let items = match j {
        Json::Array(items) => items,
        _ => return Err(NUpnpError::NotAList),
    };
    assert(*j == Json::Array(*items));
    let mut i: usize = 0;
    while i < items.len()
        invariant
            i <= items.len(),
            *j == Json::Array(*items),
            forall|m: int| 0 <= m < i ==> #[trigger] items@[m] is Object,
        decreases items.len() - i,
    {
        match &items[i] {
            Json::Object(_) => {},
            _ => {
                assert(!(items@[i as int] is Object));
                return Err(NUpnpError::NotAList);
            },
        }
        i = i + 1;
    }
    if items.len() == 0 {
        return Err(NUpnpError::Empty);
    }
    let first = &items[0];
    let ip = match get_field(first, "internalipaddress") {
        None => return Err(NUpnpError::MissingAddress),
        Some(Json::Str(t)) => match parse_ip(t.as_str()) {
            None => return Err(NUpnpError::BadAddress),
            Some(ip) => ip,
        },
        Some(_) => return Err(NUpnpError::AddressNotText),
    };
    match get_field(first, "id") {
        None => Err(NUpnpError::MissingId),
        Some(Json::Str(id)) => Ok(BridgeInfo { ip, id: Some(id.clone()) }),
        Some(_) => Err(NUpnpError::IdNotText),
    }
}

/// The message of the discovery error for an nUPnP failure.
pub open spec fn n_upnp_message(e: NUpnpError) -> Seq<char> {
    match e {
        NUpnpError::NotAList => "expected an array of objects"@,
        NUpnpError::Empty => "expected non-empty array"@,
        NUpnpError::MissingAddress => "Expected internalipaddress"@,
        NUpnpError::AddressNotText => "expect a string in internalipaddress"@,
        NUpnpError::BadAddress => "expect an IP address in internalipaddress"@,
        NUpnpError::MissingId => "Expected id"@,
        NUpnpError::IdNotText => "expect a string in id"@,
    }
}

/// The discovery error that stands for an nUPnP failure.
pub fn n_upnp_error(e: NUpnpError) -> (r: HueError)
    ensures
        r matches HueError::DiscoveryError { msg } && msg@ == n_upnp_message(e),
{
    let msg = match e {
        NUpnpError::NotAList => "expected an array of objects",
        NUpnpError::Empty => "expected non-empty array",
        NUpnpError::MissingAddress => "Expected internalipaddress",
        NUpnpError::AddressNotText => "expect a string in internalipaddress",
        NUpnpError::BadAddress => "expect an IP address in internalipaddress",
        NUpnpError::MissingId => "Expected id",
        NUpnpError::IdNotText => "expect a string in id",
    };
    HueError::DiscoveryError { msg: msg.to_owned() }
}

/// Reads the bridge out of the body of an nUPnP answer.
pub fn bridge_from_n_upnp_body(body: &str) -> (r: Result<BridgeInfo, HueError>)
    ensures
        match json_decoded(body@) {
            Ok(j) => match r {
                Ok(b) => b.id matches Some(id) && n_upnp_outcome(j) matches Ok((t, i)) && i == id@
                    && ip_denotes(b.ip, t),
                Err(e) => n_upnp_outcome(j) matches Err(k) && e matches HueError::DiscoveryError { msg }
                    && msg@ == n_upnp_message(k),
            },
            Err(m) => r matches Err(HueError::DecodeError { msg }) && msg@ == m,
        },
{
    match parse_json(body) {
        Ok(j) => match bridge_from_n_upnp(&j) {
            Ok(b) => Ok(b),
            Err(e) => Err(n_upnp_error(e)),
        },
        Err(m) => Err(HueError::DecodeError { msg: m }),
    }
}

/// The method of discovery that has just run.
#[derive(Debug, Clone, Copy, PartialEq, Eq)]
pub enum DiscoveryStage {
    Mdns,
    NUpnp,
}

/// What the coordinator does next.
#[derive(Debug)]
pub enum DiscoveryAction {
    /// Stop with this bridge.
    Done(BridgeInfo),
    /// Run nUPnP discovery.
    RunNUpnp,
    /// Stop: discovery failed.
    GiveUp(HueError),
}

/// The one error of failed discovery, the same whichever method failed how.
pub open spec fn is_discovery_failure(e: HueError) -> bool {
    e matches HueError::DiscoveryError { msg } && msg@ == DISCOVERY_FAILED_MSG@
}

/// The coordinator's decision after `stage` ended with `outcome`.
pub open spec fn discovery_decision(stage: DiscoveryStage, outcome: Result<BridgeInfo, HueError>, a: DiscoveryAction) -> bool {
    match outcome {
        Ok(b) => a == DiscoveryAction::Done(b),
        Err(_) => match stage {
            DiscoveryStage::Mdns => a is RunNUpnp,
            DiscoveryStage::NUpnp => a matches DiscoveryAction::GiveUp(e) && is_discovery_failure(e),
        },
    }
}

/// Decides what follows a discovery method's outcome: a bridge ends discovery;
/// a failed mDNS run falls back to nUPnP; a failed nUPnP run ends it with the
/// one discovery error (the method's own error is for the log).
pub fn discovery_step(stage: DiscoveryStage, outcome: Result<BridgeInfo, HueError>) -> (r: DiscoveryAction)
    ensures
        discovery_decision(stage, outcome, r),
{
    match outcome {
        Ok(b) => DiscoveryAction::Done(b),
        Err(_) => match stage {
            DiscoveryStage::Mdns => DiscoveryAction::RunNUpnp,
            DiscoveryStage::NUpnp => DiscoveryAction::GiveUp(
                HueError::DiscoveryError { msg: DISCOVERY_FAILED_MSG.to_owned() },
            ),
        },
    }
}

/// A failed mDNS run leads to exactly one nUPnP run: the first decision asks
/// for it and the second, whatever nUPnP gave, ends discovery. A bridge from
/// nUPnP is the result; when it fails too, the error is the one discovery
/// failure, which does not tell which method failed.
pub proof fn lemma_fallback_runs_n_upnp_once(
    mdns_error: HueError,
    n_upnp: Result<BridgeInfo, HueError>,
    first: DiscoveryAction,
    second: DiscoveryAction,
)
    requires
        discovery_decision(DiscoveryStage::Mdns, Err(mdns_error), first),
        discovery_decision(DiscoveryStage::NUpnp, n_upnp, second),
    ensures
        first is RunNUpnp,
        !(second is RunNUpnp),
        n_upnp matches Ok(b) ==> second == DiscoveryAction::Done(b),
        n_upnp is Err ==> (second matches DiscoveryAction::GiveUp(e) && is_discovery_failure(e)),
{
}

/// When both methods fail, the surfaced error is the same for any two pairs
/// of underlying errors.
pub proof fn lemma_failure_hides_cause(
    e1: HueError,
    e2: HueError,
    a1: DiscoveryAction,
    a2: DiscoveryAction,
)
    requires
        discovery_decision(DiscoveryStage::NUpnp, Err(e1), a1),
        discovery_decision(DiscoveryStage::NUpnp, Err(e2), a2),
    ensures
        a1 matches DiscoveryAction::GiveUp(x) && a2 matches DiscoveryAction::GiveUp(y) && x is DiscoveryError
            && y is DiscoveryError && x->DiscoveryError_msg@ == y->DiscoveryError_msg@,
{
}

/// An mDNS success ends discovery at once, with no nUPnP run.
pub proof fn lemma_mdns_success_ends(b: BridgeInfo, a: DiscoveryAction)
    requires
        discovery_decision(DiscoveryStage::Mdns, Ok(b), a),
    ensures
        a == DiscoveryAction::Done(b),
{
}

} // verus!
