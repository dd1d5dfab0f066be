use vstd::prelude::*;

verus! {

/// The one error type that callers of this library see.
#[derive(Debug, Clone, PartialEq, Eq)]
pub enum HueError {
    /// The bridge answered with a structure that breaks the protocol.
    ProtocolError { msg: String },
    /// The bridge reported an application error in the legacy envelope.
    BridgeError { code: usize, msg: String },
    /// The bridge reported an application error in the current envelope.
    BridgeErrorV2 { description: String },
    /// No bridge could be discovered, or a discovery answer was malformed.
    DiscoveryError { msg: String },
    /// The mDNS exchange failed: a socket error, or no answer before the deadline.
    MdnsError { msg: String },
    /// A connection or socket failed before an answer came.
    TransportError { msg: String },
    /// The bridge answered with a status outside 2xx.
    HttpStatusError { status: u16 },
    /// A body was not the JSON that was expected.
    DecodeError { msg: String },
}

impl HueError {
    /// A protocol error with the given message.
    pub fn protocol_err(msg: &str) -> (r: HueError)
        ensures
            r matches HueError::ProtocolError { msg: m } && m@ == msg@,
    {
        HueError::ProtocolError { msg: msg.to_owned() }
    }
}

/// The result type of this library.
pub type Result<T> = core::result::Result<T, HueError>;

} // verus!
