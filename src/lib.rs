//! Discovery and protocol layer for a networked lighting bridge: a DNS-SD
//! query/response codec, the discovery fallback policy, the two response
//! envelope shapes, the resource resolution engine and the event decoder.
use vstd::prelude::*;

pub mod envelope;
pub mod error;
pub mod address;
pub mod client;
pub mod collection;
pub mod disco;
pub mod dns;
pub mod events;
pub mod json;
pub mod resolve;
pub mod resource;

verus! {

} // verus!
