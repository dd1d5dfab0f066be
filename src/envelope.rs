//! The two shapes of the bridge's response envelope. The legacy shape is an
//! object, an array of objects, or an array of `{error: {...}}`; the current
//! shape is `{errors: [...], data: [...]}`.
use vstd::prelude::*;
use crate::error::HueError;
use crate::json::{
    field_of, get_field, get_str_field, get_usize_field, parse_json, str_field_of, usize_field_of,
    json_decoded, Json,
};

verus! {

/// The message of the error that an empty legacy array gives.
pub const EMPTY_ARRAY_MSG: &'static str = "expected non-empty array";

/// The message of the error that a body of no known shape gives.
pub const UNKNOWN_SHAPE_MSG: &'static str = "unexpected response shape";

/// One error entry of the legacy shape.
#[derive(Debug)]
pub struct BridgeErrorInner {
    pub address: String,
    pub description: String,
    pub error_type: usize,
}

/// `{error: {...}}`, as the legacy shape lists it.
#[derive(Debug)]
pub struct BridgeError {
    pub error: BridgeErrorInner,
}

/// The legacy envelope, in the order its shapes are tried.
#[derive(Debug)]
pub enum BridgeResponse<T> {
    Element(T),
    List(Vec<T>),
    Errors(Vec<BridgeError>),
}

/// The protocol error for an empty legacy array.
pub open spec fn is_empty_array_error(e: HueError) -> bool {
    e matches HueError::ProtocolError { msg } && msg@ == EMPTY_ARRAY_MSG@
}

/// What the legacy envelope yields, as a value or an error.
pub open spec fn legacy_outcome<T>(resp: BridgeResponse<T>, r: Result<T, HueError>) -> bool {
    match resp {
        BridgeResponse::Element(t) => r == Ok::<T, HueError>(t),
        BridgeResponse::List(ts) => if ts@.len() > 0 {
            r == Ok::<T, HueError>(ts@.last())
        } else {
            r matches Err(e) && is_empty_array_error(e)
        },
        BridgeResponse::Errors(es) => if es@.len() > 0 {
            r == Err::<T, HueError>(
                (HueError::BridgeError {
                    code: es@.last().error.error_type,
                    msg: es@.last().error.description,
                }),
            )
        } else {
            r matches Err(e) && is_empty_array_error(e)
        },
    }
}

impl<T> BridgeResponse<T> {
    /// The payload: the element itself, or the last element of a list (the
    /// bridge puts the authoritative result last); an empty list is a protocol
    /// error; a list of errors surfaces its last entry.
    pub fn get(self) -> (r: Result<T, HueError>)
        ensures
            legacy_outcome(self, r),
    {
        match self {
            BridgeResponse::Element(t) => Ok(t),
            BridgeResponse::List(mut ts) => match ts.pop() {
                Some(t) => Ok(t),
                None => Err(HueError::protocol_err(EMPTY_ARRAY_MSG)),
            },
            BridgeResponse::Errors(mut es) => match es.pop() {
                Some(e) => Err(HueError::BridgeError { code: e.error.error_type, msg: e.error.description }),
                None => Err(HueError::protocol_err(EMPTY_ARRAY_MSG)),
            },
        }
    }
}

/// One error entry of the current shape.
#[derive(Debug)]
pub struct BridgeErrorV2 {
    pub description: String,
}

/// The current envelope.
#[derive(Debug)]
pub struct BridgeResponseV2<T> {
    pub errors: Vec<BridgeErrorV2>,
    pub data: Vec<T>,
}

/// What the current envelope yields: the data when no error is listed, else
/// the last error's description.
pub open spec fn current_outcome<T>(resp: BridgeResponseV2<T>, r: Result<Vec<T>, HueError>) -> bool {
    if resp.errors@.len() == 0 {
        r == Ok::<Vec<T>, HueError>(resp.data)
    } else {
        r == Err::<Vec<T>, HueError>(
            (HueError::BridgeErrorV2 { description: resp.errors@.last().description }),
        )
    }
}

impl<T> BridgeResponseV2<T> {
    /// The data, unless some error is listed: then the last error's
    /// description, whatever the data holds. Empty data is no error.
    pub fn get(self) -> (r: Result<Vec<T>, HueError>)
        ensures
            current_outcome(self, r),
    {
        let mut errors = self.errors;
        match errors.pop() {
            Some(error) => Err(HueError::BridgeErrorV2 { description: error.description }),
            None => Ok(self.data),
        }
    }
}

/// The username of a success entry `{success: {username: ...}}`.
pub open spec fn success_username(j: Json) -> Option<Seq<char>> {
    match field_of(j, "success"@) {
        Some(s) => str_field_of(s, "username"@),
        None => None,
    }
}

/// The inner object of an error entry `{error: {type, address, description}}`
/// whose members have the right kinds.
pub open spec fn error_inner(j: Json) -> Option<Json> {
    match field_of(j, "error"@) {
        Some(e) => if usize_field_of(e, "type"@) is Some && str_field_of(e, "address"@) is Some
            && str_field_of(e, "description"@) is Some {
            Some(e)
        } else {
            None
        },
        None => None,
    }
}

/// Every item is a success entry.
pub open spec fn all_success(items: Seq<Json>) -> bool {
    forall|i: int| 0 <= i < items.len() ==> (#[trigger] success_username(items[i])) is Some
}

/// Every item is an error entry.
pub open spec fn all_errors(items: Seq<Json>) -> bool {
    forall|i: int| 0 <= i < items.len() ==> (#[trigger] error_inner(items[i])) is Some
}

/// `r` is the error of a body of no known shape.
pub open spec fn is_unknown_shape(r: Result<String, HueError>) -> bool {
    r matches Err(e) && e matches HueError::DecodeError { msg } && msg@ == UNKNOWN_SHAPE_MSG@
}

/// The application key that a registration reply grants, or the error it
/// carries: shapes are tried as an object, then an array of success entries,
/// then an array of error entries.
pub open spec fn registration_outcome(j: Json, r: Result<String, HueError>) -> bool {
    match success_username(j) {
        Some(u) => r matches Ok(k) && k@ == u,
        None => match j {
            Json::Array(items) => if all_success(items@) {
                if items@.len() > 0 {
                    r matches Ok(k) && success_username(items@.last()) == Some(k@)
                } else {
                    r matches Err(e) && is_empty_array_error(e)
                }
            } else if all_errors(items@) {
                let e = error_inner(items@.last())->0;
                r matches Err(HueError::BridgeError { code, msg }) && usize_field_of(e, "type"@)
                    == Some(code as int) && str_field_of(e, "description"@) == Some(msg@)
            } else {
                is_unknown_shape(r)
            },
            _ => is_unknown_shape(r),
        },
    }
}

fn success_username_of(j: &Json) -> (r: Option<String>)
    ensures
        match r {
            Some(u) => success_username(*j) == Some(u@),
            None => success_username(*j) is None,
        },
{
    match get_field(j, "success") {
        Some(s) => match get_str_field(s, "username") {
            Some(u) => Some(u.clone()),
            None => None,
        },
        None => None,
    }
}

fn error_entry_of(j: &Json) -> (r: Option<BridgeError>)
    ensures
        match r {
            Some(b) => error_inner(*j) matches Some(e) && usize_field_of(e, "type"@) == Some(
                b.error.error_type as int,
            ) && str_field_of(e, "description"@) == Some(b.error.description@),
            None => error_inner(*j) is None,
        },
{
    let e = match get_field(j, "error") {
        Some(e) => e,
        None => return None,
    };
    let code = get_usize_field(e, "type");
    let address = get_str_field(e, "address");
    let description = get_str_field(e, "description");
    match (code, address, description) {
        (Some(c), Some(a), Some(d)) => Some(
            BridgeError {
                error: BridgeErrorInner { address: a.clone(), description: d.clone(), error_type: c },
            },
        ),
        _ => None,
    }
}

/// Decodes a registration reply into the legacy envelope, trying an object,
/// then an array of success entries, then an array of error entries.
pub fn decode_registration(j: &Json) -> (r: Option<BridgeResponse<String>>)
    ensures
        match r {
            Some(BridgeResponse::Element(u)) => success_username(*j) == Some(u@),
            Some(BridgeResponse::List(us)) => {
                &&& success_username(*j) is None
                &&& j matches Json::Array(items)
                &&& all_success(items@)
                &&& us@.len() == items@.len()
                &&& forall|i: int|
                    0 <= i < items@.len() ==> success_username(items@[i]) == Some(#[trigger] us@[i]@)
            },
            Some(BridgeResponse::Errors(es)) => {
                &&& success_username(*j) is None
                &&& j matches Json::Array(items)
                &&& !all_success(items@)
                &&& all_errors(items@)
                &&& es@.len() == items@.len()
                &&& es@.len() > 0
                &&& error_inner(items@.last()) matches Some(e)
                &&& usize_field_of(e, "type"@) == Some(es@.last().error.error_type as int)
                &&& str_field_of(e, "description"@) == Some(es@.last().error.description@)
            },
            None => success_username(*j) is None && !(j matches Json::Array(items) && (all_success(
                items@,
            ) || all_errors(items@))),
        },
{
    if let Some(u) = success_username_of(j) {
        return Some(BridgeResponse::Element(u));
    }
    let items = match j {
        Json::Array(items) => items,
        _ => return None,
    };
    assert(*j == Json::Array(*items));
    let mut users: Vec<String> = Vec::new();
    let mut i: usize = 0;
    while i < items.len()
        invariant
            i <= items.len(),
            users@.len() == i,
            forall|m: int| 0 <= m < i ==> success_username(items@[m]) == Some(#[trigger] users@[m]@),
        ensures
            i <= items.len(),
            i < items.len() ==> success_username(items@[i as int]) is None,
            users@.len() == i,
            forall|m: int| 0 <= m < i ==> success_username(items@[m]) == Some(#[trigger] users@[m]@),
        decreases items.len() - i,
    {
        match success_username_of(&items[i]) {
            Some(u) => users.push(u),
            None => break,
        }
        i = i + 1;
    }
    if i == items.len() {
        assert forall|m: int| 0 <= m < items@.len() implies (#[trigger] success_username(items@[m])) is Some by {
            assert(success_username(items@[m]) == Some(users@[m]@));
        }
        return Some(BridgeResponse::List(users));
    }
    assert(success_username(items@[i as int]) is None);
    let ghost failed = i;
    let mut errors: Vec<BridgeError> = Vec::new();
    let mut k: usize = 0;
    while k < items.len()
        invariant
            k <= items.len(),
            errors@.len() == k,
            *j == Json::Array(*items),
            success_username(*j) is None,
            failed < items.len(),
            success_username(items@[failed as int]) is None,
            forall|m: int| 0 <= m < k ==> (#[trigger] error_inner(items@[m])) is Some,
            k > 0 ==> (error_inner(items@[k - 1]) matches Some(e) && usize_field_of(e, "type"@) == Some(
                errors@.last().error.error_type as int,
            ) && str_field_of(e, "description"@) == Some(errors@.last().error.description@)),
        decreases items.len() - k,
    {
        match error_entry_of(&items[k]) {
            Some(b) => errors.push(b),
            None => {
                assert(error_inner(items@[k as int]) is None);
                return None;
            },
        }
        k = k + 1;
    }
    if k == 0 {
        return None;
    }
    Some(BridgeResponse::Errors(errors))
}

/// The application key in a decoded registration reply, or the error it carries.
pub fn registration_key_from_json(j: &Json) -> (r: Result<String, HueError>)
    ensures
        registration_outcome(*j, r),
{
    match decode_registration(j) {
        Some(resp) => resp.get(),
        None => Err(HueError::DecodeError { msg: UNKNOWN_SHAPE_MSG.to_owned() }),
    }
}

/// The application key in a registration reply body, or the error it carries;
/// a body that is not JSON gives a decode error with serde_json's message.
pub fn registration_key(body: &str) -> (r: Result<String, HueError>)
    ensures
        match json_decoded(body@) {
            Ok(j) => registration_outcome(j, r),
            Err(m) => r matches Err(HueError::DecodeError { msg }) && msg@ == m,
        },
{
    match parse_json(body) {
        Ok(j) => registration_key_from_json(&j),
        Err(m) => Err(HueError::DecodeError { msg: m }),
    }
}

/// A legacy list yields its last element, whatever comes before it.
pub proof fn lemma_legacy_list_yields_last<T>(ts: Vec<T>, r: Result<T, HueError>)
    requires
        ts@.len() > 0,
        legacy_outcome(BridgeResponse::List(ts), r),
    ensures
        r == Ok::<T, HueError>(ts@.last()),
{
}

/// An empty legacy list is the protocol error "expected non-empty array".
pub proof fn lemma_legacy_empty_list_fails<T>(ts: Vec<T>, r: Result<T, HueError>)
    requires
        ts@.len() == 0,
        legacy_outcome(BridgeResponse::List(ts), r),
    ensures
        r matches Err(e) && is_empty_array_error(e),
{
}

/// Of two legacy error lists that end in the same entry, the same error is
/// surfaced: the earlier entries are ignored.
pub proof fn lemma_legacy_last_error_wins<T>(
    a: Vec<BridgeError>,
    b: Vec<BridgeError>,
    ra: Result<T, HueError>,
    rb: Result<T, HueError>,
)
    requires
        a@.len() > 0,
        b@.len() > 0,
        a@.last() == b@.last(),
        legacy_outcome(BridgeResponse::<T>::Errors(a), ra),
        legacy_outcome(BridgeResponse::<T>::Errors(b), rb),
    ensures
        ra == rb,
        ra is Err,
{
}

/// With no error listed, the current envelope yields its whole data, even empty.
pub proof fn lemma_current_data_whole<T>(resp: BridgeResponseV2<T>, r: Result<Vec<T>, HueError>)
    requires
        resp.errors@.len() == 0,
        current_outcome(resp, r),
    ensures
        r matches Ok(d) && d@ == resp.data@,
{
}

/// When errors are listed, the current envelope's outcome does not depend on
/// its data: two envelopes with the same errors fail alike.
pub proof fn lemma_current_errors_win<T>(
    a: BridgeResponseV2<T>,
    b: BridgeResponseV2<T>,
    ra: Result<Vec<T>, HueError>,
    rb: Result<Vec<T>, HueError>,
)
    requires
        a.errors@.len() > 0,
        a.errors@ == b.errors@,
        current_outcome(a, ra),
        current_outcome(b, rb),
    ensures
        ra == rb,
        ra is Err,
{
}

} // verus!
