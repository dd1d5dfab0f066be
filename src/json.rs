use vstd::prelude::*;

verus! {

/// A JSON value held as plain data: numbers keep their decimal text, objects
/// keep their members in the order the decoder produced them.
#[derive(Debug)]
pub enum Json {
    Null,
    Bool(bool),
    Number(String),
    Str(String),
    Array(Vec<Json>),
    Object(Vec<(String, Json)>),
}

#[verifier::external_type_specification]
#[verifier::external_body]
pub struct ExJsonValue(serde_json::Value);

/// What serde_json makes of a text: a value, or the text of its error.
pub uninterp spec fn json_decoded(text: Seq<char>) -> core::result::Result<Json, Seq<char>>;

/// Relies on serde_json::from_str into serde_json::Value: the outcome depends on the text alone.
#[verifier::external_body]
pub fn parse_json(text: &str) -> (r: core::result::Result<Json, String>)
    ensures
        match r {
            Ok(j) => json_decoded(text@) == Ok::<Json, Seq<char>>(j),
            Err(e) => json_decoded(text@) == Err::<Json, Seq<char>>(e@),
        },
{
    serde_json::from_str::<serde_json::Value>(text).map(json_of_value).map_err(|e| format!("{:?}", e))
}

/// Moves a serde_json::Value into the library's own JSON type, variant for variant.
#[verifier::external_body]
fn json_of_value(v: serde_json::Value) -> Json {
    match v {
        serde_json::Value::Null => Json::Null,
        serde_json::Value::Bool(b) => Json::Bool(b),
        serde_json::Value::Number(n) => Json::Number(n.to_string()),
        serde_json::Value::String(s) => Json::Str(s),
        serde_json::Value::Array(a) => Json::Array(a.into_iter().map(json_of_value).collect()),
        serde_json::Value::Object(m) => Json::Object(m.into_iter().map(|(k, x)| (k, json_of_value(x))).collect()),
    }
}


/// The value stored under `key` among `fields`; the later of two equal keys wins.
pub open spec fn member_of(fields: Seq<(String, Json)>, key: Seq<char>) -> Option<Json>
    decreases fields.len(),
{
    if fields.len() == 0 {
        None
    } else if fields.last().0@ == key {
        Some(fields.last().1)
    } else {
        member_of(fields.drop_last(), key)
    }
}

/// The member `key` of `j`, where `j` is an object that has it.
pub open spec fn field_of(j: Json, key: Seq<char>) -> Option<Json> {
    match j {
        Json::Object(fields) => member_of(fields@, key),
        _ => None,
    }
}

/// The member `key` of `j`, where `j` is an object that has it and it is a string.
pub open spec fn str_field_of(j: Json, key: Seq<char>) -> Option<Seq<char>> {
    match field_of(j, key) {
        Some(Json::Str(s)) => Some(s@),
        _ => None,
    }
}

/// `r` refers to the value `v` holds, or both are empty.
pub open spec fn refers_to(r: Option<&Json>, v: Option<Json>) -> bool {
    match r {
        Some(x) => v == Some(*x),
        None => v is None,
    }
}

/// Looks up the member `key` of an object.
pub fn get_field<'a>(j: &'a Json, key: &str) -> (r: Option<&'a Json>)
    ensures
        refers_to(r, field_of(*j, key@)),
{
    match j {
        Json::Object(fields) => {
            let mut found: Option<&'a Json> = None;
            let mut i: usize = 0;
            while i < fields.len()
                invariant
                    i <= fields.len(),
                    refers_to(found, member_of(fields@.subrange(0, i as int), key@)),
                decreases fields.len() - i,
            {
                assert(fields@.subrange(0, i + 1).drop_last() =~= fields@.subrange(0, i as int));
                if fields[i].0.as_str().to_owned() == key.to_owned() {
                    found = Some(&fields[i].1);
                }
                i = i + 1;
            }
            assert(fields@.subrange(0, fields.len() as int) =~= fields@);
            found
        },
        _ => None,
    }
}

/// Looks up the member `key` of an object when it holds a string.
pub fn get_str_field<'a>(j: &'a Json, key: &str) -> (r: Option<&'a String>)
    ensures
        match r {
            Some(s) => str_field_of(*j, key@) == Some(s@),
            None => str_field_of(*j, key@) is None,
        },
{
    match get_field(j, key) {
        Some(Json::Str(s)) => Some(s),
        _ => None,
    }
}

/// A decimal digit.
pub open spec fn is_digit(c: char) -> bool {
    '0' <= c <= '9'
}

/// The value of a digit.
pub open spec fn digit_value(c: char) -> int {
    (c as u32) as int - ('0' as u32) as int
}

/// The value of a string of decimal digits.
pub open spec fn digits_value(s: Seq<char>) -> int
    decreases s.len(),
{
    if s.len() == 0 {
        0
    } else {
        digits_value(s.drop_last()) * 10 + digit_value(s.last())
    }
}

/// The unsigned integer that a number's text denotes, where it is one.
pub open spec fn unsigned_value(s: Seq<char>) -> Option<int> {
    if s.len() > 0 && forall|i: int| 0 <= i < s.len() ==> #[trigger] is_digit(s[i]) {
        Some(digits_value(s))
    } else {
        None
    }
}

proof fn lemma_digits_value_grows(s: Seq<char>, k: int)
    requires
        0 <= k <= s.len(),
        forall|i: int| 0 <= i < s.len() ==> #[trigger] is_digit(s[i]),
    ensures
        digits_value(s.subrange(0, k)) <= digits_value(s),
        0 <= digits_value(s),
    decreases s.len(),
{
    if s.len() > 0 {
        let t = s.drop_last();
        assert forall|i: int| 0 <= i < t.len() implies #[trigger] is_digit(t[i]) by {
            assert(t[i] == s[i]);
        }
        assert(is_digit(s[s.len() - 1]));
        if k < s.len() {
            assert(s.subrange(0, k) =~= t.subrange(0, k));
            lemma_digits_value_grows(t, k);
        } else {
            assert(s.subrange(0, k) =~= s);
            lemma_digits_value_grows(t, 0);
        }
    } else {
        assert(s.subrange(0, k) =~= s);
    }
}

/// Reads the text of a JSON number as a `usize`; `None` when it is not a
/// plain string of digits or does not fit.
pub fn parse_usize(text: &str) -> (r: Option<usize>)
    ensures
        match r {
            Some(v) => unsigned_value(text@) == Some(v as int),
            None => !(unsigned_value(text@) matches Some(v) && v <= usize::MAX),
        },
{
    let n = text.unicode_len();
    if n == 0 {
        return None;
    }
    let mut v: usize = 0;
    let mut i: usize = 0;
    while i < n
        invariant
            i <= n,
            n == text@.len(),
            n > 0,
            forall|m: int| 0 <= m < i ==> #[trigger] is_digit(text@[m]),
            v as int == digits_value(text@.subrange(0, i as int)),
        decreases n - i,
    {
        let c = text.get_char(i);
        if !('0' <= c && c <= '9') {
            assert(!is_digit(text@[i as int]));
            return None;
        }
        let d = (c as u32 - '0' as u32) as usize;
        let ghost p = text@.subrange(0, i + 1);
        assert(p.drop_last() =~= text@.subrange(0, i as int));
        if v > (usize::MAX - d) / 10 {
            proof {
                if unsigned_value(text@) is Some {
                    assert(digits_value(p) == v * 10 + d);
                    assert(v * 10 + d > usize::MAX) by (nonlinear_arith)
                        requires v > (usize::MAX - d) / 10, d <= 9;
                    lemma_digits_value_grows(text@, i + 1);
                }
            }
            return None;
        }
        proof {
            assert(v * 10 + d <= usize::MAX) by (nonlinear_arith)
                requires v <= (usize::MAX - d) / 10, d <= 9;
        }
        v = v * 10 + d;
        i = i + 1;
    }
    assert(text@.subrange(0, n as int) =~= text@);
    Some(v)
}

/// The member `key` of `j` as an unsigned integer, where it is a number that is one.
pub open spec fn usize_field_of(j: Json, key: Seq<char>) -> Option<int> {
    match field_of(j, key) {
        Some(Json::Number(t)) => match unsigned_value(t@) {
            Some(v) => if v <= usize::MAX { Some(v) } else { None },
            None => None,
        },
        _ => None,
    }
}

/// Looks up the member `key` of an object when it holds an unsigned integer that fits a `usize`.
pub fn get_usize_field(j: &Json, key: &str) -> (r: Option<usize>)
    ensures
        match r {
            Some(v) => usize_field_of(*j, key@) == Some(v as int),
            None => usize_field_of(*j, key@) is None,
        },
{
    match get_field(j, key) {
        Some(Json::Number(t)) => parse_usize(t.as_str()),
        _ => None,
    }
}

} // verus!
