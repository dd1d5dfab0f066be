//! The DNS-SD packet codec: a one-question PTR query, and the check that a
//! received datagram answers it (acceptance by content: the transaction id
//! matches and some PTR answer names the service; the address is the first A
//! record of the additional section).
use vstd::prelude::*;

verus! {

/// Type code of a PTR record.
pub const PTR_TYPE: u16 = 12;

/// Code of the Internet class.
pub const IN_CLASS: u16 = 1;

/// Longest service name that a query carries.
pub const MAX_SERVICE_NAME_LEN: usize = 253;

/// Index of the first '.' in `s`, or its length when it has none.
pub open spec fn dot_index(s: Seq<char>) -> nat
    decreases s.len(),
{
    if s.len() == 0 {
        0
    } else if s[0] == '.' {
        0
    } else {
        1 + dot_index(s.drop_first())
    }
}

/// The labels of `s`, read from the left, are each 1 to 62 ASCII characters.
/// DNS itself allows 63 bytes; dns_parser's builder asserts that a label is
/// shorter than 63, so 62 is the longest label a query can carry here.
pub open spec fn valid_labels(s: Seq<char>) -> bool
    decreases s.len(),
{
    let k = dot_index(s);
    &&& 1 <= k <= 62
    &&& forall|i: int| 0 <= i < k ==> (#[trigger] s[i] as u32) < 128
    &&& (k < s.len() ==> valid_labels(s.subrange(k as int + 1, s.len() as int)))
}

/// A name that a query can carry: dot-separated ASCII labels of 1 to 62
/// characters (the builder's limit, one below DNS's 63), at most 253
/// characters in all.
pub open spec fn valid_service_name(s: Seq<char>) -> bool {
    &&& s.len() <= MAX_SERVICE_NAME_LEN
    &&& valid_labels(s)
}

/// The bytes of an ASCII text.
pub open spec fn ascii_bytes(s: Seq<char>) -> Seq<u8> {
    s.map_values(|c: char| (c as u32) as u8)
}

/// A name in wire form: each label behind its length, then a zero byte.
pub open spec fn name_wire(s: Seq<char>) -> Seq<u8>
    decreases s.len(),
{
    let k = dot_index(s);
    let head = seq![k as u8] + ascii_bytes(s.subrange(0, k as int));
    if k < s.len() {
        head + name_wire(s.subrange(k as int + 1, s.len() as int))
    } else {
        head + seq![0u8]
    }
}

/// A 16-bit value in network byte order.
pub open spec fn be16(v: u16) -> Seq<u8> {
    seq![(v / 256) as u8, (v % 256) as u8]
}

/// The value of two bytes in network byte order.
pub open spec fn read_be16(hi: u8, lo: u8) -> int {
    hi as int * 256 + lo as int
}

/// A standard query with transaction id `id`, no recursion, and one PTR
/// question of class IN for `name`, whose top class bit asks for a unicast reply.
pub open spec fn query_wire(id: u16, name: Seq<char>, prefer_unicast: bool) -> Seq<u8> {
    be16(id) + seq![0u8, 0u8, 0u8, 1u8, 0u8, 0u8, 0u8, 0u8, 0u8, 0u8] + name_wire(name) + be16(
        PTR_TYPE,
    ) + be16(
        if prefer_unicast {
            (0x8000u16 + IN_CLASS) as u16
        } else {
            IN_CLASS
        },
    )
}

/// Relies on dns_parser::Builder (new_query, add_question, build): the header,
/// then the name label by label with a zero byte, the type and the class with
/// the unicast bit; the packet stays far below the 512 bytes where `build` fails.
#[verifier::external_body]
fn ptr_query_packet(id: u16, name: &str, prefer_unicast: bool) -> (r: Vec<u8>)
    requires
        valid_service_name(name@),
    ensures
        r@ == query_wire(id, name@, prefer_unicast),
{
    let mut builder = dns_parser::Builder::new_query(id, false);
    builder.add_question(name, prefer_unicast, dns_parser::QueryType::PTR, dns_parser::QueryClass::IN);
    builder.build().unwrap_or_else(|b| b)
}

pub(crate) proof fn lemma_dot_index(s: Seq<char>)
    ensures
        dot_index(s) <= s.len(),
        dot_index(s) < s.len() ==> s[dot_index(s) as int] == '.',
        forall|m: int| 0 <= m < dot_index(s) ==> s[m] != '.',
    decreases s.len(),
{
    if s.len() > 0 && s[0] != '.' {
        lemma_dot_index(s.drop_first());
        assert forall|m: int| 0 <= m < dot_index(s) implies s[m] != '.' by {
            if m > 0 {
                assert(s[m] == s.drop_first()[m - 1]);
            }
        }
    }
}

pub(crate) proof fn lemma_dot_index_at(s: Seq<char>, j: int)
    requires
        0 <= j <= s.len(),
        forall|m: int| 0 <= m < j ==> s[m] != '.',
        j == s.len() || s[j] == '.',
    ensures
        dot_index(s) == j,
    decreases j,
{
    if j > 0 {
        let t = s.drop_first();
        assert forall|m: int| 0 <= m < j - 1 implies t[m] != '.' by {
            assert(t[m] == s[m + 1]);
        }
        if j < s.len() {
            assert(t[j - 1] == s[j]);
        }
        lemma_dot_index_at(t, j - 1);
    }
}

/// Whether `name` can be carried by a query.
pub fn is_valid_service_name(name: &str) -> (r: bool)
    ensures
        r == valid_service_name(name@),
{
    let n = name.unicode_len();
    if n > MAX_SERVICE_NAME_LEN {
        return false;
    }
    let mut start: usize = 0;
    assert(name@.subrange(0, n as int) =~= name@);
    loop
        invariant
            start <= n,
            n == name@.len(),
            n <= MAX_SERVICE_NAME_LEN,
            valid_labels(name@) == valid_labels(name@.subrange(start as int, n as int)),
        decreases n - start,
    {
        let ghost t = name@.subrange(start as int, n as int);
        let mut j: usize = start;
        let mut ascii = true;
        while j < n && name.get_char(j) != '.'
            invariant
                start <= j <= n,
                n == name@.len(),
                forall|m: int| start <= m < j ==> name@[m] != '.',
                ascii == forall|m: int| start <= m < j ==> (#[trigger] name@[m] as u32) < 128,
            decreases n - j,
        {
            if (name.get_char(j) as u32) >= 128 {
                ascii = false;
            }
            j = j + 1;
        }
        let k = j - start;
        proof {
            assert forall|m: int| 0 <= m < k implies t[m] != '.' by {
                assert(t[m] == name@[start + m]);
            }
            if j < n {
                assert(t[k as int] == name@[j as int]);
            }
            lemma_dot_index_at(t, k as int);
            assert(ascii == forall|i: int| 0 <= i < k ==> (#[trigger] t[i] as u32) < 128) by {
                if ascii {
                    assert forall|i: int| 0 <= i < k implies (#[trigger] t[i] as u32) < 128 by {
                        assert(t[i] == name@[start + i]);
                    }
                } else {
                    let m = choose|m: int| start <= m < j && !((#[trigger] name@[m] as u32) < 128);
                    assert(t[m - start] == name@[m]);
                }
            }
        }
        if k < 1 || k > 62 || !ascii {
            return false;
        }
        if j == n {
            return true;
        }
        assert(t.subrange(k + 1, t.len() as int) =~= name@.subrange(j + 1, n as int));
        start = j + 1;
    }
}

/// The query datagram for `service_name` with transaction id `id`, asking for
/// a unicast reply; `None` when the name is not a valid service name.
pub fn build_query(id: u16, service_name: &str) -> (r: Option<Vec<u8>>)
    ensures
        r is Some <==> valid_service_name(service_name@),
        r matches Some(v) ==> v@ == query_wire(id, service_name@, true),
{
    if is_valid_service_name(service_name) {
        Some(ptr_query_packet(id, service_name, true))
    } else {
        None
    }
}

/// The name spelled by the uncompressed labels at the start of `w`, as bytes
/// with a '.' between labels, and how many bytes the labels and their end take.
pub open spec fn name_at(w: Seq<u8>) -> Option<(Seq<u8>, int)>
    decreases w.len(),
{
    if w.len() == 0 {
        None
    } else if w[0] == 0 {
        Some((Seq::empty(), 1))
    } else if w[0] >= 64 || w.len() < w[0] as int + 1 {
        None
    } else {
        let n = w[0] as int;
        let label = w.subrange(1, n + 1);
        match name_at(w.subrange(n + 1, w.len() as int)) {
            Some((rest, used)) => Some(
                (
                    if rest.len() == 0 {
                        label
                    } else {
                        label + seq![46u8] + rest
                    },
                    used + n + 1,
                ),
            ),
            None => None,
        }
    }
}

/// The first question of a message with uncompressed names: its name, its
/// type, and its class without the unicast bit.
pub open spec fn first_question(m: Seq<u8>) -> Option<(Seq<u8>, u16, u16)> {
    if m.len() < 12 || read_be16(m[4], m[5]) == 0 {
        None
    } else {
        match name_at(m.subrange(12, m.len() as int)) {
            Some((name, used)) => {
                let at = 12 + used;
                if m.len() < at + 4 {
                    None
                } else {
                    Some(
                        (
                            name,
                            read_be16(m[at], m[at + 1]) as u16,
                            (read_be16(m[at + 2], m[at + 3]) % 0x8000) as u16,
                        ),
                    )
                }
            },
            None => None,
        }
    }
}

proof fn lemma_name_round_trip(s: Seq<char>, rest: Seq<u8>)
    requires
        valid_labels(s),
    ensures
        name_at(name_wire(s) + rest) == Some((ascii_bytes(s), name_wire(s).len() as int)),
        ascii_bytes(s).len() > 0,
    decreases s.len(),
{
    let k: int = dot_index(s) as int;
    lemma_dot_index(s);
    let label = ascii_bytes(s.subrange(0, k));
    let w = name_wire(s) + rest;
    assert(label.len() == k);
    assert((k as u8) as int == k);
    if k < s.len() {
        let t = s.subrange(k + 1, s.len() as int);
        lemma_name_round_trip(t, rest);
        assert(name_wire(s) == seq![k as u8] + label + name_wire(t));
        assert(w[0] == k as u8);
        assert(w.subrange(1, k + 1) =~= label);
        let after = w.subrange(k + 1, w.len() as int);
        assert(after =~= name_wire(t) + rest);
        assert(name_at(after) == Some((ascii_bytes(t), name_wire(t).len() as int)));
        assert(s[k] == '.');
        assert(ascii_bytes(s) =~= label + seq![46u8] + ascii_bytes(t));
        assert(name_at(w) == Some((label + seq![46u8] + ascii_bytes(t), name_wire(t).len() + k + 1)));
    } else {
        assert(name_wire(s) == seq![k as u8] + label + seq![0u8]);
        assert(w[0] == k as u8);
        assert(w.subrange(1, k + 1) =~= label);
        let after = w.subrange(k + 1, w.len() as int);
        assert(after =~= seq![0u8] + rest);
        assert(after[0] == 0);
        assert(name_at(after) == Some((Seq::<u8>::empty(), 1int)));
        assert(s.subrange(0, k) =~= s);
        assert(name_at(w) == Some((label, 1 + k + 1)));
    }
}

/// The query for a valid service name reads back as one question carrying
/// that name, type PTR and class IN.
pub proof fn lemma_query_round_trip(id: u16, name: Seq<char>, prefer_unicast: bool)
    requires
        valid_service_name(name),
    ensures
        first_question(query_wire(id, name, prefer_unicast)) == Some((ascii_bytes(name), PTR_TYPE, IN_CLASS)),
{
    let q = query_wire(id, name, prefer_unicast);
    let cls: u16 = if prefer_unicast { (0x8000u16 + IN_CLASS) as u16 } else { IN_CLASS };
    let tail = be16(PTR_TYPE) + be16(cls);
    lemma_name_round_trip(name, tail);
    assert(q.subrange(12, q.len() as int) =~= name_wire(name) + tail);
    let at: int = 12 + name_wire(name).len() as int;
    assert(q[at] == 0u8 && q[at + 1] == 12u8);
    assert(q[at + 3] == 1u8);
    assert(q[at + 2] == 0u8 || q[at + 2] == 128u8);
}

/// The kind of data a resource record carries, as far as discovery reads it.
#[derive(Debug, Clone, Copy, PartialEq, Eq)]
pub enum DnsRecordData {
    /// A PTR record.
    Ptr,
    /// An A record with its IPv4 address.
    A([u8; 4]),
    /// Any other record.
    Other,
}

/// One resource record of a response: its owner name, dot-separated, and its data.
#[derive(Debug)]
pub struct DnsRecord {
    pub name: String,
    pub data: DnsRecordData,
}

/// What discovery reads of a DNS response: the header's transaction id, the
/// answer section and the additional section.
#[derive(Debug)]
pub struct DnsResponse {
    pub id: u16,
    pub answers: Vec<DnsRecord>,
    pub additional: Vec<DnsRecord>,
}

/// What dns_parser makes of a datagram; `None` where it is not a DNS message.
pub uninterp spec fn dns_response_of(bytes: Seq<u8>) -> Option<DnsResponse>;

/// Relies on dns_parser::Packet::parse: a record's name is what the crate's
/// `Name` writes through `to_string`, and the transaction id is read from the
/// first two bytes in network order (a message has at least 12).
#[verifier::external_body]
fn parse_response(bytes: &[u8]) -> (r: Option<DnsResponse>)
    ensures
        r == dns_response_of(bytes@),
        r matches Some(p) ==> bytes@.len() >= 12 && p.id as int == read_be16(bytes@[0], bytes@[1]),
{
    let record = |rr: &dns_parser::ResourceRecord| DnsRecord {
        name: rr.name.to_string(),
        data: match rr.data {
            dns_parser::RData::A(a) => DnsRecordData::A(a.0.octets()),
            dns_parser::RData::PTR(_) => DnsRecordData::Ptr,
            _ => DnsRecordData::Other,
        },
    };
    dns_parser::Packet::parse(bytes).ok().map(|p| DnsResponse {
        id: p.header.id,
        answers: p.answers.iter().map(record).collect(),
        additional: p.additional.iter().map(record).collect(),
    })
}

/// A PTR record whose owner is the service.
pub open spec fn is_service_answer(r: DnsRecord, service: Seq<char>) -> bool {
    r.data is Ptr && r.name@ == service
}

/// Some answer is a PTR record for the service.
pub open spec fn has_service_answer(answers: Seq<DnsRecord>, service: Seq<char>) -> bool {
    exists|i: int| 0 <= i < answers.len() && #[trigger] is_service_answer(answers[i], service)
}

/// The address of the first A record among `records`.
pub open spec fn first_a_address(records: Seq<DnsRecord>) -> Option<[u8; 4]>
    decreases records.len(),
{
    if records.len() == 0 {
        None
    } else {
        match records[0].data {
            DnsRecordData::A(ip) => Some(ip),
            _ => first_a_address(records.drop_first()),
        }
    }
}

/// The bridge address a response gives for a query with id `id` for `service`.
pub open spec fn response_address(p: DnsResponse, service: Seq<char>, id: u16) -> Option<[u8; 4]> {
    if p.id == id && has_service_answer(p.answers@, service) {
        first_a_address(p.additional@)
    } else {
        None
    }
}

/// The bridge address a datagram gives; `None` for what is not a DNS message.
pub open spec fn datagram_address(bytes: Seq<u8>, service: Seq<char>, id: u16) -> Option<[u8; 4]> {
    match dns_response_of(bytes) {
        Some(p) => response_address(p, service, id),
        None => None,
    }
}

/// Checks a decoded response against the query: it must carry the query's id
/// and a PTR answer for the service; the address is that of the first A record
/// in the additional section.
pub fn validate_packet(p: &DnsResponse, service_name: &str, query_id: u16) -> (r: Option<[u8; 4]>)
    ensures
        r == response_address(*p, service_name@, query_id),
{
    if p.id != query_id {
        return None;
    }
    let service = service_name.to_owned();
    let mut found = false;
    let mut i: usize = 0;
    while i < p.answers.len()
        invariant
            i <= p.answers.len(),
            service@ == service_name@,
            found == exists|m: int| 0 <= m < i && #[trigger] is_service_answer(p.answers@[m], service@),
        decreases p.answers.len() - i,
    {
        let answer = &p.answers[i];
        let is_ptr = match answer.data {
            DnsRecordData::Ptr => true,
            _ => false,
        };
        if is_ptr && answer.name == service {
            found = true;
        }
        proof {
            if !found {
                assert forall|m: int| 0 <= m < i + 1 implies !#[trigger] is_service_answer(p.answers@[m], service@) by {
                    if m < i {
                        assert(!is_service_answer(p.answers@[m], service@));
                    }
                }
            } else {
                if !(exists|m: int| 0 <= m < i && #[trigger] is_service_answer(p.answers@[m], service@)) {
                    assert(is_service_answer(p.answers@[i as int], service@));
                }
            }
        }
        i = i + 1;
    }
    if !found {
        return None;
    }
    let mut j: usize = 0;
    assert(p.additional@.subrange(0, p.additional.len() as int) =~= p.additional@);
    while j < p.additional.len()
        invariant
            j <= p.additional.len(),
            response_address(*p, service_name@, query_id) == first_a_address(p.additional@),
            first_a_address(p.additional@) == first_a_address(p.additional@.subrange(j as int, p.additional.len() as int)),
        decreases p.additional.len() - j,
    {
        let ghost rest = p.additional@.subrange(j as int, p.additional.len() as int);
        assert(rest.drop_first() =~= p.additional@.subrange(j + 1, p.additional.len() as int));
        assert(rest[0] == p.additional@[j as int]);
        match p.additional[j].data {
            DnsRecordData::A(ip) => {
                return Some(ip);
            },
            _ => {},
        }
        j = j + 1;
    }
    None
}

/// Checks a received datagram against the query with id `query_id` for
/// `service_name`, and returns the bridge address it gives. A datagram that is
/// not a DNS message, or carries another transaction id, gives none.
pub fn validate_response(bytes: &[u8], service_name: &str, query_id: u16) -> (r: Option<[u8; 4]>)
    ensures
        r == datagram_address(bytes@, service_name@, query_id),
        bytes@.len() >= 2 && read_be16(bytes@[0], bytes@[1]) != query_id as int ==> r is None,
{
    match parse_response(bytes) {
        Some(p) => validate_packet(&p, service_name, query_id),
        None => None,
    }
}

/// A response whose transaction id differs from the query's gives no address,
/// whatever records it holds.
pub proof fn lemma_wrong_id_rejected(p: DnsResponse, service: Seq<char>, query_id: u16)
    requires
        p.id != query_id,
    ensures
        response_address(p, service, query_id) is None,
{
}

/// A response without a PTR answer for the service gives no address, whatever
/// its additional records hold.
pub proof fn lemma_no_ptr_answer_rejected(p: DnsResponse, service: Seq<char>, query_id: u16)
    requires
        forall|i: int| 0 <= i < p.answers@.len() ==> !(#[trigger] p.answers@[i].data is Ptr),
    ensures
        response_address(p, service, query_id) is None,
{
    if has_service_answer(p.answers@, service) {
        let i = choose|i: int| 0 <= i < p.answers@.len() && #[trigger] is_service_answer(p.answers@[i], service);
        assert(p.answers@[i].data is Ptr);
    }
}

} // verus!
