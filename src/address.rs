//! IP addresses in text: IPv4 in dotted-decimal form, IPv6 as colon-separated
//! hexadecimal groups with at most one `::` and an optional trailing IPv4 part.
use vstd::prelude::*;
use crate::dns::{dot_index, lemma_dot_index_at};
use crate::json::{digits_value, is_digit};

verus! {

/// The byte that a field of an address denotes: one to three digits, no
/// leading zero, at most 255.
pub open spec fn octet_of(t: Seq<char>) -> Option<u8> {
    if 1 <= t.len() <= 3 && (forall|i: int| 0 <= i < t.len() ==> #[trigger] is_digit(t[i])) && (
    t.len() > 1 ==> t[0] != '0') && digits_value(t) <= 255 {
        Some(digits_value(t) as u8)
    } else {
        None
    }
}

/// The bytes of `n` dot-separated fields that make up the whole of `s`.
pub open spec fn octets_of(s: Seq<char>, n: nat) -> Option<Seq<u8>>
    decreases n,
{
    let k = dot_index(s);
    let field = octet_of(s.subrange(0, k as int));
    if n == 0 || field is None {
        None
    } else if n == 1 {
        if k == s.len() {
            Some(seq![field->0])
        } else {
            None
        }
    } else if k < s.len() {
        match octets_of(s.subrange(k as int + 1, s.len() as int), (n - 1) as nat) {
            Some(rest) => Some(seq![field->0] + rest),
            None => None,
        }
    } else {
        None
    }
}

/// The IPv4 address that `s` writes in dotted-decimal form.
pub open spec fn ipv4_of(s: Seq<char>) -> Option<Seq<u8>> {
    octets_of(s, 4)
}

fn next_dot(text: &str, start: usize, n: usize) -> (r: usize)
    requires
        start <= n,
        n == text@.len(),
    ensures
        start <= r <= n,
        r - start == dot_index(text@.subrange(start as int, n as int)),
{
    let mut j = start;
    while j < n && text.get_char(j) != '.'
        invariant
            start <= j <= n,
            n == text@.len(),
            forall|m: int| start <= m < j ==> text@[m] != '.',
        decreases n - j,
    {
        j = j + 1;
    }
    let ghost t = text@.subrange(start as int, n as int);
    proof {
        assert forall|m: int| 0 <= m < j - start implies t[m] != '.' by {
            assert(t[m] == text@[start + m]);
        }
        if j < n {
            assert(t[j - start] == text@[j as int]);
        }
        lemma_dot_index_at(t, j - start);
    }
    j
}

fn parse_octet(text: &str, start: usize, end: usize) -> (r: Option<u8>)
    requires
        start <= end <= text@.len(),
    ensures
        r == octet_of(text@.subrange(start as int, end as int)),
{
    let ghost t = text@.subrange(start as int, end as int);
    let len = end - start;
    if len < 1 || len > 3 {
        return None;
    }
    let mut v: u32 = 0;
    let mut i: usize = 0;
    while i < len
        invariant
            i <= len <= 3,
            start + len == end,
            end <= text@.len(),
            t == text@.subrange(start as int, end as int),
            forall|m: int| 0 <= m < i ==> #[trigger] is_digit(t[m]),
            v as int == digits_value(t.subrange(0, i as int)),
            i == 0 ==> v == 0,
            i == 1 ==> v < 10,
            i == 2 ==> v < 100,
            v < 1000,
        decreases len - i,
    {
        let c = text.get_char(start + i);
        assert(c == t[i as int]);
        if !('0' <= c && c <= '9') {
            assert(!is_digit(t[i as int]));
            return None;
        }
        assert(t.subrange(0, i + 1).drop_last() =~= t.subrange(0, i as int));
        v = v * 10 + (c as u32 - '0' as u32);
        i = i + 1;
    }
    assert(t.subrange(0, len as int) =~= t);
    if len > 1 && text.get_char(start) == '0' {
        assert(t[0] == text@[start as int]);
        return None;
    }
    if len > 1 {
        assert(t[0] == text@[start as int]);
    }
    if v > 255 {
        return None;
    }
    Some(v as u8)
}

/// Reads an IPv4 address written as four dot-separated decimal bytes.
pub fn parse_ipv4(text: &str) -> (r: Option<[u8; 4]>)
    ensures
        match r {
            Some(a) => ipv4_of(text@) == Some(a@),
            None => ipv4_of(text@) is None,
        },
{
    let n = text.unicode_len();
    let mut octets: Vec<u8> = Vec::new();
    let mut start: usize = 0;
    assert(text@.subrange(0, n as int) =~= text@);
    while octets.len() < 4
        invariant
            octets@.len() <= 4,
            start <= n,
            n == text@.len(),
            ipv4_of(text@) == match octets_of(text@.subrange(start as int, n as int), (4 - octets@.len()) as nat) {
                Some(rest) => Some(octets@ + rest),
                None => None::<Seq<u8>>,
            },
        decreases 4 - octets@.len(),
    {
        let ghost t = text@.subrange(start as int, n as int);
        let ghost left: nat = (4 - octets@.len()) as nat;
        let j = next_dot(text, start, n);
        let k = j - start;
        assert(t.subrange(0, k as int) =~= text@.subrange(start as int, j as int));
        let field = parse_octet(text, start, j);
        let b = match field {
            Some(b) => b,
            None => return None,
        };
        if octets.len() == 3 {
            if j != n {
                return None;
            }
            let ghost before = octets@;
            octets.push(b);
            assert(octets@ =~= before + seq![b]);
            assert(octets_of(text@.subrange(n as int, n as int), 0) is None);
            assert(ipv4_of(text@) == Some(octets@)) by {
                assert(octets_of(t, left) == Some(seq![b]));
            }
            return Some([octets[0], octets[1], octets[2], octets[3]]);
        }
        if j == n {
            return None;
        }
        let ghost before = octets@;
        octets.push(b);
        assert(t.subrange(k + 1, t.len() as int) =~= text@.subrange(j + 1, n as int));
        start = j + 1;
        proof {
            let tail = octets_of(text@.subrange(start as int, n as int), (4 - octets@.len()) as nat);
            assert(octets_of(t, left) == match tail {
                Some(rest) => Some(seq![b] + rest),
                None => None::<Seq<u8>>,
            });
            if let Some(rest) = tail {
                assert(before + (seq![b] + rest) =~= octets@ + rest);
            }
        }
    }
    None
}

/// An IP address of either family.
#[derive(Debug, Clone, Copy, PartialEq, Eq)]
pub enum IpAddress {
    /// Four bytes, most significant first.
    V4([u8; 4]),
    /// Eight 16-bit groups, most significant first.
    V6([u16; 8]),
}

/// Index of the first `c` in `s`, or its length when it has none.
pub open spec fn sep_index(s: Seq<char>, c: char) -> nat
    decreases s.len(),
{
    if s.len() == 0 {
        0
    } else if s[0] == c {
        0
    } else {
        1 + sep_index(s.drop_first(), c)
    }
}

proof fn lemma_sep_index_at(s: Seq<char>, c: char, j: int)
    requires
        0 <= j <= s.len(),
        forall|m: int| 0 <= m < j ==> s[m] != c,
        j == s.len() || s[j] == c,
    ensures
        sep_index(s, c) == j,
    decreases j,
{
    if j > 0 {
        let t = s.drop_first();
        assert forall|m: int| 0 <= m < j - 1 implies t[m] != c by {
            assert(t[m] == s[m + 1]);
        }
        if j < s.len() {
            assert(t[j - 1] == s[j]);
        }
        lemma_sep_index_at(t, c, j - 1);
    }
}

fn next_sep(text: &str, start: usize, end: usize, c: char) -> (r: usize)
    requires
        start <= end <= text@.len(),
    ensures
        start <= r <= end,
        r - start == sep_index(text@.subrange(start as int, end as int), c),
{
    let mut j = start;
    while j < end && text.get_char(j) != c
        invariant
            start <= j <= end,
            end <= text@.len(),
            forall|m: int| start <= m < j ==> text@[m] != c,
        decreases end - j,
    {
        j = j + 1;
    }
    let ghost t = text@.subrange(start as int, end as int);
    proof {
        assert forall|m: int| 0 <= m < j - start implies t[m] != c by {
            assert(t[m] == text@[start + m]);
        }
        if j < end {
            assert(t[j - start] == text@[j as int]);
        }
        lemma_sep_index_at(t, c, j - start);
    }
    j
}

/// A hexadecimal digit, in either case.
pub open spec fn is_hex_digit(c: char) -> bool {
    ('0' <= c <= '9') || ('a' <= c <= 'f') || ('A' <= c <= 'F')
}

/// The value of a hexadecimal digit.
pub open spec fn hex_digit_value(c: char) -> int {
    if '0' <= c <= '9' {
        (c as u32) as int - 48
    } else if 'a' <= c <= 'f' {
        (c as u32) as int - 87
    } else {
        (c as u32) as int - 55
    }
}

/// The value of a string of hexadecimal digits.
pub open spec fn hex_value(s: Seq<char>) -> int
    decreases s.len(),
{
    if s.len() == 0 {
        0
    } else {
        hex_value(s.drop_last()) * 16 + hex_digit_value(s.last())
    }
}

/// The group that one to four hexadecimal digits denote.
pub open spec fn hex_group_of(t: Seq<char>) -> Option<u16> {
    if 1 <= t.len() <= 4 && forall|i: int| 0 <= i < t.len() ==> #[trigger] is_hex_digit(t[i]) {
        Some(hex_value(t) as u16)
    } else {
        None
    }
}

/// The two groups that an IPv4 address fills.
pub open spec fn v4_groups(b: Seq<u8>) -> Seq<u16> {
    seq![(b[0] as int * 256 + b[1] as int) as u16, (b[2] as int * 256 + b[3] as int) as u16]
}

/// The groups of a non-empty colon-separated list of hexadecimal groups; where
/// `allow_v4`, its last item may be an IPv4 address, which fills two groups.
pub open spec fn groups_of(s: Seq<char>, allow_v4: bool) -> Option<Seq<u16>>
    decreases s.len(),
{
    let k = sep_index(s, ':');
    let field = s.subrange(0, k as int);
    if k < s.len() {
        match hex_group_of(field) {
            Some(g) => match groups_of(s.subrange(k as int + 1, s.len() as int), allow_v4) {
                Some(rest) => Some(seq![g] + rest),
                None => None,
            },
            None => None,
        }
    } else {
        match hex_group_of(field) {
            Some(g) => Some(seq![g]),
            None => if allow_v4 {
                match ipv4_of(field) {
                    Some(b) => Some(v4_groups(b)),
                    None => None,
                }
            } else {
                None
            },
        }
    }
}

/// Like `groups_of`, with the empty text as the empty list.
pub open spec fn list_of(s: Seq<char>, allow_v4: bool) -> Option<Seq<u16>> {
    if s.len() == 0 {
        Some(Seq::empty())
    } else {
        groups_of(s, allow_v4)
    }
}

/// The index of the first `::` in `s`.
pub open spec fn double_colon_at(s: Seq<char>) -> Option<int>
    decreases s.len(),
{
    if s.len() < 2 {
        None
    } else if s[0] == ':' && s[1] == ':' {
        Some(0)
    } else {
        match double_colon_at(s.drop_first()) {
            Some(i) => Some(i + 1),
            None => None,
        }
    }
}

/// The IPv6 address that `s` writes: eight groups, the last two of which may
/// be written as an IPv4 address; or groups before and after the first `::`,
/// which stands for one or more zero groups and after which alone an IPv4
/// part may come.
pub open spec fn ipv6_of(s: Seq<char>) -> Option<Seq<u16>> {
    match double_colon_at(s) {
        None => match groups_of(s, true) {
            Some(g) => if g.len() == 8 {
                Some(g)
            } else {
                None
            },
            None => None,
        },
        Some(i) => match (list_of(s.subrange(0, i), false), list_of(s.subrange(i + 2, s.len() as int), true)) {
            (Some(h), Some(t)) => if h.len() + t.len() <= 7 {
                Some(h + Seq::new((8 - h.len() - t.len()) as nat, |k: int| 0u16) + t)
            } else {
                None
            },
            _ => None,
        },
    }
}

/// `a` is the address that `s` writes; a text that reads as IPv4 is IPv4.
pub open spec fn ip_denotes(a: IpAddress, s: Seq<char>) -> bool {
    match a {
        IpAddress::V4(b) => ipv4_of(s) == Some(b@),
        IpAddress::V6(g) => ipv4_of(s) is None && ipv6_of(s) == Some(g@),
    }
}

proof fn lemma_double_colon_found(s: Seq<char>, j: int)
    requires
        0 <= j,
        j + 1 < s.len(),
        s[j] == ':' && s[j + 1] == ':',
        forall|m: int| 0 <= m < j ==> !(s[m] == ':' && #[trigger] s[m + 1] == ':'),
    ensures
        double_colon_at(s) == Some(j),
    decreases j,
{
    if j > 0 {
        let t = s.drop_first();
        assert(!(s[0int] == ':' && s[0int + 1] == ':'));
        assert forall|m: int| 0 <= m < j - 1 implies !(t[m] == ':' && #[trigger] t[m + 1] == ':') by {
            assert(t[m] == s[m + 1] && t[m + 1] == s[m + 2]);
            assert(!(s[m + 1] == ':' && s[m + 1 + 1] == ':'));
        }
        assert(t[j - 1] == s[j] && t[j] == s[j + 1]);
        lemma_double_colon_found(t, j - 1);
    }
}

proof fn lemma_double_colon_absent(s: Seq<char>)
    requires
        forall|m: int| 0 <= m && m + 1 < s.len() ==> !(s[m] == ':' && #[trigger] s[m + 1] == ':'),
    ensures
        double_colon_at(s) is None,
    decreases s.len(),
{
    if s.len() >= 2 {
        let t = s.drop_first();
        assert(!(s[0int] == ':' && s[0int + 1] == ':'));
        assert forall|m: int| 0 <= m && m + 1 < t.len() implies !(t[m] == ':' && #[trigger] t[m + 1] == ':') by {
            assert(t[m] == s[m + 1] && t[m + 1] == s[m + 2]);
            assert(!(s[m + 1] == ':' && s[m + 1 + 1] == ':'));
        }
        lemma_double_colon_absent(t);
    }
}

fn parse_hex_group(text: &str, start: usize, end: usize) -> (r: Option<u16>)
    requires
        start <= end <= text@.len(),
    ensures
        r == hex_group_of(text@.subrange(start as int, end as int)),
{
    let ghost t = text@.subrange(start as int, end as int);
    let len = end - start;
    if len < 1 || len > 4 {
        return None;
    }
    let mut v: u32 = 0;
    let mut i: usize = 0;
    while i < len
        invariant
            i <= len <= 4,
            start + len == end,
            end <= text@.len(),
            t == text@.subrange(start as int, end as int),
            forall|m: int| 0 <= m < i ==> #[trigger] is_hex_digit(t[m]),
            v as int == hex_value(t.subrange(0, i as int)),
            i == 0 ==> v == 0,
            i == 1 ==> v < 16,
            i == 2 ==> v < 256,
            i == 3 ==> v < 4096,
            v < 65536,
        decreases len - i,
    {
        let c = text.get_char(start + i);
        assert(c == t[i as int]);
        let d: u32 = if '0' <= c && c <= '9' {
            c as u32 - 48
        } else if 'a' <= c && c <= 'f' {
            c as u32 - 87
        } else if 'A' <= c && c <= 'F' {
            c as u32 - 55
        } else {
            assert(!is_hex_digit(t[i as int]));
            return None;
        };
        assert(t.subrange(0, i + 1).drop_last() =~= t.subrange(0, i as int));
        v = v * 16 + d;
        i = i + 1;
    }
    assert(t.subrange(0, len as int) =~= t);
    Some(v as u16)
}

fn parse_groups(text: &str, start: usize, end: usize, allow_v4: bool) -> (r: Option<Vec<u16>>)
    requires
        start <= end <= text@.len(),
    ensures
        match r {
            Some(v) => groups_of(text@.subrange(start as int, end as int), allow_v4) == Some(v@),
            None => groups_of(text@.subrange(start as int, end as int), allow_v4) is None,
        },
{
    let ghost whole = text@.subrange(start as int, end as int);
    let mut out: Vec<u16> = Vec::new();
    let mut pos: usize = start;
    proof {
        if let Some(rest) = groups_of(whole, allow_v4) {
            assert(out@ + rest =~= rest);
        }
    }
    loop
        invariant
            start <= pos <= end,
            end <= text@.len(),
            whole == text@.subrange(start as int, end as int),
            groups_of(whole, allow_v4) == match groups_of(text@.subrange(pos as int, end as int), allow_v4) {
                Some(rest) => Some(out@ + rest),
                None => None::<Seq<u16>>,
            },
        decreases end - pos,
    {
        let ghost t = text@.subrange(pos as int, end as int);
        let ghost before = out@;
        let j = next_sep(text, pos, end, ':');
        let k = j - pos;
        assert(t.subrange(0, k as int) =~= text@.subrange(pos as int, j as int));
        let g = parse_hex_group(text, pos, j);
        if j < end {
            match g {
                None => return None,
                Some(g) => {
                    out.push(g);
                    assert(t.subrange(k + 1, t.len() as int) =~= text@.subrange(j + 1, end as int));
                    pos = j + 1;
                    proof {
                        let tail = groups_of(text@.subrange(pos as int, end as int), allow_v4);
                        if let Some(rest) = tail {
                            assert(before + (seq![g] + rest) =~= out@ + rest);
                        }
                    }
                },
            }
        } else {
            match g {
                Some(g) => {
                    out.push(g);
                    assert(out@ =~= before + seq![g]);
                    return Some(out);
                },
                None => {
                    if !allow_v4 {
                        return None;
                    }
                    match parse_ipv4(text.substring_char(pos, j)) {
                        None => return None,
                        Some(b) => {
                            proof {
                                assert(b@ == seq![b[0], b[1], b[2], b[3]]);
                            }
                            out.push((b[0] as u16) * 256 + (b[1] as u16));
                            out.push((b[2] as u16) * 256 + (b[3] as u16));
                            assert(out@ =~= before + v4_groups(b@));
                            return Some(out);
                        },
                    }
                },
            }
        }
    }
}

/// Reads an IPv6 address: eight hexadecimal groups separated by `:`, where
/// the first `::` stands for one or more zero groups and the last two groups
/// may be written as an IPv4 address.
pub fn parse_ipv6(text: &str) -> (r: Option<[u16; 8]>)
    ensures
        match r {
            Some(g) => ipv6_of(text@) == Some(g@),
            None => ipv6_of(text@) is None,
        },
{
    let n = text.unicode_len();
    let mut i: usize = 0;
    while n - i >= 2 && !(text.get_char(i) == ':' && text.get_char(i + 1) == ':')
        invariant
            n == text@.len(),
            i <= n,
            forall|m: int| 0 <= m < i ==> !(text@[m] == ':' && #[trigger] text@[m + 1] == ':'),
        decreases n - i,
    {
        i = i + 1;
    }
    let groups = if n - i < 2 {
        proof {
            assert forall|m: int| 0 <= m && m + 1 < text@.len() implies !(text@[m] == ':' && #[trigger] text@[m + 1] == ':') by {
                assert(m < i);
            }
            lemma_double_colon_absent(text@);
        }
        assert(text@.subrange(0, n as int) =~= text@);
        let g = match parse_groups(text, 0, n, true) {
            Some(g) => g,
            None => return None,
        };
        if g.len() != 8 {
            return None;
        }
        g
    } else {
        proof {
            lemma_double_colon_found(text@, i as int);
        }
        let head = if i == 0 {
            let v: Vec<u16> = Vec::new();
            v
        } else {
            match parse_groups(text, 0, i, false) {
                Some(h) => h,
                None => return None,
            }
        };
        let tail = if i + 2 == n {
            let v: Vec<u16> = Vec::new();
            v
        } else {
            match parse_groups(text, i + 2, n, true) {
                Some(t) => t,
                None => return None,
            }
        };
        assert(list_of(text@.subrange(0, i as int), false) == Some(head@));
        assert(list_of(text@.subrange(i + 2, n as int), true) == Some(tail@));
        if head.len() > 7 || tail.len() > 7 - head.len() {
            return None;
        }
        let zeros = 8 - head.len() - tail.len();
        let mut g = head;
        let ghost h = g@;
        let mut z: usize = 0;
        while z < zeros
            invariant
                z <= zeros,
                g@ == h + Seq::new(z as nat, |k: int| 0u16),
            decreases zeros - z,
        {
            g.push(0);
            assert(g@ =~= h + Seq::new((z + 1) as nat, |k: int| 0u16));
            z = z + 1;
        }
        let mut t = tail;
        let ghost tv = t@;
        g.append(&mut t);
        assert(g@ == h + Seq::new(zeros as nat, |k: int| 0u16) + tv);
        g
    };
    let a = [groups[0], groups[1], groups[2], groups[3], groups[4], groups[5], groups[6], groups[7]];
    assert(a@ =~= groups@);
    Some(a)
}

/// Reads an IP address: IPv4 where the text is one, else IPv6.
pub fn parse_ip(text: &str) -> (r: Option<IpAddress>)
    ensures
        match r {
            Some(a) => ip_denotes(a, text@),
            None => ipv4_of(text@) is None && ipv6_of(text@) is None,
        },
{
    match parse_ipv4(text) {
        Some(b) => Some(IpAddress::V4(b)),
        None => match parse_ipv6(text) {
            Some(g) => Some(IpAddress::V6(g)),
            None => None,
        },
    }
}

} // verus!
