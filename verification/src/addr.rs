//! IP addresses as plain values: a validated model type, parsing of textual
//! IPv4/IPv6 literals, and deterministic textual rendering.
//!
//! IPv4 literals are four decimal octets separated by dots, each without
//! leading zeros. IPv6 literals follow the usual grammar: colon-separated
//! groups of up to four hex digits, at most one `::` ellipsis standing for
//! one or more zero groups, and an optional trailing embedded IPv4 literal.
//! Rendering follows the usual conventions: dotted decimal for IPv4 and,
//! for IPv6, lowercase hex groups with the leftmost longest zero run
//! collapsed to `::` and IPv4-mapped addresses shown in dotted form, so
//! the text round-trips through the parser.
use vstd::prelude::*;
use vstd::string::StrSliceExecFns;

use crate::strutil::spec_split;
use crate::strutil::split_str;

verus! {

/// An IPv4 or IPv6 address, stored as its numeric components.
#[derive(Clone, Copy, PartialEq, Eq, Structural, Debug)]
pub enum IpAddress {
    V4(u8, u8, u8, u8),
    V6(u16, u16, u16, u16, u16, u16, u16, u16),
}

/// Decimal digit value of a character, or `None`.
pub open spec fn spec_digit_value(c: char) -> Option<u8> {
    if '0' <= c && c <= '9' {
        Some((c as u8 - '0' as u8) as u8)
    } else {
        None
    }
}

/// Hexadecimal digit value of a character, or `None`.
pub open spec fn spec_hex_digit_value(c: char) -> Option<u8> {
    if '0' <= c && c <= '9' {
        Some((c as u8 - '0' as u8) as u8)
    } else if 'a' <= c && c <= 'f' {
        Some((c as u8 - 'a' as u8 + 10) as u8)
    } else if 'A' <= c && c <= 'F' {
        Some((c as u8 - 'A' as u8 + 10) as u8)
    } else {
        None
    }
}

pub fn digit_value(c: char) -> (r: Option<u8>)
    ensures
        r == spec_digit_value(c),
{
    if '0' <= c && c <= '9' {
        Some((c as u8) - ('0' as u8))
    } else {
        None
    }
}

pub fn hex_digit_value(c: char) -> (r: Option<u8>)
    ensures
        r == spec_hex_digit_value(c),
{
    if '0' <= c && c <= '9' {
        Some((c as u8) - ('0' as u8))
    } else if 'a' <= c && c <= 'f' {
        Some((c as u8) - ('a' as u8) + 10)
    } else if 'A' <= c && c <= 'F' {
        Some((c as u8) - ('A' as u8) + 10)
    } else {
        None
    }
}

/// Whether every character of `s` is a decimal digit.
pub open spec fn spec_all_digits(s: Seq<char>) -> bool {
    forall|k: int| 0 <= k < s.len() ==> spec_digit_value(s[k]) is Some
}

/// Whether every character of `s` is a hexadecimal digit.
pub open spec fn spec_all_hex_digits(s: Seq<char>) -> bool {
    forall|k: int| 0 <= k < s.len() ==> spec_hex_digit_value(s[k]) is Some
}

/// Numeric value of a decimal digit string (non-digits count as zero).
pub open spec fn spec_decimal_value(s: Seq<char>) -> int
    decreases s.len(),
{
    if s.len() == 0 {
        0
    } else {
        spec_decimal_value(s.drop_last()) * 10 + (match spec_digit_value(s.last()) {
            Some(d) => d as int,
            None => 0,
        })
    }
}

/// Numeric value of a hexadecimal digit string (non-digits count as zero).
pub open spec fn spec_hex_value(s: Seq<char>) -> int
    decreases s.len(),
{
    if s.len() == 0 {
        0
    } else {
        spec_hex_value(s.drop_last()) * 16 + (match spec_hex_digit_value(s.last()) {
            Some(d) => d as int,
            None => 0,
        })
    }
}

/// `10^(number of digits)` grows as expected: a digit string of length at
/// most `n` has value below `10^n`; likewise base 16. Stated for the short
/// lengths that address literals use.
proof fn lemma_decimal_value_bound(s: Seq<char>, n: nat, bound: int)
    requires
        s.len() <= n,
        n == 1 ==> bound == 9,
        n == 2 ==> bound == 99,
        n == 3 ==> bound == 999,
        1 <= n <= 3,
    ensures
        0 <= spec_decimal_value(s) <= bound,
    decreases n,
{
    if s.len() > 0 {
        let d = match spec_digit_value(s.last()) {
            Some(d) => d as int,
            None => 0,
        };
        assert(0 <= d <= 9);
        if n == 1 {
            assert(spec_decimal_value(s.drop_last()) == 0);
        } else if n == 2 {
            lemma_decimal_value_bound(s.drop_last(), 1, 9);
        } else {
            lemma_decimal_value_bound(s.drop_last(), 2, 99);
        }
    }
}

proof fn lemma_hex_value_bound(s: Seq<char>, n: nat, bound: int)
    requires
        s.len() <= n,
        n == 1 ==> bound == 0xf,
        n == 2 ==> bound == 0xff,
        n == 3 ==> bound == 0xfff,
        n == 4 ==> bound == 0xffff,
        1 <= n <= 4,
    ensures
        0 <= spec_hex_value(s) <= bound,
    decreases n,
{
    if s.len() > 0 {
        let d = match spec_hex_digit_value(s.last()) {
            Some(d) => d as int,
            None => 0,
        };
        assert(0 <= d <= 15);
        if n == 1 {
            assert(spec_hex_value(s.drop_last()) == 0);
        } else if n == 2 {
            lemma_hex_value_bound(s.drop_last(), 1, 0xf);
        } else if n == 3 {
            lemma_hex_value_bound(s.drop_last(), 2, 0xff);
        } else {
            lemma_hex_value_bound(s.drop_last(), 3, 0xfff);
        }
    }
}

/// A decimal octet as written in an IPv4 literal: one to three digits,
/// no leading zero, value at most 255.
pub open spec fn spec_is_octet(s: Seq<char>) -> bool {
    1 <= s.len() <= 3 && spec_all_digits(s) && (s.len() > 1 ==> s[0] != '0')
        && spec_decimal_value(s) <= 255
}

/// A group in an IPv6 literal: one to four hexadecimal digits.
pub open spec fn spec_is_hex_group(s: Seq<char>) -> bool {
    1 <= s.len() <= 4 && spec_all_hex_digits(s)
}

/// Parses one decimal octet of an IPv4 literal.
pub fn parse_octet(s: &str) -> (r: Option<u8>)
    ensures
        r is Some <==> spec_is_octet(s@),
        r matches Some(v) ==> v as int == spec_decimal_value(s@),
{
    let n = s.unicode_len();
    if n == 0 || n > 3 {
        return None;
    }
    if n > 1 && s.get_char(0) == '0' {
        return None;
    }
    let mut value: u32 = 0;
    let mut i: usize = 0;
    while i < n
        invariant
            i <= n,
            n == s@.len(),
            n <= 3,
            spec_all_digits(s@.subrange(0, i as int)),
            value as int == spec_decimal_value(s@.subrange(0, i as int)),
            value <= 999,
        decreases n - i,
    {
        let c = s.get_char(i);
        match digit_value(c) {
            Some(d) => {
                proof {
                    lemma_decimal_value_bound(s@.subrange(0, i as int), 2, 99);
                }
                value = value * 10 + (d as u32);
                proof {
                    let t = s@.subrange(0, i + 1);
                    assert(t.drop_last() =~= s@.subrange(0, i as int));
                    assert(t.last() == s@[i as int]);
                }
            },
            None => {
                assert(!spec_all_digits(s@));
                return None;
            },
        }
        i = i + 1;
    }
    assert(s@.subrange(0, n as int) =~= s@);
    if value > 255 {
        return None;
    }
    Some(value as u8)
}

/// Parses one hexadecimal group of an IPv6 literal.
pub fn parse_hex_group(s: &str) -> (r: Option<u16>)
    ensures
        r is Some <==> spec_is_hex_group(s@),
        r matches Some(v) ==> v as int == spec_hex_value(s@),
{
    let n = s.unicode_len();
    if n == 0 || n > 4 {
        return None;
    }
    let mut value: u32 = 0;
    let mut i: usize = 0;
    while i < n
        invariant
            i <= n,
            n == s@.len(),
            n <= 4,
            spec_all_hex_digits(s@.subrange(0, i as int)),
            value as int == spec_hex_value(s@.subrange(0, i as int)),
            value <= 0xffff,
        decreases n - i,
    {
        let c = s.get_char(i);
        match hex_digit_value(c) {
            Some(d) => {
                proof {
                    lemma_hex_value_bound(s@.subrange(0, i as int), 3, 0xfff);
                }
                value = value * 16 + (d as u32);
                proof {
                    let t = s@.subrange(0, i + 1);
                    assert(t.drop_last() =~= s@.subrange(0, i as int));
                    assert(t.last() == s@[i as int]);
                }
            },
            None => {
                assert(!spec_all_hex_digits(s@));
                return None;
            },
        }
        i = i + 1;
    }
    assert(s@.subrange(0, n as int) =~= s@);
    Some(value as u16)
}

/// The address denoted by an IPv4 literal, or `None`.
pub open spec fn spec_parse_ipv4(s: Seq<char>) -> Option<IpAddress> {
    let parts = spec_split(s, '.');
    if parts.len() == 4 && spec_is_octet(parts[0]) && spec_is_octet(parts[1]) && spec_is_octet(
        parts[2],
    ) && spec_is_octet(parts[3]) {
        Some(
            IpAddress::V4(
                spec_decimal_value(parts[0]) as u8,
                spec_decimal_value(parts[1]) as u8,
                spec_decimal_value(parts[2]) as u8,
                spec_decimal_value(parts[3]) as u8,
            ),
        )
    } else {
        None
    }
}

/// Whether no piece of a split is empty.
pub open spec fn spec_no_empty(parts: Seq<Seq<char>>) -> bool {
    forall|k: int| 0 <= k < parts.len() ==> parts[k].len() > 0
}

/// The 16-bit words written by a run of hexadecimal groups, or `None` if
/// some piece is not a hexadecimal group.
pub open spec fn spec_group_words(parts: Seq<Seq<char>>) -> Option<Seq<u16>>
    decreases parts.len(),
{
    if parts.len() == 0 {
        Some(Seq::empty())
    } else if !spec_is_hex_group(parts[0]) {
        None
    } else {
        match spec_group_words(parts.drop_first()) {
            Some(ws) => Some(seq![(spec_hex_value(parts[0]) as u16)] + ws),
            None => None,
        }
    }
}

pub proof fn lemma_group_words(parts: Seq<Seq<char>>)
    ensures
        (spec_group_words(parts) is Some) == (forall|k: int|
            0 <= k < parts.len() ==> spec_is_hex_group(parts[k])),
        spec_group_words(parts) matches Some(ws) ==> ws.len() == parts.len() && (forall|k: int|
            0 <= k < parts.len() ==> ws[k] as int == spec_hex_value(parts[k])),
    decreases parts.len(),
{
    if parts.len() > 0 {
        let t = parts.drop_first();
        lemma_group_words(t);
        if spec_is_hex_group(parts[0]) {
            match spec_group_words(t) {
                Some(ws) => {
                    let full = seq![(spec_hex_value(parts[0]) as u16)] + ws;
                    assert(spec_group_words(parts) == Some(full));
                    assert forall|k: int| 0 <= k < parts.len() implies spec_is_hex_group(
                        parts[k],
                    ) by {
                        if k > 0 {
                            assert(parts[k] == t[k - 1]);
                        }
                    }
                    assert forall|k: int| 0 <= k < parts.len() implies full[k] as int
                        == spec_hex_value(parts[k]) by {
                        if k > 0 {
                            assert(parts[k] == t[k - 1]);
                            assert(full[k] == ws[k - 1]);
                        } else {
                            lemma_hex_value_bound(parts[0], 4, 0xffff);
                        }
                    }
                },
                None => {
                    assert(!(forall|k: int| 0 <= k < t.len() ==> spec_is_hex_group(t[k])));
                    let j = choose|j: int| 0 <= j < t.len() && !spec_is_hex_group(t[j]);
                    assert(parts[j + 1] == t[j]);
                    assert(!spec_is_hex_group(parts[j + 1]));
                },
            }
        }
    }
}

/// The two 16-bit words written by an embedded IPv4 literal, or `None`.
pub open spec fn spec_v4_words(s: Seq<char>) -> Option<Seq<u16>> {
    match spec_parse_ipv4(s) {
        Some(ip) => match ip {
            IpAddress::V4(a, b, c, d) => Some(
                seq![
                    ((a as u16) * 256 + (b as u16)) as u16,
                    ((c as u16) * 256 + (d as u16)) as u16,
                ],
            ),
            _ => None,
        },
        None => None,
    }
}

/// The words written by the trailing pieces of an IPv6 literal: hexadecimal
/// groups, with the final piece alternatively an embedded IPv4 literal.
pub open spec fn spec_tail_words(parts: Seq<Seq<char>>) -> Option<Seq<u16>> {
    if parts.len() == 0 {
        Some(Seq::empty())
    } else if spec_is_hex_group(parts.last()) {
        spec_group_words(parts)
    } else {
        match (spec_group_words(parts.drop_last()), spec_v4_words(parts.last())) {
            (Some(hw), Some(vw)) => Some(hw + vw),
            _ => None,
        }
    }
}

/// `n` zero words.
pub open spec fn spec_zero_words(n: nat) -> Seq<u16> {
    Seq::new(n, |i: int| 0u16)
}

/// An interior empty piece: the position of a `::` ellipsis with
/// groups on both sides.
pub open spec fn spec_mid_empty(parts: Seq<Seq<char>>, i: int) -> bool {
    0 < i < parts.len() - 1 && parts[i].len() == 0 && (forall|k: int|
        0 <= k < parts.len() && k != i ==> parts[k].len() > 0)
}

/// The eight 16-bit words denoted by an IPv6 literal, or `None`.
///
/// The literal is split on `:`; a `::` ellipsis shows up as an empty piece
/// (two leading or trailing empty pieces when the ellipsis starts or ends
/// the literal), and stands for one or more zero words.
pub open spec fn spec_ipv6_words(s: Seq<char>) -> Option<Seq<u16>> {
    let parts = spec_split(s, ':');
    let n = parts.len() as int;
    if spec_no_empty(parts) {
        match spec_tail_words(parts) {
            Some(ws) => if ws.len() == 8 {
                Some(ws)
            } else {
                None
            },
            None => None,
        }
    } else if n == 3 && parts[0].len() == 0 && parts[1].len() == 0 && parts[2].len() == 0 {
        Some(spec_zero_words(8))
    } else if n >= 3 && parts[0].len() == 0 && parts[1].len() == 0 && spec_no_empty(
        parts.subrange(2, n),
    ) {
        match spec_tail_words(parts.subrange(2, n)) {
            Some(ws) => if ws.len() <= 7 {
                Some(spec_zero_words((8 - ws.len()) as nat) + ws)
            } else {
                None
            },
            None => None,
        }
    } else if n >= 3 && parts[n - 1].len() == 0 && parts[n - 2].len() == 0 && spec_no_empty(
        parts.subrange(0, n - 2),
    ) {
        match spec_group_words(parts.subrange(0, n - 2)) {
            Some(ws) => if ws.len() <= 7 {
                Some(ws + spec_zero_words((8 - ws.len()) as nat))
            } else {
                None
            },
            None => None,
        }
    } else if exists|i: int| spec_mid_empty(parts, i) {
        let i = choose|i: int| spec_mid_empty(parts, i);
        match (spec_group_words(parts.subrange(0, i)), spec_tail_words(
            parts.subrange(i + 1, n),
        )) {
            (Some(hw), Some(tw)) => if hw.len() + tw.len() <= 7 {
                Some(hw + spec_zero_words((8 - hw.len() - tw.len()) as nat) + tw)
            } else {
                None
            },
            _ => None,
        }
    } else {
        None
    }
}

/// The address denoted by an IPv6 literal, or `None`.
pub open spec fn spec_parse_ipv6(s: Seq<char>) -> Option<IpAddress> {
    match spec_ipv6_words(s) {
        Some(ws) => Some(
            IpAddress::V6(ws[0], ws[1], ws[2], ws[3], ws[4], ws[5], ws[6], ws[7]),
        ),
        None => None,
    }
}

/// The address denoted by an IP literal: IPv6 when a colon occurs in it,
/// IPv4 otherwise.
pub open spec fn spec_parse_ip(s: Seq<char>) -> Option<IpAddress> {
    if crate::strutil::spec_find(s, ':') is Some {
        spec_parse_ipv6(s)
    } else {
        spec_parse_ipv4(s)
    }
}

/// Parses an IPv4 literal.
pub fn parse_ipv4(s: &str) -> (r: Option<IpAddress>)
    ensures
        r == spec_parse_ipv4(s@),
{
    let parts = split_str(s, '.');
    if parts.len() != 4 {
        return None;
    }
    let a = parse_octet(parts[0].as_str());
    let b = parse_octet(parts[1].as_str());
    let c = parse_octet(parts[2].as_str());
    let d = parse_octet(parts[3].as_str());
    match (a, b, c, d) {
        (Some(a), Some(b), Some(c), Some(d)) => Some(IpAddress::V4(a, b, c, d)),
        _ => None,
    }
}

/// Parses a run of hexadecimal groups, `parts[from..to]`, into words.
fn group_words_range(parts: &Vec<String>, from: usize, to: usize) -> (r: Option<Vec<u16>>)
    requires
        from <= to <= parts@.len(),
    ensures
        ({
            let sub = parts@.map_values(|t: String| t@).subrange(from as int, to as int);
            match r {
                Some(ws) => spec_group_words(sub) == Some(ws@),
                None => spec_group_words(sub) is None,
            }
        }),
{
    let ghost pv = parts@.map_values(|t: String| t@);
    let ghost sub = pv.subrange(from as int, to as int);
    proof {
        lemma_group_words(sub);
    }
    let mut ws: Vec<u16> = Vec::new();
    let mut i: usize = from;
    while i < to
        invariant
            from <= i <= to <= parts@.len(),
            pv == parts@.map_values(|t: String| t@),
            sub == pv.subrange(from as int, to as int),
            ws@.len() == i - from,
            forall|k: int| from <= k < i ==> spec_is_hex_group(#[trigger] pv[k]),
            forall|k: int|
                0 <= k < ws@.len() ==> #[trigger] ws@[k] as int == spec_hex_value(
                    pv[from + k],
                ),
        decreases to - i,
    {
        match parse_hex_group(parts[i].as_str()) {
            Some(w) => {
                ws.push(w);
            },
            None => {
                proof {
                    lemma_group_words(sub);
                    assert(sub[i - from] == pv[i as int]);
                    assert(!spec_is_hex_group(sub[i - from]));
                    if spec_group_words(sub) is Some {
                        assert(spec_is_hex_group(sub[i - from]));
                        assert(false);
                    }
                }
                return None;
            },
        }
        i = i + 1;
    }
    proof {
        assert forall|k: int| 0 <= k < sub.len() implies spec_is_hex_group(sub[k]) by {
            assert(sub[k] == pv[from + k]);
        }
        let full = spec_group_words(sub)->Some_0;
        assert forall|k: int| 0 <= k < ws@.len() implies ws@[k] == full[k] by {
            assert(sub[k] == pv[from + k]);
        }
        assert(ws@ =~= full);
    }
    Some(ws)
}

/// Parses the trailing pieces `parts[from..to]` of an IPv6 literal:
/// hexadecimal groups, with the final piece alternatively an embedded
/// IPv4 literal contributing two words.
fn tail_words_range(parts: &Vec<String>, from: usize, to: usize) -> (r: Option<Vec<u16>>)
    requires
        from <= to <= parts@.len(),
    ensures
        ({
            let sub = parts@.map_values(|t: String| t@).subrange(from as int, to as int);
            match r {
                Some(ws) => spec_tail_words(sub) == Some(ws@),
                None => spec_tail_words(sub) is None,
            }
        }),
{
    let ghost pv = parts@.map_values(|t: String| t@);
    let ghost sub = pv.subrange(from as int, to as int);
    if from == to {
        let ws: Vec<u16> = Vec::new();
        assert(sub =~= Seq::<Seq<char>>::empty());
        return Some(ws);
    }
    proof {
        assert(sub.last() == pv[to - 1]);
    }
    let last_is_group = parse_hex_group(parts[to - 1].as_str()).is_some();
    if last_is_group {
        group_words_range(parts, from, to)
    } else {
        let hw = group_words_range(parts, from, to - 1);
        let v4 = parse_ipv4(parts[to - 1].as_str());
        proof {
            assert(sub.drop_last() =~= pv.subrange(from as int, to - 1));
        }
        match (hw, v4) {
            (Some(hw), Some(ip)) => {
                match ip {
                    IpAddress::V4(a, b, c, d) => {
                        let mut ws = hw;
                        ws.push((a as u16) * 256 + (b as u16));
                        ws.push((c as u16) * 256 + (d as u16));
                        proof {
                            let gw = spec_group_words(sub.drop_last())->Some_0;
                            let vw = spec_v4_words(sub.last())->Some_0;
                            assert(ws@ =~= gw + vw);
                        }
                        Some(ws)
                    },
                    _ => {
                        proof {
                            assert(false);
                        }
                        None
                    },
                }
            },
            _ => None,
        }
    }
}

/// Parses an IPv6 literal.
pub fn parse_ipv6(s: &str) -> (r: Option<IpAddress>)
    ensures
        r == spec_parse_ipv6(s@),
{
    let parts = split_str(s, ':');
    let ghost pv = parts@.map_values(|t: String| t@);
    let n = parts.len();
    // Find the empty pieces: they mark the `::` ellipsis, if any.
    let mut count: usize = 0;
    let mut e1: usize = 0;
    let mut e2: usize = 0;
    let mut e3: usize = 0;
    let mut i: usize = 0;
    while i < n
        invariant
            i <= n,
            n == pv.len(),
            pv == parts@.map_values(|t: String| t@),
            count <= i,
            count == 0 ==> forall|k: int| 0 <= k < i ==> pv[k].len() > 0,
            count == 1 ==> e1 < i && pv[e1 as int].len() == 0 && forall|k: int|
                0 <= k < i && k != e1 ==> pv[k].len() > 0,
            count == 2 ==> e1 < e2 < i && pv[e1 as int].len() == 0 && pv[e2 as int].len() == 0
                && forall|k: int| 0 <= k < i && k != e1 && k != e2 ==> pv[k].len() > 0,
            count >= 3 ==> e1 < e2 < e3 < i && pv[e1 as int].len() == 0 && pv[
                e2 as int
            ].len() == 0 && pv[e3 as int].len() == 0,
        decreases n - i,
    {
        if parts[i].as_str().is_empty() {
            if count == 0 {
                e1 = i;
            } else if count == 1 {
                e2 = i;
            } else if count == 2 {
                e3 = i;
            }
            count = count + 1;
        }
        i = i + 1;
    }
    assert(pv =~= pv.subrange(0, n as int));
    let words: Option<Vec<u16>> = if count == 0 {
        // No ellipsis: the pieces must spell out all eight words.
        match tail_words_range(&parts, 0, n) {
            Some(ws) => if ws.len() == 8 {
                Some(ws)
            } else {
                None
            },
            None => None,
        }
    } else if n == 3 && count == 3 {
        // The literal `::` alone.
        assert(e1 == 0 && e2 == 1 && e3 == 2);
        let mut ws: Vec<u16> = Vec::new();
        let mut z: usize = 0;
        while z < 8
            invariant
                z <= 8,
                ws@ =~= spec_zero_words(z as nat),
            decreases 8 - z,
        {
            ws.push(0u16);
            assert(ws@ =~= spec_zero_words((z + 1) as nat));
            z = z + 1;
        }
        Some(ws)
    } else if count == 2 && e1 == 0 && e2 == 1 && n >= 3 {
        // Leading ellipsis.
        assert(spec_no_empty(pv.subrange(2, n as int)));
        match tail_words_range(&parts, 2, n) {
            Some(tw) => if tw.len() <= 7 {
                let mut ws: Vec<u16> = Vec::new();
                let mut z: usize = 0;
                let zn = 8 - tw.len();
                while z < zn
                    invariant
                        z <= zn,
                        ws@ =~= spec_zero_words(z as nat),
                    decreases zn - z,
                {
                    ws.push(0u16);
                    assert(ws@ =~= spec_zero_words((z + 1) as nat));
                    z = z + 1;
                }
                let mut j: usize = 0;
                while j < tw.len()
                    invariant
                        j <= tw@.len(),
                        zn == 8 - tw@.len(),
                        ws@ =~= spec_zero_words(zn as nat) + tw@.subrange(0, j as int),
                    decreases tw@.len() - j,
                {
                    ws.push(tw[j]);
                    assert(ws@ =~= spec_zero_words(zn as nat) + tw@.subrange(0, j + 1));
                    j = j + 1;
                }
                assert(tw@.subrange(0, tw@.len() as int) =~= tw@);
                Some(ws)
            } else {
                None
            },
            None => None,
        }
    } else if count == 2 && n >= 3 && e1 == n - 2 && e2 == n - 1 {
        // Trailing ellipsis.
        assert(spec_no_empty(pv.subrange(0, n - 2)));
        match group_words_range(&parts, 0, n - 2) {
            Some(hw) => if hw.len() <= 7 {
                let mut ws = hw;
                let zn = 8 - ws.len();
                let ghost hws = ws@;
                let mut z: usize = 0;
                while z < zn
                    invariant
                        z <= zn,
                        ws@ =~= hws + spec_zero_words(z as nat),
                    decreases zn - z,
                {
                    ws.push(0u16);
                    assert(ws@ =~= hws + spec_zero_words((z + 1) as nat));
                    z = z + 1;
                }
                Some(ws)
            } else {
                None
            },
            None => None,
        }
    } else if count == 1 && 0 < e1 && e1 < n - 1 {
        // Interior ellipsis.
        assert(spec_mid_empty(pv, e1 as int));
        proof {
            let ch = choose|i: int| spec_mid_empty(pv, i);
            if ch != e1 {
                assert(pv[ch].len() == 0);
                assert(false);
            }
        }
        let hw = group_words_range(&parts, 0, e1);
        let tw = tail_words_range(&parts, e1 + 1, n);
        match (hw, tw) {
            (Some(hw), Some(tw)) => if hw.len() <= 7 && tw.len() <= 7 - hw.len() {
                let mut ws = hw;
                let ghost hws = ws@;
                let zn = 8 - ws.len() - tw.len();
                let mut z: usize = 0;
                while z < zn
                    invariant
                        z <= zn,
                        ws@ =~= hws + spec_zero_words(z as nat),
                    decreases zn - z,
                {
                    ws.push(0u16);
                    assert(ws@ =~= hws + spec_zero_words((z + 1) as nat));
                    z = z + 1;
                }
                let mut j: usize = 0;
                while j < tw.len()
                    invariant
                        j <= tw@.len(),
                        ws@ =~= hws + spec_zero_words(zn as nat) + tw@.subrange(0, j as int),
                        zn == 8 - hws.len() - tw@.len(),
                    decreases tw@.len() - j,
                {
                    ws.push(tw[j]);
                    assert(ws@ =~= hws + spec_zero_words(zn as nat) + tw@.subrange(
                        0,
                        j + 1,
                    ));
                    j = j + 1;
                }
                assert(tw@.subrange(0, tw@.len() as int) =~= tw@);
                Some(ws)
            } else {
                None
            },
            _ => None,
        }
    } else {
        proof {
            let ni = n as int;
            assert(count >= 1);
            assert(pv[e1 as int].len() == 0);
            assert(!spec_no_empty(pv));
            // No interior ellipsis fits.
            if exists|i: int| spec_mid_empty(pv, i) {
                let ch = choose|i: int| spec_mid_empty(pv, i);
                assert(pv[ch].len() == 0);
                if count == 1 {
                    if ch != e1 {
                        assert(false);
                    }
                    assert(0 < e1 && e1 < ni - 1);
                    assert(false);
                } else {
                    assert(pv[e2 as int].len() == 0);
                    if ch != e1 {
                        assert(false);
                    }
                    if ch != e2 {
                        assert(false);
                    }
                    assert(false);
                }
            }
            // Not the bare `::` literal.
            if ni == 3 && pv[0].len() == 0 && pv[1].len() == 0 && pv[2].len() == 0 {
                if count == 1 {
                    assert(false);
                } else if count == 2 {
                    assert(e1 == 0 && e2 == 1);
                    assert(pv[2].len() > 0);
                    assert(false);
                } else {
                    assert(count == 3);
                    assert(false);
                }
            }
            // No leading ellipsis fits.
            if ni >= 3 && pv[0].len() == 0 && pv[1].len() == 0 && spec_no_empty(
                pv.subrange(2, ni),
            ) {
                if count == 1 {
                    assert(false);
                } else if count == 2 {
                    assert(e1 == 0 && e2 == 1);
                    assert(false);
                } else {
                    assert(e1 < e2 < e3 < ni);
                    assert(e3 >= 2);
                    assert(pv.subrange(2, ni)[e3 - 2] == pv[e3 as int]);
                    assert(false);
                }
            }
            // No trailing ellipsis fits.
            if ni >= 3 && pv[ni - 1].len() == 0 && pv[ni - 2].len() == 0 && spec_no_empty(
                pv.subrange(0, ni - 2),
            ) {
                if count == 1 {
                    assert(false);
                } else if count == 2 {
                    assert(e2 == ni - 1 && e1 == ni - 2);
                    assert(false);
                } else {
                    assert(e1 < e2 < e3 < ni);
                    assert(e1 < ni - 2);
                    assert(pv.subrange(0, ni - 2)[e1 as int] == pv[e1 as int]);
                    assert(false);
                }
            }
            assert(spec_ipv6_words(s@) is None);
        }
        None
    };
    match words {
        Some(ws) => {
            assert(ws@.len() == 8);
            Some(
                IpAddress::V6(ws[0], ws[1], ws[2], ws[3], ws[4], ws[5], ws[6], ws[7]),
            )
        },
        None => {
            assert(spec_ipv6_words(s@) is None);
            None
        },
    }
}

/// The character for a hexadecimal digit value, lowercase.
pub open spec fn spec_hex_char(d: u8) -> char {
    if d < 10 {
        crate::strutil::spec_digit_char(d)
    } else if d == 10 {
        'a'
    } else if d == 11 {
        'b'
    } else if d == 12 {
        'c'
    } else if d == 13 {
        'd'
    } else if d == 14 {
        'e'
    } else {
        'f'
    }
}

/// A one-character string slice for a hexadecimal digit value.
pub fn hex_digit_str(d: u8) -> (r: &'static str)
    requires
        d < 16,
    ensures
        r@ =~= seq![spec_hex_char(d)],
{
    proof {
        reveal_strlit("a");
        reveal_strlit("b");
        reveal_strlit("c");
        reveal_strlit("d");
        reveal_strlit("e");
        reveal_strlit("f");
    }
    if d < 10 {
        crate::strutil::digit_str(d)
    } else {
        match d {
            10 => "a",
            11 => "b",
            12 => "c",
            13 => "d",
            14 => "e",
            _ => "f",
        }
    }
}

/// Lowercase hexadecimal rendering of a word, without leading zeros.
pub open spec fn spec_u16_hex_string(n: u16) -> Seq<char>
    decreases n,
{
    if n < 16 {
        seq![spec_hex_char(n as u8)]
    } else {
        spec_u16_hex_string(n / 16) + seq![spec_hex_char((n % 16) as u8)]
    }
}

/// Renders a word in lowercase hexadecimal.
pub fn u16_to_hex_string(n: u16) -> (r: String)
    ensures
        r@ == spec_u16_hex_string(n),
    decreases n,
{
    if n < 16 {
        let mut s = String::new();
        s.append(hex_digit_str(n as u8));
        assert(s@ =~= spec_u16_hex_string(n));
        s
    } else {
        let mut s = u16_to_hex_string(n / 16);
        s.append(hex_digit_str((n % 16) as u8));
        assert(s@ =~= spec_u16_hex_string(n));
        s
    }
}

/// Dotted-decimal text of four octets.
pub open spec fn spec_v4_text(a: u8, b: u8, c: u8, d: u8) -> Seq<char> {
    crate::strutil::spec_u32_string(a as u32) + seq!['.'] + crate::strutil::spec_u32_string(
        b as u32,
    ) + seq!['.'] + crate::strutil::spec_u32_string(c as u32) + seq!['.']
        + crate::strutil::spec_u32_string(d as u32)
}

/// Number of consecutive zero words starting at `i`.
pub open spec fn spec_zero_run_at(ws: Seq<u16>, i: int) -> int
    decreases ws.len() - i
        when 0 <= i <= ws.len()
{
    if i >= ws.len() || ws[i] != 0 {
        0
    } else {
        1 + spec_zero_run_at(ws, i + 1)
    }
}

/// The leftmost longest run of zero words starting at or after `i`:
/// its start and its length.
pub open spec fn spec_best_zero_run(ws: Seq<u16>, i: int) -> (int, int)
    decreases ws.len() - i
        when 0 <= i <= ws.len()
{
    if i >= ws.len() {
        (i, 0)
    } else {
        let here = spec_zero_run_at(ws, i);
        let rest = spec_best_zero_run(ws, i + 1);
        if here >= rest.1 {
            (i, here)
        } else {
            rest
        }
    }
}

/// The hex groups `ws[from..to]`, joined with `:`.
pub open spec fn spec_join_hex(ws: Seq<u16>, from: int, to: int) -> Seq<char>
    decreases to - from,
{
    if from >= to {
        Seq::empty()
    } else if from == to - 1 {
        spec_u16_hex_string(ws[from])
    } else {
        spec_u16_hex_string(ws[from]) + seq![':'] + spec_join_hex(ws, from + 1, to)
    }
}

/// Whether eight words are an IPv4-mapped address (`::ffff:a.b.c.d`).
pub open spec fn spec_is_v4_mapped(ws: Seq<u16>) -> bool {
    ws.len() == 8 && ws[0] == 0 && ws[1] == 0 && ws[2] == 0 && ws[3] == 0 && ws[4] == 0 && ws[5]
        == 0xffff
}

/// RFC 5952-style text of eight words: the leftmost longest run of two
/// or more zero words collapses to `::`, and an IPv4-mapped address
/// shows its trailing four bytes in dotted form.
pub open spec fn spec_v6_text(ws: Seq<u16>) -> Seq<char> {
    if spec_is_v4_mapped(ws) {
        "::ffff:"@ + spec_v4_text(
            (ws[6] >> 8) as u8,
            ws[6] as u8,
            (ws[7] >> 8) as u8,
            ws[7] as u8,
        )
    } else {
        let best = spec_best_zero_run(ws, 0);
        if best.1 < 2 {
            spec_join_hex(ws, 0, 8)
        } else {
            spec_join_hex(ws, 0, best.0) + "::"@ + spec_join_hex(ws, best.0 + best.1, 8)
        }
    }
}

/// The textual form this library writes for an address: dotted decimal
/// for IPv4; for IPv6 the usual compressed form (as std renders it).
pub open spec fn spec_ip_string(ip: IpAddress) -> Seq<char> {
    match ip {
        IpAddress::V4(a, b, c, d) => spec_v4_text(a, b, c, d),
        IpAddress::V6(w0, w1, w2, w3, w4, w5, w6, w7) => spec_v6_text(
            seq![w0, w1, w2, w3, w4, w5, w6, w7],
        ),
    }
}

/// Renders four octets in dotted decimal.
fn v4_text(a: u8, b: u8, c: u8, d: u8) -> (r: String)
    ensures
        r@ == spec_v4_text(a, b, c, d),
{
    proof {
        reveal_strlit(".");
    }
    let mut s = crate::strutil::u32_to_string(a as u32);
    s.append(".");
    let sb = crate::strutil::u32_to_string(b as u32);
    s.append(sb.as_str());
    s.append(".");
    let sc = crate::strutil::u32_to_string(c as u32);
    s.append(sc.as_str());
    s.append(".");
    let sd = crate::strutil::u32_to_string(d as u32);
    s.append(sd.as_str());
    assert(s@ =~= spec_v4_text(a, b, c, d));
    s
}

/// Finds the leftmost longest run of zero words.
fn best_zero_run(ws: &Vec<u16>) -> (r: (usize, usize))
    requires
        ws@.len() == 8,
    ensures
        r.0 as int == spec_best_zero_run(ws@, 0).0,
        r.1 as int == spec_best_zero_run(ws@, 0).1,
        r.0 + r.1 <= 8,
{
    let mut best_start: usize = 8;
    let mut best_len: usize = 0;
    let mut run_next: usize = 0;
    let mut i: usize = 8;
    while i > 0
        invariant
            i <= 8,
            ws@.len() == 8,
            run_next as int == spec_zero_run_at(ws@, i as int),
            run_next <= 8 - i,
            best_start as int == spec_best_zero_run(ws@, i as int).0,
            best_len as int == spec_best_zero_run(ws@, i as int).1,
            best_start + best_len <= 8,
        decreases i,
    {
        i = i - 1;
        let here: usize = if ws[i] == 0 {
            1 + run_next
        } else {
            0
        };
        assert(here as int == spec_zero_run_at(ws@, i as int));
        if here >= best_len {
            best_start = i;
            best_len = here;
        }
        run_next = here;
    }
    (best_start, best_len)
}

/// Renders the hex groups `ws[from..to]`, joined with `:`.
fn join_hex_groups(ws: &Vec<u16>, from: usize, to: usize) -> (r: String)
    requires
        from <= to <= ws@.len(),
    ensures
        r@ == spec_join_hex(ws@, from as int, to as int),
    decreases to - from,
{
    proof {
        reveal_strlit(":");
    }
    if from >= to {
        String::new()
    } else if from == to - 1 {
        u16_to_hex_string(ws[from])
    } else {
        let mut s = u16_to_hex_string(ws[from]);
        s.append(":");
        let rest = join_hex_groups(ws, from + 1, to);
        s.append(rest.as_str());
        assert(s@ =~= spec_join_hex(ws@, from as int, to as int));
        s
    }
}

/// Renders an address in this library's textual form.
pub fn ip_to_string(ip: &IpAddress) -> (r: String)
    ensures
        r@ == spec_ip_string(*ip),
{
    match ip {
        IpAddress::V4(a, b, c, d) => v4_text(*a, *b, *c, *d),
        IpAddress::V6(w0, w1, w2, w3, w4, w5, w6, w7) => {
            let mut ws: Vec<u16> = Vec::new();
            ws.push(*w0);
            ws.push(*w1);
            ws.push(*w2);
            ws.push(*w3);
            ws.push(*w4);
            ws.push(*w5);
            ws.push(*w6);
            ws.push(*w7);
            assert(ws@ =~= seq![*w0, *w1, *w2, *w3, *w4, *w5, *w6, *w7]);
            if *w0 == 0 && *w1 == 0 && *w2 == 0 && *w3 == 0 && *w4 == 0 && *w5 == 0xffff {
                let mut s: String = "::ffff:".to_owned();
                let v4 = v4_text((*w6 >> 8) as u8, *w6 as u8, (*w7 >> 8) as u8, *w7 as u8);
                s.append(v4.as_str());
                assert(s@ =~= spec_ip_string(*ip));
                s
            } else {
                assert(!spec_is_v4_mapped(ws@));
                let (start, len) = best_zero_run(&ws);
                if len < 2 {
                    let s = join_hex_groups(&ws, 0, 8);
                    assert(s@ =~= spec_ip_string(*ip));
                    s
                } else {
                    proof {
                        reveal_strlit("::");
                    }
                    let mut s = join_hex_groups(&ws, 0, start);
                    s.append("::");
                    let right = join_hex_groups(&ws, start + len, 8);
                    s.append(right.as_str());
                    assert(s@ =~= spec_ip_string(*ip));
                    s
                }
            }
        },
    }
}

/// Parses an IP address literal, IPv4 or IPv6.
pub fn parse_ip_literal(s: &str) -> (r: Option<IpAddress>)
    ensures
        r == spec_parse_ip(s@),
{
    match crate::strutil::find_char(s, ':') {
        Some(i) => {
            proof {
                crate::strutil::lemma_spec_find_some(s@, ':', i as int);
            }
            parse_ipv6(s)
        },
        None => {
            proof {
                crate::strutil::lemma_spec_find_none(s@, ':');
            }
            parse_ipv4(s)
        },
    }
}

} // verus!
