//! The canonical textual form of a 128-bit identifier: 32 hexadecimal
//! digits in groups of 8-4-4-4-12, separated by hyphens, 36 characters in
//! all. Rendering is always lowercase; parsing accepts either letter case.

use vstd::prelude::*;
use crate::upstream::push_char;

verus! {

/// Whether position `i` of the canonical text holds a hyphen.
pub open spec fn is_hyphen_pos(i: int) -> bool {
    i == 8 || i == 13 || i == 18 || i == 23
}

/// The index (0 to 31, most significant first) of the hexadecimal digit
/// standing at a non-hyphen position `i` of the canonical text.
pub open spec fn digit_slot(i: int) -> int {
    if i < 8 {
        i
    } else if i < 13 {
        i - 1
    } else if i < 18 {
        i - 2
    } else if i < 23 {
        i - 3
    } else {
        i - 4
    }
}

/// The position of the canonical text at which hexadecimal digit `d` stands.
pub open spec fn digit_pos(d: int) -> int {
    if d < 8 {
        d
    } else if d < 12 {
        d + 1
    } else if d < 16 {
        d + 2
    } else if d < 20 {
        d + 3
    } else {
        d + 4
    }
}

/// The value of hexadecimal digit `d` of a 16-byte identifier: the high
/// nibble of byte `d / 2` for even `d`, the low nibble for odd `d`.
pub open spec fn nibble_of(b: Seq<u8>, d: int) -> u8
    recommends
        0 <= d < 2 * b.len(),
{
    if d % 2 == 0 {
        b[d / 2] / 16
    } else {
        b[d / 2] % 16
    }
}

/// The lowercase hexadecimal digit character for a nibble value below 16.
pub open spec fn nibble_char(n: u8) -> char
    recommends
        n < 16,
{
    if n < 10 {
        ((n + 48) as u8) as char
    } else {
        ((n + 87) as u8) as char
    }
}

/// A lowercase hexadecimal digit character.
pub open spec fn is_lower_hex_digit(c: char) -> bool {
    ('0' <= c && c <= '9') || ('a' <= c && c <= 'f')
}

/// A hexadecimal digit character of either case.
pub open spec fn is_hex_digit(c: char) -> bool {
    is_lower_hex_digit(c) || ('A' <= c && c <= 'F')
}

/// The numeric value of a hexadecimal digit character.
pub open spec fn hex_val(c: char) -> u8
    recommends
        is_hex_digit(c),
{
    if '0' <= c && c <= '9' {
        ((c as int) - 48) as u8
    } else if 'a' <= c && c <= 'f' {
        ((c as int) - 87) as u8
    } else {
        ((c as int) - 55) as u8
    }
}

/// The character of the canonical text of `b` at position `i`.
pub open spec fn canonical_char(b: Seq<u8>, i: int) -> char {
    if is_hyphen_pos(i) {
        '-'
    } else {
        nibble_char(nibble_of(b, digit_slot(i)))
    }
}

/// The canonical 36-character text of a 16-byte identifier.
pub open spec fn canonical_text(b: Seq<u8>) -> Seq<char> {
    Seq::new(36, |i: int| canonical_char(b, i))
}

/// The canonical grammar: 36 characters, hyphens exactly at positions
/// 8, 13, 18 and 23, lowercase hexadecimal digits everywhere else.
pub open spec fn is_canonical(s: Seq<char>) -> bool {
    &&& s.len() == 36
    &&& forall|i: int| 0 <= i < 36 && is_hyphen_pos(i) ==> s[i] == '-'
    &&& forall|i: int| 0 <= i < 36 && !is_hyphen_pos(i) ==> is_lower_hex_digit(#[trigger] s[i])
}

/// The grammar accepted of a namespace argument: as the canonical grammar,
/// with hexadecimal digits of either case.
pub open spec fn is_uuid_text(s: Seq<char>) -> bool {
    &&& s.len() == 36
    &&& forall|i: int| 0 <= i < 36 && is_hyphen_pos(i) ==> s[i] == '-'
    &&& forall|i: int| 0 <= i < 36 && !is_hyphen_pos(i) ==> is_hex_digit(#[trigger] s[i])
}

/// The 16 bytes that a well-formed identifier text denotes.
pub open spec fn bytes_of_text(s: Seq<char>) -> Seq<u8> {
    Seq::new(
        16,
        |k: int| (hex_val(s[digit_pos(2 * k)]) * 16 + hex_val(s[digit_pos(2 * k + 1)])) as u8,
    )
}

/// A character that the variant bits `10` can produce at position 19 of
/// the canonical text.
pub open spec fn is_variant_char(c: char) -> bool {
    c == '8' || c == '9' || c == 'a' || c == 'b'
}

/// The twelve hexadecimal digits of six node bytes, as they stand at the
/// end of the canonical text.
pub open spec fn node_text(node: Seq<u8>) -> Seq<char> {
    Seq::new(12, |j: int| nibble_char(nibble_of(node, j)))
}

/// Position 14 of the canonical text shows the version nibble of byte 6,
/// and position 19 shows a variant character whenever the two topmost bits
/// of byte 8 are `10`.
pub proof fn lemma_version_variant_chars(b: Seq<u8>)
    requires
        b.len() == 16,
    ensures
        canonical_text(b)[14] == nibble_char(b[6] / 16),
        b[8] / 64 == 2 ==> is_variant_char(canonical_text(b)[19]),
{
    assert(canonical_text(b)[14] == canonical_char(b, 14));
    assert(canonical_text(b)[19] == canonical_char(b, 19));
    assert(digit_slot(19) == 16);
    assert(nibble_of(b, 16) == b[8] / 16);
    if b[8] / 64 == 2 {
        assert(8 <= b[8] / 16 < 12);
    }
}

/// The last twelve characters of the canonical text render the last six
/// bytes.
pub proof fn lemma_node_tail(b: Seq<u8>)
    requires
        b.len() == 16,
    ensures
        canonical_text(b).subrange(24, 36) == node_text(b.subrange(10, 16)),
{
    let t = canonical_text(b).subrange(24, 36);
    let n = node_text(b.subrange(10, 16));
    assert forall|j: int| 0 <= j < 12 implies t[j] == n[j] by {
        assert(t[j] == canonical_char(b, 24 + j));
        assert(digit_slot(24 + j) == 20 + j);
        assert((20 + j) / 2 == 10 + j / 2);
        assert(b.subrange(10, 16)[j / 2] == b[10 + j / 2]);
    }
    assert(t =~= n);
}

/// The canonical text of any 16 bytes meets the canonical grammar.
pub proof fn lemma_canonical_text_is_canonical(b: Seq<u8>)
    requires
        b.len() == 16,
    ensures
        is_canonical(canonical_text(b)),
{
    assert forall|i: int| 0 <= i < 36 && !is_hyphen_pos(i) implies is_lower_hex_digit(
        #[trigger] canonical_text(b)[i],
    ) by {
        assert(0 <= digit_slot(i) < 32);
        assert(nibble_of(b, digit_slot(i)) < 16);
    }
}

/// Strict lexicographic precedence on byte strings: after a common
/// prefix, some position holds a smaller byte.
pub open spec fn bytes_precede(a: Seq<u8>, b: Seq<u8>) -> bool {
    exists|k: int|
        0 <= k < a.len() && k < b.len() && a.subrange(0, k) == b.subrange(0, k) && a[k] < b[k]
}

/// Strict lexicographic precedence on texts: after a common prefix, some
/// position holds a smaller character.
pub open spec fn text_precedes(a: Seq<char>, b: Seq<char>) -> bool {
    exists|p: int|
        0 <= p < a.len() && p < b.len() && a.subrange(0, p) == b.subrange(0, p) && a[p] < b[p]
}

/// Both position maps are strictly monotone, so the canonical text keeps
/// the digits in byte order.
proof fn lemma_positions_monotone()
    ensures
        forall|d1: int, d2: int|
            0 <= d1 < d2 < 32 ==> #[trigger] digit_pos(d1) < #[trigger] digit_pos(d2),
        forall|i1: int, i2: int|
            0 <= i1 < i2 < 36 && !is_hyphen_pos(i1) && !is_hyphen_pos(i2)
                ==> #[trigger] digit_slot(i1) < #[trigger] digit_slot(i2),
{
}

/// A byte splits into its two nibbles, and comparing bytes is comparing
/// nibble pairs in order.
proof fn lemma_nibble_split(x: u8, y: u8)
    ensures
        x == 16 * (x / 16) + x % 16,
        x < y ==> (x / 16 < y / 16 || (x / 16 == y / 16 && x % 16 < y % 16)),
        x / 16 < y / 16 ==> x < y,
        x / 16 == y / 16 && x % 16 < y % 16 ==> x < y,
{
}

/// Law: the canonical rendering preserves order. Two 16-byte identifiers
/// compare lexicographically exactly as their canonical texts do, so any
/// family of identifiers whose byte values increase over time — as the
/// sortable time-based layouts arrange — yields texts that sort in the
/// same order.
pub proof fn lemma_canonical_order(a: Seq<u8>, b: Seq<u8>)
    requires
        a.len() == 16,
        b.len() == 16,
    ensures
        bytes_precede(a, b) <==> text_precedes(canonical_text(a), canonical_text(b)),
{
    lemma_digit_positions();
    lemma_positions_monotone();
    let ta = canonical_text(a);
    let tb = canonical_text(b);
    if bytes_precede(a, b) {
        let k = choose|k: int|
            0 <= k < 16 && a.subrange(0, k) == b.subrange(0, k) && a[k] < b[k];
        assert forall|j: int| 0 <= j < k implies a[j] == b[j] by {
            assert(a.subrange(0, k)[j] == a[j]);
            assert(b.subrange(0, k)[j] == b[j]);
        }
        lemma_nibble_split(a[k], b[k]);
        let d = if a[k] / 16 < b[k] / 16 {
            2 * k
        } else {
            2 * k + 1
        };
        let p = digit_pos(d);
        assert(nibble_of(a, d) < nibble_of(b, d)) by {
            assert(d / 2 == k);
        }
        assert forall|i: int| 0 <= i < p implies ta[i] == tb[i] by {
            if !is_hyphen_pos(i) {
                let di = digit_slot(i);
                assert(di < d);
                assert(di / 2 <= k);
                if di / 2 < k {
                    assert(a[di / 2] == b[di / 2]);
                } else {
                    assert(di == 2 * k && d == 2 * k + 1);
                    assert(a[k] / 16 == b[k] / 16);
                }
                assert(nibble_of(a, di) == nibble_of(b, di));
            }
        }
        assert(ta.subrange(0, p) =~= tb.subrange(0, p));
        assert(ta[p] == nibble_char(nibble_of(a, d)));
        assert(ta[p] < tb[p]);
        assert(text_precedes(ta, tb));
    }
    if text_precedes(ta, tb) {
        let p = choose|p: int|
            0 <= p < 36 && ta.subrange(0, p) == tb.subrange(0, p) && ta[p] < tb[p];
        assert forall|i: int| 0 <= i < p implies ta[i] == tb[i] by {
            assert(ta.subrange(0, p)[i] == ta[i]);
            assert(tb.subrange(0, p)[i] == tb[i]);
        }
        assert(!is_hyphen_pos(p));
        let d = digit_slot(p);
        let k = d / 2;
        assert(nibble_char(nibble_of(a, d)) < nibble_char(nibble_of(b, d)));
        assert(nibble_of(a, d) < nibble_of(b, d));
        assert forall|j: int| 0 <= j < k implies a[j] == b[j] by {
            let p_hi = digit_pos(2 * j);
            let p_lo = digit_pos(2 * j + 1);
            assert(p_hi < p && p_lo < p);
            assert(ta[p_hi] == tb[p_hi] && ta[p_lo] == tb[p_lo]);
            assert(nibble_of(a, 2 * j) == nibble_of(b, 2 * j)) by {
                assert(nibble_char(nibble_of(a, 2 * j)) == nibble_char(nibble_of(b, 2 * j)));
            }
            assert(nibble_of(a, 2 * j + 1) == nibble_of(b, 2 * j + 1)) by {
                assert(nibble_char(nibble_of(a, 2 * j + 1)) == nibble_char(
                    nibble_of(b, 2 * j + 1),
                ));
            }
            lemma_nibble_split(a[j], b[j]);
        }
        if d % 2 == 0 {
            assert(a[k] / 16 < b[k] / 16);
            lemma_nibble_split(a[k], b[k]);
        } else {
            let p_hi = digit_pos(d - 1);
            assert(0 <= d - 1 < 32);
            assert(digit_pos(d) == p);
            assert(p_hi < p);
            assert((d - 1) / 2 == k);
            assert(!is_hyphen_pos(p_hi) && digit_slot(p_hi) == d - 1);
            assert(ta[p_hi] == nibble_char(nibble_of(a, d - 1)));
            assert(tb[p_hi] == nibble_char(nibble_of(b, d - 1)));
            assert(nibble_char(nibble_of(a, d - 1)) == nibble_char(nibble_of(b, d - 1)));
            assert(a[k] / 16 == b[k] / 16);
            assert(a[k] % 16 < b[k] % 16);
            lemma_nibble_split(a[k], b[k]);
        }
        assert(a[k] < b[k]);
        assert(a.subrange(0, k) =~= b.subrange(0, k));
        assert(bytes_precede(a, b));
    }
}

/// Law: parsing inverts formatting. The canonical text of any 16 bytes
/// meets the namespace grammar and denotes the same 16 bytes again.
pub proof fn lemma_format_parse_roundtrip(b: Seq<u8>)
    requires
        b.len() == 16,
    ensures
        is_uuid_text(canonical_text(b)),
        bytes_of_text(canonical_text(b)) == b,
{
    lemma_digit_positions();
    lemma_canonical_text_is_canonical(b);
    let t = canonical_text(b);
    assert forall|k: int| 0 <= k < 16 implies bytes_of_text(t)[k] == b[k] by {
        assert(t[digit_pos(2 * k)] == nibble_char(nibble_of(b, 2 * k)));
        assert(t[digit_pos(2 * k + 1)] == nibble_char(nibble_of(b, 2 * k + 1)));
        assert((2 * k) / 2 == k && (2 * k + 1) / 2 == k);
        assert(hex_val(nibble_char(b[k] / 16)) == b[k] / 16);
        assert(hex_val(nibble_char(b[k] % 16)) == b[k] % 16);
        lemma_nibble_split(b[k], b[k]);
    }
    assert(bytes_of_text(t) =~= b);
}

/// Law: formatting inverts parsing. A text already in the canonical
/// lowercase form is exactly the canonical text of the bytes it denotes.
pub proof fn lemma_parse_format_roundtrip(s: Seq<char>)
    requires
        is_canonical(s),
    ensures
        canonical_text(bytes_of_text(s)) == s,
{
    lemma_digit_positions();
    let b = bytes_of_text(s);
    assert forall|d: int| 0 <= d < 32 implies nibble_of(b, d) == hex_val(s[digit_pos(d)]) by {
        let k = d / 2;
        let hi = hex_val(s[digit_pos(2 * k)]);
        let lo = hex_val(s[digit_pos(2 * k + 1)]);
        assert(is_lower_hex_digit(s[digit_pos(2 * k)]) && is_lower_hex_digit(
            s[digit_pos(2 * k + 1)],
        ));
        assert(hi < 16 && lo < 16);
        assert(b[k] == hi * 16 + lo);
        assert(b[k] / 16 == hi && b[k] % 16 == lo);
    }
    assert forall|i: int| 0 <= i < 36 implies canonical_text(b)[i] == s[i] by {
        if !is_hyphen_pos(i) {
            let d = digit_slot(i);
            assert(digit_pos(d) == i);
            assert(is_lower_hex_digit(s[i]));
            assert(nibble_char(hex_val(s[i])) == s[i]);
        }
    }
    assert(canonical_text(b) =~= s);
}

/// Computes the lowercase hexadecimal digit for a nibble value.
pub fn hex_digit(n: u8) -> (c: char)
    requires
        n < 16,
    ensures
        c == nibble_char(n),
{
    if n < 10 {
        (n + 48) as char
    } else {
        (n + 87) as char
    }
}

/// Computes the numeric value of a hexadecimal digit character.
pub fn hex_value(c: char) -> (v: u8)
    requires
        is_hex_digit(c),
    ensures
        v == hex_val(c),
        v < 16,
{
    if c >= '0' && c <= '9' {
        (c as u8) - 48
    } else if c >= 'a' && c <= 'f' {
        (c as u8) - 87
    } else {
        (c as u8) - 55
    }
}

/// Renders 16 bytes in the canonical hyphenated lowercase form.
pub fn format_bytes(b: &Vec<u8>) -> (s: String)
    requires
        b@.len() == 16,
    ensures
        s@ == canonical_text(b@),
        is_canonical(s@),
{
    let mut s = String::new();
    let mut i: usize = 0;
    while i < 36
        invariant
            b@.len() == 16,
            i <= 36,
            s@.len() == i,
            forall|j: int| 0 <= j < i ==> s@[j] == canonical_char(b@, j),
        decreases 36 - i,
    {
        if i == 8 || i == 13 || i == 18 || i == 23 {
            push_char(&mut s, '-');
        } else {
            let d: usize = if i < 8 {
                i
            } else if i < 13 {
                i - 1
            } else if i < 18 {
                i - 2
            } else if i < 23 {
                i - 3
            } else {
                i - 4
            };
            assert(d == digit_slot(i as int));
            let byte = b[d / 2];
            let n = if d % 2 == 0 {
                byte / 16
            } else {
                byte % 16
            };
            assert(n == nibble_of(b@, d as int));
            push_char(&mut s, hex_digit(n));
        }
        i += 1;
    }
    proof {
        assert(s@ =~= canonical_text(b@));
        lemma_canonical_text_is_canonical(b@);
    }
    s
}

/// The digit positions are exactly the non-hyphen positions: `digit_pos`
/// and `digit_slot` invert each other.
pub proof fn lemma_digit_positions()
    ensures
        forall|d: int|
            0 <= d < 32 ==> 0 <= #[trigger] digit_pos(d) < 36 && !is_hyphen_pos(digit_pos(d))
                && digit_slot(digit_pos(d)) == d,
        forall|i: int|
            0 <= i < 36 && !is_hyphen_pos(i) ==> 0 <= #[trigger] digit_slot(i) < 32 && digit_pos(
                digit_slot(i),
            ) == i,
{
}

/// Computes the position of the canonical text at which hexadecimal digit
/// `d` stands.
fn digit_position(d: usize) -> (p: usize)
    requires
        d < 32,
    ensures
        p == digit_pos(d as int),
        p < 36,
{
    if d < 8 {
        d
    } else if d < 12 {
        d + 1
    } else if d < 16 {
        d + 2
    } else if d < 20 {
        d + 3
    } else {
        d + 4
    }
}

/// Parses an identifier from its hyphenated text form. Returns the 16
/// bytes exactly when the text meets the grammar, accepting hexadecimal
/// digits of either case, and `None` on every other string.
pub fn parse_text(s: &str) -> (r: Option<Vec<u8>>)
    ensures
        r is Some <==> is_uuid_text(s@),
        r is Some ==> r->Some_0@ == bytes_of_text(s@) && r->Some_0@.len() == 16,
{
    let n = s.unicode_len();
    if n != 36 {
        return None;
    }
    let mut i: usize = 0;
    while i < 36
        invariant
            s@.len() == 36,
            i <= 36,
            forall|j: int|
                0 <= j < i ==> if is_hyphen_pos(j) {
                    s@[j] == '-'
                } else {
                    is_hex_digit(#[trigger] s@[j])
                },
        decreases 36 - i,
    {
        let c = s.get_char(i);
        if i == 8 || i == 13 || i == 18 || i == 23 {
            if c != '-' {
                return None;
            }
        } else {
            let ok = (c >= '0' && c <= '9') || (c >= 'a' && c <= 'f') || (c >= 'A' && c <= 'F');
            if !ok {
                return None;
            }
        }
        i += 1;
    }
    let mut out: Vec<u8> = Vec::new();
    let mut k: usize = 0;
    while k < 16
        invariant
            is_uuid_text(s@),
            k <= 16,
            out@.len() == k,
            forall|j: int| 0 <= j < k ==> out@[j] == bytes_of_text(s@)[j],
        decreases 16 - k,
    {
        proof {
            lemma_digit_positions();
        }
        let p_hi = digit_position(2 * k);
        let p_lo = digit_position(2 * k + 1);
        let hi = hex_value(s.get_char(p_hi));
        let lo = hex_value(s.get_char(p_lo));
        out.push(hi * 16 + lo);
        k += 1;
    }
    proof {
        assert(out@ =~= bytes_of_text(s@));
    }
    Some(out)
}

} // verus!
