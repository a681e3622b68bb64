//! Request-target dissection: the path before the first `?`, the query
//! string after it, and the query's key/value pairs, where the last
//! occurrence of a repeated key wins.  Query keys and values are
//! percent-decoded, a plus reading as a space; an escape that does not
//! decode (malformed, or yielding invalid UTF-8) stands as written.

use vstd::prelude::*;
use vstd::string::{StringSliceAdditionalSpecFns, StrSliceExecFns};
use vstd::utf8::{decode_utf8, encode_utf8, valid_utf8};
use crate::strmap::StrMap;
use crate::strutil::split_seq;

verus! {

/// How many characters precede the first `c` in `s`; the whole length when
/// `c` does not occur.
pub open spec fn first_idx(s: Seq<char>, c: char) -> int
    decreases s.len(),
{
    if s.len() == 0 {
        0
    } else if s[0] == c {
        0
    } else {
        1 + first_idx(s.skip(1), c)
    }
}

pub proof fn lemma_first_idx_bounds(s: Seq<char>, c: char)
    ensures
        0 <= first_idx(s, c) <= s.len(),
        first_idx(s, c) < s.len() ==> s[first_idx(s, c)] == c,
        forall|j: int| 0 <= j < first_idx(s, c) ==> s[j] != c,
    decreases s.len(),
{
    if s.len() == 0 {
    } else if s[0] == c {
    } else {
        lemma_first_idx_bounds(s.skip(1), c);
        assert forall|j: int| 0 <= j < first_idx(s, c) implies s[j] != c by {
            if j > 0 {
                assert(s.skip(1)[j - 1] == s[j]);
                assert(s.skip(1)[j - 1] != c);
            }
        }
    }
}

/// The text before the first `c`.
pub open spec fn before_char(s: Seq<char>, c: char) -> Seq<char> {
    s.subrange(0, first_idx(s, c))
}

/// The text after the first `c`; empty when `c` does not occur.
pub open spec fn after_char(s: Seq<char>, c: char) -> Seq<char> {
    if first_idx(s, c) < s.len() {
        s.subrange(first_idx(s, c) + 1, s.len() as int)
    } else {
        Seq::empty()
    }
}

/// Splits `s` at the first occurrence of `c`: the text before it, and the
/// text after it (empty when `c` does not occur).
pub fn split_at_first(s: &str, c: char) -> (r: (String, String))
    ensures
        r.0@ == before_char(s@, c),
        r.1@ == after_char(s@, c),
{
    let n = s.unicode_len();
    let mut i: usize = 0;
    assert(s@.skip(0) =~= s@);
    while i < n && s.get_char(i) != c
        invariant
            i <= n,
            n == s@.len(),
            first_idx(s@, c) == i + first_idx(s@.skip(i as int), c),
        decreases n - i,
    {
        proof {
            assert(s@.skip(i as int)[0] == s@[i as int]);
            assert(s@.skip(i as int).skip(1) =~= s@.skip(i + 1 as int));
        }
        i = i + 1;
    }
    proof {
        if i < n {
            assert(s@.skip(i as int)[0] == s@[i as int]);
            assert(first_idx(s@, c) == i);
        } else {
            assert(s@.skip(n as int) =~= Seq::<char>::empty());
            assert(first_idx(s@, c) == n);
        }
    }
    let head = s.substring_char(0, i).to_owned();
    let tail = if i < n {
        s.substring_char(i + 1, n).to_owned()
    } else {
        String::new()
    };
    proof {
        assert(head@ =~= before_char(s@, c));
        if i < n {
            assert(tail@ =~= after_char(s@, c));
        } else {
            assert(tail@ =~= after_char(s@, c));
        }
    }
    (head, tail)
}

/// Whether a byte is an ASCII hexadecimal digit.
pub open spec fn is_hex_byte(b: u8) -> bool {
    (0x30 <= b && b <= 0x39) || (0x41 <= b && b <= 0x46) || (0x61 <= b && b <= 0x66)
}

/// The value of an ASCII hexadecimal digit byte.
pub open spec fn hex_byte_val(b: u8) -> u8 {
    if 0x30 <= b && b <= 0x39 {
        (b - 0x30) as u8
    } else if 0x41 <= b && b <= 0x46 {
        (b - 0x37) as u8
    } else {
        (b - 0x57) as u8
    }
}

/// The percent-decoding of a byte sequence: `%` followed by two hex digits
/// becomes that byte; with `plus_as_space`, `+` becomes a space; anything
/// else — a malformed escape included — stands as written.
pub open spec fn pct_decoded_bytes(s: Seq<u8>, plus_as_space: bool) -> Seq<u8>
    decreases s.len(),
{
    if s.len() == 0 {
        Seq::empty()
    } else if s[0] == 0x25 && s.len() >= 3 && is_hex_byte(s[1]) && is_hex_byte(s[2]) {
        seq![(hex_byte_val(s[1]) * 16 + hex_byte_val(s[2])) as u8] + pct_decoded_bytes(
            s.skip(3),
            plus_as_space,
        )
    } else if plus_as_space && s[0] == 0x2b {
        seq![0x20u8] + pct_decoded_bytes(s.skip(1), plus_as_space)
    } else {
        seq![s[0]] + pct_decoded_bytes(s.skip(1), plus_as_space)
    }
}

/// The percent-decoding of text: its UTF-8 bytes decoded; when the decoded
/// bytes are not valid UTF-8, the text stands as written.
pub open spec fn spec_pct_decoded(t: Seq<char>, plus_as_space: bool) -> Seq<char> {
    let d = pct_decoded_bytes(encode_utf8(t), plus_as_space);
    if valid_utf8(d) {
        decode_utf8(d)
    } else {
        t
    }
}

/// Relies on std's `String::from_utf8`: it accepts exactly valid UTF-8,
/// and the string reads as those bytes decoded.
#[verifier::external_body]
fn string_from_utf8(bytes: Vec<u8>) -> (r: Option<String>)
    ensures
        r matches Some(t) ==> valid_utf8(bytes@) && t@ == decode_utf8(bytes@),
        r is None ==> !valid_utf8(bytes@),
{
    String::from_utf8(bytes).ok()
}

fn hex_byte(b: u8) -> (r: Option<u8>)
    ensures
        r matches Some(v) ==> is_hex_byte(b) && v == hex_byte_val(b) && v <= 15,
        r is None ==> !is_hex_byte(b),
{
    if 0x30 <= b && b <= 0x39 {
        Some(b - 0x30)
    } else if 0x41 <= b && b <= 0x46 {
        Some(b - 0x37)
    } else if 0x61 <= b && b <= 0x66 {
        Some(b - 0x57)
    } else {
        None
    }
}

/// Percent-decodes one component of the request target.
pub fn pct_decode_component(s: &str, plus_as_space: bool) -> (r: String)
    ensures
        r@ == spec_pct_decoded(s@, plus_as_space),
{
    let bytes = s.as_bytes_vec();
    let ghost bs = bytes@;
    assert(bs == encode_utf8(s@));
    let n = bytes.len();
    let mut out: Vec<u8> = Vec::new();
    let mut i: usize = 0;
    assert(bs.skip(0) =~= bs);
    while i < n
        invariant
            i <= n,
            n == bs.len(),
            bytes@ == bs,
            pct_decoded_bytes(bs, plus_as_space) == out@ + pct_decoded_bytes(
                bs.skip(i as int),
                plus_as_space,
            ),
        decreases n - i,
    {
        proof {
            assert(bs.skip(i as int)[0] == bs[i as int]);
        }
        let b = bytes[i];
        let mut stepped = false;
        if b == 0x25 && n - i >= 3 {
            let h1 = hex_byte(bytes[i + 1]);
            let h2 = hex_byte(bytes[i + 2]);
            if h1.is_some() && h2.is_some() {
                let v1 = h1.unwrap();
                let v2 = h2.unwrap();
                proof {
                    assert(bs.skip(i as int).len() >= 3);
                    assert(bs.skip(i as int)[1] == bs[i + 1]);
                    assert(bs.skip(i as int)[2] == bs[i + 2]);
                    assert(bs.skip(i as int).skip(3) =~= bs.skip(i + 3));
                }
                out.push(v1 * 16 + v2);
                i = i + 3;
                stepped = true;
            }
        }
        if !stepped {
            proof {
                assert(bs.skip(i as int).skip(1) =~= bs.skip(i + 1));
            }
            if plus_as_space && b == 0x2b {
                out.push(0x20);
            } else {
                out.push(b);
            }
            i = i + 1;
        }
    }
    proof {
        assert(bs.skip(n as int) =~= Seq::<u8>::empty());
        assert(out@ =~= pct_decoded_bytes(bs, plus_as_space));
    }
    match string_from_utf8(out) {
        Some(t) => t,
        None => s.to_owned(),
    }
}

/// One `key=value` piece as a pair: the text before the first `=` and the
/// text after it (empty when there is none).
pub open spec fn pair_of_piece(p: Seq<char>) -> (Seq<char>, Seq<char>) {
    (before_char(p, '='), after_char(p, '='))
}

/// One `key=value` piece with both halves percent-decoded, a plus reading
/// as a space.
pub open spec fn decoded_pair_of_piece(p: Seq<char>) -> (Seq<char>, Seq<char>) {
    (
        spec_pct_decoded(before_char(p, '='), true),
        spec_pct_decoded(after_char(p, '='), true),
    )
}

/// The decoded pairs of the non-empty pieces, in order.
pub open spec fn pairs_of_pieces(pieces: Seq<Seq<char>>) -> Seq<(Seq<char>, Seq<char>)>
    decreases pieces.len(),
{
    if pieces.len() == 0 {
        Seq::empty()
    } else {
        pairs_of_pieces(pieces.drop_last()) + (if pieces.last().len() > 0 {
            seq![decoded_pair_of_piece(pieces.last())]
        } else {
            Seq::empty()
        })
    }
}

/// The decoded key/value pairs of a query string, in order of appearance.
pub open spec fn query_pairs(q: Seq<char>) -> Seq<(Seq<char>, Seq<char>)> {
    pairs_of_pieces(split_seq(q, '&'))
}

/// The value of the last pair carrying key `k`, if any.
pub open spec fn lookup_pairs(ps: Seq<(Seq<char>, Seq<char>)>, k: Seq<char>) -> Option<Seq<char>>
    decreases ps.len(),
{
    if ps.len() == 0 {
        None
    } else if ps.last().0 == k {
        Some(ps.last().1)
    } else {
        lookup_pairs(ps.drop_last(), k)
    }
}

/// The view of an optional string.
pub open spec fn opt_view(o: Option<String>) -> Option<Seq<char>> {
    match o {
        Some(s) => Some(s@),
        None => None,
    }
}

/// Reads a query string into a key-to-value map: pieces split on `&`,
/// each non-empty piece split at its first `=` and both halves
/// percent-decoded, the last occurrence of a repeated key winning.
pub fn parse_query(q: &str) -> (m: StrMap<String>)
    ensures
        m.wf(),
        forall|k: Seq<char>| #[trigger] opt_view(m.spec_get(k)) == lookup_pairs(
            query_pairs(q@),
            k,
        ),
{
    let pieces = crate::strutil::split_char(q, '&');
    let ghost pv = crate::strutil::str_views(pieces@);
    let mut m: StrMap<String> = StrMap::new();
    let n = pieces.len();
    let mut i: usize = 0;
    assert(pv.subrange(0, 0) =~= Seq::<Seq<char>>::empty());
    while i < n
        invariant
            i <= n,
            n == pieces@.len(),
            pv == crate::strutil::str_views(pieces@),
            m.wf(),
            forall|k: Seq<char>| #[trigger] opt_view(m.spec_get(k)) == lookup_pairs(
                pairs_of_pieces(pv.subrange(0, i as int)),
                k,
            ),
        decreases n - i,
    {
        let piece = &pieces[i];
        proof {
            assert(pv.subrange(0, i + 1 as int).drop_last() =~= pv.subrange(0, i as int));
            assert(pv.subrange(0, i + 1 as int).last() == piece@);
        }
        if !piece.as_str().is_empty() {
            let (key_raw, value_raw) = split_at_first(piece.as_str(), '=');
            let key = pct_decode_component(key_raw.as_str(), true);
            let value = pct_decode_component(value_raw.as_str(), true);
            let ghost pr = decoded_pair_of_piece(piece@);
            let ghost ps0 = pairs_of_pieces(pv.subrange(0, i as int));
            let ghost mprev = m;
            m.insert(key, value);
            proof {
                assert(pairs_of_pieces(pv.subrange(0, i + 1 as int)) =~= ps0.push(pr));
                assert(ps0.push(pr).drop_last() =~= ps0);
                assert forall|k: Seq<char>| #[trigger] opt_view(m.spec_get(k)) == lookup_pairs(
                    ps0.push(pr),
                    k,
                ) by {
                    if k == pr.0 {
                        assert(m.spec_get(k) == Some(value));
                    } else {
                        assert(m.spec_get(k) == mprev.spec_get(k));
                    }
                }
            }
        } else {
            proof {
                assert(pairs_of_pieces(pv.subrange(0, i + 1 as int)) =~= pairs_of_pieces(
                    pv.subrange(0, i as int),
                ));
            }
        }
        i = i + 1;
    }
    proof {
        assert(pv.subrange(0, n as int) =~= pv);
    }
    m
}

} // verus!
