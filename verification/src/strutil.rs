//! Verified string dissection: splitting on a separator, whitespace
//! splitting, trimming, ASCII upper-casing, prefix tests and joining.  The
//! dispatcher and the route-annotation reader are built from these.

use vstd::prelude::*;
use vstd::string::{StrSliceExecFns, StringExecFns};
use crate::text::push_char;

verus! {

/// The views of a vector of strings.
pub open spec fn str_views(v: Seq<String>) -> Seq<Seq<char>> {
    v.map_values(|s: String| s@)
}

/// ASCII whitespace.
pub open spec fn is_space(c: char) -> bool {
    c == ' ' || c == '\t' || c == '\r' || c == '\n'
}

fn is_space_c(c: char) -> (r: bool)
    ensures
        r == is_space(c),
{
    c == ' ' || c == '\t' || c == '\r' || c == '\n'
}

/// Splitting `s` on `sep` with the piece `cur` already begun: every
/// separator ends a piece, so n separators give n + 1 pieces.
pub open spec fn split_acc(s: Seq<char>, sep: char, cur: Seq<char>) -> Seq<Seq<char>>
    decreases s.len(),
{
    if s.len() == 0 {
        seq![cur]
    } else if s[0] == sep {
        seq![cur] + split_acc(s.skip(1), sep, Seq::empty())
    } else {
        split_acc(s.skip(1), sep, cur.push(s[0]))
    }
}

/// The pieces of `s` between occurrences of `sep`, in order; empty pieces
/// kept.
pub open spec fn split_seq(s: Seq<char>, sep: char) -> Seq<Seq<char>> {
    split_acc(s, sep, Seq::empty())
}

/// Splits `s` on `sep`; empty pieces kept.
pub fn split_char(s: &str, sep: char) -> (r: Vec<String>)
    ensures
        str_views(r@) == split_seq(s@, sep),
{
    let n = s.unicode_len();
    let mut out: Vec<String> = Vec::new();
    let mut cur = String::new();
    let mut i: usize = 0;
    assert(s@.skip(0) =~= s@);
    while i < n
        invariant
            i <= n,
            n == s@.len(),
            split_seq(s@, sep) == str_views(out@) + split_acc(s@.skip(i as int), sep, cur@),
        decreases n - i,
    {
        let c = s.get_char(i);
        proof {
            assert(s@.skip(i as int)[0] == s@[i as int]);
            assert(s@.skip(i as int).skip(1) =~= s@.skip(i + 1 as int));
        }
        if c == sep {
            out.push(cur);
            cur = String::new();
            proof {
                assert(str_views(out@) =~= str_views(out@.drop_last()).push(out@.last()@));
                assert(split_seq(s@, sep) =~= str_views(out@) + split_acc(
                    s@.skip(i + 1 as int),
                    sep,
                    cur@,
                ));
            }
        } else {
            push_char(&mut cur, c);
        }
        i = i + 1;
    }
    proof {
        assert(s@.skip(n as int) =~= Seq::<char>::empty());
    }
    out.push(cur);
    proof {
        assert(str_views(out@) =~= str_views(out@.drop_last()).push(out@.last()@));
        assert(str_views(out@) =~= split_seq(s@, sep));
    }
    out
}

/// Splitting `s` at whitespace runs with the piece `cur` already begun;
/// empty pieces never appear.
pub open spec fn ws_split_acc(s: Seq<char>, cur: Seq<char>) -> Seq<Seq<char>>
    decreases s.len(),
{
    if s.len() == 0 {
        if cur.len() > 0 {
            seq![cur]
        } else {
            Seq::empty()
        }
    } else if is_space(s[0]) {
        (if cur.len() > 0 {
            seq![cur]
        } else {
            Seq::empty()
        }) + ws_split_acc(s.skip(1), Seq::empty())
    } else {
        ws_split_acc(s.skip(1), cur.push(s[0]))
    }
}

/// The whitespace-separated words of `s`, in order.
pub open spec fn ws_split(s: Seq<char>) -> Seq<Seq<char>> {
    ws_split_acc(s, Seq::empty())
}

/// Splits `s` at whitespace runs; no empty words.
pub fn split_whitespace(s: &str) -> (r: Vec<String>)
    ensures
        str_views(r@) == ws_split(s@),
{
    let n = s.unicode_len();
    let mut out: Vec<String> = Vec::new();
    let mut cur = String::new();
    let mut i: usize = 0;
    assert(s@.skip(0) =~= s@);
    while i < n
        invariant
            i <= n,
            n == s@.len(),
            ws_split(s@) == str_views(out@) + ws_split_acc(s@.skip(i as int), cur@),
        decreases n - i,
    {
        let c = s.get_char(i);
        proof {
            assert(s@.skip(i as int)[0] == s@[i as int]);
            assert(s@.skip(i as int).skip(1) =~= s@.skip(i + 1 as int));
        }
        if is_space_c(c) {
            if !cur.as_str().is_empty() {
                assert(cur@.len() > 0);
                out.push(cur);
                cur = String::new();
                proof {
                    assert(str_views(out@) =~= str_views(out@.drop_last()).push(out@.last()@));
                    assert(ws_split(s@) =~= str_views(out@) + ws_split_acc(
                        s@.skip(i + 1 as int),
                        cur@,
                    ));
                }
            } else {
                proof {
                    assert(cur@ =~= Seq::<char>::empty());
                    assert(ws_split(s@) =~= str_views(out@) + ws_split_acc(
                        s@.skip(i + 1 as int),
                        cur@,
                    ));
                }
            }
        } else {
            push_char(&mut cur, c);
        }
        i = i + 1;
    }
    proof {
        assert(s@.skip(n as int) =~= Seq::<char>::empty());
    }
    if !cur.as_str().is_empty() {
        out.push(cur);
        proof {
            assert(str_views(out@) =~= str_views(out@.drop_last()).push(out@.last()@));
        }
    }
    assert(str_views(out@) =~= ws_split(s@));
    out
}

/// `s` without leading whitespace.
pub open spec fn trim_start(s: Seq<char>) -> Seq<char>
    decreases s.len(),
{
    if s.len() > 0 && is_space(s[0]) {
        trim_start(s.skip(1))
    } else {
        s
    }
}

/// `s` without trailing whitespace.
pub open spec fn trim_end(s: Seq<char>) -> Seq<char>
    decreases s.len(),
{
    if s.len() > 0 && is_space(s.last()) {
        trim_end(s.drop_last())
    } else {
        s
    }
}

/// `s` without leading or trailing whitespace.
pub open spec fn trimmed(s: Seq<char>) -> Seq<char> {
    trim_end(trim_start(s))
}

/// Trims ASCII whitespace from both ends.
pub fn trim_str(s: &str) -> (r: String)
    ensures
        r@ == trimmed(s@),
{
    let n = s.unicode_len();
    let mut i: usize = 0;
    assert(s@.skip(0) =~= s@);
    while i < n && is_space_c(s.get_char(i))
        invariant
            i <= n,
            n == s@.len(),
            trim_start(s@) == trim_start(s@.skip(i as int)),
        decreases n - i,
    {
        proof {
            assert(s@.skip(i as int)[0] == s@[i as int]);
            assert(s@.skip(i as int).skip(1) =~= s@.skip(i + 1 as int));
        }
        i = i + 1;
    }
    proof {
        if i < n {
            assert(s@.skip(i as int)[0] == s@[i as int]);
            assert(trim_start(s@) == s@.skip(i as int));
        } else {
            assert(s@.skip(n as int) =~= Seq::<char>::empty());
            assert(trim_start(s@) =~= s@.skip(i as int));
        }
    }
    let mut j: usize = n;
    assert(s@.skip(i as int).take(j - i) =~= s@.subrange(i as int, j as int));
    assert(trim_end(s@.skip(i as int)) == trim_end(s@.subrange(i as int, j as int)));
    while j > i && is_space_c(s.get_char(j - 1))
        invariant
            i <= j <= n,
            n == s@.len(),
            trim_start(s@) == s@.skip(i as int),
            trim_end(s@.skip(i as int)) == trim_end(s@.subrange(i as int, j as int)),
        decreases j,
    {
        proof {
            let sub = s@.subrange(i as int, j as int);
            assert(sub.last() == s@[j - 1]);
            assert(sub.drop_last() =~= s@.subrange(i as int, j - 1));
        }
        j = j - 1;
    }
    proof {
        let sub = s@.subrange(i as int, j as int);
        if j > i {
            assert(sub.last() == s@[j - 1]);
            assert(trim_end(sub) == sub);
        } else {
            assert(sub =~= Seq::<char>::empty());
            assert(trim_end(sub) == sub);
        }
        assert(trimmed(s@) == s@.subrange(i as int, j as int));
    }
    let piece = s.substring_char(i, j);
    piece.to_owned()
}

/// Whether `p` is a prefix of `s`.
pub open spec fn has_prefix(s: Seq<char>, p: Seq<char>) -> bool {
    s.len() >= p.len() && s.subrange(0, p.len() as int) == p
}

/// Whether `s` starts with `p`.
pub fn starts_with(s: &str, p: &str) -> (r: bool)
    ensures
        r == has_prefix(s@, p@),
{
    let n = s.unicode_len();
    let m = p.unicode_len();
    if n < m {
        return false;
    }
    let mut i: usize = 0;
    while i < m
        invariant
            i <= m,
            m == p@.len(),
            n == s@.len(),
            m <= n,
            forall|j: int| 0 <= j < i ==> s@[j] == p@[j],
        decreases m - i,
    {
        if s.get_char(i) != p.get_char(i) {
            proof {
                assert(s@.subrange(0, m as int)[i as int] == s@[i as int]);
            }
            return false;
        }
        i = i + 1;
    }
    proof {
        assert(s@.subrange(0, m as int) =~= p@);
    }
    true
}

/// Whether `p` is a suffix of `s`.
pub open spec fn has_suffix(s: Seq<char>, p: Seq<char>) -> bool {
    s.len() >= p.len() && s.subrange(s.len() - p.len(), s.len() as int) == p
}

/// Whether `s` ends with `p`.
pub fn ends_with(s: &str, p: &str) -> (r: bool)
    ensures
        r == has_suffix(s@, p@),
{
    let n = s.unicode_len();
    let m = p.unicode_len();
    if n < m {
        return false;
    }
    let mut i: usize = 0;
    while i < m
        invariant
            i <= m,
            m == p@.len(),
            n == s@.len(),
            m <= n,
            forall|j: int| 0 <= j < i ==> s@[n - m + j] == p@[j],
        decreases m - i,
    {
        if s.get_char(n - m + i) != p.get_char(i) {
            proof {
                assert(s@.subrange(n - m, n as int)[i as int] == s@[n - m + i]);
            }
            return false;
        }
        i = i + 1;
    }
    proof {
        assert(s@.subrange(n - m, n as int) =~= p@);
    }
    true
}

/// The ASCII upper-case form of one character; others stand unchanged.
pub open spec fn spec_ascii_upper(c: char) -> char {
    if c == 'a' {
        'A'
    } else if c == 'b' {
        'B'
    } else if c == 'c' {
        'C'
    } else if c == 'd' {
        'D'
    } else if c == 'e' {
        'E'
    } else if c == 'f' {
        'F'
    } else if c == 'g' {
        'G'
    } else if c == 'h' {
        'H'
    } else if c == 'i' {
        'I'
    } else if c == 'j' {
        'J'
    } else if c == 'k' {
        'K'
    } else if c == 'l' {
        'L'
    } else if c == 'm' {
        'M'
    } else if c == 'n' {
        'N'
    } else if c == 'o' {
        'O'
    } else if c == 'p' {
        'P'
    } else if c == 'q' {
        'Q'
    } else if c == 'r' {
        'R'
    } else if c == 's' {
        'S'
    } else if c == 't' {
        'T'
    } else if c == 'u' {
        'U'
    } else if c == 'v' {
        'V'
    } else if c == 'w' {
        'W'
    } else if c == 'x' {
        'X'
    } else if c == 'y' {
        'Y'
    } else if c == 'z' {
        'Z'
    } else {
        c
    }
}

fn ascii_upper(c: char) -> (r: char)
    ensures
        r == spec_ascii_upper(c),
{
    match c {
        'a' => 'A',
        'b' => 'B',
        'c' => 'C',
        'd' => 'D',
        'e' => 'E',
        'f' => 'F',
        'g' => 'G',
        'h' => 'H',
        'i' => 'I',
        'j' => 'J',
        'k' => 'K',
        'l' => 'L',
        'm' => 'M',
        'n' => 'N',
        'o' => 'O',
        'p' => 'P',
        'q' => 'Q',
        'r' => 'R',
        's' => 'S',
        't' => 'T',
        'u' => 'U',
        'v' => 'V',
        'w' => 'W',
        'x' => 'X',
        'y' => 'Y',
        'z' => 'Z',
        other => other,
    }
}

/// The ASCII upper-case form of a character sequence.
pub open spec fn upper_seq(s: Seq<char>) -> Seq<char> {
    s.map_values(|c: char| spec_ascii_upper(c))
}

/// The ASCII upper-case form of `s`.
pub fn to_ascii_upper(s: &str) -> (r: String)
    ensures
        r@ == upper_seq(s@),
{
    let n = s.unicode_len();
    let mut out = String::new();
    let mut i: usize = 0;
    while i < n
        invariant
            i <= n,
            n == s@.len(),
            out@ =~= upper_seq(s@.subrange(0, i as int)),
        decreases n - i,
    {
        let c = ascii_upper(s.get_char(i));
        push_char(&mut out, c);
        proof {
            assert(out@ =~= upper_seq(s@.subrange(0, i + 1 as int)));
        }
        i = i + 1;
    }
    proof {
        assert(s@.subrange(0, n as int) =~= s@);
    }
    out
}

/// The words joined with single spaces, in order.
pub open spec fn joined_sp(parts: Seq<Seq<char>>) -> Seq<char>
    decreases parts.len(),
{
    if parts.len() == 0 {
        Seq::empty()
    } else if parts.len() == 1 {
        parts[0]
    } else {
        joined_sp(parts.drop_last()) + seq![' '] + parts.last()
    }
}

/// Joins `parts[from..]` with single spaces.
pub fn join_from(parts: &Vec<String>, from: usize) -> (r: String)
    requires
        from <= parts@.len(),
    ensures
        r@ == joined_sp(str_views(parts@).skip(from as int)),
{
    let n = parts.len();
    let mut out = String::new();
    let mut i: usize = from;
    assert(str_views(parts@).skip(from as int).subrange(0, 0) =~= Seq::<Seq<char>>::empty());
    while i < n
        invariant
            from <= i <= n,
            n == parts@.len(),
            out@ =~= joined_sp(str_views(parts@).skip(from as int).subrange(0, i - from)),
        decreases n - i,
    {
        if i > from {
            push_char(&mut out, ' ');
        }
        out.append(parts[i].as_str());
        proof {
            let tail = str_views(parts@).skip(from as int);
            assert(tail.subrange(0, i - from + 1).drop_last() =~= tail.subrange(0, i - from));
            assert(tail.subrange(0, i - from + 1).last() == tail[i - from]);
            assert(tail[i - from] == parts@[i as int]@);
            assert(out@ =~= joined_sp(tail.subrange(0, i - from + 1)));
        }
        i = i + 1;
    }
    proof {
        let tail = str_views(parts@).skip(from as int);
        assert(tail.subrange(0, tail.len() as int) =~= tail);
    }
    out
}

} // verus!
