//! Verified JSON text production: string escaping, quoted string tokens and
//! flat objects whose keys and values are strings.  The database host
//! operation and the worker's request context both render their JSON through
//! these functions, so their output is pinned down character by character.

use vstd::prelude::*;
use vstd::string::StrSliceExecFns;
use crate::text::{dec_digit, push_char};

verus! {

/// The hexadecimal digit character for a value below sixteen (lower case).
pub open spec fn hex_digit(d: nat) -> char {
    if d < 10 {
        dec_digit(d)
    } else if d == 10 {
        'a'
    } else if d == 11 {
        'b'
    } else if d == 12 {
        'c'
    } else if d == 13 {
        'd'
    } else if d == 14 {
        'e'
    } else {
        'f'
    }
}

/// How one character appears inside a JSON string literal: quotes and
/// backslashes get a backslash, the named control characters their short
/// escapes, other control characters a `\u00..` escape, and everything else
/// stands as itself.
pub open spec fn esc_char(c: char) -> Seq<char> {
    if c == '"' {
        seq!['\\', '"']
    } else if c == '\\' {
        seq!['\\', '\\']
    } else if c == '\u{8}' {
        seq!['\\', 'b']
    } else if c == '\t' {
        seq!['\\', 't']
    } else if c == '\n' {
        seq!['\\', 'n']
    } else if c == '\u{c}' {
        seq!['\\', 'f']
    } else if c == '\r' {
        seq!['\\', 'r']
    } else if (c as u32) < 0x20 {
        seq!['\\', 'u', '0', '0', hex_digit((c as u32) as nat / 16), hex_digit((c as u32) as nat % 16)]
    } else {
        seq![c]
    }
}

/// A whole character sequence escaped for use inside a JSON string literal.
pub open spec fn json_escaped(s: Seq<char>) -> Seq<char>
    decreases s.len(),
{
    if s.len() == 0 {
        Seq::empty()
    } else {
        esc_char(s[0]) + json_escaped(s.skip(1))
    }
}

/// A JSON string literal: the escaped text between double quotes.
pub open spec fn json_str(s: Seq<char>) -> Seq<char> {
    seq!['"'] + json_escaped(s) + seq!['"']
}

pub proof fn lemma_json_escaped_push(s: Seq<char>, c: char)
    ensures
        json_escaped(s.push(c)) == json_escaped(s) + esc_char(c),
    decreases s.len(),
{
    if s.len() == 0 {
        assert(s.push(c).skip(1) =~= Seq::<char>::empty());
        assert(s.push(c)[0] == c);
        assert(json_escaped(s.push(c)) == esc_char(c) + json_escaped(Seq::<char>::empty()));
        assert(json_escaped(s.push(c)) =~= json_escaped(s) + esc_char(c));
    } else {
        assert(s.push(c).skip(1) =~= s.skip(1).push(c));
        lemma_json_escaped_push(s.skip(1), c);
        assert(s.push(c)[0] == s[0]);
        assert(json_escaped(s.push(c)) == esc_char(s[0]) + json_escaped(s.skip(1).push(c)));
        assert(json_escaped(s.push(c)) =~= json_escaped(s) + esc_char(c));
    }
}

fn hex_digit_char(d: u32) -> (c: char)
    requires
        d < 16,
    ensures
        c == hex_digit(d as nat),
{
    match d {
        0 => '0',
        1 => '1',
        2 => '2',
        3 => '3',
        4 => '4',
        5 => '5',
        6 => '6',
        7 => '7',
        8 => '8',
        9 => '9',
        10 => 'a',
        11 => 'b',
        12 => 'c',
        13 => 'd',
        14 => 'e',
        _ => 'f',
    }
}

fn push_esc_char(s: &mut String, c: char)
    ensures
        final(s)@ == old(s)@ + esc_char(c),
{
    if c == '"' {
        push_char(s, '\\');
        push_char(s, '"');
    } else if c == '\\' {
        push_char(s, '\\');
        push_char(s, '\\');
    } else if c == '\u{8}' {
        push_char(s, '\\');
        push_char(s, 'b');
    } else if c == '\t' {
        push_char(s, '\\');
        push_char(s, 't');
    } else if c == '\n' {
        push_char(s, '\\');
        push_char(s, 'n');
    } else if c == '\u{c}' {
        push_char(s, '\\');
        push_char(s, 'f');
    } else if c == '\r' {
        push_char(s, '\\');
        push_char(s, 'r');
    } else if (c as u32) < 0x20 {
        push_char(s, '\\');
        push_char(s, 'u');
        push_char(s, '0');
        push_char(s, '0');
        let hi = hex_digit_char((c as u32) / 16);
        push_char(s, hi);
        let lo = hex_digit_char((c as u32) % 16);
        push_char(s, lo);
    } else {
        push_char(s, c);
    }
    assert(final(s)@ =~= old(s)@ + esc_char(c));
}

/// Appends the escaped form of `t` to `s` (no surrounding quotes).
pub fn push_json_escaped(s: &mut String, t: &str)
    ensures
        final(s)@ == old(s)@ + json_escaped(t@),
{
    let n = t.unicode_len();
    let mut i: usize = 0;
    assert(s@ =~= old(s)@ + json_escaped(t@.subrange(0, 0)));
    while i < n
        invariant
            i <= n,
            n == t@.len(),
            s@ == old(s)@ + json_escaped(t@.subrange(0, i as int)),
        decreases n - i,
    {
        let c = t.get_char(i);
        push_esc_char(s, c);
        proof {
            lemma_json_escaped_push(t@.subrange(0, i as int), c);
            assert(t@.subrange(0, i + 1 as int) =~= t@.subrange(0, i as int).push(t@[i as int]));
        }
        i = i + 1;
    }
    assert(t@.subrange(0, n as int) =~= t@);
}

/// Appends the JSON string literal for `t` to `s`.
pub fn push_json_str(s: &mut String, t: &str)
    ensures
        final(s)@ == old(s)@ + json_str(t@),
{
    push_char(s, '"');
    push_json_escaped(s, t);
    push_char(s, '"');
    assert(final(s)@ =~= old(s)@ + json_str(t@));
}

/// One object member: a string key, a colon, a string value.
pub open spec fn json_member(k: Seq<char>, v: Seq<char>) -> Seq<char> {
    json_str(k) + seq![':'] + json_str(v)
}

/// The members of a flat object in order, separated by commas.
pub open spec fn json_members(entries: Seq<(Seq<char>, Seq<char>)>) -> Seq<char>
    decreases entries.len(),
{
    if entries.len() == 0 {
        Seq::empty()
    } else if entries.len() == 1 {
        json_member(entries[0].0, entries[0].1)
    } else {
        json_members(entries.drop_last()) + seq![','] + json_member(
            entries.last().0,
            entries.last().1,
        )
    }
}

/// A flat JSON object whose members are the given key/value pairs, both
/// rendered as string literals, in order.
pub open spec fn json_obj_str_str(entries: Seq<(Seq<char>, Seq<char>)>) -> Seq<char> {
    seq!['{'] + json_members(entries) + seq!['}']
}

/// The key/value view of a pair sequence.
pub open spec fn pairs_view(entries: Seq<(String, String)>) -> Seq<(Seq<char>, Seq<char>)> {
    entries.map_values(|e: (String, String)| (e.0@, e.1@))
}

/// Appends the flat JSON object for the given pairs to `s`.
pub fn push_json_obj_str_str(s: &mut String, entries: &Vec<(String, String)>)
    ensures
        final(s)@ == old(s)@ + json_obj_str_str(pairs_view(entries@)),
{
    push_char(s, '{');
    let n = entries.len();
    let mut i: usize = 0;
    assert(s@ =~= old(s)@ + seq!['{'] + json_members(pairs_view(entries@).subrange(0, 0)));
    while i < n
        invariant
            i <= n,
            n == entries@.len(),
            s@ == old(s)@ + seq!['{'] + json_members(pairs_view(entries@).subrange(0, i as int)),
        decreases n - i,
    {
        if i > 0 {
            push_char(s, ',');
        }
        push_json_str(s, entries[i].0.as_str());
        push_char(s, ':');
        push_json_str(s, entries[i].1.as_str());
        proof {
            let pv = pairs_view(entries@);
            assert(pv.subrange(0, i + 1 as int).drop_last() =~= pv.subrange(0, i as int));
            assert(pv.subrange(0, i + 1 as int).last() == pv[i as int]);
            assert(s@ =~= old(s)@ + seq!['{'] + json_members(pv.subrange(0, i + 1 as int)));
        }
        i = i + 1;
    }
    push_char(s, '}');
    proof {
        assert(pairs_view(entries@).subrange(0, n as int) =~= pairs_view(entries@));
        assert(final(s)@ =~= old(s)@ + json_obj_str_str(pairs_view(entries@)));
    }
}

} // verus!
