//! Reading a route annotation off a handler's source: its first line, when
//! it is a comment, may declare `METHOD /path`, or `/path` alone (the method
//! then defaults to GET at registration); anything else leaves the handler
//! unrouted.  Recognized method tokens: GET, POST, PUT, DELETE, PATCH, in
//! any ASCII case.

use vstd::prelude::*;
use vstd::string::{StrSliceExecFns, StringExecFns};
use crate::dispatch::{spec_parse_method, parse_method, HandlerMeta, HttpMethod};
use crate::query::{before_char, split_at_first};
use crate::strutil::{
    ends_with, has_prefix, has_suffix, join_from, joined_sp, split_whitespace, starts_with,
    str_views, trim_str, trimmed, ws_split,
};

verus! {

/// The first line of the source, a trailing carriage return dropped.
pub open spec fn line_of(s: Seq<char>) -> Seq<char> {
    let l = before_char(s, '\n');
    if l.len() > 0 && l.last() == '\r' {
        l.drop_last()
    } else {
        l
    }
}

/// `s` with every leading `/*` marker removed.
pub open spec fn strip_lead_block(s: Seq<char>) -> Seq<char>
    decreases s.len(),
{
    if s.len() >= 2 && s[0] == '/' && s[1] == '*' {
        strip_lead_block(s.skip(2))
    } else {
        s
    }
}

/// `s` with every trailing `*/` marker removed.
pub open spec fn strip_trail_block(s: Seq<char>) -> Seq<char>
    decreases s.len(),
{
    if s.len() >= 2 && s[s.len() - 2] == '*' && s[s.len() - 1] == '/' {
        strip_trail_block(s.take(s.len() - 2))
    } else {
        s
    }
}

/// The comment text of a trimmed first line: after `///` or `//`, or
/// between `/*` and `*/`; none when the line is no comment.
pub open spec fn comment_of(t: Seq<char>) -> Option<Seq<char>> {
    if has_prefix(t, seq!['/', '/', '/']) {
        Some(trimmed(t.skip(3)))
    } else if has_prefix(t, seq!['/', '/']) {
        Some(trimmed(t.skip(2)))
    } else if has_prefix(t, seq!['/', '*']) && has_suffix(t, seq!['*', '/']) {
        Some(trimmed(strip_trail_block(strip_lead_block(t))))
    } else {
        None
    }
}

/// What a comment's words declare: a method and a path, a path alone, or
/// nothing.
pub open spec fn route_of_comment(content: Seq<char>) -> (Option<HttpMethod>, Option<Seq<char>>) {
    let parts = ws_split(content);
    if parts.len() == 0 {
        (None, None)
    } else if spec_parse_method(parts[0]) is Some {
        if parts.len() > 1 {
            (spec_parse_method(parts[0]), Some(joined_sp(parts.skip(1))))
        } else {
            (None, None)
        }
    } else if parts[0].len() > 0 && parts[0][0] == '/' {
        (None, Some(joined_sp(parts)))
    } else {
        (None, None)
    }
}

/// The method and path the source's first line declares.
pub open spec fn spec_route_annotation(s: Seq<char>) -> (Option<HttpMethod>, Option<Seq<char>>) {
    match comment_of(trimmed(line_of(s))) {
        Some(content) => route_of_comment(content),
        None => (None, None),
    }
}

/// Reads the route annotation off the first line of `source`.
pub fn parse_route_annotation(source: &str) -> (r: (Option<HttpMethod>, Option<String>))
    ensures
        r.0 == spec_route_annotation(source@).0,
        crate::query::opt_view(r.1) == spec_route_annotation(source@).1,
{
    proof {
        lemma_marker_literals();
    }
    let (line_raw, _) = split_at_first(source, '\n');
    let line = if ends_with(line_raw.as_str(), "\r") {
        let n = line_raw.as_str().unicode_len();
        proof {
            let l = line_raw@;
            assert(l.subrange(l.len() - 1, l.len() as int)[0] == l.last());
            assert(l.last() == '\r');
        }
        let head = line_raw.as_str().substring_char(0, n - 1).to_owned();
        proof {
            assert(head@ =~= line_of(source@));
        }
        head
    } else {
        proof {
            let l = line_raw@;
            if l.len() > 0 && l.last() == '\r' {
                assert(l.subrange(l.len() - 1, l.len() as int) =~= "\r"@);
                assert(false);
            }
            assert(line_raw@ =~= line_of(source@));
        }
        line_raw
    };
    let t = trim_str(line.as_str());
    let content: Option<String> = if starts_with(t.as_str(), "///") {
        let n = t.as_str().unicode_len();
        let rest = t.as_str().substring_char(3, n).to_owned();
        proof {
            assert(rest@ =~= t@.skip(3));
        }
        Some(trim_str(rest.as_str()))
    } else if starts_with(t.as_str(), "//") {
        let n = t.as_str().unicode_len();
        let rest = t.as_str().substring_char(2, n).to_owned();
        proof {
            assert(rest@ =~= t@.skip(2));
        }
        Some(trim_str(rest.as_str()))
    } else if starts_with(t.as_str(), "/*") && ends_with(t.as_str(), "*/") {
        let mut cur = t.clone();
        while starts_with(cur.as_str(), "/*")
            invariant
                strip_lead_block(t@) == strip_lead_block(cur@),
            decreases cur@.len(),
        {
            proof {
                lemma_marker_literals();
                assert(cur@.subrange(0, 2)[0] == cur@[0]);
                assert(cur@.subrange(0, 2)[1] == cur@[1]);
            }
            let n = cur.as_str().unicode_len();
            let next = cur.as_str().substring_char(2, n).to_owned();
            proof {
                assert(next@ =~= cur@.skip(2));
            }
            cur = next;
        }
        proof {
            lemma_marker_literals();
            if cur@.len() >= 2 && cur@[0] == '/' && cur@[1] == '*' {
                assert(cur@.subrange(0, 2) =~= "/*"@);
                assert(false);
            }
            assert(strip_lead_block(cur@) == cur@);
        }
        let mut cur2 = cur;
        while ends_with(cur2.as_str(), "*/")
            invariant
                strip_trail_block(cur2@) == strip_trail_block(strip_lead_block(t@)),
            decreases cur2@.len(),
        {
            proof {
                lemma_marker_literals();
                let m = cur2@.len();
                assert(cur2@.subrange(m - 2, m as int)[0] == cur2@[m - 2]);
                assert(cur2@.subrange(m - 2, m as int)[1] == cur2@[m - 1]);
            }
            let n = cur2.as_str().unicode_len();
            let next = cur2.as_str().substring_char(0, n - 2).to_owned();
            proof {
                assert(next@ =~= cur2@.take(cur2@.len() - 2));
            }
            cur2 = next;
        }
        proof {
            lemma_marker_literals();
            let m = cur2@.len();
            if m >= 2 && cur2@[m - 2] == '*' && cur2@[m - 1] == '/' {
                assert(cur2@.subrange(m - 2, m as int) =~= "*/"@);
                assert(false);
            }
            assert(strip_trail_block(cur2@) == cur2@);
        }
        Some(trim_str(cur2.as_str()))
    } else {
        None
    };
    match content {
        None => (None, None),
        Some(content) => {
            let parts = split_whitespace(content.as_str());
            let ghost pv = str_views(parts@);
            if parts.len() == 0 {
                (None, None)
            } else {
                match parse_method(parts[0].as_str()) {
                    Some(m) => {
                        if parts.len() > 1 {
                            let path = join_from(&parts, 1);
                            proof {
                                assert(pv.skip(1) =~= str_views(parts@).skip(1));
                            }
                            (Some(m), Some(path))
                        } else {
                            (None, None)
                        }
                    },
                    None => {
                        let first = &parts[0];
                        let leads = if first.as_str().is_empty() {
                            false
                        } else {
                            first.as_str().get_char(0) == '/'
                        };
                        if leads {
                            let path = join_from(&parts, 0);
                            proof {
                                assert(pv.skip(0) =~= pv);
                            }
                            (None, Some(path))
                        } else {
                            (None, None)
                        }
                    },
                }
            }
        },
    }
}

/// The comment markers read as their character sequences.
proof fn lemma_marker_literals()
    ensures
        "///"@ == seq!['/', '/', '/'],
        "//"@ == seq!['/', '/'],
        "/*"@ == seq!['/', '*'],
        "*/"@ == seq!['*', '/'],
        "\r"@ == seq!['\r'],
{
    reveal_strlit("///");
    reveal_strlit("//");
    reveal_strlit("/*");
    reveal_strlit("*/");
    reveal_strlit("\r");
    assert("///"@ =~= seq!['/', '/', '/']);
    assert("//"@ =~= seq!['/', '/']);
    assert("/*"@ =~= seq!['/', '*']);
    assert("*/"@ =~= seq!['*', '/']);
    assert("\r"@ =~= seq!['\r']);
}

/// Reads one handler's metadata: its name together with whatever route its
/// source's first line declares.
pub fn meta_from_source(name: String, source: &str) -> (r: HandlerMeta)
    ensures
        r.name == name,
        r.method == spec_route_annotation(source@).0,
        crate::query::opt_view(r.path) == spec_route_annotation(source@).1,
{
    let (method, path) = parse_route_annotation(source);
    HandlerMeta { name, method, path }
}

} // verus!
