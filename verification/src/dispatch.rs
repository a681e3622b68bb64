//! The routing table and dispatcher: built once from handler metadata, it
//! maps an inbound HTTP method and path to a loaded handler's name,
//! extracting path parameters positionally and query pairs with the last
//! occurrence of a repeated key winning.  An unmatched path, or a matched
//! path under another method, is simply not found.

use vstd::prelude::*;
use vstd::string::{StrSliceExecFns, StringExecFns};
use crate::jsontext::pairs_view;
use crate::strmap::{assoc_get, StrMap};
use crate::strutil::{split_char, split_seq, str_views, to_ascii_upper, upper_seq};
use crate::text::str_eq;

verus! {

/// The HTTP methods the route annotations recognize.
#[derive(PartialEq, Eq, Structural, Clone, Copy, Debug, Hash)]
pub enum HttpMethod {
    Get,
    Post,
    Put,
    Delete,
    Patch,
}

/// The upper-case token of a method.
pub open spec fn method_seq(m: HttpMethod) -> Seq<char> {
    match m {
        HttpMethod::Get => seq!['G', 'E', 'T'],
        HttpMethod::Post => seq!['P', 'O', 'S', 'T'],
        HttpMethod::Put => seq!['P', 'U', 'T'],
        HttpMethod::Delete => seq!['D', 'E', 'L', 'E', 'T', 'E'],
        HttpMethod::Patch => seq!['P', 'A', 'T', 'C', 'H'],
    }
}

/// Which method a token names, matched without regard to ASCII case.
pub open spec fn spec_parse_method(s: Seq<char>) -> Option<HttpMethod> {
    if upper_seq(s) == method_seq(HttpMethod::Get) {
        Some(HttpMethod::Get)
    } else if upper_seq(s) == method_seq(HttpMethod::Post) {
        Some(HttpMethod::Post)
    } else if upper_seq(s) == method_seq(HttpMethod::Put) {
        Some(HttpMethod::Put)
    } else if upper_seq(s) == method_seq(HttpMethod::Delete) {
        Some(HttpMethod::Delete)
    } else if upper_seq(s) == method_seq(HttpMethod::Patch) {
        Some(HttpMethod::Patch)
    } else {
        None
    }
}

/// The five method literals read as their token sequences.
proof fn lemma_method_literals()
    ensures
        "GET"@ == method_seq(HttpMethod::Get),
        "POST"@ == method_seq(HttpMethod::Post),
        "PUT"@ == method_seq(HttpMethod::Put),
        "DELETE"@ == method_seq(HttpMethod::Delete),
        "PATCH"@ == method_seq(HttpMethod::Patch),
{
    reveal_strlit("GET");
    reveal_strlit("POST");
    reveal_strlit("PUT");
    reveal_strlit("DELETE");
    reveal_strlit("PATCH");
    assert("GET"@ =~= method_seq(HttpMethod::Get));
    assert("POST"@ =~= method_seq(HttpMethod::Post));
    assert("PUT"@ =~= method_seq(HttpMethod::Put));
    assert("DELETE"@ =~= method_seq(HttpMethod::Delete));
    assert("PATCH"@ =~= method_seq(HttpMethod::Patch));
}

/// Reads a method token, without regard to ASCII case.
pub fn parse_method(token: &str) -> (r: Option<HttpMethod>)
    ensures
        r == spec_parse_method(token@),
{
    proof {
        lemma_method_literals();
    }
    let up = to_ascii_upper(token);
    if str_eq(up.as_str(), "GET") {
        Some(HttpMethod::Get)
    } else if str_eq(up.as_str(), "POST") {
        Some(HttpMethod::Post)
    } else if str_eq(up.as_str(), "PUT") {
        Some(HttpMethod::Put)
    } else if str_eq(up.as_str(), "DELETE") {
        Some(HttpMethod::Delete)
    } else if str_eq(up.as_str(), "PATCH") {
        Some(HttpMethod::Patch)
    } else {
        None
    }
}

/// The method's canonical token as a string.
pub fn method_token(m: HttpMethod) -> (r: String)
    ensures
        r@ == method_seq(m),
{
    proof {
        lemma_method_literals();
    }
    match m {
        HttpMethod::Get => String::from_str("GET"),
        HttpMethod::Post => String::from_str("POST"),
        HttpMethod::Put => String::from_str("PUT"),
        HttpMethod::Delete => String::from_str("DELETE"),
        HttpMethod::Patch => String::from_str("PATCH"),
    }
}

/// A pattern segment starting with `:` binds the path segment under the
/// name that follows the colon.
pub open spec fn seg_is_param(seg: Seq<char>) -> bool {
    seg.len() > 0 && seg[0] == ':'
}

/// Whether the pattern accepts the path: same number of segments, and each
/// pattern segment either binds or reads the same as the path's.
pub open spec fn segs_match(pat: Seq<Seq<char>>, path: Seq<Seq<char>>) -> bool {
    pat.len() == path.len() && forall|i: int|
        0 <= i < pat.len() ==> (seg_is_param(#[trigger] pat[i]) || pat[i] == path[i])
}

/// The name-to-value pairs a matching pattern binds, in segment order.
pub open spec fn bound_params(pat: Seq<Seq<char>>, path: Seq<Seq<char>>) -> Seq<
    (Seq<char>, Seq<char>),
>
    decreases pat.len(),
{
    if pat.len() == 0 || pat.len() != path.len() {
        Seq::empty()
    } else {
        bound_params(pat.drop_last(), path.drop_last()) + (if seg_is_param(pat.last()) {
            seq![(pat.last().skip(1), path.last())]
        } else {
            Seq::empty()
        })
    }
}

/// Whether `e`'s pattern segments accept the path segments under `m`.
pub open spec fn spec_entry_matches(
    e: RouteEntry,
    m: HttpMethod,
    psegs: Seq<Seq<char>>,
) -> bool {
    e.method == m && segs_match(str_views(e.segments@), psegs)
}

/// The position of the winning route: the latest registered entry that
/// accepts the path under the method.
pub open spec fn spec_lookup(
    entries: Seq<(String, RouteEntry)>,
    m: HttpMethod,
    psegs: Seq<Seq<char>>,
) -> Option<int>
    decreases entries.len(),
{
    if entries.len() == 0 {
        None
    } else if spec_entry_matches(entries.last().1, m, psegs) {
        Some(entries.len() - 1)
    } else {
        spec_lookup(entries.drop_last(), m, psegs)
    }
}

/// What the winning position means: when the lookup names no position, no
/// registered route accepts the request at all — not-found is never a
/// missed route; when it names one, that entry accepts it and no
/// later-registered entry does.
pub proof fn lemma_lookup_characterized(
    entries: Seq<(String, RouteEntry)>,
    m: HttpMethod,
    psegs: Seq<Seq<char>>,
)
    ensures
        match spec_lookup(entries, m, psegs) {
            None => forall|i: int|
                0 <= i < entries.len() ==> !spec_entry_matches(
                    (#[trigger] entries[i]).1,
                    m,
                    psegs,
                ),
            Some(i) => 0 <= i < entries.len() && spec_entry_matches(entries[i].1, m, psegs)
                && forall|j: int|
                i < j < entries.len() ==> !spec_entry_matches((#[trigger] entries[j]).1, m, psegs),
        },
    decreases entries.len(),
{
    if entries.len() == 0 {
    } else if spec_entry_matches(entries.last().1, m, psegs) {
        assert(entries[entries.len() - 1] == entries.last());
    } else {
        lemma_lookup_characterized(entries.drop_last(), m, psegs);
        let d = entries.drop_last();
        assert(forall|i: int| 0 <= i < d.len() ==> #[trigger] d[i] == entries[i]);
        assert(entries[entries.len() - 1] == entries.last());
        match spec_lookup(d, m, psegs) {
            None => {
                assert forall|i: int| 0 <= i < entries.len() implies !spec_entry_matches(
                    (#[trigger] entries[i]).1,
                    m,
                    psegs,
                ) by {
                    if i < entries.len() - 1 {
                        assert(!spec_entry_matches(d[i].1, m, psegs));
                    }
                }
            },
            Some(i) => {
                assert(d[i] == entries[i]);
                assert forall|j: int| i < j < entries.len() implies !spec_entry_matches(
                    (#[trigger] entries[j]).1,
                    m,
                    psegs,
                ) by {
                    if j < entries.len() - 1 {
                        assert(!spec_entry_matches(d[j].1, m, psegs));
                    }
                }
            },
        }
    }
}

/// One routed handler: the method and path pattern it serves, the pattern
/// pre-split into segments, and the handler's name.
pub struct RouteEntry {
    pub method: HttpMethod,
    pub path: String,
    pub segments: Vec<String>,
    pub handler: String,
}

impl RouteEntry {
    /// The segments are exactly the path split on `/`.
    pub open spec fn wf(&self) -> bool {
        str_views(self.segments@) == split_seq(self.path@, '/')
    }
}

/// The key a route is registered under: method token, one space, path.
pub open spec fn route_key(m: HttpMethod, path: Seq<char>) -> Seq<char> {
    method_seq(m) + seq![' '] + path
}

/// What is known of one handler before routing: its name, and the method
/// and path its annotation declared, either of which may be absent.
pub struct HandlerMeta {
    pub name: String,
    pub method: Option<HttpMethod>,
    pub path: Option<String>,
}

/// The names of the metadata triples lacking a path, in order.
pub open spec fn unrouted_of(metas: Seq<HandlerMeta>) -> Seq<String>
    decreases metas.len(),
{
    if metas.len() == 0 {
        Seq::empty()
    } else {
        unrouted_of(metas.drop_last()) + (match metas.last().path {
            None => seq![metas.last().name],
            Some(_) => Seq::empty(),
        })
    }
}

/// What the latest routed triple under key `k` declares: its method (GET
/// when the triple has none), its path and its handler's name.
pub open spec fn spec_route_under(metas: Seq<HandlerMeta>, k: Seq<char>) -> Option<
    (HttpMethod, Seq<char>, Seq<char>),
>
    decreases metas.len(),
{
    if metas.len() == 0 {
        None
    } else {
        match metas.last().path {
            Some(p) => {
                let m = match metas.last().method {
                    Some(m) => m,
                    None => HttpMethod::Get,
                };
                if route_key(m, p@) == k {
                    Some((m, p@, metas.last().name@))
                } else {
                    spec_route_under(metas.drop_last(), k)
                }
            },
            None => spec_route_under(metas.drop_last(), k),
        }
    }
}

/// The routing table: the routed entries keyed by (method, path), plus the
/// names of handlers that are loaded but unrouted.
pub struct RouteTable {
    routes: StrMap<RouteEntry>,
    unrouted: Vec<String>,
}

impl RouteTable {
    /// The routed entries, in registration order.
    pub closed spec fn routes_view(&self) -> Seq<(String, RouteEntry)> {
        self.routes@
    }

    /// The unrouted handler names, in registration order.
    pub closed spec fn unrouted_view(&self) -> Seq<String> {
        self.unrouted@
    }

    /// Each entry stands under its (method, path) key with its pattern
    /// split, and no key occurs twice.
    pub open spec fn wf(&self) -> bool {
        &&& crate::strmap::assoc_distinct(self.routes_view())
        &&& forall|i: int|
            0 <= i < self.routes_view().len() ==> (#[trigger] self.routes_view()[i]).0@
                == route_key(self.routes_view()[i].1.method, self.routes_view()[i].1.path@)
        &&& forall|i: int|
            0 <= i < self.routes_view().len() ==> (#[trigger] self.routes_view()[i]).1.wf()
    }

    /// An empty table.
    pub fn new() -> (r: Self)
        ensures
            r.routes_view() =~= Seq::<(String, RouteEntry)>::empty(),
            r.unrouted_view() =~= Seq::<String>::empty(),
            r.wf(),
    {
        RouteTable { routes: StrMap::new(), unrouted: Vec::new() }
    }

    /// How many routes are registered.
    pub fn route_count(&self) -> (n: usize)
        ensures
            n == self.routes_view().len(),
    {
        self.routes.len()
    }

    /// How many handlers are loaded but unrouted.
    pub fn unrouted_count(&self) -> (n: usize)
        ensures
            n == self.unrouted_view().len(),
    {
        self.unrouted.len()
    }

    /// The names of the unrouted handlers, in registration order.
    pub fn unrouted_names(&self) -> (r: &Vec<String>)
        ensures
            r@ == self.unrouted_view(),
    {
        &self.unrouted
    }

    /// Registers one handler's metadata.  A triple without a path records
    /// the handler as unrouted; one with a path and no method defaults to
    /// GET; a route under an already-taken (method, path) replaces the
    /// earlier one.
    pub fn register(&mut self, meta: HandlerMeta)
        requires
            old(self).wf(),
        ensures
            final(self).wf(),
            match meta.path {
                None => {
                    &&& final(self).unrouted_view() == old(self).unrouted_view().push(meta.name)
                    &&& final(self).routes_view() == old(self).routes_view()
                },
                Some(p) => {
                    &&& final(self).unrouted_view() == old(self).unrouted_view()
                    &&& {
                        let m = match meta.method {
                            Some(m) => m,
                            None => HttpMethod::Get,
                        };
                        &&& assoc_get(final(self).routes_view(), route_key(m, p@)) matches Some(e)
                            && e.method == m && e.path@ == p@ && e.handler@ == meta.name@
                        &&& forall|q: Seq<char>|
                            q != route_key(m, p@) ==> #[trigger] assoc_get(
                                final(self).routes_view(),
                                q,
                            ) == assoc_get(old(self).routes_view(), q)
                        &&& final(self).routes_view().len() <= old(self).routes_view().len() + 1
                    }
                },
            },
    {
        let HandlerMeta { name, method, path } = meta;
        match path {
            None => {
                self.unrouted.push(name);
            },
            Some(p) => {
                let m = match method {
                    Some(m) => m,
                    None => HttpMethod::Get,
                };
                let segments = split_char(p.as_str(), '/');
                let mut key = method_token(m);
                crate::text::push_char(&mut key, ' ');
                key.append(p.as_str());
                assert(key@ =~= route_key(m, p@));
                let entry = RouteEntry { method: m, path: p, segments, handler: name };
                assert(entry.wf());
                let ghost s0 = self.routes@;
                let ghost kv = key@;
                self.routes.insert(key, entry);
                proof {
                    let f = final(self).routes_view();
                    let w = crate::strmap::assoc_without(s0, kv);
                    crate::strmap::lemma_assoc_without_facts(s0, kv);
                    assert forall|q: Seq<char>| q != kv implies #[trigger] assoc_get(f, q)
                        == assoc_get(s0, q) by {
                        assert(self.routes.spec_get(q) == assoc_get(s0, q));
                    }
                    assert(forall|i: int| 0 <= i < w.len() ==> s0.contains(#[trigger] w[i]));
                    assert forall|i: int| 0 <= i < f.len() implies (#[trigger] f[i]).0@
                        == route_key(f[i].1.method, f[i].1.path@) && f[i].1.wf() by {
                        if i < f.len() - 1 {
                            assert(f[i] == w[i]);
                            let j = choose|j: int| 0 <= j < s0.len() && s0[j] == w[i];
                            assert(s0[j].0@ == route_key(s0[j].1.method, s0[j].1.path@));
                            assert(s0[j].1.wf());
                        } else {
                            assert(f[i] == f.last());
                        }
                    }
                }
            },
        }
    }

    /// Builds the table from the full set of handler metadata, in order.
    pub fn build(metas: Vec<HandlerMeta>) -> (r: Self)
        ensures
            r.wf(),
            r.unrouted_view().len() == unrouted_of(metas@).len(),
            forall|j: int|
                0 <= j < r.unrouted_view().len() ==> #[trigger] r.unrouted_view()[j]@
                    == unrouted_of(metas@)[j]@,
            forall|k: Seq<char>|
                match spec_route_under(metas@, k) {
                    None => #[trigger] assoc_get(r.routes_view(), k) is None,
                    Some(t) => assoc_get(r.routes_view(), k) matches Some(e) && e.method == t.0
                        && e.path@ == t.1 && e.handler@ == t.2,
                },
    {
        let mut table = RouteTable::new();
        let ghost all = metas@;
        let mut metas = metas;
        let mut i: usize = 0;
        let n: usize = metas.len();
        assert(metas@ =~= all.subrange(0, n as int));
        assert(all.subrange(0, 0) =~= Seq::<HandlerMeta>::empty());
        while metas.len() > 0
            invariant
                table.wf(),
                i <= n,
                n == all.len(),
                metas@ =~= all.subrange(i as int, n as int),
                table.unrouted_view().len() == unrouted_of(all.subrange(0, i as int)).len(),
                forall|j: int|
                    0 <= j < table.unrouted_view().len() ==> #[trigger] table.unrouted_view()[j]@
                        == unrouted_of(all.subrange(0, i as int))[j]@,
                forall|k: Seq<char>|
                    match spec_route_under(all.subrange(0, i as int), k) {
                        None => #[trigger] assoc_get(table.routes_view(), k) is None,
                        Some(t) => assoc_get(table.routes_view(), k) matches Some(e) && e.method
                            == t.0 && e.path@ == t.1 && e.handler@ == t.2,
                    },
            decreases metas@.len(),
        {
            proof {
                assert(metas@.len() > 0);
                assert(i < n);
                assert(metas@[0] == all.subrange(i as int, n as int)[0]);
                assert(metas@[0] == all[i as int]);
            }
            let meta = metas.remove(0);
            proof {
                assert(meta == all[i as int]);
                assert(all.subrange(0, i + 1 as int).drop_last() =~= all.subrange(0, i as int));
                assert(all.subrange(0, i + 1 as int).last() == all[i as int]);
            }
            let ghost mv = meta;
            let ghost before = table;
            table.register(meta);
            proof {
                let pre = all.subrange(0, i as int);
                let post = all.subrange(0, i + 1 as int);
                match mv.path {
                    None => {
                        assert(unrouted_of(post) =~= unrouted_of(pre).push(mv.name));
                    },
                    Some(p) => {
                        let m = match mv.method {
                            Some(m) => m,
                            None => HttpMethod::Get,
                        };
                        assert(unrouted_of(post) =~= unrouted_of(pre));
                        assert forall|k: Seq<char>|
                            match spec_route_under(post, k) {
                                None => #[trigger] assoc_get(table.routes_view(), k) is None,
                                Some(t) => assoc_get(table.routes_view(), k) matches Some(e)
                                    && e.method == t.0 && e.path@ == t.1 && e.handler@ == t.2,
                            } by {
                            if k != route_key(m, p@) {
                                assert(assoc_get(table.routes_view(), k) == assoc_get(
                                    before.routes_view(),
                                    k,
                                ));
                            }
                        }
                    },
                }
            }
            i = i + 1;
            proof {
                assert(metas@ =~= all.subrange(i as int, n as int));
            }
        }
        proof {
            assert(all.subrange(0, i as int) =~= all);
        }
        table
    }

    /// Looks an inbound request up: the latest registered route whose
    /// method matches and whose pattern accepts the path wins, and its
    /// bound path parameters come back with the handler's name.
    pub fn lookup(&self, method: HttpMethod, path: &str) -> (r: Option<(String, Vec<(String, String)>)>)
        requires
            self.wf(),
        ensures
            match spec_lookup(self.routes_view(), method, split_seq(path@, '/')) {
                None => r is None,
                Some(i) => r matches Some((h, ps)) && h@ == self.routes_view()[i].1.handler@
                    && pairs_view(ps@) == bound_params(
                    str_views(self.routes_view()[i].1.segments@),
                    split_seq(path@, '/'),
                ),
            },
    {
        let psegs = split_char(path, '/');
        let n = self.routes.len();
        let mut j: usize = n;
        let ghost entries = self.routes_view();
        assert(entries.subrange(0, j as int) =~= entries);
        while j > 0
            invariant
                j <= n,
                n == entries.len(),
                entries == self.routes_view(),
                self.wf(),
                str_views(psegs@) == split_seq(path@, '/'),
                spec_lookup(entries.subrange(0, j as int), method, str_views(psegs@))
                    == spec_lookup(entries, method, str_views(psegs@)),
            decreases j,
        {
            proof {
                assert(entries.subrange(0, j as int).last() == entries[j - 1]);
                assert(entries.subrange(0, j as int).drop_last() =~= entries.subrange(0, j - 1));
            }
            let e = &self.routes.get_index(j - 1).1;
            if entry_matches(e, method, &psegs) {
                let params = extract_params(&e.segments, &psegs);
                let h = e.handler.clone();
                return Some((h, params));
            }
            j = j - 1;
        }
        proof {
            assert(entries.subrange(0, 0) =~= Seq::<(String, RouteEntry)>::empty());
        }
        None
    }
}

/// Whether the entry accepts the path segments under the method.
fn entry_matches(e: &RouteEntry, method: HttpMethod, psegs: &Vec<String>) -> (r: bool)
    ensures
        r == spec_entry_matches(*e, method, str_views(psegs@)),
{
    if e.method != method {
        return false;
    }
    let n = e.segments.len();
    if n != psegs.len() {
        return false;
    }
    let mut i: usize = 0;
    while i < n
        invariant
            i <= n,
            n == e.segments@.len(),
            n == psegs@.len(),
            forall|k: int|
                0 <= k < i ==> (seg_is_param(#[trigger] str_views(e.segments@)[k]) || str_views(
                    e.segments@,
                )[k] == str_views(psegs@)[k]),
        decreases n - i,
    {
        let seg = &e.segments[i];
        let is_param = if seg.as_str().is_empty() {
            false
        } else {
            seg.as_str().get_char(0) == ':'
        };
        if !is_param {
            if !str_eq(seg.as_str(), psegs[i].as_str()) {
                proof {
                    assert(str_views(e.segments@)[i as int] == seg@);
                    assert(str_views(psegs@)[i as int] == psegs@[i as int]@);
                }
                return false;
            }
        }
        i = i + 1;
    }
    true
}

/// The bound parameters of a matching pattern, in segment order.
fn extract_params(pat: &Vec<String>, psegs: &Vec<String>) -> (r: Vec<(String, String)>)
    requires
        pat@.len() == psegs@.len(),
    ensures
        pairs_view(r@) == bound_params(str_views(pat@), str_views(psegs@)),
{
    let n = pat.len();
    let mut out: Vec<(String, String)> = Vec::new();
    let mut i: usize = 0;
    assert(pairs_view(out@) =~= bound_params(
        str_views(pat@).subrange(0, 0),
        str_views(psegs@).subrange(0, 0),
    ));
    while i < n
        invariant
            i <= n,
            n == pat@.len(),
            n == psegs@.len(),
            pairs_view(out@) == bound_params(
                str_views(pat@).subrange(0, i as int),
                str_views(psegs@).subrange(0, i as int),
            ),
        decreases n - i,
    {
        let seg = &pat[i];
        let is_param = if seg.as_str().is_empty() {
            false
        } else {
            seg.as_str().get_char(0) == ':'
        };
        proof {
            let a = str_views(pat@).subrange(0, i + 1 as int);
            let b = str_views(psegs@).subrange(0, i + 1 as int);
            assert(a.drop_last() =~= str_views(pat@).subrange(0, i as int));
            assert(b.drop_last() =~= str_views(psegs@).subrange(0, i as int));
            assert(a.last() == seg@);
            assert(b.last() == psegs@[i as int]@);
        }
        if is_param {
            let name = seg.as_str().substring_char(1, seg.as_str().unicode_len()).to_owned();
            let value = psegs[i].clone();
            proof {
                assert(name@ =~= seg@.skip(1));
            }
            out.push((name, value));
            proof {
                assert(pairs_view(out@) =~= pairs_view(out@.drop_last()).push(
                    (out@.last().0@, out@.last().1@),
                ));
                assert(pairs_view(out@) =~= bound_params(
                    str_views(pat@).subrange(0, i + 1 as int),
                    str_views(psegs@).subrange(0, i + 1 as int),
                ));
            }
        } else {
            proof {
                assert(pairs_view(out@) =~= bound_params(
                    str_views(pat@).subrange(0, i + 1 as int),
                    str_views(psegs@).subrange(0, i + 1 as int),
                ));
            }
        }
        i = i + 1;
    }
    proof {
        assert(str_views(pat@).subrange(0, n as int) =~= str_views(pat@));
        assert(str_views(psegs@).subrange(0, n as int) =~= str_views(psegs@));
    }
    out
}

} // verus!
