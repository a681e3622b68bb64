//! The connection entry point's decisions: turning an inbound method and
//! request target into a dispatch plan against the routing table, and
//! turning how the wait for the worker ended into the outbound status and
//! body.  Accepting connections and awaiting replies happen outside; this
//! is what they decide by.

use vstd::prelude::*;
use vstd::string::StringExecFns;
use crate::dispatch::{bound_params, spec_lookup, RouteTable, spec_parse_method};
use crate::jsontext::pairs_view;
use crate::query::{
    after_char, before_char, lookup_pairs, opt_view, parse_query, pct_decode_component,
    query_pairs, spec_pct_decoded, split_at_first,
};
use crate::strmap::assoc_get;
use crate::strutil::{split_seq, str_views};
use crate::worker::ExecutionResult;

verus! {

/// What the dispatcher decides for an inbound request: no route, or the
/// handler to run with its path parameters and query pairs.
pub enum RoutePlan {
    NotFound,
    Run { handler: String, params: Vec<(String, String)>, query: Vec<(String, String)> },
}

/// Looking a key up among string pairs reads the same as among their
/// views.
pub proof fn lemma_lookup_views(s: Seq<(String, String)>, k: Seq<char>)
    ensures
        lookup_pairs(pairs_view(s), k) == opt_view(assoc_get(s, k)),
    decreases s.len(),
{
    if s.len() == 0 {
    } else {
        lemma_lookup_views(s.drop_last(), k);
        assert(pairs_view(s).last() == (s.last().0@, s.last().1@));
        assert(pairs_view(s).drop_last() =~= pairs_view(s.drop_last()));
    }
}

/// Path parameter pairs with their values percent-decoded (no
/// plus-for-space in a path), the names standing as matched.
pub open spec fn decoded_param_values(bp: Seq<(Seq<char>, Seq<char>)>) -> Seq<
    (Seq<char>, Seq<char>),
> {
    bp.map_values(|pr: (Seq<char>, Seq<char>)| (pr.0, spec_pct_decoded(pr.1, false)))
}

/// Plans an inbound request.  The method token must name a routed method
/// and the target's path must match a route; the winning route's handler
/// comes back with the bound path parameters, their values
/// percent-decoded, and the decoded query pairs with the last occurrence
/// of a repeated key winning.
pub fn plan_request(table: &RouteTable, method_token: &str, target: &str) -> (r: RoutePlan)
    requires
        table.wf(),
    ensures
        ({
            let path = before_char(target@, '?');
            match spec_parse_method(method_token@) {
                None => r is NotFound,
                Some(m) => match spec_lookup(table.routes_view(), m, split_seq(path, '/')) {
                    None => r is NotFound,
                    Some(i) => r matches RoutePlan::Run { handler, params, query } && handler@
                        == table.routes_view()[i].1.handler@ && pairs_view(params@)
                        == decoded_param_values(
                        bound_params(
                            str_views(table.routes_view()[i].1.segments@),
                            split_seq(path, '/'),
                        ),
                    ) && forall|k: Seq<char>| #[trigger] lookup_pairs(pairs_view(query@), k)
                        == lookup_pairs(query_pairs(after_char(target@, '?')), k),
                },
            }
        }),
{
    let m = match crate::dispatch::parse_method(method_token) {
        Some(m) => m,
        None => {
            return RoutePlan::NotFound;
        },
    };
    let (path, query_text) = split_at_first(target, '?');
    match table.lookup(m, path.as_str()) {
        None => RoutePlan::NotFound,
        Some((handler, params_raw)) => {
            let ghost bound = pairs_view(params_raw@);
            let mut params: Vec<(String, String)> = Vec::new();
            let np = params_raw.len();
            let mut pi: usize = 0;
            assert(pairs_view(params@) =~= decoded_param_values(bound).subrange(0, 0));
            while pi < np
                invariant
                    pi <= np,
                    np == params_raw@.len(),
                    bound == pairs_view(params_raw@),
                    pairs_view(params@) =~= decoded_param_values(bound).subrange(0, pi as int),
                decreases np - pi,
            {
                let name = params_raw[pi].0.clone();
                let value = pct_decode_component(params_raw[pi].1.as_str(), false);
                let ghost prev = params@;
                params.push((name, value));
                proof {
                    let dpv = decoded_param_values(bound);
                    assert(bound[pi as int] == (
                        params_raw@[pi as int].0@,
                        params_raw@[pi as int].1@,
                    ));
                    assert(dpv[pi as int] == (
                        bound[pi as int].0,
                        spec_pct_decoded(bound[pi as int].1, false),
                    ));
                    assert(dpv.subrange(0, pi + 1 as int).drop_last() =~= dpv.subrange(
                        0,
                        pi as int,
                    ));
                    assert(dpv.subrange(0, pi + 1 as int).last() == dpv[pi as int]);
                    assert(pairs_view(params@).drop_last() =~= pairs_view(prev));
                    assert(pairs_view(params@).last() == (name@, value@));
                    assert(pairs_view(params@) =~= dpv.subrange(0, pi + 1 as int));
                }
                pi = pi + 1;
            }
            proof {
                assert(decoded_param_values(bound).subrange(0, np as int) =~= decoded_param_values(
                    bound,
                ));
            }
            let qmap = parse_query(query_text.as_str());
            let query = qmap.entries_cloned();
            proof {
                assert(pairs_view(query@) =~= pairs_view(qmap@));
                assert forall|k: Seq<char>| #[trigger] lookup_pairs(pairs_view(query@), k)
                    == lookup_pairs(query_pairs(after_char(target@, '?')), k) by {
                    lemma_lookup_views(qmap@, k);
                    assert(opt_view(qmap.spec_get(k)) == lookup_pairs(
                        query_pairs(query_text@),
                        k,
                    ));
                }
            }
            RoutePlan::Run { handler, params, query }
        },
    }
}

/// How the wait for the worker's reply ended.
pub enum WaitOutcome {
    Completed(ExecutionResult),
    WorkerError(String),
    ChannelClosed,
    TimedOut,
}

/// The outbound status and body for each way the wait can end: the
/// handler's own pair; 500 with the worker's message, or with a fixed text
/// when the reply channel closed without one; 504 when the host gave up
/// waiting.  The worker is never interrupted: a timeout only stops the
/// wait.
pub fn http_reply(outcome: WaitOutcome) -> (r: (u16, String))
    ensures
        match outcome {
            WaitOutcome::Completed(res) => r.0 == res.status_code && r.1 == res.body,
            WaitOutcome::WorkerError(m) => r.0 == 500 && r.1 == m,
            WaitOutcome::ChannelClosed => r.0 == 500 && r.1@ == "Handler failed to respond"@,
            WaitOutcome::TimedOut => r.0 == 504 && r.1@ == "Handler timeout"@,
        },
{
    match outcome {
        WaitOutcome::Completed(res) => (res.status_code, res.body),
        WaitOutcome::WorkerError(m) => (500, m),
        WaitOutcome::ChannelClosed => (500, String::from_str("Handler failed to respond")),
        WaitOutcome::TimedOut => (504, String::from_str("Handler timeout")),
    }
}

/// The outbound reply when no route matches: 404 with an empty body.
pub fn not_found_reply() -> (r: (u16, String))
    ensures
        r.0 == 404 && r.1@ == Seq::<char>::empty(),
{
    (404, String::new())
}

} // verus!
