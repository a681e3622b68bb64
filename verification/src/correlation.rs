//! The request correlation registry: it mints correlation identifiers and
//! keeps one single-use reply channel per in-flight request.  An entry is
//! removed exactly once — by completion or by timeout cleanup — and a late
//! completion against a missing identifier is a reported failure, never a
//! crash.

use vstd::prelude::*;
use vstd::string::StringExecFns;
use crate::reply::oneshot_send;
use crate::text::{dec_str, push_u64_dec};
use crate::worker::ExecutionResult;

verus! {

/// What looking `k` up in the pair sequence yields: the value of the latest
/// entry under that identifier, if any.
pub open spec fn id_get<T>(s: Seq<(u32, T)>, k: u32) -> Option<T>
    decreases s.len(),
{
    if s.len() == 0 {
        None
    } else if s.last().0 == k {
        Some(s.last().1)
    } else {
        id_get(s.drop_last(), k)
    }
}

/// The pair sequence with every entry under `k` taken out.
pub open spec fn id_without<T>(s: Seq<(u32, T)>, k: u32) -> Seq<(u32, T)>
    decreases s.len(),
{
    if s.len() == 0 {
        Seq::empty()
    } else if s.last().0 == k {
        id_without(s.drop_last(), k)
    } else {
        id_without(s.drop_last(), k).push(s.last())
    }
}

/// No identifier occurs twice.
pub open spec fn id_distinct<T>(s: Seq<(u32, T)>) -> bool {
    forall|i: int, j: int| 0 <= i < j < s.len() ==> (#[trigger] s[i]).0 != (#[trigger] s[j]).0
}

pub proof fn lemma_id_get_without<T>(s: Seq<(u32, T)>, k: u32, q: u32)
    ensures
        id_get(id_without(s, k), q) == if q == k {
            None::<T>
        } else {
            id_get(s, q)
        },
    decreases s.len(),
{
    if s.len() == 0 {
    } else {
        lemma_id_get_without(s.drop_last(), k, q);
        if s.last().0 == k {
        } else {
            let w = id_without(s.drop_last(), k).push(s.last());
            assert(w.last() == s.last());
            assert(w.drop_last() =~= id_without(s.drop_last(), k));
        }
    }
}

pub proof fn lemma_id_without_facts<T>(s: Seq<(u32, T)>, k: u32)
    ensures
        forall|i: int|
            0 <= i < id_without(s, k).len() ==> s.contains(#[trigger] id_without(s, k)[i]),
        forall|i: int| 0 <= i < id_without(s, k).len() ==> (#[trigger] id_without(s, k)[i]).0 != k,
        id_without(s, k).len() <= s.len(),
        id_distinct(s) ==> id_distinct(id_without(s, k)),
    decreases s.len(),
{
    if s.len() == 0 {
    } else {
        let d = s.drop_last();
        assert(forall|i: int| 0 <= i < d.len() ==> #[trigger] d[i] == s[i]);
        assert forall|e: (u32, T)| d.contains(e) implies s.contains(e) by {
            let i = choose|i: int| 0 <= i < d.len() && d[i] == e;
            assert(s[i] == e);
        }
        if id_distinct(s) {
            assert(id_distinct(d));
        }
        lemma_id_without_facts(d, k);
        if s.last().0 == k {
        } else {
            let w0 = id_without(d, k);
            let w = w0.push(s.last());
            assert(s.contains(s.last())) by {
                assert(s[s.len() - 1] == s.last());
            }
            assert(forall|i: int| 0 <= i < w.len() ==> s.contains(#[trigger] w[i])) by {
                assert(forall|i: int| 0 <= i < w0.len() ==> #[trigger] w[i] == w0[i]);
                assert(w[w.len() - 1] == s.last());
            }
            assert(forall|i: int| 0 <= i < w.len() ==> (#[trigger] w[i]).0 != k) by {
                assert(forall|i: int| 0 <= i < w0.len() ==> #[trigger] w[i] == w0[i]);
                assert(w[w.len() - 1] == s.last());
            }
            if id_distinct(s) {
                assert forall|i: int| 0 <= i < w0.len() implies (#[trigger] w0[i]).0
                    != s.last().0 by {
                    let j = choose|j: int| 0 <= j < d.len() && d[j] == w0[i];
                    assert(s[j] == w0[i]);
                    assert(s[j].0 != s[s.len() - 1].0);
                }
                assert(id_distinct(w)) by {
                    assert(forall|i: int| 0 <= i < w0.len() ==> #[trigger] w[i] == w0[i]);
                    assert(w[w.len() - 1] == s.last());
                }
            }
        }
    }
}

/// The registry of in-flight requests: the identifier counter and one reply
/// slot per pending request.
pub struct PendingRegistry<T> {
    next_id: u32,
    entries: Vec<(u32, T)>,
}

impl<T> PendingRegistry<T> {
    /// The pending entries, oldest first.
    pub closed spec fn view(&self) -> Seq<(u32, T)> {
        self.entries@
    }

    /// The identifier the next request will get.
    pub closed spec fn spec_next_id(&self) -> u32 {
        self.next_id
    }

    /// At most one live entry per identifier.
    pub open spec fn wf(&self) -> bool {
        id_distinct(self@)
    }

    /// What is pending under `k`.
    pub open spec fn spec_get(&self, k: u32) -> Option<T> {
        id_get(self@, k)
    }

    /// An empty registry; identifiers start at zero.
    pub fn new() -> (r: Self)
        ensures
            r@ =~= Seq::<(u32, T)>::empty(),
            r.spec_next_id() == 0,
            r.wf(),
    {
        PendingRegistry { next_id: 0, entries: Vec::new() }
    }

    /// An empty registry whose counter starts at `start`.
    pub fn with_start(start: u32) -> (r: Self)
        ensures
            r@ =~= Seq::<(u32, T)>::empty(),
            r.spec_next_id() == start,
            r.wf(),
    {
        PendingRegistry { next_id: start, entries: Vec::new() }
    }

    /// How many requests are pending.
    pub fn len(&self) -> (n: usize)
        ensures
            n == self@.len(),
    {
        self.entries.len()
    }

    /// Mints the next correlation identifier: the current counter value,
    /// after which the counter steps forward, wrapping on overflow.
    pub fn get_next_id(&mut self) -> (id: u32)
        ensures
            id == old(self).spec_next_id(),
            final(self).spec_next_id() == if old(self).spec_next_id() == u32::MAX {
                0u32
            } else {
                (old(self).spec_next_id() + 1) as u32
            },
            final(self)@ == old(self)@,
    {
        let current = self.next_id;
        self.next_id = if current == u32::MAX {
            0
        } else {
            current + 1
        };
        current
    }

    /// Stores `slot` under `id`, replacing any entry already there (an
    /// identifier can recur only after the counter wraps).
    pub fn register(&mut self, id: u32, slot: T)
        ensures
            final(self)@ == id_without(old(self)@, id).push((id, slot)),
            final(self).spec_get(id) == Some(slot),
            forall|q: u32| q != id ==> #[trigger] final(self).spec_get(q) == old(self).spec_get(q),
            final(self).spec_next_id() == old(self).spec_next_id(),
            old(self).wf() ==> final(self).wf(),
    {
        let ghost s0 = self@;
        let _ = self.take(id);
        self.entries.push((id, slot));
        proof {
            let w = id_without(s0, id);
            let f = w.push((id, slot));
            assert(final(self)@ =~= f);
            assert(f.drop_last() =~= w);
            assert forall|q: u32| q != id implies #[trigger] id_get(f, q) == id_get(s0, q) by {
                lemma_id_get_without(s0, id, q);
            }
            lemma_id_without_facts(s0, id);
            if id_distinct(s0) {
                assert(id_distinct(f)) by {
                    assert(forall|i: int| 0 <= i < w.len() ==> #[trigger] f[i] == w[i]);
                    assert(f[f.len() - 1] == (id, slot));
                    assert(forall|i: int| 0 <= i < w.len() ==> (#[trigger] w[i]).0 != id);
                }
            }
        }
    }

    /// Removes and returns what is pending under `id`.  Completion and
    /// timeout cleanup both come through here, so an entry leaves the
    /// registry exactly once.
    pub fn take(&mut self, id: u32) -> (r: Option<T>)
        ensures
            final(self)@ == id_without(old(self)@, id),
            r == id_get(old(self)@, id),
            final(self).spec_next_id() == old(self).spec_next_id(),
            old(self).wf() ==> final(self).wf(),
    {
        let ghost s0 = self@;
        let mut rest: Vec<(u32, T)> = Vec::new();
        core::mem::swap(&mut rest, &mut self.entries);
        let mut kept: Vec<(u32, T)> = Vec::new();
        let mut found: Option<T> = None;
        let mut i: usize = 0;
        let n = rest.len();
        assert(rest@.subrange(0, (n - i) as int) =~= s0.subrange(i as int, n as int));
        while i < n
            invariant
                i <= n,
                n == s0.len(),
                rest@ =~= s0.subrange(i as int, n as int),
                kept@ =~= id_without(s0.subrange(0, i as int), id),
                found == id_get(s0.subrange(0, i as int), id),
            decreases n - i,
        {
            let e = rest.remove(0);
            proof {
                assert(e == s0[i as int]);
                assert(rest@ =~= s0.subrange(i + 1 as int, n as int));
                assert(s0.subrange(0, i + 1 as int).last() == s0[i as int]);
                assert(s0.subrange(0, i + 1 as int).drop_last() =~= s0.subrange(0, i as int));
            }
            if e.0 == id {
                found = Some(e.1);
            } else {
                kept.push(e);
            }
            i = i + 1;
        }
        proof {
            assert(s0.subrange(0, n as int) =~= s0);
        }
        self.entries = kept;
        proof {
            if id_distinct(s0) {
                lemma_id_without_facts(s0, id);
            }
        }
        found
    }
}

/// The message reported when a completion names an identifier with no
/// pending entry.
pub open spec fn no_pending_message(id: u32) -> Seq<char> {
    "No pending request with id "@ + dec_str(id as nat)
}

/// Completes the request with the given correlation identifier: its reply
/// slot leaves the registry and `response` goes out over it.  Fails — and
/// changes nothing more — when no entry is pending under that identifier or
/// the waiting side has already given up.
pub fn complete_request(
    pending: &mut PendingRegistry<tokio::sync::oneshot::Sender<ExecutionResult>>,
    request_id: u32,
    response: ExecutionResult,
) -> (r: Result<(), String>)
    ensures
        final(pending)@ == id_without(old(pending)@, request_id),
        final(pending).spec_next_id() == old(pending).spec_next_id(),
        old(pending).wf() ==> final(pending).wf(),
        r is Ok ==> old(pending).spec_get(request_id) is Some,
        old(pending).spec_get(request_id) is None ==> (r matches Err(m) && m@
            == no_pending_message(request_id)),
        old(pending).spec_get(request_id) is Some && r is Err ==> (r matches Err(m) && m@
            == "Failed to send response - receiver dropped"@),
{
    match pending.take(request_id) {
        Some(sender) => match oneshot_send(sender, response) {
            Ok(()) => Ok(()),
            Err(_) => Err(String::from_str("Failed to send response - receiver dropped")),
        },
        None => {
            let mut msg = String::from_str("No pending request with id ");
            push_u64_dec(&mut msg, request_id as u64);
            Err(msg)
        },
    }
}

} // verus!
