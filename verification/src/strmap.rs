//! A small association map with string keys, kept as a vector of pairs with
//! no key repeated.  Inserting an existing key replaces its entry (and moves
//! it to the end), which is the last-registered-wins rule the routing table
//! and the handler table both follow.

use vstd::prelude::*;
use crate::text::str_eq;

verus! {

/// What looking `k` up in the pair sequence yields: the value of the latest
/// entry whose key reads `k`, if any.
pub open spec fn assoc_get<V>(s: Seq<(String, V)>, k: Seq<char>) -> Option<V>
    decreases s.len(),
{
    if s.len() == 0 {
        None
    } else if s.last().0@ == k {
        Some(s.last().1)
    } else {
        assoc_get(s.drop_last(), k)
    }
}

/// The pair sequence with every entry for key `k` taken out.
pub open spec fn assoc_without<V>(s: Seq<(String, V)>, k: Seq<char>) -> Seq<(String, V)>
    decreases s.len(),
{
    if s.len() == 0 {
        Seq::empty()
    } else if s.last().0@ == k {
        assoc_without(s.drop_last(), k)
    } else {
        assoc_without(s.drop_last(), k).push(s.last())
    }
}

/// No key occurs twice.
pub open spec fn assoc_distinct<V>(s: Seq<(String, V)>) -> bool {
    forall|i: int, j: int| 0 <= i < j < s.len() ==> (#[trigger] s[i]).0@ != (#[trigger] s[j]).0@
}

pub proof fn lemma_assoc_get_without<V>(s: Seq<(String, V)>, k: Seq<char>, q: Seq<char>)
    ensures
        assoc_get(assoc_without(s, k), q) == if q == k {
            None::<V>
        } else {
            assoc_get(s, q)
        },
    decreases s.len(),
{
    if s.len() == 0 {
    } else {
        lemma_assoc_get_without(s.drop_last(), k, q);
        if s.last().0@ == k {
        } else {
            let w = assoc_without(s.drop_last(), k).push(s.last());
            assert(w.last() == s.last());
            assert(w.drop_last() =~= assoc_without(s.drop_last(), k));
        }
    }
}

pub proof fn lemma_assoc_without_facts<V>(s: Seq<(String, V)>, k: Seq<char>)
    ensures
        forall|i: int|
            0 <= i < assoc_without(s, k).len() ==> s.contains(#[trigger] assoc_without(s, k)[i]),
        forall|i: int|
            0 <= i < assoc_without(s, k).len() ==> (#[trigger] assoc_without(s, k)[i]).0@ != k,
        assoc_without(s, k).len() <= s.len(),
        assoc_distinct(s) ==> assoc_distinct(assoc_without(s, k)),
        assoc_distinct(s) ==> assoc_without(s, k).len() == if assoc_get(s, k) is Some {
            (s.len() - 1) as nat
        } else {
            s.len()
        },
    decreases s.len(),
{
    if s.len() == 0 {
    } else {
        let d = s.drop_last();
        assert(forall|i: int| 0 <= i < d.len() ==> #[trigger] d[i] == s[i]);
        assert(forall|e: (String, V)| d.contains(e) ==> s.contains(e)) by {
            assert forall|e: (String, V)| d.contains(e) implies s.contains(e) by {
                let i = choose|i: int| 0 <= i < d.len() && d[i] == e;
                assert(s[i] == e);
            }
        }
        if assoc_distinct(s) {
            assert(assoc_distinct(d));
        }
        lemma_assoc_without_facts(d, k);
        if s.last().0@ == k {
            if assoc_distinct(s) {
                // No earlier entry carries k, so the recursive call removed
                // nothing and the single removed entry is the last one.
                assert(forall|i: int| 0 <= i < d.len() ==> (#[trigger] d[i]).0@ != k) by {
                    assert(forall|i: int|
                        0 <= i < s.len() - 1 ==> (#[trigger] s[i]).0@ != s[s.len() - 1].0@);
                }
                lemma_assoc_get_none_of_absent(d, k);
            }
        } else {
            let w0 = assoc_without(d, k);
            let w = w0.push(s.last());
            assert(s.contains(s.last())) by {
                assert(s[s.len() - 1] == s.last());
            }
            assert(forall|i: int| 0 <= i < w.len() ==> s.contains(#[trigger] w[i])) by {
                assert(forall|i: int| 0 <= i < w0.len() ==> #[trigger] w[i] == w0[i]);
                assert(w[w.len() - 1] == s.last());
            }
            assert(forall|i: int| 0 <= i < w.len() ==> (#[trigger] w[i]).0@ != k) by {
                assert(forall|i: int| 0 <= i < w0.len() ==> #[trigger] w[i] == w0[i]);
                assert(w[w.len() - 1] == s.last());
            }
            if assoc_distinct(s) {
                assert forall|i: int| 0 <= i < w0.len() implies (#[trigger] w0[i]).0@
                    != s.last().0@ by {
                    let j = choose|j: int| 0 <= j < d.len() && d[j] == w0[i];
                    assert(s[j] == w0[i]);
                    assert(s[j].0@ != s[s.len() - 1].0@);
                }
                assert(assoc_distinct(w)) by {
                    assert(forall|i: int| 0 <= i < w0.len() ==> #[trigger] w[i] == w0[i]);
                    assert(w[w.len() - 1] == s.last());
                }
            }
        }
    }
}

pub proof fn lemma_assoc_get_none_of_absent<V>(s: Seq<(String, V)>, k: Seq<char>)
    requires
        forall|i: int| 0 <= i < s.len() ==> (#[trigger] s[i]).0@ != k,
    ensures
        assoc_get(s, k) is None,
    decreases s.len(),
{
    if s.len() > 0 {
        assert(s[s.len() - 1].0@ != k);
        assert(forall|i: int| 0 <= i < s.drop_last().len() ==> #[trigger] s.drop_last()[i] == s[i]);
        lemma_assoc_get_none_of_absent(s.drop_last(), k);
    }
}

/// An association map from string keys to values, no key repeated.
pub struct StrMap<V> {
    entries: Vec<(String, V)>,
}

impl<V> StrMap<V> {
    /// The entry sequence, in registration order.
    pub closed spec fn view(&self) -> Seq<(String, V)> {
        self.entries@
    }

    /// The map is well formed: no key occurs twice.
    pub open spec fn wf(&self) -> bool {
        assoc_distinct(self@)
    }

    /// What `k` maps to.
    pub open spec fn spec_get(&self, k: Seq<char>) -> Option<V> {
        assoc_get(self@, k)
    }

    /// An empty map.
    pub fn new() -> (r: Self)
        ensures
            r@ =~= Seq::<(String, V)>::empty(),
            r.wf(),
    {
        StrMap { entries: Vec::new() }
    }

    /// How many keys are present.
    pub fn len(&self) -> (n: usize)
        ensures
            n == self@.len(),
    {
        self.entries.len()
    }

    /// A reference to the value under `k`, if present.
    pub fn get(&self, k: &str) -> (r: Option<&V>)
        ensures
            match r {
                Some(v) => self.spec_get(k@) == Some(*v),
                None => self.spec_get(k@) is None,
            },
    {
        let n = self.entries.len();
        let mut j: usize = n;
        assert(self@.subrange(0, n as int) =~= self@);
        while j > 0
            invariant
                j <= n,
                n == self@.len(),
                assoc_get(self@.subrange(0, j as int), k@) == assoc_get(self@, k@),
            decreases j,
    {
            proof {
                assert(self@.subrange(0, j as int).last() == self@[j - 1]);
                assert(self@.subrange(0, j as int).drop_last() =~= self@.subrange(0, j - 1));
            }
            if str_eq(self.entries[j - 1].0.as_str(), k) {
                return Some(&self.entries[j - 1].1);
            }
            j = j - 1;
        }
        proof {
            assert(self@.subrange(0, 0) =~= Seq::<(String, V)>::empty());
        }
        None
    }

    /// Whether `k` is present.
    pub fn contains_key(&self, k: &str) -> (r: bool)
        ensures
            r == (self.spec_get(k@) is Some),
    {
        self.get(k).is_some()
    }

    /// Takes every entry for `k` out and hands the latest one back.
    pub fn remove(&mut self, k: &str) -> (r: Option<V>)
        ensures
            final(self)@ == assoc_without(old(self)@, k@),
            r == assoc_get(old(self)@, k@),
            old(self).wf() ==> final(self).wf(),
    {
        let ghost s0 = self@;
        let mut rest: Vec<(String, V)> = Vec::new();
        core::mem::swap(&mut rest, &mut self.entries);
        let mut kept: Vec<(String, V)> = Vec::new();
        let mut found: Option<V> = None;
        let mut i: usize = 0;
        let n = rest.len();
        assert(rest@.subrange(0, (n - i) as int) =~= s0.subrange(i as int, n as int));
        while i < n
            invariant
                i <= n,
                n == s0.len(),
                rest@ =~= s0.subrange(i as int, n as int),
                kept@ =~= assoc_without(s0.subrange(0, i as int), k@),
                found == assoc_get(s0.subrange(0, i as int), k@),
            decreases n - i,
        {
            let e = rest.remove(0);
            proof {
                assert(e == s0[i as int]);
                assert(rest@ =~= s0.subrange(i + 1 as int, n as int));
                assert(s0.subrange(0, i + 1 as int).last() == s0[i as int]);
                assert(s0.subrange(0, i + 1 as int).drop_last() =~= s0.subrange(0, i as int));
            }
            if str_eq(e.0.as_str(), k) {
                found = Some(e.1);
            } else {
                kept.push(e);
            }
            i = i + 1;
        }
        proof {
            assert(s0.subrange(0, n as int) =~= s0);
        }
        self.entries = kept;
        proof {
            if assoc_distinct(s0) {
                lemma_assoc_without_facts(s0, k@);
            }
        }
        found
    }

    /// Binds `k` to `v`, replacing any earlier entry for `k`.
    pub fn insert(&mut self, k: String, v: V)
        ensures
            final(self)@ == assoc_without(old(self)@, k@).push((k, v)),
            final(self).spec_get(k@) == Some(v),
            forall|q: Seq<char>|
                q != k@ ==> #[trigger] final(self).spec_get(q) == old(self).spec_get(q),
            old(self).wf() ==> final(self).wf(),
    {
        let ghost s0 = self@;
        let ghost kv = k@;
        let _ = self.remove(k.as_str());
        self.entries.push((k, v));
        proof {
            let w = assoc_without(s0, kv);
            let f = w.push((k, v));
            assert(final(self)@ =~= f);
            assert(f.last().0@ == kv);
            assert(f.drop_last() =~= w);
            assert forall|q: Seq<char>| q != kv implies #[trigger] assoc_get(f, q) == assoc_get(
                s0,
                q,
            ) by {
                lemma_assoc_get_without(s0, kv, q);
            }
            lemma_assoc_without_facts(s0, kv);
            if assoc_distinct(s0) {
                assert(assoc_distinct(f)) by {
                    assert(forall|i: int| 0 <= i < w.len() ==> #[trigger] f[i] == w[i]);
                    assert(f[f.len() - 1] == (k, v));
                    assert(forall|i: int| 0 <= i < w.len() ==> (#[trigger] w[i]).0@ != kv);
                }
            }
        }
    }

    /// The keys, in registration order.
    pub fn keys(&self) -> (r: Vec<String>)
        ensures
            r@.len() == self@.len(),
            forall|i: int| 0 <= i < r@.len() ==> #[trigger] r@[i]@ == self@[i].0@,
    {
        let mut out: Vec<String> = Vec::new();
        let n = self.entries.len();
        let mut i: usize = 0;
        while i < n
            invariant
                i <= n,
                n == self@.len(),
                out@.len() == i,
                forall|j: int| 0 <= j < i ==> #[trigger] out@[j]@ == self@[j].0@,
            decreases n - i,
        {
            let s: String = self.entries[i].0.clone();
            out.push(s);
            i = i + 1;
        }
        out
    }

    /// The entry at position `i`, oldest first.
    pub fn get_index(&self, i: usize) -> (r: &(String, V))
        requires
            i < self@.len(),
        ensures
            *r == self@[i as int],
    {
        &self.entries[i]
    }

    /// Drops every entry.
    pub fn clear(&mut self)
        ensures
            final(self)@ =~= Seq::<(String, V)>::empty(),
            final(self).wf(),
    {
        self.entries.clear();
    }
}

impl StrMap<String> {
    /// The entries as owned pairs, in registration order, reading the same.
    pub fn entries_cloned(&self) -> (r: Vec<(String, String)>)
        ensures
            r@.len() == self@.len(),
            forall|i: int|
                0 <= i < r@.len() ==> (#[trigger] r@[i]).0@ == self@[i].0@ && r@[i].1@
                    == self@[i].1@,
    {
        let mut out: Vec<(String, String)> = Vec::new();
        let n = self.entries.len();
        let mut i: usize = 0;
        while i < n
            invariant
                i <= n,
                n == self@.len(),
                out@.len() == i,
                forall|j: int|
                    0 <= j < i ==> (#[trigger] out@[j]).0@ == self@[j].0@ && out@[j].1@
                        == self@[j].1@,
            decreases n - i,
        {
            let k: String = self.entries[i].0.clone();
            let v: String = self.entries[i].1.clone();
            out.push((k, v));
            i = i + 1;
        }
        out
    }
}

} // verus!
