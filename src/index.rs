//! The index of summaries, keyed by document id.
use vstd::prelude::*;
use vstd::string::StringExecFns;
use vstd::relations::injective_on;
use vstd::set_lib::{lemma_int_range, lemma_map_size, set_int_range};
use crate::fresh::{candidate, candidate_string, lemma_free_candidate};
use crate::model::InvoiceSummary;

verus! {

/// Summaries, at most one per document id, kept in insertion order.
pub struct DocumentIndex {
    entries: Vec<InvoiceSummary>,
}

pub open spec fn has_key(s: Seq<InvoiceSummary>, k: Seq<char>) -> bool {
    exists|i: int| 0 <= i < s.len() && (#[trigger] s[i]).id@ == k
}

pub open spec fn entry_for(s: Seq<InvoiceSummary>, k: Seq<char>) -> InvoiceSummary {
    s[choose|i: int| 0 <= i < s.len() && (#[trigger] s[i]).id@ == k]
}

pub open spec fn unique_ids(s: Seq<InvoiceSummary>) -> bool {
    forall|i: int, j: int| 0 <= i < s.len() && 0 <= j < s.len() && i != j ==> (#[trigger] s[i]).id@ != (#[trigger] s[j]).id@
}

/// The summaries as a map from id to summary.
pub open spec fn map_of(s: Seq<InvoiceSummary>) -> Map<Seq<char>, InvoiceSummary> {
    Map::new(|k: Seq<char>| has_key(s, k), |k: Seq<char>| entry_for(s, k))
}

proof fn lemma_entry(s: Seq<InvoiceSummary>, i: int)
    requires
        unique_ids(s),
        0 <= i < s.len(),
    ensures
        has_key(s, s[i].id@),
        entry_for(s, s[i].id@) == s[i],
{
    let k = s[i].id@;
    assert(has_key(s, k));
    let j = choose|j: int| 0 <= j < s.len() && (#[trigger] s[j]).id@ == k;
    assert(j == i);
}

/// Every summary in the index is filed under its own id.
pub open spec fn keyed_by_id(m: Map<Seq<char>, InvoiceSummary>) -> bool {
    forall|k: Seq<char>| #[trigger] m.contains_key(k) ==> m[k].id@ == k
}

proof fn lemma_keyed(s: Seq<InvoiceSummary>)
    requires
        unique_ids(s),
    ensures
        keyed_by_id(map_of(s)),
{
    assert forall|k: Seq<char>| #[trigger] map_of(s).contains_key(k) implies map_of(s)[k].id@ == k by {
        let i = choose|i: int| 0 <= i < s.len() && (#[trigger] s[i]).id@ == k;
        lemma_entry(s, i);
    }
}

impl View for DocumentIndex {
    type V = Map<Seq<char>, InvoiceSummary>;

    closed spec fn view(&self) -> Map<Seq<char>, InvoiceSummary> {
        map_of(self.entries@)
    }
}

impl DocumentIndex {
    pub closed spec fn wf(&self) -> bool {
        unique_ids(self.entries@)
    }

    /// The number of documents in the index.
    pub closed spec fn count(&self) -> nat {
        self.entries@.len()
    }

    /// The summaries in the order `list` gives them: a function of the
    /// index alone, so listing twice without a change in between gives the
    /// same list.
    pub closed spec fn listing(&self) -> Seq<InvoiceSummary> {
        self.entries@
    }

    /// There are as many documents as ids in the index.
    pub proof fn lemma_count(&self)
        requires
            self.wf(),
        ensures
            self@.dom().finite(),
            self@.dom().len() == self.count(),
    {
        let s = self.entries@;
        let n = s.len() as int;
        let x = set_int_range(0, n);
        let f = |i: int| s[i].id@;
        lemma_int_range(0, n);
        assert(injective_on(f, x));
        assert(x.map(f) =~= self@.dom()) by {
            assert forall|k: Seq<char>| #[trigger] self@.dom().contains(k) implies x.map(f).contains(k) by {
                let i = choose|i: int| 0 <= i < s.len() && (#[trigger] s[i]).id@ == k;
                assert(x.contains(i) && f(i) == k);
            }
            assert forall|k: Seq<char>| x.map(f).contains(k) implies #[trigger] self@.dom().contains(k) by {
                let i = choose|i: int| x.contains(i) && f(i) == k;
                assert(s[i].id@ == k);
            }
        }
        lemma_map_size(x, self@.dom(), f);
    }

    /// The first of `base`, `base-1`, `base-2`, ... that is not an id in the
    /// index.
    pub fn fresh_id(&self, base: &str) -> (r: String)
        requires
            self.wf(),
        ensures
            !self@.contains_key(r@),
            exists|k: nat| r@ == candidate(base@, k) && forall|j: nat| j < k ==> self@.contains_key(#[trigger] candidate(base@, j)),
    {
        let ghost ids = self.entries@.map_values(|e: InvoiceSummary| e.id@);
        let len = self.entries.len();
        let mut k: usize = 0;
        loop
            invariant
                k <= len,
                len == self.entries@.len(),
                ids == self.entries@.map_values(|e: InvoiceSummary| e.id@),
                self.wf(),
                forall|j: nat| j < k ==> self@.contains_key(#[trigger] candidate(base@, j)),
            decreases len - k,
        {
            let c = candidate_string(base, k as u64);
            if self.get(c.as_str()).is_none() {
                return c;
            }
            if k == len {
                proof {
                    lemma_free_candidate(base@, ids);
                    let k0 = choose|k0: nat| k0 <= ids.len() && !ids.contains(#[trigger] candidate(base@, k0));
                    let key = candidate(base@, k0);
                    assert(self@.contains_key(key));
                    let i = choose|i: int| 0 <= i < self.entries@.len() && (#[trigger] self.entries@[i]).id@ == key;
                    assert(ids[i] == key);
                    assert(false);
                }
            }
            k = k + 1;
        }
    }

    pub fn new() -> (r: DocumentIndex)
        ensures
            r.wf(),
            r@ == Map::<Seq<char>, InvoiceSummary>::empty(),
            r.count() == 0,
    {
        let r = DocumentIndex { entries: Vec::new() };
        assert(r@ =~= Map::<Seq<char>, InvoiceSummary>::empty());
        r
    }

    pub proof fn lemma_keyed_by_id(&self)
        requires
            self.wf(),
        ensures
            keyed_by_id(self@),
    {
        lemma_keyed(self.entries@);
    }

    pub fn len(&self) -> (r: usize)
        ensures
            r == self.count(),
    {
        self.entries.len()
    }

    fn position(&self, id: &String) -> (r: Option<usize>)
        requires
            self.wf(),
        ensures
            r is None <==> !self@.contains_key(id@),
            r matches Some(i) ==> i < self.entries@.len() && self.entries@[i as int].id@ == id@,
    {
        let mut i: usize = 0;
        while i < self.entries.len()
            invariant
                i <= self.entries@.len(),
                forall|j: int| 0 <= j < i ==> (#[trigger] self.entries@[j]).id@ != id@,
            decreases self.entries@.len() - i,
        {
            if self.entries[i].id == *id {
                return Some(i);
            }
            i = i + 1;
        }
        None
    }

    /// The summary filed under `id`.
    pub fn get(&self, id: &str) -> (r: Option<&InvoiceSummary>)
        requires
            self.wf(),
        ensures
            r is Some <==> self@.contains_key(id@),
            r matches Some(s) ==> *s == self@[id@],
    {
        let key = String::from_str(id);
        match self.position(&key) {
            Some(i) => {
                proof {
                    lemma_entry(self.entries@, i as int);
                }
                Some(&self.entries[i])
            },
            None => None,
        }
    }

    /// Files `summary` under its id, replacing what was there.
    pub fn upsert(&mut self, summary: InvoiceSummary)
        requires
            old(self).wf(),
        ensures
            final(self).wf(),
            final(self)@ == old(self)@.insert(summary.id@, summary),
            final(self).count() == old(self).count() + if old(self)@.contains_key(summary.id@) {
                0nat
            } else {
                1nat
            },
    {
        let ghost s = self.entries@;
        let ghost k = summary.id@;
        match self.position(&summary.id) {
            Some(i) => {
                self.entries.set(i, summary);
                proof {
                    let t = self.entries@;
                    assert(t == s.update(i as int, summary));
                    assert forall|a: int, b: int| 0 <= a < t.len() && 0 <= b < t.len() && a != b
                        implies (#[trigger] t[a]).id@ != (#[trigger] t[b]).id@ by {
                        assert(t[a].id@ == s[a].id@);
                        assert(t[b].id@ == s[b].id@);
                    }
                    assert forall|q: Seq<char>| #[trigger] map_of(t).contains_key(q)
                        == map_of(s).insert(k, summary).contains_key(q) by {
                        if has_key(s, q) {
                            let j = choose|j: int| 0 <= j < s.len() && (#[trigger] s[j]).id@ == q;
                            assert(t[j].id@ == q);
                        }
                        if has_key(t, q) {
                            let j = choose|j: int| 0 <= j < t.len() && (#[trigger] t[j]).id@ == q;
                            assert(s[j].id@ == q);
                        }
                    }
                    assert forall|q: Seq<char>| #[trigger] map_of(t).contains_key(q)
                        implies map_of(t)[q] == map_of(s).insert(k, summary)[q] by {
                        let j = choose|j: int| 0 <= j < t.len() && (#[trigger] t[j]).id@ == q;
                        lemma_entry(t, j);
                        if j != i {
                            lemma_entry(s, j);
                        }
                    }
                    assert(map_of(t) =~= map_of(s).insert(k, summary));
                }
            },
            None => {
                self.entries.push(summary);
                proof {
                    let t = self.entries@;
                    assert(t == s.push(summary));
                    assert forall|a: int, b: int| 0 <= a < t.len() && 0 <= b < t.len() && a != b
                        implies (#[trigger] t[a]).id@ != (#[trigger] t[b]).id@ by {
                        if a < s.len() && b < s.len() {
                            assert(t[a] == s[a] && t[b] == s[b]);
                        } else if a < s.len() {
                            assert(t[a] == s[a]);
                            assert(!has_key(s, k));
                        } else {
                            assert(t[b] == s[b]);
                            assert(!has_key(s, k));
                        }
                    }
                    assert forall|q: Seq<char>| #[trigger] map_of(t).contains_key(q)
                        == map_of(s).insert(k, summary).contains_key(q) by {
                        if has_key(s, q) {
                            let j = choose|j: int| 0 <= j < s.len() && (#[trigger] s[j]).id@ == q;
                            assert(t[j].id@ == q);
                        }
                        if has_key(t, q) && q != k {
                            let j = choose|j: int| 0 <= j < t.len() && (#[trigger] t[j]).id@ == q;
                            assert(s[j].id@ == q);
                        }
                        assert(t[s.len() as int].id@ == k);
                    }
                    assert forall|q: Seq<char>| #[trigger] map_of(t).contains_key(q)
                        implies map_of(t)[q] == map_of(s).insert(k, summary)[q] by {
                        let j = choose|j: int| 0 <= j < t.len() && (#[trigger] t[j]).id@ == q;
                        lemma_entry(t, j);
                        if j < s.len() {
                            assert(t[j] == s[j]);
                            lemma_entry(s, j);
                        }
                    }
                    assert(map_of(t) =~= map_of(s).insert(k, summary));
                }
            },
        }
    }

    /// Takes the summary filed under `id` out of the index, if there is one.
    pub fn remove(&mut self, id: &str) -> (r: Option<InvoiceSummary>)
        requires
            old(self).wf(),
        ensures
            final(self).wf(),
            final(self)@ == old(self)@.remove(id@),
            r is Some <==> old(self)@.contains_key(id@),
            r matches Some(s) ==> s == old(self)@[id@],
            final(self).count() == old(self).count() - if old(self)@.contains_key(id@) {
                1int
            } else {
                0int
            },
    {
        let key = String::from_str(id);
        let ghost s = self.entries@;
        let ghost k = id@;
        match self.position(&key) {
            Some(i) => {
                proof {
                    lemma_entry(s, i as int);
                }
                let removed = self.entries.remove(i);
                proof {
                    let t = self.entries@;
                    assert(t == s.remove(i as int));
                    assert forall|a: int| 0 <= a < t.len() implies #[trigger] t[a] == s[if a < i {
                        a
                    } else {
                        a + 1
                    }] by {}
                    assert forall|a: int, b: int| 0 <= a < t.len() && 0 <= b < t.len() && a != b
                        implies (#[trigger] t[a]).id@ != (#[trigger] t[b]).id@ by {
                        let a2 = if a < i { a } else { a + 1 };
                        let b2 = if b < i { b } else { b + 1 };
                        assert(t[a] == s[a2] && t[b] == s[b2]);
                    }
                    assert forall|q: Seq<char>| #[trigger] map_of(t).contains_key(q)
                        == map_of(s).remove(k).contains_key(q) by {
                        if has_key(s, q) && q != k {
                            let j = choose|j: int| 0 <= j < s.len() && (#[trigger] s[j]).id@ == q;
                            assert(j != i);
                            let j2 = if j < i { j } else { j - 1 };
                            assert(t[j2] == s[j]);
                        }
                        if has_key(t, q) {
                            let j = choose|j: int| 0 <= j < t.len() && (#[trigger] t[j]).id@ == q;
                            let j2 = if j < i { j } else { j + 1 };
                            assert(t[j] == s[j2]);
                            assert(j2 != i);
                        }
                    }
                    assert forall|q: Seq<char>| #[trigger] map_of(t).contains_key(q)
                        implies map_of(t)[q] == map_of(s).remove(k)[q] by {
                        let j = choose|j: int| 0 <= j < t.len() && (#[trigger] t[j]).id@ == q;
                        let j2 = if j < i { j } else { j + 1 };
                        assert(t[j] == s[j2]);
                        lemma_entry(t, j);
                        lemma_entry(s, j2);
                    }
                    assert(map_of(t) =~= map_of(s).remove(k));
                }
                Some(removed)
            },
            None => {
                assert(map_of(s) =~= map_of(s).remove(k));
                None
            },
        }
    }

    /// Every summary in the index, once each, in insertion order.
    pub fn list(&self) -> (r: Vec<InvoiceSummary>)
        requires
            self.wf(),
        ensures
            r@ == self.listing(),
            r@.len() == self.count(),
            r@.len() == self@.dom().len(),
            forall|i: int, j: int| 0 <= i < r@.len() && 0 <= j < r@.len() && i != j ==> (#[trigger] r@[i]).id@ != (#[trigger] r@[j]).id@,
            forall|i: int| 0 <= i < r@.len() ==> self@.contains_key((#[trigger] r@[i]).id@) && self@[r@[i].id@] == r@[i],
            forall|k: Seq<char>| #[trigger] self@.contains_key(k) ==> exists|i: int| 0 <= i < r@.len() && (#[trigger] r@[i]).id@ == k,
    {
        let mut r: Vec<InvoiceSummary> = Vec::new();
        let mut i: usize = 0;
        while i < self.entries.len()
            invariant
                i <= self.entries@.len(),
                r@ == self.entries@.subrange(0, i as int),
            decreases self.entries@.len() - i,
        {
            r.push(self.entries[i].duplicate());
            i = i + 1;
        }
        proof {
            assert(r@ =~= self.entries@);
            self.lemma_count();
            assert forall|j: int| 0 <= j < r@.len() implies self@.contains_key((#[trigger] r@[j]).id@)
                && self@[r@[j].id@] == r@[j] by {
                lemma_entry(self.entries@, j);
            }
        }
        r
    }
}

} // verus!
