//! Bounded store of opaque continuation signatures, keyed by content-part
//! identifier, evicting the oldest insertion first.
use vstd::prelude::*;
use crate::mapping::{entries_view, lookup};

verus! {

pub struct ContinuationStore {
    /// `(part_id, signature)` pairs, oldest first, keys distinct.
    pub entries: Vec<(String, String)>,
    pub capacity: usize,
}

/// `s` with the entries for `k` taken out.
pub open spec fn without_key(s: Seq<(Seq<char>, Seq<char>)>, k: Seq<char>) -> Seq<(Seq<char>, Seq<char>)> {
    s.filter(key_differs(k))
}

pub open spec fn key_differs(k: Seq<char>) -> spec_fn((Seq<char>, Seq<char>)) -> bool {
    |e: (Seq<char>, Seq<char>)| e.0 != k
}

/// The store contents after remembering `(k, sig)` with room for `cap` entries:
/// any earlier entry for `k` goes, the new one is the newest, and the oldest
/// entries are evicted beyond `cap`.
pub open spec fn remembered(
    s: Seq<(Seq<char>, Seq<char>)>,
    k: Seq<char>,
    sig: Seq<char>,
    cap: nat,
) -> Seq<(Seq<char>, Seq<char>)> {
    let w = without_key(s, k).push((k, sig));
    if w.len() > cap {
        w.subrange(w.len() - cap, w.len() as int)
    } else {
        w
    }
}

pub proof fn lemma_lookup_absent(s: Seq<(Seq<char>, Seq<char>)>, k: Seq<char>)
    requires
        forall|j: int| 0 <= j < s.len() ==> (#[trigger] s[j]).0 != k,
    ensures
        lookup(s, k) is None,
    decreases s.len(),
{
    if s.len() > 0 {
        assert(s[0].0 != k);
        assert forall|j: int| 0 <= j < s.drop_first().len() implies (#[trigger] s.drop_first()[j]).0 != k by {
            assert(s.drop_first()[j] == s[j + 1]);
        }
        lemma_lookup_absent(s.drop_first(), k);
    }
}

pub proof fn lemma_lookup_last(s: Seq<(Seq<char>, Seq<char>)>, k: Seq<char>)
    requires
        s.len() > 0,
        s.last().0 == k,
        forall|j: int| 0 <= j < s.len() - 1 ==> (#[trigger] s[j]).0 != k,
    ensures
        lookup(s, k) == Some(s.last().1),
    decreases s.len(),
{
    if s.len() > 1 {
        assert(s[0].0 != k);
        let t = s.drop_first();
        assert(t.last() == s.last());
        assert forall|j: int| 0 <= j < t.len() - 1 implies (#[trigger] t[j]).0 != k by {
            assert(t[j] == s[j + 1]);
        }
        lemma_lookup_last(t, k);
    }
}

/// Remembering a signature makes it the one recalled for its part id, as
/// long as the store has room for at least one entry.
pub proof fn lemma_remember_recall(s: Seq<(Seq<char>, Seq<char>)>, k: Seq<char>, sig: Seq<char>, cap: nat)
    requires
        cap > 0,
    ensures
        lookup(remembered(s, k, sig, cap), k) == Some(sig),
{
    let f = key_differs(k);
    let w = without_key(s, k).push((k, sig));
    assert forall|j: int| 0 <= j < without_key(s, k).len() implies (#[trigger] without_key(s, k)[j]).0 != k by {
        s.lemma_filter_pred(f, j);
    }
    let r = remembered(s, k, sig, cap);
    assert(r.last() == (k, sig));
    assert forall|j: int| 0 <= j < r.len() - 1 implies (#[trigger] r[j]).0 != k by {
        if w.len() > cap {
            assert(r[j] == w[j + w.len() - cap]);
        }
    }
    lemma_lookup_last(r, k);
}

/// A part id that was never stored, or has been evicted, recalls nothing.
pub proof fn lemma_recall_absent(s: Seq<(Seq<char>, Seq<char>)>, k: Seq<char>)
    requires
        forall|j: int| 0 <= j < s.len() ==> (#[trigger] s[j]).0 != k,
    ensures
        lookup(s, k) is None,
{
    lemma_lookup_absent(s, k);
}

impl ContinuationStore {
    pub open spec fn view(&self) -> Seq<(Seq<char>, Seq<char>)> {
        entries_view(self.entries@)
    }

    pub open spec fn wf(&self) -> bool {
        self.entries@.len() <= self.capacity
    }

    pub fn new(capacity: usize) -> (r: ContinuationStore)
        ensures
            r.wf(),
            r.view().len() == 0,
            r.capacity == capacity,
    {
        ContinuationStore { entries: Vec::new(), capacity }
    }

    /// Stores `signature` under `part_id`.
    pub fn remember(&mut self, part_id: String, signature: String)
        requires
            old(self).wf(),
        ensures
            final(self).wf(),
            final(self).capacity == old(self).capacity,
            final(self).view() == remembered(old(self).view(), part_id@, signature@, old(self).capacity as nat),
    {
        let ghost f = key_differs(part_id@);
        let mut kept: Vec<(String, String)> = Vec::new();
        let mut i: usize = 0;
        while i < self.entries.len()
            invariant
                0 <= i <= self.entries@.len(),
                self.wf(),
                f == key_differs(part_id@),
                entries_view(kept@) == self.view().subrange(0, i as int).filter(f),
                kept@.len() <= i,
            decreases self.entries.len() - i,
        {
            let ghost pre = self.view().subrange(0, i as int);
            assert(self.view().subrange(0, i + 1) =~= pre.push(self.view()[i as int]));
            reveal(Seq::filter);
            assert(pre.push(self.view()[i as int]).drop_last() =~= pre);
            let ghost x = self.view()[i as int];
            assert(x == (self.entries@[i as int].0@, self.entries@[i as int].1@));
            assert(f(x) == (x.0 != part_id@));
            if !(self.entries[i].0 == part_id) {
                let e = (self.entries[i].0.clone(), self.entries[i].1.clone());
                let ghost before = kept@;
                kept.push(e);
                assert(entries_view(kept@) =~= entries_view(before).push(x));
                assert(f(x));
                assert(pre.push(x).last() == x);
                assert(pre.push(x).filter(f) == pre.filter(f).push(x));
            } else {
                assert(!f(x));
                assert(pre.push(x).last() == x);
                assert(pre.push(x).filter(f) == pre.filter(f));
            }
            i = i + 1;
        }
        assert(self.view().subrange(0, self.view().len() as int) =~= self.view());
        let ghost w = without_key(self.view(), part_id@).push((part_id@, signature@));
        kept.push((part_id, signature));
        assert(entries_view(kept@) =~= w);
        if kept.len() > self.capacity {
            let excess = kept.len() - self.capacity;
            let mut rest: Vec<(String, String)> = Vec::new();
            let mut j: usize = excess;
            while j < kept.len()
                invariant
                    excess <= j <= kept@.len(),
                    entries_view(rest@) =~= w.subrange(excess as int, j as int),
                    entries_view(kept@) == w,
                decreases kept.len() - j,
            {
                let e = (kept[j].0.clone(), kept[j].1.clone());
                let ghost before = rest@;
                assert(w[j as int] == (kept@[j as int].0@, kept@[j as int].1@));
                rest.push(e);
                assert(entries_view(rest@) =~= entries_view(before).push(w[j as int]));
                assert(entries_view(rest@) =~= w.subrange(excess as int, j + 1));
                j = j + 1;
            }
            self.entries = rest;
        } else {
            self.entries = kept;
        }
    }

    /// The signature stored under `part_id`, if it is still held.
    pub fn recall(&self, part_id: &String) -> (r: Option<String>)
        ensures
            match r {
                Some(s) => lookup(self.view(), part_id@) == Some(s@),
                None => lookup(self.view(), part_id@) is None,
            },
    {
        let ghost v = self.view();
        let mut i: usize = 0;
        assert(v.subrange(0, v.len() as int) =~= v);
        while i < self.entries.len()
            invariant
                0 <= i <= self.entries@.len(),
                v == self.view(),
                v.len() == self.entries@.len(),
                lookup(v, part_id@) == lookup(v.subrange(i as int, v.len() as int), part_id@),
            decreases self.entries.len() - i,
        {
            let ghost rest = v.subrange(i as int, v.len() as int);
            assert(rest.drop_first() =~= v.subrange(i + 1, v.len() as int));
            if self.entries[i].0 == *part_id {
                return Some(self.entries[i].1.clone());
            }
            i = i + 1;
        }
        None
    }
}

} // verus!
