//! A finite map from byte-string keys, kept as a vector of entries in strictly
//! ascending key order.
use core::cmp::Ordering;
use vstd::prelude::*;

use crate::key_order::{
    above_lower, below_upper, compare_keys, passes_upper, in_bounds, lemma_above_lower_mono,
    lemma_below_upper_mono, lemma_lex_cmp_antisym, lemma_lex_cmp_equal, lemma_lex_lt_trans,
    lex_lt, KeyBound,
};

verus! {

/// The byte strings that a vector of keys holds.
pub open spec fn key_views(s: Seq<Vec<u8>>) -> Seq<Seq<u8>> {
    s.map_values(|k: Vec<u8>| k@)
}

/// What a range scan must return: at most `max` keys of `dom` between the
/// bounds, in ascending order, and no key of `dom` between the bounds is left
/// out unless `max` keys were returned, all of them below it.
pub open spec fn is_range_page(
    dom: Set<Seq<u8>>,
    lo: KeyBound,
    hi: KeyBound,
    max: nat,
    r: Seq<Seq<u8>>,
) -> bool {
    &&& r.len() <= max
    &&& forall|i: int, j: int| 0 <= i < j < r.len() ==> lex_lt(#[trigger] r[i], #[trigger] r[j])
    &&& forall|i: int| 0 <= i < r.len() ==> dom.contains(#[trigger] r[i]) && in_bounds(r[i], lo, hi)
    &&& forall|k: Seq<u8>|
        dom.contains(k) && in_bounds(k, lo, hi) && !r.contains(k) ==> r.len() == max && (r.len()
            > 0 ==> lex_lt(r.last(), k))
}

pub struct KeyMap<V> {
    entries: Vec<(Vec<u8>, V)>,
}

impl<V> View for KeyMap<V> {
    type V = Map<Seq<u8>, V>;

    closed spec fn view(&self) -> Map<Seq<u8>, V> {
        let ks = self.keys();
        Map::new(|k: Seq<u8>| ks.contains(k), |k: Seq<u8>| self.entries@[ks.index_of(k)].1)
    }
}

impl<V> KeyMap<V> {
    /// The keys in storage order.
    closed spec fn keys(&self) -> Seq<Seq<u8>> {
        self.entries@.map_values(|e: (Vec<u8>, V)| e.0@)
    }

    /// Entries are in strictly ascending key order.
    pub closed spec fn wf(&self) -> bool {
        forall|i: int, j: int|
            0 <= i < j < self.entries@.len() ==> lex_lt(#[trigger] self.keys()[i], #[trigger] self.keys()[j])
    }

    proof fn lemma_keys_distinct(&self)
        requires
            self.wf(),
        ensures
            self.keys().no_duplicates(),
    {
        assert forall|i: int, j: int|
            0 <= i < self.keys().len() && 0 <= j < self.keys().len() && i != j implies self.keys()[i]
            != self.keys()[j] by {
            lemma_lex_cmp_equal(self.keys()[i], self.keys()[j]);
            lemma_lex_cmp_antisym(self.keys()[i], self.keys()[j]);
        }
    }

    /// The entry at index `i` is what the view holds for its key.
    proof fn lemma_entry(&self, i: int)
        requires
            self.wf(),
            0 <= i < self.entries@.len(),
        ensures
            self@.contains_key(self.keys()[i]),
            self@[self.keys()[i]] == self.entries@[i].1,
    {
        let ks = self.keys();
        assert(ks.contains(ks[i]));
        let j = ks.index_of(ks[i]);
        self.lemma_keys_distinct();
        assert(j == i);
    }

    /// The view's domain is the set of stored keys, one per entry.
    proof fn lemma_dom(&self)
        requires
            self.wf(),
        ensures
            self@.dom() == self.keys().to_set(),
            self@.dom().finite(),
            self@.len() == self.entries@.len(),
    {
        assert(self@.dom() =~= self.keys().to_set());
        self.lemma_keys_distinct();
        self.keys().unique_seq_to_set();
    }

    /// A key strictly between the neighbours of a gap is not stored.
    proof fn lemma_absent(&self, k: Seq<u8>, p: int)
        requires
            0 <= p <= self.entries@.len(),
            forall|j: int| 0 <= j < p ==> lex_lt(#[trigger] self.keys()[j], k),
            forall|j: int| p <= j < self.entries@.len() ==> lex_lt(k, #[trigger] self.keys()[j]),
        ensures
            !self@.contains_key(k),
    {
        if self@.contains_key(k) {
            let j = self.keys().index_of(k);
            lemma_lex_cmp_equal(k, k);
            if j < p {
                assert(lex_lt(self.keys()[j], k));
            } else {
                assert(lex_lt(k, self.keys()[j]));
            }
        }
    }

    pub fn new() -> (m: Self)
        ensures
            m.wf(),
            m@ == Map::<Seq<u8>, V>::empty(),
    {
        let m = KeyMap { entries: Vec::new() };
        assert(m@ =~= Map::<Seq<u8>, V>::empty());
        m
    }

    /// Binary search for `k`: its index, or the index where it would go.
    fn find(&self, k: &Vec<u8>) -> (r: Result<usize, usize>)
        requires
            self.wf(),
        ensures
            match r {
                Ok(i) => i < self.entries@.len() && self.keys()[i as int] == k@,
                Err(p) => {
                    &&& p <= self.entries@.len()
                    &&& forall|j: int| 0 <= j < p ==> lex_lt(#[trigger] self.keys()[j], k@)
                    &&& forall|j: int|
                        p <= j < self.entries@.len() ==> lex_lt(k@, #[trigger] self.keys()[j])
                },
            },
    {
        let mut lo: usize = 0;
        let mut hi: usize = self.entries.len();
        while lo < hi
            invariant
                self.wf(),
                0 <= lo <= hi <= self.entries@.len(),
                forall|j: int| 0 <= j < lo ==> lex_lt(#[trigger] self.keys()[j], k@),
                forall|j: int| hi <= j < self.entries@.len() ==> lex_lt(k@, #[trigger] self.keys()[j]),
            decreases hi - lo,
        {
            let mid: usize = lo + (hi - lo) / 2;
            let c = compare_keys(&self.entries[mid].0, k);
            let ghost km = self.keys()[mid as int];
            match c {
                Ordering::Less => {
                    assert forall|j: int| 0 <= j < mid + 1 implies lex_lt(#[trigger] self.keys()[j], k@) by {
                        if j < mid {
                            lemma_lex_lt_trans(self.keys()[j], km, k@);
                        }
                    }
                    lo = mid + 1;
                },
                Ordering::Greater => {
                    proof {
                        lemma_lex_cmp_antisym(km, k@);
                    }
                    assert forall|j: int| mid <= j < self.entries@.len() implies lex_lt(k@, #[trigger] self.keys()[j]) by {
                        if j > mid {
                            lemma_lex_lt_trans(k@, km, self.keys()[j]);
                        }
                    }
                    hi = mid;
                },
                Ordering::Equal => {
                    proof {
                        lemma_lex_cmp_equal(km, k@);
                    }
                    return Ok(mid);
                },
            }
        }
        Err(lo)
    }

    pub fn len(&self) -> (r: usize)
        requires
            self.wf(),
        ensures
            r == self@.len(),
    {
        proof {
            self.lemma_dom();
        }
        self.entries.len()
    }

    pub fn contains_key(&self, k: &Vec<u8>) -> (r: bool)
        requires
            self.wf(),
        ensures
            r == self@.contains_key(k@),
    {
        match self.find(k) {
            Ok(i) => {
                proof {
                    self.lemma_entry(i as int);
                }
                true
            },
            Err(p) => {
                proof {
                    self.lemma_absent(k@, p as int);
                }
                false
            },
        }
    }

    pub fn get(&self, k: &Vec<u8>) -> (r: Option<&V>)
        requires
            self.wf(),
        ensures
            r == (if self@.contains_key(k@) {
                Some(&self@[k@])
            } else {
                None
            }),
    {
        match self.find(k) {
            Ok(i) => {
                proof {
                    self.lemma_entry(i as int);
                }
                Some(&self.entries[i].1)
            },
            Err(p) => {
                proof {
                    self.lemma_absent(k@, p as int);
                }
                None
            },
        }
    }

    /// Every key that the view holds is stored at some index.
    proof fn lemma_stored(&self, x: Seq<u8>) -> (j: int)
        requires
            self@.contains_key(x),
        ensures
            0 <= j < self.entries@.len(),
            self.keys()[j] == x,
    {
        self.keys().index_of(x)
    }

    pub fn insert(&mut self, k: Vec<u8>, v: V)
        requires
            old(self).wf(),
        ensures
            final(self).wf(),
            final(self)@ == old(self)@.insert(k@, v),
    {
        let ghost pre: KeyMap<V> = *self;
        let ghost kv: Seq<u8> = k@;
        match self.find(&k) {
            Ok(i) => {
                self.entries.set(i, (k, v));
                proof {
                    assert(self.keys() =~= pre.keys());
                    assert forall|x: Seq<u8>| #[trigger] self@.contains_key(x) == pre@.insert(kv, v).contains_key(x) by {
                        if self@.contains_key(x) {
                            let j = self.lemma_stored(x);
                            pre.lemma_entry(j);
                        }
                        if pre@.contains_key(x) {
                            let j = pre.lemma_stored(x);
                            self.lemma_entry(j);
                        }
                        self.lemma_entry(i as int);
                    }
                    assert forall|x: Seq<u8>| #[trigger] self@.contains_key(x) implies self@[x] == pre@.insert(kv, v)[x] by {
                        let j = self.lemma_stored(x);
                        self.lemma_entry(j);
                        if j != i {
                            pre.lemma_entry(j);
                            self.lemma_keys_distinct();
                            assert(self.keys()[j] != self.keys()[i as int]);
                        }
                    }
                    assert(self@ =~= pre@.insert(kv, v));
                }
            },
            Err(p) => {
                self.entries.insert(p, (k, v));
                proof {
                    let nk = self.keys();
                    let ok = pre.keys();
                    assert forall|j: int| 0 <= j < p implies #[trigger] nk[j] == ok[j] by {}
                    assert forall|j: int| p < j < nk.len() implies #[trigger] nk[j] == ok[j - 1] by {}
                    assert(nk[p as int] == kv);
                    assert forall|i: int, j: int| 0 <= i < j < self.entries@.len() implies lex_lt(#[trigger] nk[i], #[trigger] nk[j]) by {
                        if j < p {
                        } else if j == p {
                        } else if i < p {
                            lemma_lex_lt_trans(nk[i], kv, nk[j]);
                        } else if i == p {
                        } else {
                            assert(lex_lt(ok[i - 1], ok[j - 1]));
                        }
                    }
                    assert forall|x: Seq<u8>| #[trigger] self@.contains_key(x) == pre@.insert(kv, v).contains_key(x) by {
                        if self@.contains_key(x) {
                            let j = self.lemma_stored(x);
                            if j < p {
                                pre.lemma_entry(j);
                            } else if j > p {
                                pre.lemma_entry(j - 1);
                            }
                        }
                        if pre@.contains_key(x) {
                            let j = pre.lemma_stored(x);
                            if j < p {
                                self.lemma_entry(j);
                            } else {
                                self.lemma_entry(j + 1);
                            }
                        }
                        self.lemma_entry(p as int);
                    }
                    assert forall|x: Seq<u8>| #[trigger] self@.contains_key(x) implies self@[x] == pre@.insert(kv, v)[x] by {
                        let j = self.lemma_stored(x);
                        self.lemma_entry(j);
                        if j < p {
                            pre.lemma_entry(j);
                            assert(lex_lt(x, kv));
                        } else if j > p {
                            pre.lemma_entry(j - 1);
                            assert(lex_lt(kv, x));
                        }
                        lemma_lex_cmp_equal(x, kv);
                    }
                    assert(self@ =~= pre@.insert(kv, v));
                }
            },
        }
    }

    pub fn remove(&mut self, k: &Vec<u8>) -> (r: Option<V>)
        requires
            old(self).wf(),
        ensures
            final(self).wf(),
            final(self)@ == old(self)@.remove(k@),
            r == (if old(self)@.contains_key(k@) {
                Some(old(self)@[k@])
            } else {
                None
            }),
    {
        let ghost pre: KeyMap<V> = *self;
        match self.find(k) {
            Ok(i) => {
                let (_, v) = self.entries.remove(i);
                proof {
                    pre.lemma_entry(i as int);
                    let nk = self.keys();
                    let ok = pre.keys();
                    assert forall|j: int| 0 <= j < i implies #[trigger] nk[j] == ok[j] by {}
                    assert forall|j: int| i <= j < nk.len() implies #[trigger] nk[j] == ok[j + 1] by {}
                    assert forall|a: int, b: int| 0 <= a < b < self.entries@.len() implies lex_lt(#[trigger] nk[a], #[trigger] nk[b]) by {
                        if a < i && b >= i {
                            assert(lex_lt(ok[a], ok[b + 1]));
                        } else if a >= i {
                            assert(lex_lt(ok[a + 1], ok[b + 1]));
                        }
                    }
                    assert forall|x: Seq<u8>| #[trigger] self@.contains_key(x) == pre@.remove(k@).contains_key(x) by {
                        if self@.contains_key(x) {
                            let j = self.lemma_stored(x);
                            if j < i {
                                pre.lemma_entry(j);
                                assert(lex_lt(x, k@));
                            } else {
                                pre.lemma_entry(j + 1);
                                assert(lex_lt(k@, x));
                            }
                            lemma_lex_cmp_equal(x, k@);
                        }
                        if pre@.remove(k@).contains_key(x) {
                            let j = pre.lemma_stored(x);
                            if j < i {
                                self.lemma_entry(j);
                            } else if j > i {
                                self.lemma_entry(j - 1);
                            }
                        }
                    }
                    assert forall|x: Seq<u8>| #[trigger] self@.contains_key(x) implies self@[x] == pre@.remove(k@)[x] by {
                        let j = self.lemma_stored(x);
                        self.lemma_entry(j);
                        if j < i {
                            pre.lemma_entry(j);
                        } else {
                            pre.lemma_entry(j + 1);
                        }
                    }
                    assert(self@ =~= pre@.remove(k@));
                }
                Some(v)
            },
            Err(p) => {
                proof {
                    self.lemma_absent(k@, p as int);
                    assert(self@ =~= pre@.remove(k@));
                }
                None
            },
        }
    }

    /// The first index whose key passes `lo` taken as a lower bound.
    fn lower_start(&self, lo: &KeyBound) -> (s: usize)
        requires
            self.wf(),
        ensures
            s <= self.entries@.len(),
            forall|j: int|
                0 <= j < self.entries@.len() ==> (above_lower(#[trigger] self.keys()[j], *lo) <==> j
                    >= s),
    {
        match lo {
            KeyBound::Included(x) => {
                let s: usize = match self.find(x) {
                    Ok(i) => i,
                    Err(p) => p,
                };
                proof {
                    assert forall|j: int| 0 <= j < self.entries@.len() implies (above_lower(#[trigger] self.keys()[j], *lo) <==> j >= s) by {
                        lemma_lex_cmp_antisym(self.keys()[j], x@);
                        lemma_lex_cmp_equal(self.keys()[j], x@);
                        lemma_lex_cmp_equal(x@, self.keys()[j]);
                        if j > s {
                            let ghost ks = self.keys();
                            assert(lex_lt(ks[s as int], ks[j]));
                        }
                    }
                }
                s
            },
            KeyBound::Excluded(x) => {
                let s: usize = match self.find(x) {
                    Ok(i) => {
                        let n: usize = self.entries.len();
                        assert(i < n);
                        i + 1
                    },
                    Err(p) => p,
                };
                proof {
                    assert forall|j: int| 0 <= j < self.entries@.len() implies (above_lower(#[trigger] self.keys()[j], *lo) <==> j >= s) by {
                        lemma_lex_cmp_antisym(self.keys()[j], x@);
                        lemma_lex_cmp_equal(self.keys()[j], x@);
                        lemma_lex_cmp_equal(x@, self.keys()[j]);
                        if j >= s && s > 0 && self.keys()[s - 1] == x@ {
                            let ghost ks = self.keys();
                            if j > s - 1 {
                                assert(lex_lt(ks[s - 1], ks[j]));
                            }
                        }
                    }
                }
                s
            },
            KeyBound::Unbounded => 0,
        }
    }

    /// Up to `max` keys between the bounds, in ascending order, starting from
    /// the smallest.
    pub fn range_keys(&self, lo: &KeyBound, hi: &KeyBound, max: usize) -> (r: Vec<Vec<u8>>)
        requires
            self.wf(),
        ensures
            is_range_page(self@.dom(), *lo, *hi, max as nat, key_views(r@)),
    {
        let start = self.lower_start(lo);
        let mut out: Vec<Vec<u8>> = Vec::new();
        let mut i: usize = start;
        let mut stopped: bool = false;
        while i < self.entries.len() && out.len() < max && !stopped
            invariant
                self.wf(),
                start <= i <= self.entries@.len(),
                out@.len() <= max,
                key_views(out@) == self.keys().subrange(start as int, i as int),
                forall|j: int| start <= j < i ==> below_upper(#[trigger] self.keys()[j], *hi),
                forall|j: int|
                    0 <= j < self.entries@.len() ==> (above_lower(#[trigger] self.keys()[j], *lo)
                        <==> j >= start),
                stopped ==> i < self.entries@.len() && !below_upper(self.keys()[i as int], *hi),
            decreases self.entries@.len() - i, (if stopped { 0int } else { 1int }),
        {
            if passes_upper(&self.entries[i].0, hi) {
                let k: Vec<u8> = self.entries[i].0.clone();
                assert(k@ =~= self.keys()[i as int]);
                let ghost prev = out@;
                out.push(k);
                assert(key_views(out@) =~= key_views(prev).push(self.keys()[i as int]));
                i = i + 1;
                assert(key_views(out@) =~= self.keys().subrange(start as int, i as int));
            } else {
                stopped = true;
            }
        }
        proof {
            let r = key_views(out@);
            let ks = self.keys();
            assert forall|a: int| 0 <= a < r.len() implies self@.dom().contains(#[trigger] r[a]) && in_bounds(r[a], *lo, *hi) by {
                assert(r[a] == ks[start + a]);
                self.lemma_entry(start + a);
            }
            assert forall|k: Seq<u8>| self@.dom().contains(k) && in_bounds(k, *lo, *hi) && !r.contains(k) implies r.len() == max && (r.len() > 0 ==> lex_lt(r.last(), k)) by {
                let j = self.lemma_stored(k);
                if j < i {
                    assert(r[j - start] == k);
                }
                if stopped && j > i {
                    lemma_below_upper_mono(ks[i as int], k, *hi);
                }
                if r.len() > 0 {
                    assert(r.last() == ks[i - 1]);
                }
            }
        }
        out
    }
}

} // verus!

verus! {

/// A finite set of byte strings, kept in ascending order.
pub struct KeySet {
    members: KeyMap<()>,
}

impl View for KeySet {
    type V = Set<Seq<u8>>;

    closed spec fn view(&self) -> Set<Seq<u8>> {
        self.members@.dom()
    }
}

impl KeySet {
    pub closed spec fn wf(&self) -> bool {
        self.members.wf()
    }

    pub fn new() -> (s: Self)
        ensures
            s.wf(),
            s@ == Set::<Seq<u8>>::empty(),
    {
        let s = KeySet { members: KeyMap::new() };
        assert(s@ =~= Set::<Seq<u8>>::empty());
        s
    }

    pub fn len(&self) -> (r: usize)
        requires
            self.wf(),
        ensures
            r == self@.len(),
            self@.finite(),
    {
        let r = self.members.len();
        proof {
            self.members.lemma_dom();
        }
        r
    }

    pub fn contains(&self, k: &Vec<u8>) -> (r: bool)
        requires
            self.wf(),
        ensures
            r == self@.contains(k@),
    {
        self.members.contains_key(k)
    }

    pub fn insert(&mut self, k: Vec<u8>)
        requires
            old(self).wf(),
        ensures
            final(self).wf(),
            final(self)@ == old(self)@.insert(k@),
    {
        self.members.insert(k, ());
        assert(self@ =~= old(self)@.insert(k@));
    }

    pub fn remove(&mut self, k: &Vec<u8>)
        requires
            old(self).wf(),
        ensures
            final(self).wf(),
            final(self)@ == old(self)@.remove(k@),
    {
        self.members.remove(k);
        assert(self@ =~= old(self)@.remove(k@));
    }
}

} // verus!
