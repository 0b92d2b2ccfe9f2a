//! An insertion-ordered string-to-string mapping used for option blocks and
//! for the accumulated global directives. Keys are unique: inserting an
//! existing key replaces its value in place, so later writes win while the
//! first-seen order of keys is kept.

use vstd::prelude::*;

verus! {

/// A key-value pair at the specification level.
pub type SpecPair = (Seq<char>, Seq<char>);

/// The value bound to `k`, if any: the first pair of `ps` whose key is `k`.
pub open spec fn find_key(ps: Seq<SpecPair>, k: Seq<char>) -> Option<Seq<char>>
    decreases ps.len(),
{
    if ps.len() == 0 {
        None
    } else if ps[0].0 == k {
        Some(ps[0].1)
    } else {
        find_key(ps.drop_first(), k)
    }
}

/// Whether some pair of `ps` has key `k`.
pub open spec fn has_key(ps: Seq<SpecPair>, k: Seq<char>) -> bool {
    find_key(ps, k) is Some
}

/// No two pairs share a key.
pub open spec fn distinct_keys(ps: Seq<SpecPair>) -> bool {
    forall|i: int, j: int| 0 <= i < j < ps.len() ==> (#[trigger] ps[i]).0 != (#[trigger] ps[j]).0
}

/// Binding `k` to `v`: replaces the value of the pair already keyed `k`, or
/// appends a new pair at the end.
pub open spec fn seq_insert(ps: Seq<SpecPair>, k: Seq<char>, v: Seq<char>) -> Seq<SpecPair>
    decreases ps.len(),
{
    if ps.len() == 0 {
        seq![(k, v)]
    } else if ps[0].0 == k {
        seq![(k, v)] + ps.drop_first()
    } else {
        seq![ps[0]] + seq_insert(ps.drop_first(), k, v)
    }
}

/// Overlaying `qs` onto `ps`, pair by pair in order.
pub open spec fn seq_extend(ps: Seq<SpecPair>, qs: Seq<SpecPair>) -> Seq<SpecPair>
    decreases qs.len(),
{
    if qs.len() == 0 {
        ps
    } else {
        seq_insert(seq_extend(ps, qs.drop_last()), qs.last().0, qs.last().1)
    }
}

/// The pairs of `ps` whose keys do not occur in `qs`, in order.
pub open spec fn seq_minus(ps: Seq<SpecPair>, qs: Seq<SpecPair>) -> Seq<SpecPair>
    decreases ps.len(),
{
    if ps.len() == 0 {
        Seq::empty()
    } else if has_key(qs, ps.last().0) {
        seq_minus(ps.drop_last(), qs)
    } else {
        seq_minus(ps.drop_last(), qs).push(ps.last())
    }
}

/// A string-to-string mapping with unique keys, in first-insertion order.
#[derive(Debug, Clone, PartialEq, Eq)]
pub struct OptionMap {
    pairs: Vec<(String, String)>,
}

impl View for OptionMap {
    type V = Seq<SpecPair>;

    closed spec fn view(&self) -> Seq<SpecPair> {
        Seq::new(
            self.pairs@.len(),
            |i: int|
                {
                    let p = self.pairs@[i];
                    (p.0@, p.1@)
                },
        )
    }
}

/// If no pair in `ps.take(n)` has key `k`, finding `k` in `ps` is finding it
/// past `n`.
pub proof fn lemma_find_key_skip(ps: Seq<SpecPair>, k: Seq<char>, n: int)
    requires
        0 <= n <= ps.len(),
        forall|i: int| 0 <= i < n ==> (#[trigger] ps[i]).0 != k,
    ensures
        find_key(ps, k) == find_key(ps.skip(n), k),
    decreases n,
{
    if n > 0 {
        assert(ps.drop_first() =~= ps.skip(1));
        lemma_find_key_skip(ps.skip(1), k, n - 1);
        assert(ps.skip(1).skip(n - 1) =~= ps.skip(n));
    } else {
        assert(ps.skip(0) =~= ps);
    }
}

/// Inserting over a clean prefix rewrites `ps` at the position of the key, or
/// appends when the key is absent.
pub proof fn lemma_seq_insert_at(ps: Seq<SpecPair>, k: Seq<char>, v: Seq<char>, n: int)
    requires
        0 <= n <= ps.len(),
        forall|i: int| 0 <= i < n ==> (#[trigger] ps[i]).0 != k,
    ensures
        n < ps.len() && ps[n].0 == k ==> seq_insert(ps, k, v) =~= ps.update(n, (k, v)),
        n == ps.len() ==> seq_insert(ps, k, v) =~= ps.push((k, v)),
    decreases n,
{
    if n == 0 {
        if 0 < ps.len() && ps[0].0 == k {
            assert(seq_insert(ps, k, v) =~= seq![(k, v)] + ps.drop_first());
        }
    } else {
        assert(ps.drop_first() =~= ps.skip(1));
        lemma_seq_insert_at(ps.drop_first(), k, v, n - 1);
        assert(seq_insert(ps, k, v) == seq![ps[0]] + seq_insert(ps.drop_first(), k, v));
        if n < ps.len() && ps[n].0 == k {
            assert(ps.drop_first()[n - 1].0 == k);
            assert(seq_insert(ps.drop_first(), k, v) =~= ps.drop_first().update(n - 1, (k, v)));
            assert(seq_insert(ps, k, v) =~= ps.update(n, (k, v)));
        } else if n == ps.len() {
            assert(seq_insert(ps.drop_first(), k, v) =~= ps.drop_first().push((k, v)));
            assert(seq_insert(ps, k, v) =~= ps.push((k, v)));
        }
    }
}

/// Inserting keeps keys unique.
pub proof fn lemma_seq_insert_distinct(ps: Seq<SpecPair>, k: Seq<char>, v: Seq<char>)
    requires
        distinct_keys(ps),
    ensures
        distinct_keys(seq_insert(ps, k, v)),
        find_key(seq_insert(ps, k, v), k) == Some(v),
        forall|k2: Seq<char>|
            k2 != k ==> #[trigger] find_key(seq_insert(ps, k, v), k2) == find_key(ps, k2),
    decreases ps.len(),
{
    if ps.len() == 0 {
        let r = seq![(k, v)];
        assert(r.drop_first() =~= Seq::<SpecPair>::empty());
        assert forall|k2: Seq<char>| k2 != k implies #[trigger] find_key(seq_insert(ps, k, v), k2)
            == find_key(ps, k2) by {
            assert(find_key(r, k2) == find_key(r.drop_first(), k2));
        }
    } else if ps[0].0 == k {
        let r = seq![(k, v)] + ps.drop_first();
        assert(r.drop_first() =~= ps.drop_first());
        assert(forall|i: int, j: int|
            0 <= i < j < r.len() ==> (#[trigger] r[i]).0 != (#[trigger] r[j]).0) by {
            assert(forall|i: int| 0 < i < r.len() ==> r[i] == ps[i]);
        }
        assert forall|k2: Seq<char>| k2 != k implies #[trigger] find_key(seq_insert(ps, k, v), k2)
            == find_key(ps, k2) by {
            assert(find_key(r, k2) == find_key(ps.drop_first(), k2));
            assert(find_key(ps, k2) == find_key(ps.drop_first(), k2));
        }
    } else {
        lemma_seq_insert_distinct(ps.drop_first(), k, v);
        let r = seq![ps[0]] + seq_insert(ps.drop_first(), k, v);
        let tail = seq_insert(ps.drop_first(), k, v);
        assert(r.drop_first() =~= tail);
        assert forall|i: int, j: int| 0 <= i < j < r.len() implies (#[trigger] r[i]).0 != (
        #[trigger] r[j]).0 by {
            if i == 0 {
                assert(r[j] == tail[j - 1]);
                if tail[j - 1].0 == ps[0].0 {
                    lemma_find_key_at(tail, j - 1);
                    assert(find_key(tail, ps[0].0) == find_key(ps.drop_first(), ps[0].0));
                    lemma_find_key_member(ps.drop_first(), ps[0].0);
                    let i0 = choose|t: int|
                        0 <= t < ps.drop_first().len() && (#[trigger] ps.drop_first()[t]).0
                            == ps[0].0;
                    assert(ps[i0 + 1].0 == ps[0].0);
                    assert(false);
                }
            } else {
                assert(r[i] == tail[i - 1] && r[j] == tail[j - 1]);
            }
        }
        assert(find_key(r, k) == find_key(tail, k));
        assert forall|k2: Seq<char>| k2 != k implies #[trigger] find_key(seq_insert(ps, k, v), k2)
            == find_key(ps, k2) by {
            assert(find_key(tail, k2) == find_key(ps.drop_first(), k2));
            if ps[0].0 == k2 {
                assert(find_key(r, k2) == Some(r[0].1));
                assert(find_key(ps, k2) == Some(ps[0].1));
            } else {
                assert(find_key(r, k2) == find_key(tail, k2));
                assert(find_key(ps, k2) == find_key(ps.drop_first(), k2));
            }
        }
    }
}

/// If index `n` holds key `k`, then `k` is found.
pub proof fn lemma_find_key_at(ps: Seq<SpecPair>, n: int)
    requires
        0 <= n < ps.len(),
    ensures
        has_key(ps, ps[n].0),
    decreases n,
{
    if ps[0].0 != ps[n].0 {
        assert(ps.drop_first()[n - 1] == ps[n]);
        lemma_find_key_at(ps.drop_first(), n - 1);
    }
}

/// If `k` is found in `ps`, some pair of `ps` carries it.
pub proof fn lemma_find_key_member(ps: Seq<SpecPair>, k: Seq<char>)
    requires
        has_key(ps, k),
    ensures
        exists|i: int| 0 <= i < ps.len() && (#[trigger] ps[i]).0 == k,
    decreases ps.len(),
{
    if ps.len() > 0 && ps[0].0 != k {
        lemma_find_key_member(ps.drop_first(), k);
        let i0 = choose|i: int|
            0 <= i < ps.drop_first().len() && (#[trigger] ps.drop_first()[i]).0 == k;
        assert(ps[i0 + 1].0 == k);
    }
}

impl OptionMap {
    /// Keys are pairwise distinct.
    pub open spec fn wf(&self) -> bool {
        distinct_keys(self@)
    }

    /// The empty mapping.
    pub fn new() -> (r: OptionMap)
        ensures
            r@ == Seq::<SpecPair>::empty(),
            r.wf(),
    {
        let r = OptionMap { pairs: Vec::new() };
        proof {
            assert(r@ =~= Seq::<SpecPair>::empty());
        }
        r
    }

    pub fn len(&self) -> (r: usize)
        ensures
            r == self@.len(),
    {
        self.pairs.len()
    }

    pub fn is_empty(&self) -> (r: bool)
        ensures
            r == (self@.len() == 0),
    {
        self.pairs.len() == 0
    }

    /// The pair at position `i`, as owned strings.
    pub fn pair(&self, i: usize) -> (r: (String, String))
        requires
            i < self@.len(),
        ensures
            (r.0@, r.1@) == self@[i as int],
    {
        let p = &self.pairs[i];
        (p.0.clone(), p.1.clone())
    }

    /// Binds `k` to `v`, replacing in place if `k` is already present.
    #[verifier::loop_isolation(false)]
    pub fn insert(&mut self, k: String, v: String)
        requires
            old(self).wf(),
        ensures
            final(self)@ == seq_insert(old(self)@, k@, v@),
            final(self).wf(),
    {
        let ghost ps = self@;
        let mut i: usize = 0;
        let n = self.pairs.len();
        while i < n
            invariant
                n == self.pairs@.len(),
                i <= n,
                forall|t: int| 0 <= t < i ==> (#[trigger] self@[t]).0 != k@,
                self@ == ps,
                self.wf(),
            decreases n - i,
        {
            if crate::text::str_eq(self.pairs[i].0.as_str(), k.as_str()) {
                proof {
                    assert(ps[i as int].0 == k@);
                }
                self.pairs[i] = (k, v);
                proof {
                    assert(self@ =~= ps.update(i as int, (k@, v@)));
                    lemma_seq_insert_at(ps, k@, v@, i as int);
                    assert(seq_insert(ps, k@, v@) =~= ps.update(i as int, (k@, v@)));
                    assert(self@ == seq_insert(ps, k@, v@));
                    lemma_seq_insert_distinct(ps, k@, v@);
                }
                return ;
            }
            i = i + 1;
        }
        self.pairs.push((k, v));
        proof {
            assert(self@ =~= ps.push((k@, v@)));
            lemma_seq_insert_at(ps, k@, v@, ps.len() as int);
            lemma_seq_insert_distinct(ps, k@, v@);
        }
    }

    /// The value bound to `k`, if any.
    #[verifier::loop_isolation(false)]
    pub fn get(&self, k: &str) -> (r: Option<String>)
        ensures
            match r {
                Some(v) => find_key(self@, k@) == Some(v@),
                None => find_key(self@, k@) is None,
            },
    {
        let mut i: usize = 0;
        let n = self.pairs.len();
        while i < n
            invariant
                n == self.pairs@.len(),
                i <= n,
                forall|t: int| 0 <= t < i ==> (#[trigger] self@[t]).0 != k@,
            decreases n - i,
        {
            if crate::text::str_eq(self.pairs[i].0.as_str(), k) {
                let v = self.pairs[i].1.clone();
                proof {
                    lemma_find_key_skip(self@, k@, i as int);
                    assert(self@.skip(i as int)[0] == self@[i as int]);
                }
                return Some(v);
            }
            i = i + 1;
        }
        proof {
            lemma_find_key_skip(self@, k@, n as int);
            assert(self@.skip(n as int).len() == 0);
        }
        None
    }

    /// Whether `k` is bound.
    pub fn contains_key(&self, k: &str) -> (r: bool)
        ensures
            r == has_key(self@, k@),
    {
        match self.get(k) {
            Some(_) => true,
            None => false,
        }
    }

    /// Overlays every pair of `other` onto `self`, in order: later writes win.
    #[verifier::loop_isolation(false)]
    pub fn extend(&mut self, other: &OptionMap)
        requires
            old(self).wf(),
        ensures
            final(self)@ == seq_extend(old(self)@, other@),
            final(self).wf(),
    {
        let ghost ps = self@;
        let ghost qs = other@;
        let n = other.pairs.len();
        let mut i: usize = 0;
        while i < n
            invariant
                n == other@.len(),
                i <= n,
                self@ == seq_extend(ps, qs.take(i as int)),
                self.wf(),
                qs == other@,
            decreases n - i,
        {
            let (k, v) = other.pair(i);
            self.insert(k, v);
            proof {
                assert(qs.take((i + 1) as int).drop_last() =~= qs.take(i as int));
                assert(qs.take((i + 1) as int).last() == qs[i as int]);
            }
            i = i + 1;
        }
        proof {
            assert(qs.take(n as int) =~= qs);
        }
    }

    /// The pairs of `self` whose keys `other` does not bind.
    #[verifier::loop_isolation(false)]
    pub fn without_keys(&self, other: &OptionMap) -> (r: OptionMap)
        requires
            self.wf(),
        ensures
            r@ == seq_minus(self@, other@),
            r.wf(),
    {
        let ghost ps = self@;
        let ghost qs = other@;
        let mut out = OptionMap::new();
        let n = self.pairs.len();
        let mut i: usize = 0;
        while i < n
            invariant
                n == self@.len(),
                i <= n,
                out@ == seq_minus(ps.take(i as int), qs),
                ps == self@,
                qs == other@,
                self.wf(),
                out.wf(),
            decreases n - i,
        {
            let (k, v) = self.pair(i);
            proof {
                assert(ps.take((i + 1) as int).drop_last() =~= ps.take(i as int));
                assert(ps.take((i + 1) as int).last() == ps[i as int]);
            }
            if !other.contains_key(k.as_str()) {
                let ghost before = out@;
                out.insert(k, v);
                proof {
                    assert forall|t: int| 0 <= t < i implies (#[trigger] ps.take(i as int)[t]).0
                        != ps[i as int].0 by {
                        assert(ps.take(i as int)[t] == ps[t]);
                    }
                    lemma_minus_no_key(ps.take(i as int), qs, ps[i as int].0);
                    lemma_seq_insert_at(before, ps[i as int].0, ps[i as int].1, before.len() as int);
                    assert(out@ =~= before.push(ps[i as int]));
                }
            }
            i = i + 1;
        }
        proof {
            assert(ps.take(n as int) =~= ps);
        }
        out
    }
}

/// A key distinct from all of `ps` is not bound by the difference either.
pub proof fn lemma_minus_no_key(ps: Seq<SpecPair>, qs: Seq<SpecPair>, k: Seq<char>)
    requires
        forall|i: int| 0 <= i < ps.len() ==> (#[trigger] ps[i]).0 != k,
    ensures
        forall|i: int|
            0 <= i < seq_minus(ps, qs).len() ==> (#[trigger] seq_minus(ps, qs)[i]).0 != k,
    decreases ps.len(),
{
    if ps.len() > 0 {
        assert(forall|i: int|
            0 <= i < ps.drop_last().len() ==> (#[trigger] ps.drop_last()[i]).0 != k);
        lemma_minus_no_key(ps.drop_last(), qs, k);
        let r = seq_minus(ps, qs);
        let inner = seq_minus(ps.drop_last(), qs);
        assert(ps.last().0 != k);
        assert forall|i: int| 0 <= i < r.len() implies (#[trigger] r[i]).0 != k by {
            if i < inner.len() {
                assert(r[i] == inner[i]);
            }
        }
    }
}

} // verus!
