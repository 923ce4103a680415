//! A small string-keyed map kept as a vector of pairs in insertion
//! order.  Lookups are by exact character equality; inserting an
//! existing key overwrites its value in place (last write wins).  The
//! abstract view is a `Map<Seq<char>, Seq<char>>`; serialization also
//! relies on the concrete pair order, exposed as `spec_pairs`.
use vstd::prelude::*;

use crate::strutil::str_eq;

verus! {

/// No key occurs twice.
pub open spec fn distinct_keys(ps: Seq<(Seq<char>, Seq<char>)>) -> bool {
    forall|i: int, j: int| 0 <= i < j < ps.len() ==> (#[trigger] ps[i]).0 != (#[trigger] ps[j]).0
}

/// The map that a sequence of pairs denotes, later pairs winning.
pub open spec fn pairs_to_map(ps: Seq<(Seq<char>, Seq<char>)>) -> Map<Seq<char>, Seq<char>>
    decreases ps.len(),
{
    if ps.len() == 0 {
        Map::empty()
    } else {
        pairs_to_map(ps.drop_last()).insert(ps.last().0, ps.last().1)
    }
}

/// Pairs after an insert: an existing key is overwritten in place, a
/// new key is appended.
pub open spec fn insert_pairs(ps: Seq<(Seq<char>, Seq<char>)>, k: Seq<char>, v: Seq<char>) -> Seq<
    (Seq<char>, Seq<char>),
>
    decreases ps.len(),
{
    if ps.len() == 0 {
        seq![(k, v)]
    } else if ps.first().0 == k {
        seq![(k, v)] + ps.drop_first()
    } else {
        seq![ps.first()] + insert_pairs(ps.drop_first(), k, v)
    }
}

/// Pairs after a removal.
pub open spec fn remove_pairs(ps: Seq<(Seq<char>, Seq<char>)>, k: Seq<char>) -> Seq<
    (Seq<char>, Seq<char>),
>
    decreases ps.len(),
{
    if ps.len() == 0 {
        ps
    } else if ps.first().0 == k {
        ps.drop_first()
    } else {
        seq![ps.first()] + remove_pairs(ps.drop_first(), k)
    }
}

pub proof fn lemma_pairs_to_map_get(ps: Seq<(Seq<char>, Seq<char>)>, i: int)
    requires
        distinct_keys(ps),
        0 <= i < ps.len(),
    ensures
        pairs_to_map(ps).contains_key(ps[i].0),
        pairs_to_map(ps)[ps[i].0] == ps[i].1,
    decreases ps.len(),
{
    if i < ps.len() - 1 {
        let t = ps.drop_last();
        assert(distinct_keys(t));
        lemma_pairs_to_map_get(t, i);
        assert(ps.last().0 != ps[i].0);
    }
}

/// Overwriting the pair at `i`, whose key is `k`, denotes the map
/// insert of `(k, v)`.
pub proof fn lemma_insert_pairs_update(
    ps: Seq<(Seq<char>, Seq<char>)>,
    k: Seq<char>,
    v: Seq<char>,
    i: int,
)
    requires
        distinct_keys(ps),
        0 <= i < ps.len(),
        ps[i].0 == k,
    ensures
        insert_pairs(ps, k, v) == ps.update(i, (k, v)),
        distinct_keys(ps.update(i, (k, v))),
        pairs_to_map(ps.update(i, (k, v))) == pairs_to_map(ps).insert(k, v),
    decreases ps.len(),
{
    let u = ps.update(i, (k, v));
    assert(distinct_keys(u)) by {
        assert forall|a: int, b: int| 0 <= a < b < u.len() implies (#[trigger] u[a]).0
            != (#[trigger] u[b]).0 by {
            assert(ps[a].0 != ps[b].0);
            assert(u[a].0 == if a == i {
                k
            } else {
                ps[a].0
            });
            assert(u[b].0 == if b == i {
                k
            } else {
                ps[b].0
            });
        }
    }
    if i == ps.len() - 1 {
        assert(u.drop_last() =~= ps.drop_last());
        assert(pairs_to_map(u) == pairs_to_map(ps.drop_last()).insert(k, v));
        assert(pairs_to_map(ps) == pairs_to_map(ps.drop_last()).insert(ps.last().0, ps.last().1));
        assert(pairs_to_map(ps).insert(k, v) =~= pairs_to_map(ps.drop_last()).insert(k, v));
    } else {
        let t = ps.drop_last();
        assert(distinct_keys(t));
        lemma_insert_pairs_update(t, k, v, i);
        assert(u.drop_last() =~= t.update(i, (k, v)));
        assert(u.last() == ps.last());
        assert(pairs_to_map(u) == pairs_to_map(t).insert(k, v).insert(ps.last().0, ps.last().1));
        assert(ps.last().0 != k);
        assert(pairs_to_map(t).insert(k, v).insert(ps.last().0, ps.last().1) =~= pairs_to_map(
            t,
        ).insert(ps.last().0, ps.last().1).insert(k, v));
    }
    // the in-place update is what the front-recursive insert_pairs yields
    if ps.first().0 == k {
        assert(i == 0) by {
            if i > 0 {
                assert(ps[0].0 != ps[i].0);
            }
        }
        assert(insert_pairs(ps, k, v) == seq![(k, v)] + ps.drop_first());
        assert(seq![(k, v)] + ps.drop_first() =~= u);
    } else {
        assert(i > 0);
        let d = ps.drop_first();
        assert(distinct_keys(d)) by {
            assert forall|a: int, b: int| 0 <= a < b < d.len() implies (#[trigger] d[a]).0
                != (#[trigger] d[b]).0 by {
                assert(ps[a + 1].0 != ps[b + 1].0);
            }
        }
        assert(d[i - 1].0 == k);
        lemma_insert_pairs_update_front(ps, k, v, i);
    }
}

/// Helper for the front recursion of `insert_pairs`.
proof fn lemma_insert_pairs_update_front(
    ps: Seq<(Seq<char>, Seq<char>)>,
    k: Seq<char>,
    v: Seq<char>,
    i: int,
)
    requires
        distinct_keys(ps),
        0 < i < ps.len(),
        ps[i].0 == k,
        ps.first().0 != k,
    ensures
        insert_pairs(ps, k, v) == ps.update(i, (k, v)),
    decreases ps.len(),
{
    let d = ps.drop_first();
    assert(distinct_keys(d)) by {
        assert forall|a: int, b: int| 0 <= a < b < d.len() implies (#[trigger] d[a]).0
            != (#[trigger] d[b]).0 by {
            assert(ps[a + 1].0 != ps[b + 1].0);
        }
    }
    assert(d[i - 1].0 == k);
    if i - 1 == 0 || d.first().0 == k {
        assert(insert_pairs(d, k, v) == seq![(k, v)] + d.drop_first()) by {
            assert(d.first().0 == k) by {
                if d.first().0 != k {
                    assert(d[0].0 != d[i - 1].0);
                }
            }
        }
        assert(seq![(k, v)] + d.drop_first() =~= d.update(i - 1, (k, v)));
    } else {
        lemma_insert_pairs_update_front(d, k, v, i - 1);
    }
    assert(seq![ps.first()] + d.update(i - 1, (k, v)) =~= ps.update(i, (k, v)));
}

/// Appending a fresh key denotes the map insert of `(k, v)`.
pub proof fn lemma_insert_pairs_push(ps: Seq<(Seq<char>, Seq<char>)>, k: Seq<char>, v: Seq<char>)
    requires
        distinct_keys(ps),
        forall|i: int| 0 <= i < ps.len() ==> (#[trigger] ps[i]).0 != k,
    ensures
        insert_pairs(ps, k, v) == ps.push((k, v)),
        distinct_keys(ps.push((k, v))),
        pairs_to_map(ps.push((k, v))) == pairs_to_map(ps).insert(k, v),
    decreases ps.len(),
{
    let u = ps.push((k, v));
    assert(u.drop_last() =~= ps);
    assert(pairs_to_map(u) == pairs_to_map(ps).insert(k, v));
    if ps.len() == 0 {
        assert(insert_pairs(ps, k, v) =~= u);
    } else {
        let d = ps.drop_first();
        assert(distinct_keys(d)) by {
            assert forall|a: int, b: int| 0 <= a < b < d.len() implies (#[trigger] d[a]).0
                != (#[trigger] d[b]).0 by {
                assert(ps[a + 1].0 != ps[b + 1].0);
            }
        }
        assert(forall|i: int| 0 <= i < d.len() ==> (#[trigger] d[i]).0 != k);
        lemma_insert_pairs_push(d, k, v);
        assert(seq![ps.first()] + d.push((k, v)) =~= u);
    }
}

/// Removing the pair at `i`, whose key is `k`, denotes the map remove
/// of `k`.
pub proof fn lemma_remove_pairs_at(ps: Seq<(Seq<char>, Seq<char>)>, k: Seq<char>, i: int)
    requires
        distinct_keys(ps),
        0 <= i < ps.len(),
        ps[i].0 == k,
    ensures
        remove_pairs(ps, k) == ps.remove(i),
        distinct_keys(ps.remove(i)),
        pairs_to_map(ps.remove(i)) == pairs_to_map(ps).remove(k),
    decreases ps.len(),
{
    let u = ps.remove(i);
    assert(distinct_keys(u)) by {
        assert forall|a: int, b: int| 0 <= a < b < u.len() implies (#[trigger] u[a]).0
            != (#[trigger] u[b]).0 by {
            let a0 = if a < i {
                a
            } else {
                a + 1
            };
            let b0 = if b < i {
                b
            } else {
                b + 1
            };
            assert(u[a] == ps[a0]);
            assert(u[b] == ps[b0]);
            assert(ps[a0].0 != ps[b0].0);
        }
    }
    if i == ps.len() - 1 {
        assert(u =~= ps.drop_last());
        lemma_pairs_to_map_unbound(ps.drop_last(), k);
        assert(pairs_to_map(ps) == pairs_to_map(ps.drop_last()).insert(k, ps.last().1));
        assert(pairs_to_map(ps).remove(k) =~= pairs_to_map(ps.drop_last()));
    } else {
        let t = ps.drop_last();
        assert(distinct_keys(t));
        lemma_remove_pairs_at(t, k, i);
        assert(u.drop_last() =~= t.remove(i));
        assert(u.last() == ps.last());
        assert(pairs_to_map(u) == pairs_to_map(t).remove(k).insert(ps.last().0, ps.last().1));
        assert(ps.last().0 != k);
        assert(pairs_to_map(t).remove(k).insert(ps.last().0, ps.last().1) =~= pairs_to_map(
            t,
        ).insert(ps.last().0, ps.last().1).remove(k));
    }
    // the front recursion agrees with the index removal
    lemma_remove_pairs_front(ps, k, i);
}

proof fn lemma_remove_pairs_front(ps: Seq<(Seq<char>, Seq<char>)>, k: Seq<char>, i: int)
    requires
        distinct_keys(ps),
        0 <= i < ps.len(),
        ps[i].0 == k,
    ensures
        remove_pairs(ps, k) == ps.remove(i),
    decreases ps.len(),
{
    if ps.first().0 == k {
        assert(i == 0) by {
            if i > 0 {
                assert(ps[0].0 != ps[i].0);
            }
        }
        assert(ps.drop_first() =~= ps.remove(0));
    } else {
        assert(i > 0);
        let d = ps.drop_first();
        assert(distinct_keys(d)) by {
            assert forall|a: int, b: int| 0 <= a < b < d.len() implies (#[trigger] d[a]).0
                != (#[trigger] d[b]).0 by {
            assert(ps[a + 1].0 != ps[b + 1].0);
            }
        }
        assert(d[i - 1].0 == k);
        lemma_remove_pairs_front(d, k, i - 1);
        assert(seq![ps.first()] + d.remove(i - 1) =~= ps.remove(i));
    }
}

/// A key no pair holds is not in the denoted map.
pub proof fn lemma_pairs_to_map_unbound(ps: Seq<(Seq<char>, Seq<char>)>, k: Seq<char>)
    requires
        forall|i: int| 0 <= i < ps.len() ==> (#[trigger] ps[i]).0 != k,
    ensures
        !pairs_to_map(ps).contains_key(k),
    decreases ps.len(),
{
    if ps.len() > 0 {
        let t = ps.drop_last();
        assert(forall|i: int| 0 <= i < t.len() ==> (#[trigger] t[i]).0 != k);
        lemma_pairs_to_map_unbound(t, k);
    }
}

/// The earliest pair with key `k` is exactly `(k, v)`.
pub open spec fn first_binding_is(ps: Seq<(Seq<char>, Seq<char>)>, k: Seq<char>, v: Seq<char>) -> bool {
    exists|j: int|
        0 <= j < ps.len() && #[trigger] ps[j] == (k, v) && forall|l: int|
            0 <= l < j ==> (#[trigger] ps[l]).0 != k
}

/// After an insert, the earliest binding of the inserted key is the
/// inserted pair.
pub proof fn lemma_insert_pairs_first_binding(
    ps: Seq<(Seq<char>, Seq<char>)>,
    k: Seq<char>,
    v: Seq<char>,
)
    ensures
        first_binding_is(insert_pairs(ps, k, v), k, v),
    decreases ps.len(),
{
    let u = insert_pairs(ps, k, v);
    if ps.len() == 0 || ps.first().0 == k {
        assert(u[0] == (k, v));
        assert(forall|l: int| 0 <= l < 0 ==> (#[trigger] u[l]).0 != k);
    } else {
        let d = ps.drop_first();
        lemma_insert_pairs_first_binding(d, k, v);
        let inner = insert_pairs(d, k, v);
        let j = choose|j: int|
            0 <= j < inner.len() && #[trigger] inner[j] == (k, v) && forall|l: int|
                0 <= l < j ==> (#[trigger] inner[l]).0 != k;
        assert(u[j + 1] == inner[j]);
        assert forall|l: int| 0 <= l < j + 1 implies (#[trigger] u[l]).0 != k by {
            if l == 0 {
                assert(u[0] == ps.first());
            } else {
                assert(u[l] == inner[l - 1]);
            }
        }
    }
}

/// Inserting a pair that already is the earliest binding of its key
/// changes nothing.
pub proof fn lemma_insert_pairs_absorb(ps: Seq<(Seq<char>, Seq<char>)>, k: Seq<char>, v: Seq<char>)
    requires
        first_binding_is(ps, k, v),
    ensures
        insert_pairs(ps, k, v) == ps,
    decreases ps.len(),
{
    let j = choose|j: int|
        0 <= j < ps.len() && #[trigger] ps[j] == (k, v) && forall|l: int|
            0 <= l < j ==> (#[trigger] ps[l]).0 != k;
    if j == 0 {
        assert(ps.first() == (k, v));
        assert(seq![(k, v)] + ps.drop_first() =~= ps);
    } else {
        assert((ps[0]).0 != k);
        let d = ps.drop_first();
        assert(d[j - 1] == ps[j]);
        assert forall|l: int| 0 <= l < j - 1 implies (#[trigger] d[l]).0 != k by {
            assert(d[l] == ps[l + 1]);
        }
        assert(first_binding_is(d, k, v));
        lemma_insert_pairs_absorb(d, k, v);
        assert(seq![ps.first()] + d =~= ps);
    }
}

/// Inserting some other key leaves the earliest binding of `k` in
/// place.
pub proof fn lemma_insert_pairs_keeps_binding(
    ps: Seq<(Seq<char>, Seq<char>)>,
    k: Seq<char>,
    v: Seq<char>,
    k2: Seq<char>,
    v2: Seq<char>,
)
    requires
        k2 != k,
        first_binding_is(ps, k, v),
    ensures
        first_binding_is(insert_pairs(ps, k2, v2), k, v),
    decreases ps.len(),
{
    let j = choose|j: int|
        0 <= j < ps.len() && #[trigger] ps[j] == (k, v) && forall|l: int|
            0 <= l < j ==> (#[trigger] ps[l]).0 != k;
    let u = insert_pairs(ps, k2, v2);
    if ps.len() == 0 {
    } else if ps.first().0 == k2 {
        // the first pair is replaced; it cannot be the binding of k
        let d = ps.drop_first();
        assert(j >= 1) by {
            if j == 0 {
                assert(ps[0].0 == k);
            }
        }
        assert(u == seq![(k2, v2)] + d);
        assert(u[j] == d[j - 1]);
        assert(d[j - 1] == ps[j]);
        assert forall|l: int| 0 <= l < j implies (#[trigger] u[l]).0 != k by {
            if l == 0 {
            } else {
                assert(u[l] == ps[l]);
            }
        }
    } else {
        let d = ps.drop_first();
        if j == 0 {
            assert(u[0] == ps.first());
            assert(forall|l: int| 0 <= l < 0 ==> (#[trigger] u[l]).0 != k);
        } else {
            assert(d[j - 1] == ps[j]);
            assert forall|l: int| 0 <= l < j - 1 implies (#[trigger] d[l]).0 != k by {
                assert(d[l] == ps[l + 1]);
            }
            assert(first_binding_is(d, k, v));
            lemma_insert_pairs_keeps_binding(d, k, v, k2, v2);
            let inner = insert_pairs(d, k2, v2);
            let j2 = choose|j2: int|
                0 <= j2 < inner.len() && #[trigger] inner[j2] == (k, v) && forall|l: int|
                    0 <= l < j2 ==> (#[trigger] inner[l]).0 != k;
            assert(u[j2 + 1] == inner[j2]);
            assert forall|l: int| 0 <= l < j2 + 1 implies (#[trigger] u[l]).0 != k by {
                if l == 0 {
                    assert(u[0] == ps.first());
                    assert(ps[0].0 != k);
                } else {
                    assert(u[l] == inner[l - 1]);
                }
            }
        }
    }
}

/// Every pair's key is bound in the denoted map.
pub proof fn lemma_pairs_to_map_haskey(ps: Seq<(Seq<char>, Seq<char>)>, i: int)
    requires
        0 <= i < ps.len(),
    ensures
        pairs_to_map(ps).contains_key(ps[i].0),
    decreases ps.len(),
{
    if i < ps.len() - 1 {
        lemma_pairs_to_map_haskey(ps.drop_last(), i);
    }
}

/// Removing an absent key leaves the pairs alone.
pub proof fn lemma_remove_pairs_absent(ps: Seq<(Seq<char>, Seq<char>)>, k: Seq<char>)
    requires
        forall|i: int| 0 <= i < ps.len() ==> (#[trigger] ps[i]).0 != k,
    ensures
        remove_pairs(ps, k) == ps,
    decreases ps.len(),
{
    if ps.len() > 0 {
        let d = ps.drop_first();
        assert(forall|i: int| 0 <= i < d.len() ==> (#[trigger] d[i]).0 != k);
        lemma_remove_pairs_absent(d, k);
        assert(seq![ps.first()] + d =~= ps);
    }
}

/// The view of a map is the mapping its pairs denote.
pub broadcast proof fn lemma_stringmap_view(m: StringMap)
    ensures
        #[trigger] m@ == pairs_to_map(m.spec_pairs()),
{
}

/// A string-keyed map in insertion order.
#[derive(Debug, PartialEq, Eq)]
pub struct StringMap {
    pairs: Vec<(String, String)>,
}

impl View for StringMap {
    type V = Map<Seq<char>, Seq<char>>;

    closed spec fn view(&self) -> Map<Seq<char>, Seq<char>> {
        pairs_to_map(self.spec_pairs())
    }
}

impl StringMap {
    /// The pairs the map holds, in order.
    pub closed spec fn spec_pairs(&self) -> Seq<(Seq<char>, Seq<char>)> {
        self.pairs@.map_values(|p: (String, String)| (p.0@, p.1@))
    }

    /// Each key occurs once; every constructor and method keeps this.
    #[verifier::type_invariant]
    closed spec fn wf(&self) -> bool {
        distinct_keys(self.spec_pairs())
    }

    pub fn new() -> (r: StringMap)
        ensures
            r@ == Map::<Seq<char>, Seq<char>>::empty(),
            r.spec_pairs() == Seq::<(Seq<char>, Seq<char>)>::empty(),
    {
        let r = StringMap { pairs: Vec::new() };
        proof {
            assert(r.spec_pairs() =~= Seq::<(Seq<char>, Seq<char>)>::empty());
        }
        r
    }

    /// The position of `key` among the pairs, if it is there.
    fn find_index(&self, key: &str) -> (r: Option<usize>)
        ensures
            match r {
                Some(i) => i < self.spec_pairs().len() && self.spec_pairs()[i as int].0 == key@,
                None => forall|i: int|
                    0 <= i < self.spec_pairs().len() ==> (#[trigger] self.spec_pairs()[i]).0
                        != key@,
            },
    {
        let mut i: usize = 0;
        while i < self.pairs.len()
            invariant
                0 <= i <= self.pairs.len(),
                self.spec_pairs().len() == self.pairs.len(),
                forall|j: int| 0 <= j < i ==> (#[trigger] self.spec_pairs()[j]).0 != key@,
            decreases self.pairs.len() - i,
        {
            if str_eq(self.pairs[i].0.as_str(), key) {
                return Some(i);
            }
            i += 1;
        }
        None
    }

    /// Binds `key` to `value`; an existing binding is overwritten and
    /// the old value handed back.
    pub fn insert(&mut self, key: &str, value: &str) -> (r: Option<String>)
        ensures
            final(self)@ == old(self)@.insert(key@, value@),
            final(self).spec_pairs() == insert_pairs(old(self).spec_pairs(), key@, value@),
            match r {
                Some(prev) => old(self)@.contains_key(key@) && prev@ == old(self)@[key@],
                None => !old(self)@.contains_key(key@),
            },
    {
        proof {
            use_type_invariant(&*self);
        }
        let ghost ps = self.spec_pairs();
        let found = self.find_index(key);
        let mut pairs = self.clone_pairs();
        let r = match found {
            Some(i) => {
                proof {
                    lemma_insert_pairs_update(ps, key@, value@, i as int);
                    lemma_pairs_to_map_get(ps, i as int);
                }
                let prev = pairs[i].1.clone();
                pairs[i] = (key.to_owned(), value.to_owned());
                proof {
                    assert(pairs@.map_values(|p: (String, String)| (p.0@, p.1@)) =~= ps.update(
                        i as int,
                        (key@, value@),
                    ));
                }
                Some(prev)
            },
            None => {
                proof {
                    lemma_insert_pairs_push(ps, key@, value@);
                    lemma_pairs_to_map_unbound(ps, key@);
                }
                pairs.push((key.to_owned(), value.to_owned()));
                proof {
                    assert(pairs@.map_values(|p: (String, String)| (p.0@, p.1@)) =~= ps.push(
                        (key@, value@),
                    ));
                }
                None
            },
        };
        *self = StringMap { pairs };
        r
    }

    /// The value bound to `key`, if any.
    pub fn get(&self, key: &str) -> (r: Option<&String>)
        ensures
            match r {
                Some(v) => self@.contains_key(key@) && v@ == self@[key@],
                None => !self@.contains_key(key@),
            },
    {
        proof {
            use_type_invariant(&*self);
        }
        match self.find_index(key) {
            Some(i) => {
                proof {
                    lemma_pairs_to_map_get(self.spec_pairs(), i as int);
                }
                Some(&self.pairs[i].1)
            },
            None => {
                proof {
                    lemma_pairs_to_map_unbound(self.spec_pairs(), key@);
                }
                None
            },
        }
    }

    /// Drops the binding of `key`, handing back its value if there was
    /// one.
    pub fn remove(&mut self, key: &str) -> (r: Option<String>)
        ensures
            final(self)@ == old(self)@.remove(key@),
            final(self).spec_pairs() == remove_pairs(old(self).spec_pairs(), key@),
            match r {
                Some(prev) => old(self)@.contains_key(key@) && prev@ == old(self)@[key@],
                None => !old(self)@.contains_key(key@),
            },
    {
        proof {
            use_type_invariant(&*self);
        }
        let ghost ps = self.spec_pairs();
        let found = self.find_index(key);
        match found {
            Some(i) => {
                proof {
                    lemma_remove_pairs_at(ps, key@, i as int);
                    lemma_pairs_to_map_get(ps, i as int);
                }
                let mut pairs = self.clone_pairs();
                let (_, prev) = pairs.remove(i);
                proof {
                    assert(pairs@.map_values(|p: (String, String)| (p.0@, p.1@)) =~= ps.remove(
                        i as int,
                    ));
                }
                *self = StringMap { pairs };
                Some(prev)
            },
            None => {
                proof {
                    lemma_pairs_to_map_unbound(ps, key@);
                    lemma_remove_pairs_absent(ps, key@);
                    assert(self@ =~= old(self)@.remove(key@));
                }
                None
            },
        }
    }

    /// True when `key` is bound.
    pub fn contains_key(&self, key: &str) -> (r: bool)
        ensures
            r == self@.contains_key(key@),
    {
        proof {
            use_type_invariant(&*self);
        }
        match self.find_index(key) {
            Some(i) => {
                proof {
                    lemma_pairs_to_map_get(self.spec_pairs(), i as int);
                }
                true
            },
            None => {
                proof {
                    lemma_pairs_to_map_unbound(self.spec_pairs(), key@);
                }
                false
            },
        }
    }

    /// A fresh copy of the pairs, character for character.
    fn clone_pairs(&self) -> (r: Vec<(String, String)>)
        ensures
            r@.map_values(|p: (String, String)| (p.0@, p.1@)) == self.spec_pairs(),
    {
        let mut pairs: Vec<(String, String)> = Vec::new();
        let mut i: usize = 0;
        while i < self.pairs.len()
            invariant
                0 <= i <= self.pairs.len(),
                pairs@.len() == i,
                forall|j: int|
                    0 <= j < i ==> (#[trigger] pairs@[j]).0@ == self.spec_pairs()[j].0 && pairs@[
                        j
                    ].1@ == self.spec_pairs()[j].1,
            decreases self.pairs.len() - i,
        {
            let k = self.pairs[i].0.clone();
            let v = self.pairs[i].1.clone();
            pairs.push((k, v));
            i += 1;
        }
        proof {
            assert(pairs@.map_values(|p: (String, String)| (p.0@, p.1@)) =~= self.spec_pairs());
        }
        pairs
    }

    /// How many pairs the map holds.
    pub fn len(&self) -> (r: usize)
        ensures
            r == self.spec_pairs().len(),
    {
        self.pairs.len()
    }

    /// The pair at position `i`, in insertion order.
    pub fn pair_at(&self, i: usize) -> (r: (&String, &String))
        requires
            i < self.spec_pairs().len(),
        ensures
            r.0@ == self.spec_pairs()[i as int].0,
            r.1@ == self.spec_pairs()[i as int].1,
    {
        (&self.pairs[i].0, &self.pairs[i].1)
    }
}

impl Clone for StringMap {
    fn clone(&self) -> (r: Self)
        ensures
            r@ == self@,
            r.spec_pairs() == self.spec_pairs(),
    {
        proof {
            use_type_invariant(&*self);
        }
        StringMap { pairs: self.clone_pairs() }
    }
}

} // verus!
