//! Small verified containers keyed by raw identifier values.
//!
//! Game-state containers key entities by the raw 32-bit value of their
//! identifier.  [`IdMap`] is an association list whose abstract view is
//! a `Map<IdValue, V>` in which a later insertion overrides an earlier
//! one; [`IdSet`] is a list of values whose abstract view is a
//! `Set<IdValue>`.  Both expose positional access so that callers can
//! walk the entries in verified loops.

use vstd::prelude::*;
use crate::utils::IdValue;

verus! {

/// Membership in a pushed sequence: the new element, or an old member.
proof fn lemma_contains_push(s: Seq<IdValue>, v: IdValue, x: IdValue)
    ensures
        s.push(v).contains(x) <==> (s.contains(x) || x == v),
{
    if s.contains(x) {
        let i = choose|i: int| 0 <= i < s.len() && s[i] == x;
        assert(s.push(v)[i] == x);
    }
    if x == v {
        assert(s.push(v)[s.len() as int] == x);
    }
    if s.push(v).contains(x) {
        let i = choose|i: int| 0 <= i < s.push(v).len() && s.push(v)[i] == x;
        if i < s.len() {
            assert(s[i] == x);
        }
    }
}

/// A mapping from raw identifier values to records of type `V`.
#[verifier::ext_equal]
#[derive(Debug)]
pub struct IdMap<V> {
    entries: Vec<(IdValue, V)>,
}

/// The mapping described by a sequence of key/value pairs: a later
/// pair overrides an earlier one with the same key.
pub open spec fn map_of<V>(s: Seq<(IdValue, V)>) -> Map<IdValue, V>
    decreases s.len(),
{
    if s.len() == 0 {
        Map::empty()
    } else {
        map_of(s.drop_last()).insert(s.last().0, s.last().1)
    }
}

impl<V> View for IdMap<V> {
    type V = Map<IdValue, V>;

    closed spec fn view(&self) -> Map<IdValue, V> {
        map_of(self.entries@)
    }
}

/// In `map_of(s)`, a key maps to the value of its last occurrence in
/// `s`, and is present exactly when some pair of `s` carries it.
pub proof fn lemma_map_of_last<V>(s: Seq<(IdValue, V)>, k: IdValue)
    ensures
        map_of(s).contains_key(k) <==> (exists|i: int| 0 <= i < s.len() && s[i].0 == k),
        s.len() > 0 && s.last().0 == k ==> map_of(s)[k] == s.last().1,
        s.len() > 0 && s.last().0 != k ==> (map_of(s).contains_key(k) <==> map_of(
            s.drop_last(),
        ).contains_key(k)),
        s.len() > 0 && s.last().0 != k && map_of(s).contains_key(k) ==> map_of(s)[k] == map_of(
            s.drop_last(),
        )[k],
    decreases s.len(),
{
    if s.len() > 0 {
        lemma_map_of_last(s.drop_last(), k);
        if s.last().0 != k {
            assert(forall|i: int| 0 <= i < s.len() - 1 ==> s.drop_last()[i] == s[i]);
            if exists|i: int| 0 <= i < s.len() && s[i].0 == k {
                let i = choose|i: int| 0 <= i < s.len() && s[i].0 == k;
                assert(0 <= i < s.len() - 1 && s.drop_last()[i].0 == k);
            }
        }
    }
}

impl<V> IdMap<V> {
    /// The key/value pairs in insertion order.
    pub closed spec fn kv_seq(&self) -> Seq<(IdValue, V)> {
        self.entries@
    }

    /// The abstract view is determined by the entry sequence.
    pub proof fn lemma_view_is_map_of_kv_seq(&self)
        ensures
            self@ == map_of(self.kv_seq()),
    {
    }

    /// An empty mapping.
    pub fn new() -> (r: Self)
        ensures
            r@ == Map::<IdValue, V>::empty(),
            r.kv_seq() == Seq::<(IdValue, V)>::empty(),
    {
        IdMap { entries: Vec::new() }
    }

    /// Bind `k` to `v`, overriding any earlier binding of `k`.
    pub fn insert(&mut self, k: IdValue, v: V)
        ensures
            final(self)@ == old(self)@.insert(k, v),
            final(self).kv_seq() == old(self).kv_seq().push((k, v)),
    {
        self.entries.push((k, v));
        proof {
            assert(self.entries@.drop_last() =~= old(self).entries@);
        }
    }

    /// Forget every binding.
    pub fn clear(&mut self)
        ensures
            final(self)@ == Map::<IdValue, V>::empty(),
            final(self).kv_seq() == Seq::<(IdValue, V)>::empty(),
    {
        self.entries.clear();
    }

    /// How many key/value pairs are stored.
    pub fn num_entries(&self) -> (r: usize)
        ensures
            r == self.kv_seq().len(),
    {
        self.entries.len()
    }

    /// The `i`-th key/value pair in insertion order.
    pub fn entry_at(&self, i: usize) -> (r: &(IdValue, V))
        requires
            i < self.kv_seq().len(),
        ensures
            *r == self.kv_seq()[i as int],
    {
        &self.entries[i]
    }

    /// Look the key up; the result matches the abstract view.
    pub fn get(&self, k: IdValue) -> (r: Option<&V>)
        ensures
            match r {
                Some(v) => self@.contains_key(k) && *v == self@[k],
                None => !self@.contains_key(k),
            },
    {
        let s = Ghost(self.entries@);
        let mut i: usize = self.entries.len();
        proof {
            assert(s@.take(s@.len() as int) =~= s@);
        }
        while i > 0
            invariant
                i <= s@.len(),
                s@ == self.entries@,
                self@ == map_of(s@),
                map_of(s@).contains_key(k) <==> map_of(s@.take(i as int)).contains_key(k),
                map_of(s@).contains_key(k) ==> map_of(s@)[k] == map_of(s@.take(i as int))[k],
            decreases i,
        {
            i = i - 1;
            proof {
                assert(s@.take(i + 1).drop_last() =~= s@.take(i as int));
                lemma_map_of_last(s@.take(i + 1), k);
                if s@[i as int].0 == k {
                    assert(s@.take(i + 1)[i as int].0 == k);
                    assert(map_of(s@.take(i + 1)).contains_key(k));
                }
            }
            if self.entries[i].0 == k {
                return Some(&self.entries[i].1);
            }
        }
        proof {
            assert(s@.take(0) =~= Seq::<(IdValue, V)>::empty());
        }
        None
    }

    /// Whether the key is bound.
    pub fn contains_key(&self, k: IdValue) -> (r: bool)
        ensures
            r == self@.contains_key(k),
    {
        self.get(k).is_some()
    }
}

/// A set of raw identifier values.
#[verifier::ext_equal]
#[derive(Debug)]
pub struct IdSet {
    items: Vec<IdValue>,
}

impl View for IdSet {
    type V = Set<IdValue>;

    closed spec fn view(&self) -> Set<IdValue> {
        self.items@.to_set()
    }
}

impl IdSet {
    /// An empty set.
    pub fn new() -> (r: Self)
        ensures
            r@ == Set::<IdValue>::empty(),
    {
        let r = IdSet { items: Vec::new() };
        proof {
            assert(r.items@.to_set() =~= Set::<IdValue>::empty());
        }
        r
    }

    /// Whether `v` is a member.
    pub fn contains(&self, v: IdValue) -> (r: bool)
        ensures
            r == self@.contains(v),
    {
        let n = self.items.len();
        let mut i: usize = 0;
        while i < n
            invariant
                n == self.items@.len(),
                i <= n,
                forall|j: int| 0 <= j < i ==> self.items@[j] != v,
            decreases n - i,
        {
            if self.items[i] == v {
                return true;
            }
            i = i + 1;
        }
        false
    }

    /// Add `v` to the set.
    pub fn insert(&mut self, v: IdValue)
        ensures
            final(self)@ == old(self)@.insert(v),
    {
        if !self.contains(v) {
            let ghost s0 = self.items@;
            self.items.push(v);
            proof {
                assert forall|x: IdValue| #[trigger] self.items@.to_set().contains(x)
                    <==> s0.to_set().insert(v).contains(x) by {
                    lemma_contains_push(s0, v, x);
                };
                assert(self.items@.to_set() =~= s0.to_set().insert(v));
            }
        } else {
            proof {
                assert(self.items@.to_set() =~= self.items@.to_set().insert(v));
            }
        }
    }

    /// Remove `v` from the set.
    pub fn remove(&mut self, v: IdValue)
        ensures
            final(self)@ == old(self)@.remove(v),
    {
        let n = self.items.len();
        let ghost s = self.items@;
        let mut kept: Vec<IdValue> = Vec::new();
        let mut i: usize = 0;
        while i < n
            invariant
                n == s.len(),
                s == self.items@,
                i <= n,
                forall|x: IdValue| #[trigger] kept@.contains(x) <==> (s.take(i as int).contains(x)
                    && x != v),
            decreases n - i,
        {
            let x = self.items[i];
            let ghost pre = kept@;
            if x != v {
                kept.push(x);
            }
            i = i + 1;
            proof {
                assert(s.take(i as int) =~= s.take(i - 1).push(s[i - 1]));
                assert forall|y: IdValue| #[trigger] kept@.contains(y) <==> (s.take(
                    i as int,
                ).contains(y) && y != v) by {
                    lemma_contains_push(s.take(i - 1), s[i - 1], y);
                    if x != v {
                        lemma_contains_push(pre, x, y);
                    }
                };
            }
        }
        proof {
            assert(s.take(n as int) =~= s);
        }
        self.items = kept;
        proof {
            assert(self.items@.to_set() =~= old(self).items@.to_set().remove(v));
        }
    }

    /// Remove every member of `dead` from the set.
    pub fn remove_all(&mut self, dead: &IdSet)
        ensures
            final(self)@ == old(self)@.difference(dead@),
    {
        let n = self.items.len();
        let ghost s = self.items@;
        let mut kept: Vec<IdValue> = Vec::new();
        let mut i: usize = 0;
        while i < n
            invariant
                n == s.len(),
                s == self.items@,
                i <= n,
                forall|x: IdValue| #[trigger] kept@.contains(x) <==> (s.take(i as int).contains(x)
                    && !dead@.contains(x)),
            decreases n - i,
        {
            let x = self.items[i];
            let ghost pre = kept@;
            if !dead.contains(x) {
                kept.push(x);
            }
            i = i + 1;
            proof {
                assert(s.take(i as int) =~= s.take(i - 1).push(s[i - 1]));
                assert forall|y: IdValue| #[trigger] kept@.contains(y) <==> (s.take(
                    i as int,
                ).contains(y) && !dead@.contains(y)) by {
                    lemma_contains_push(s.take(i - 1), s[i - 1], y);
                    if !dead@.contains(x) {
                        lemma_contains_push(pre, x, y);
                    }
                };
            }
        }
        proof {
            assert(s.take(n as int) =~= s);
        }
        self.items = kept;
        proof {
            assert(self.items@.to_set() =~= old(self).items@.to_set().difference(dead@));
        }
    }

    /// Forget every member.
    pub fn clear(&mut self)
        ensures
            final(self)@ == Set::<IdValue>::empty(),
    {
        self.items.clear();
        proof {
            assert(self.items@.to_set() =~= Set::<IdValue>::empty());
        }
    }

    /// Whether the set has no member.
    pub fn is_empty(&self) -> (r: bool)
        ensures
            r == self@.is_empty(),
    {
        let r = self.items.len() == 0;
        proof {
            if self.items@.len() == 0 {
                assert(self.items@.to_set() =~= Set::<IdValue>::empty());
            } else {
                assert(self.items@.contains(self.items@[0]));
                assert(self.items@.to_set().contains(self.items@[0]));
            }
        }
        r
    }

    /// A copy of the set with the same members.
    pub fn duplicate(&self) -> (r: Self)
        ensures
            r@ == self@,
    {
        let n = self.items.len();
        let mut items: Vec<IdValue> = Vec::new();
        let mut i: usize = 0;
        while i < n
            invariant
                n == self.items@.len(),
                i <= n,
                items@ == self.items@.take(i as int),
            decreases n - i,
        {
            let x = self.items[i];
            items.push(x);
            i = i + 1;
            proof {
                assert(items@ =~= self.items@.take(i as int));
            }
        }
        proof {
            assert(self.items@.take(n as int) =~= self.items@);
        }
        let r = IdSet { items };
        proof {
            assert(r.items@.to_set() =~= self.items@.to_set());
        }
        r
    }

    /// The members, in insertion order, possibly with repetitions.
    pub fn to_vec(&self) -> (r: Vec<IdValue>)
        ensures
            r@.to_set() == self@,
    {
        let n = self.items.len();
        let mut out: Vec<IdValue> = Vec::new();
        let mut i: usize = 0;
        while i < n
            invariant
                n == self.items@.len(),
                i <= n,
                out@ == self.items@.take(i as int),
            decreases n - i,
        {
            let x = self.items[i];
            out.push(x);
            i = i + 1;
            proof {
                assert(out@ =~= self.items@.take(i as int));
            }
        }
        proof {
            assert(self.items@.take(n as int) =~= self.items@);
        }
        out
    }
}

} // verus!
