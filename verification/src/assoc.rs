//! A map with compound keys that keeps its entries in the order in which their keys
//! were first inserted. No key occurs twice.
use vstd::prelude::*;

verus! {

/// A key: two keys are the same if their views are.
pub trait Key: View + Sized {
    fn same_key(&self, other: &Self) -> (r: bool)
        ensures
            r == (self@ == other@),
    ;
}

#[derive(Debug)]
pub struct AssocMap<K, V> {
    entries: Vec<(K, V)>,
}

/// The first place where the key stands; the number of entries when it is not there.
pub open spec fn slot_of<K: View, V>(entries: Seq<(K, V)>, key: K::V) -> int
    decreases entries.len(),
{
    if entries.len() == 0 {
        0
    } else if entries[0].0@ == key {
        0
    } else {
        1 + slot_of(entries.drop_first(), key)
    }
}

proof fn lemma_slot<K: View, V>(entries: Seq<(K, V)>, key: K::V)
    ensures
        0 <= slot_of(entries, key) <= entries.len(),
        slot_of(entries, key) < entries.len() ==> entries[slot_of(entries, key)].0@ == key,
        forall|i: int| 0 <= i < slot_of(entries, key) ==> (#[trigger] entries[i]).0@ != key,
    decreases entries.len(),
{
    if entries.len() > 0 && entries[0].0@ != key {
        lemma_slot(entries.drop_first(), key);
        assert forall|i: int| 0 <= i < slot_of(entries, key) implies (#[trigger] entries[i]).0@
            != key by {
            if i > 0 {
                assert(entries.drop_first()[i - 1] == entries[i]);
            }
        }
    }
}

proof fn lemma_slot_is<K: View, V>(entries: Seq<(K, V)>, key: K::V, i: int)
    requires
        0 <= i <= entries.len(),
        i < entries.len() ==> entries[i].0@ == key,
        forall|j: int| 0 <= j < i ==> (#[trigger] entries[j]).0@ != key,
    ensures
        slot_of(entries, key) == i,
{
    lemma_slot(entries, key);
}

/// The entries as a mathematical map.
pub open spec fn map_of<K: View, V>(entries: Seq<(K, V)>) -> Map<K::V, V> {
    Map::new(
        |key: K::V| slot_of(entries, key) < entries.len(),
        |key: K::V| entries[slot_of(entries, key)].1,
    )
}

/// The entries with `key` bound to `value`: in the place of an earlier binding, or at
/// the end.
pub open spec fn bound<K: View, V>(entries: Seq<(K, V)>, key: K, value: V) -> Seq<(K, V)> {
    let i = slot_of(entries, key@);
    if 0 <= i < entries.len() {
        entries.update(i, (key, value))
    } else {
        entries.push((key, value))
    }
}

proof fn lemma_bound<K: View, V>(before: Seq<(K, V)>, key: K, value: V)
    ensures
        map_of(bound(before, key, value)) == map_of(before).insert(key@, value),
{
    let after = bound(before, key, value);
    let i = slot_of(before, key@);
    lemma_slot(before, key@);
    assert forall|k: K::V| #[trigger] map_of(after).contains_key(k) == map_of(before).insert(
        key@,
        value,
    ).contains_key(k) && (map_of(after).contains_key(k) ==> map_of(after)[k] == map_of(before).insert(
        key@,
        value,
    )[k]) by {
        lemma_slot(before, k);
        let q = slot_of(before, k);
        if k == key@ {
            lemma_slot_is(after, k, i);
        } else if q < before.len() {
            lemma_slot_is(after, k, q);
        } else {
            lemma_slot_is(after, k, after.len() as int);
        }
    }
    assert(map_of(after) =~= map_of(before).insert(key@, value));
}

/// The entries with every pair bound, in order.
pub open spec fn bound_all<K: View, V>(entries: Seq<(K, V)>, pairs: Seq<(K, V)>) -> Seq<(K, V)>
    decreases pairs.len(),
{
    if pairs.len() == 0 {
        entries
    } else {
        bound(bound_all(entries, pairs.drop_last()), pairs.last().0, pairs.last().1)
    }
}

impl<K: Key, V> View for AssocMap<K, V> {
    type V = Map<K::V, V>;

    closed spec fn view(&self) -> Map<K::V, V> {
        map_of(self.entries@)
    }
}

impl<K: Key, V> AssocMap<K, V> {
    /// No key occurs twice.
    pub closed spec fn wf(&self) -> bool {
        forall|i: int, j: int|
            0 <= i < j < self.entries@.len() ==> (#[trigger] self.entries@[i]).0@ != (
            #[trigger] self.entries@[j]).0@
    }

    /// The entries in the order of first insertion.
    pub closed spec fn listed(&self) -> Seq<(K, V)> {
        self.entries@
    }

    /// The listing holds every key once, each with its value.
    pub proof fn lemma_listed(&self)
        requires
            self.wf(),
        ensures
            self@ == map_of(self.listed()),
            forall|i: int|
                0 <= i < self.listed().len() ==> self@.contains_key((#[trigger] self.listed()[i]).0@)
                    && self@[self.listed()[i].0@] == self.listed()[i].1,
            forall|key: K::V| #[trigger]
                self@.contains_key(key) ==> exists|i: int|
                    0 <= i < self.listed().len() && (#[trigger] self.listed()[i]).0@ == key,
            forall|i: int, j: int|
                0 <= i < j < self.listed().len() ==> (#[trigger] self.listed()[i]).0@ != (
                #[trigger] self.listed()[j]).0@,
    {
        assert forall|i: int| 0 <= i < self.listed().len() implies self@.contains_key(
            (#[trigger] self.listed()[i]).0@,
        ) && self@[self.listed()[i].0@] == self.listed()[i].1 by {
            lemma_slot_is(self.entries@, self.entries@[i].0@, i);
        }
        assert forall|key: K::V| #[trigger] self@.contains_key(key) implies exists|i: int|
            0 <= i < self.listed().len() && (#[trigger] self.listed()[i]).0@ == key by {
            lemma_slot(self.entries@, key);
            assert(self.listed()[slot_of(self.entries@, key)].0@ == key);
        }
    }

    pub fn new() -> (r: AssocMap<K, V>)
        ensures
            r.wf(),
            r@ == Map::<K::V, V>::empty(),
            r.listed() == Seq::<(K, V)>::empty(),
    {
        let r = AssocMap { entries: Vec::new() };
        assert(r@ =~= Map::<K::V, V>::empty());
        r
    }

    fn position(&self, key: &K) -> (r: usize)
        ensures
            r == slot_of(self.entries@, key@),
            r <= self.entries@.len(),
    {
        let mut i: usize = 0;
        assert(self.entries@.skip(0) =~= self.entries@);
        proof {
            lemma_slot(self.entries@, key@);
        }
        while i < self.entries.len()
            invariant
                i <= self.entries@.len(),
                0 <= slot_of(self.entries@, key@) <= self.entries@.len(),
                slot_of(self.entries@, key@) == i + slot_of(self.entries@.skip(i as int), key@),
            decreases self.entries@.len() - i,
        {
            if self.entries[i].0.same_key(key) {
                return i;
            }
            assert(self.entries@.skip(i as int).drop_first() =~= self.entries@.skip(i + 1));
            i += 1;
        }
        i
    }

    pub fn get(&self, key: &K) -> (r: Option<&V>)
        ensures
            match r {
                Some(v) => self@.contains_key(key@) && self@[key@] == *v,
                None => !self@.contains_key(key@),
            },
    {
        let i: usize = self.position(key);
        if i < self.entries.len() {
            Some(&self.entries[i].1)
        } else {
            None
        }
    }

    pub fn len(&self) -> (r: usize)
        ensures
            r == self.listed().len(),
    {
        self.entries.len()
    }

    /// The entry at position `i` of the listing.
    pub fn entry(&self, i: usize) -> (r: &(K, V))
        requires
            i < self.listed().len(),
        ensures
            *r == self.listed()[i as int],
    {
        &self.entries[i]
    }

    /// Binds `key` to `value`: in the place of an earlier binding, or at the end.
    pub fn insert(&mut self, key: K, value: V)
        ensures
            final(self)@ == old(self)@.insert(key@, value),
            final(self).listed() == bound(old(self).listed(), key, value),
            old(self).wf() ==> final(self).wf(),
    {
        let i: usize = self.position(&key);
        proof {
            lemma_slot(self.entries@, key@);
        }
        let ghost before = self.entries@;
        if i < self.entries.len() {
            self.entries.set(i, (key, value));
        } else {
            self.entries.push((key, value));
        }
        proof {
            lemma_bound(before, key, value);
        }
    }

    /// Binds every pair, in order.
    pub fn insert_all(&mut self, pairs: Vec<(K, V)>)
        ensures
            final(self).listed() == bound_all(old(self).listed(), pairs@),
            old(self).wf() ==> final(self).wf(),
    {
        let ghost before = self.listed();
        let ghost was_wf = self.wf();
        let ghost all = pairs@;
        for pair in it: pairs
            invariant
                it.seq() == all,
                self.listed() == bound_all(before, all.take(it.index())),
                was_wf ==> self.wf(),
        {
            assert(all.take(it.index() + 1).drop_last() =~= all.take(it.index()));
            self.insert(pair.0, pair.1);
        }
        assert(all.take(all.len() as int) =~= all);
    }
}

/// Of several bindings of a key the last one counts.
pub proof fn law_last_binding_wins<K: View, V>(entries: Seq<(K, V)>, pairs: Seq<(K, V)>, i: int)
    requires
        0 <= i < pairs.len(),
        forall|j: int| i < j < pairs.len() ==> (#[trigger] pairs[j]).0@ != pairs[i].0@,
    ensures
        map_of(bound_all(entries, pairs)).contains_key(pairs[i].0@),
        map_of(bound_all(entries, pairs))[pairs[i].0@] == pairs[i].1,
    decreases pairs.len(),
{
    let rest = pairs.drop_last();
    lemma_bound(bound_all(entries, rest), pairs.last().0, pairs.last().1);
    if i < rest.len() {
        assert(pairs[pairs.len() - 1].0@ != pairs[i].0@);
        law_last_binding_wins(entries, rest, i);
    }
}

/// A key that is not bound anew keeps what it had.
pub proof fn law_other_bindings_stay<K: View, V>(entries: Seq<(K, V)>, pairs: Seq<(K, V)>, key: K::V)
    requires
        forall|j: int| 0 <= j < pairs.len() ==> (#[trigger] pairs[j]).0@ != key,
    ensures
        map_of(bound_all(entries, pairs)).contains_key(key) == map_of(entries).contains_key(key),
        map_of(entries).contains_key(key) ==> map_of(bound_all(entries, pairs))[key] == map_of(
            entries,
        )[key],
    decreases pairs.len(),
{
    if pairs.len() > 0 {
        let rest = pairs.drop_last();
        assert(pairs[pairs.len() - 1].0@ != key);
        lemma_bound(bound_all(entries, rest), pairs.last().0, pairs.last().1);
        law_other_bindings_stay(entries, rest, key);
    }
}

// ---------------------------------------------------------------------------
// Laws
// ---------------------------------------------------------------------------

/// A key that is bound anew keeps its place in the listing, and a new key comes last.
pub proof fn law_bindings_keep_their_places<K: View, V>(entries: Seq<(K, V)>, key: K, value: V, i: int)
    requires
        0 <= i < entries.len(),
        forall|j: int| 0 <= j < i ==> (#[trigger] entries[j]).0@ != key@,
    ensures
        entries[i].0@ == key@ ==> bound(entries, key, value) == entries.update(i, (key, value)),
        (forall|j: int| 0 <= j < entries.len() ==> (#[trigger] entries[j]).0@ != key@) ==> bound(
            entries,
            key,
            value,
        ) == entries.push((key, value)),
        bound(Seq::<(K, V)>::empty(), key, value) == seq![(key, value)],
{
    lemma_slot(entries, key@);
    if entries[i].0@ == key@ {
        lemma_slot_is(entries, key@, i);
    }
    assert(bound(Seq::<(K, V)>::empty(), key, value) =~= seq![(key, value)]);
}

/// Pairs are bound one by one, in their order.
pub proof fn law_pairs_are_bound_in_order<K: View, V>(
    entries: Seq<(K, V)>,
    pairs: Seq<(K, V)>,
    key: K,
    value: V,
)
    ensures
        bound_all(entries, pairs.push((key, value))) == bound(bound_all(entries, pairs), key, value),
        bound_all(entries, Seq::empty()) == entries,
{
    assert(pairs.push((key, value)).drop_last() =~= pairs);
}

} // verus!
