//! A map from names to values that keeps its entries in the order in which their
//! names were first inserted. No name occurs twice.
use crate::assoc::{bound, bound_all, map_of, AssocMap, Key};
use vstd::prelude::*;

verus! {

impl Key for String {
    fn same_key(&self, other: &String) -> (r: bool) {
        *self == *other
    }
}

#[derive(Debug)]
pub struct NameMap<V> {
    map: AssocMap<String, V>,
}

impl<V> View for NameMap<V> {
    type V = Map<Seq<char>, V>;

    closed spec fn view(&self) -> Map<Seq<char>, V> {
        self.map@
    }
}

impl<V> NameMap<V> {
    /// No name occurs twice.
    pub closed spec fn wf(&self) -> bool {
        self.map.wf()
    }

    /// The entries in the order of first insertion.
    pub closed spec fn listed(&self) -> Seq<(String, V)> {
        self.map.listed()
    }

    /// The listing holds every name once, each with its value.
    pub proof fn lemma_listed(&self)
        requires
            self.wf(),
        ensures
            self@ == map_of(self.listed()),
            forall|i: int|
                0 <= i < self.listed().len() ==> self@.contains_key((#[trigger] self.listed()[i]).0@)
                    && self@[self.listed()[i].0@] == self.listed()[i].1,
            forall|name: Seq<char>| #[trigger]
                self@.contains_key(name) ==> exists|i: int|
                    0 <= i < self.listed().len() && (#[trigger] self.listed()[i]).0@ == name,
            forall|i: int, j: int|
                0 <= i < j < self.listed().len() ==> (#[trigger] self.listed()[i]).0@ != (
                #[trigger] self.listed()[j]).0@,
    {
        self.map.lemma_listed();
        assert forall|name: Seq<char>| #[trigger] self@.contains_key(name) implies exists|i: int|
            0 <= i < self.listed().len() && (#[trigger] self.listed()[i]).0@ == name by {
            assert(self.map@.contains_key(name));
            let i = choose|i: int|
                0 <= i < self.map.listed().len() && (#[trigger] self.map.listed()[i]).0@ == name;
            assert(self.listed()[i].0@ == name);
        }
    }

    pub fn new() -> (r: NameMap<V>)
        ensures
            r.wf(),
            r@ == Map::<Seq<char>, V>::empty(),
            r.listed() == Seq::<(String, V)>::empty(),
    {
        NameMap { map: AssocMap::new() }
    }

    pub fn get(&self, name: &str) -> (r: Option<&V>)
        ensures
            match r {
                Some(v) => self@.contains_key(name@) && self@[name@] == *v,
                None => !self@.contains_key(name@),
            },
    {
        self.map.get(&name.to_owned())
    }

    pub fn contains(&self, name: &str) -> (r: bool)
        ensures
            r == self@.contains_key(name@),
    {
        self.map.get(&name.to_owned()).is_some()
    }

    pub fn len(&self) -> (r: usize)
        ensures
            r == self.listed().len(),
    {
        self.map.len()
    }

    /// The entry at position `i` of the listing.
    pub fn entry(&self, i: usize) -> (r: &(String, V))
        requires
            i < self.listed().len(),
        ensures
            *r == self.listed()[i as int],
    {
        self.map.entry(i)
    }

    /// Binds `name` to `value`: in the place of an earlier binding, or at the end.
    pub fn insert(&mut self, name: String, value: V)
        ensures
            final(self)@ == old(self)@.insert(name@, value),
            final(self).listed() == bound(old(self).listed(), name, value),
            old(self).wf() ==> final(self).wf(),
    {
        self.map.insert(name, value);
    }

    /// Binds every pair, in order.
    pub fn insert_all(&mut self, pairs: Vec<(String, V)>)
        ensures
            final(self).listed() == bound_all(old(self).listed(), pairs@),
            old(self).wf() ==> final(self).wf(),
    {
        self.map.insert_all(pairs);
    }
}

} // verus!
