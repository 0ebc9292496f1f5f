//! A map keyed by an ordered pair of identifiers, such as the (owner,
//! spender) pairs of allowances.

use std::collections::HashMap;
use vstd::prelude::*;

use crate::types::Address;

verus! {

broadcast use vstd::std_specs::hash::group_hash_axioms;

pub struct PairMap<V> {
    inner: HashMap<Address, HashMap<Address, V>>,
}

impl<V> View for PairMap<V> {
    type V = Map<(Address, Address), V>;

    closed spec fn view(&self) -> Map<(Address, Address), V> {
        Map::new(
            |k: (Address, Address)| self.inner@.contains_key(k.0) && self.inner@[k.0]@.contains_key(k.1),
            |k: (Address, Address)| self.inner@[k.0]@[k.1],
        )
    }
}

impl<V: Copy> PairMap<V> {
    pub fn new() -> (r: PairMap<V>)
        ensures
            r@ == Map::<(Address, Address), V>::empty(),
    {
        let r = PairMap { inner: HashMap::new() };
        assert(r@ =~= Map::<(Address, Address), V>::empty());
        r
    }

    /// The value stored for `(a, b)`, if any.
    pub fn get(&self, a: Address, b: Address) -> (r: Option<V>)
        ensures
            r == (if self@.contains_key((a, b)) {
                Some(self@[(a, b)])
            } else {
                None::<V>
            }),
    {
        match self.inner.get(&a) {
            None => None,
            Some(m) => match m.get(&b) {
                None => None,
                Some(v) => Some(*v),
            },
        }
    }

    /// Stores `v` for `(a, b)`.
    pub fn insert(&mut self, a: Address, b: Address, v: V)
        ensures
            final(self)@ == old(self)@.insert((a, b), v),
    {
        let mut m = match self.inner.remove(&a) {
            Some(m) => m,
            None => HashMap::new(),
        };
        let ghost old_inner = m@;
        m.insert(b, v);
        self.inner.insert(a, m);
        proof {
            assert forall|k: (Address, Address)| #![auto] final(self)@.contains_key(k) == old(self)@.insert((a, b), v).contains_key(k) by {}
            assert(final(self)@ =~= old(self)@.insert((a, b), v));
        }
    }
}

} // verus!
