//! An arena of values under sequential keys, and component references into one.

use vstd::prelude::*;

verus! {

/// Relies on std's `HashMap::get_mut`: a mutable reference to the value
/// under `k`, if there is one.
#[verifier::external_body]
fn map_get_mut<V>(m: &mut std::collections::HashMap<usize, V>, k: usize) -> (r: Option<&mut V>)
    ensures
        r is Some <==> old(m)@.contains_key(k),
        r is Some ==> *r.unwrap() == old(m)@[k] && final(m)@ == old(m)@.insert(
            k,
            *final(r.unwrap()),
        ),
        r is None ==> final(m)@ == old(m)@,
{
    m.get_mut(&k)
}

/// Values under the keys `insert` hands out: 0, 1, 2, ... in turn. A key
/// is never handed out twice, even after its value is removed.
pub struct Store<T> {
    ind: usize,
    inner: std::collections::HashMap<usize, T>,
}

impl<T> Store<T> {
    /// The values in the store, by key.
    pub closed spec fn view(&self) -> Map<usize, T> {
        self.inner@
    }

    /// The key that the next `insert` hands out.
    pub closed spec fn next_key(&self) -> nat {
        self.ind as nat
    }

    /// Every key in the store was handed out already.
    pub closed spec fn wf(&self) -> bool {
        forall|k: usize| #[trigger] self.inner@.contains_key(k) ==> k < self.ind
    }

    /// Stores `val` under a fresh key and returns that key.
    pub fn insert(&mut self, val: T) -> (r: usize)
        requires
            old(self).wf(),
            old(self).next_key() < usize::MAX,
        ensures
            final(self).wf(),
            r == old(self).next_key(),
            !old(self).view().contains_key(r),
            final(self).view() == old(self).view().insert(r, val),
            final(self).next_key() == old(self).next_key() + 1,
    {
        broadcast use vstd::std_specs::hash::group_hash_axioms;

        let key = self.ind;
        self.inner.insert(key, val);
        self.ind = key + 1;
        key
    }

    /// The value under `key`, if there is one; never one under a key not
    /// handed out yet.
    pub fn get(&self, key: usize) -> (r: Option<&T>)
        requires
            self.wf(),
        ensures
            r is Some <==> self.view().contains_key(key),
            r matches Some(v) ==> *v == self.view()[key],
            key >= self.next_key() ==> r is None,
    {
        broadcast use vstd::std_specs::hash::group_hash_axioms;

        self.inner.get(&key)
    }

    /// The value under `key` to change in place, if there is one.
    pub fn get_mut(&mut self, key: usize) -> (r: Option<&mut T>)
        requires
            old(self).wf(),
        ensures
            final(self).wf(),
            r is Some <==> old(self).view().contains_key(key),
            key >= old(self).next_key() ==> r is None,
            r is Some ==> *r.unwrap() == old(self).view()[key] && final(self).view() == old(
                self,
            ).view().insert(key, *final(r.unwrap())),
            r is None ==> final(self).view() == old(self).view(),
            final(self).next_key() == old(self).next_key(),
    {
        map_get_mut(&mut self.inner, key)
    }

    /// Takes the value under `key` out of the store, if there is one.
    pub fn remove(&mut self, key: usize) -> (r: Option<T>)
        requires
            old(self).wf(),
        ensures
            final(self).wf(),
            r is Some <==> old(self).view().contains_key(key),
            r matches Some(v) ==> v == old(self).view()[key],
            final(self).view() == old(self).view().remove(key),
            final(self).next_key() == old(self).next_key(),
    {
        broadcast use vstd::std_specs::hash::group_hash_axioms;

        self.inner.remove(&key)
    }
}

impl<T> Default for Store<T> {
    fn default() -> (r: Store<T>)
        ensures
            r.wf(),
            r.view() == Map::<usize, T>::empty(),
            r.next_key() == 0,
    {
        Store { ind: 0, inner: std::collections::HashMap::new() }
    }
}

/// A component naming one value of a `Store<T>` by its key.
pub struct Refer<T>(pub usize, pub core::marker::PhantomData<T>);

impl<T> Refer<T> {
    pub fn new(key: usize) -> (r: Refer<T>)
        ensures
            r.0 == key,
    {
        Refer(key, core::marker::PhantomData)
    }
}

/// A component naming several values of a `Store<T>` by their keys.
pub struct ReferMany<T>(pub Vec<usize>, pub core::marker::PhantomData<T>);

impl<T> ReferMany<T> {
    pub fn new(keys: Vec<usize>) -> (r: ReferMany<T>)
        ensures
            r.0@ == keys@,
    {
        ReferMany(keys, core::marker::PhantomData)
    }
}

} // verus!
