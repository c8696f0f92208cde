//! Assets by handle: handle ids derived from a path and a label, the
//! collection of loaded assets, and the loader of raw bytes.

use vstd::prelude::*;

verus! {

/// What an asset can be: any value that can be shared across threads.
pub trait Asset: Send + Sync + 'static {

}

impl<T: Send + Sync + 'static> Asset for T {

}

/// The kinds of asset a file can be loaded as.
#[derive(Debug, Clone, Copy, PartialEq, Eq, Structural)]
pub enum AssetKind {
    Bytes,
    Image,
    Audio,
}

/// Relies on ahash's `AHasher::new_with_keys` and `Hasher::finish`, with
/// `str`'s `Hash`: the hash of `s` under the two keys. Nothing is assumed of
/// its value, which may differ between machines.
#[verifier::external_body]
fn keyed_hash(s: &str, key1: u128, key2: u128) -> (r: u64) {
    let mut hasher = ahash::AHasher::new_with_keys(key1, key2);
    std::hash::Hash::hash(s, &mut hasher);
    std::hash::Hasher::finish(&hasher)
}

/// The keys of the hash behind handle ids: fixed, so that an id stays the
/// same from one run to the next.
const HASH_KEY1: u128 = 42;

const HASH_KEY2: u128 = 23;

fn hashed(s: &str) -> (r: u64) {
    keyed_hash(s, HASH_KEY1, HASH_KEY2)
}

/// Identifies an asset by the hashes of its path and its label.
#[derive(Debug, Clone, Copy, Hash, PartialEq, Eq, Structural)]
pub struct HandleId {
    pub path_id: u64,
    pub label_id: u64,
}

impl HandleId {
    /// The id of the asset labelled `label` in the file at `path`.
    pub fn from(path: &str, label: &str) -> (r: HandleId) {
        HandleId { path_id: hashed(path), label_id: hashed(label) }
    }
}

/// A typed reference to an asset.
pub struct Handle<T: Asset> {
    pub id: HandleId,
    pub marker: core::marker::PhantomData<T>,
}

impl<T: Asset> Handle<T> {
    /// The handle of the asset with this id.
    pub fn new(id: HandleId) -> (r: Handle<T>)
        ensures
            r.id == id,
    {
        Handle { id, marker: core::marker::PhantomData }
    }
}

/// The map that a sequence of entries with distinct ids stands for.
pub closed spec fn map_of<T>(s: Seq<(HandleId, T)>) -> Map<HandleId, T> {
    Map::new(
        |k: HandleId| exists|i: int| 0 <= i < s.len() && s[i].0 == k,
        |k: HandleId| s[choose|i: int| 0 <= i < s.len() && s[i].0 == k].1,
    )
}

pub closed spec fn distinct_ids<T>(s: Seq<(HandleId, T)>) -> bool {
    forall|i: int, j: int| 0 <= i < s.len() && 0 <= j < s.len() && i != j ==> s[i].0 != s[j].0
}

proof fn lemma_map_entry<T>(s: Seq<(HandleId, T)>, i: int)
    requires
        distinct_ids(s),
        0 <= i < s.len(),
    ensures
        map_of(s).contains_key(s[i].0),
        map_of(s)[s[i].0] == s[i].1,
{
    let k = s[i].0;
    assert(exists|j: int| 0 <= j < s.len() && s[j].0 == k);
    let j = choose|j: int| 0 <= j < s.len() && s[j].0 == k;
    assert(j == i);
}

/// Replacing the asset of entry `i` replaces it in the map.
proof fn lemma_map_update<T>(s: Seq<(HandleId, T)>, i: int, v: T)
    requires
        distinct_ids(s),
        0 <= i < s.len(),
    ensures
        distinct_ids(s.update(i, (s[i].0, v))),
        map_of(s.update(i, (s[i].0, v))) == map_of(s).insert(s[i].0, v),
{
    let id = s[i].0;
    let now = s.update(i, (id, v));
    assert forall|q: HandleId| #[trigger] map_of(now).contains_key(q) implies map_of(s).insert(
        id,
        v,
    ).contains_key(q) && map_of(now)[q] == map_of(s).insert(id, v)[q] by {
        let j = choose|j: int| 0 <= j < now.len() && now[j].0 == q;
        lemma_map_entry(now, j);
        if j != i {
            lemma_map_entry(s, j);
        }
    }
    assert forall|q: HandleId| #[trigger] map_of(s).insert(id, v).contains_key(q) implies map_of(
        now,
    ).contains_key(q) by {
        if q == id {
            lemma_map_entry(now, i);
        } else {
            let j = choose|j: int| 0 <= j < s.len() && s[j].0 == q;
            assert(now[j].0 == q);
        }
    }
    assert(map_of(now) =~= map_of(s).insert(id, v));
}

/// The loaded assets of one type, by handle id. Each id occurs at most once.
pub struct Assets<T: Asset> {
    store: Vec<(HandleId, T)>,
}

impl<T: Asset> Assets<T> {
    pub closed spec fn wf(&self) -> bool {
        distinct_ids(self.store@)
    }

    /// The assets, by handle id.
    pub closed spec fn view(&self) -> Map<HandleId, T> {
        map_of(self.store@)
    }

    proof fn lemma_entry(&self, i: int)
        requires
            self.wf(),
            0 <= i < self.store@.len(),
        ensures
            self.view().contains_key(self.store@[i].0),
            self.view()[self.store@[i].0] == self.store@[i].1,
    {
        lemma_map_entry(self.store@, i);
    }

    /// Where the asset with id `id` is.
    fn position(&self, id: HandleId) -> (r: Option<usize>)
        requires
            self.wf(),
        ensures
            r matches Some(i) ==> i < self.store@.len() && self.store@[i as int].0 == id,
            r is None ==> !self.view().contains_key(id),
    {
        let mut i: usize = 0;
        while i < self.store.len()
            invariant
                i <= self.store@.len(),
                forall|j: int| 0 <= j < i ==> self.store@[j].0 != id,
            decreases self.store@.len() - i,
        {
            if self.store[i].0 == id {
                return Some(i);
            }
            i = i + 1;
        }
        None
    }

    /// No asset loaded yet.
    pub fn new() -> (r: Assets<T>)
        ensures
            r.wf(),
            r.view() == Map::<HandleId, T>::empty(),
    {
        let r = Assets { store: Vec::new() };
        assert(r.view() =~= Map::<HandleId, T>::empty());
        r
    }

    /// Stores `asset` under `handle`'s id, replacing what was there.
    pub fn insert(&mut self, handle: Handle<T>, asset: T)
        requires
            old(self).wf(),
        ensures
            final(self).wf(),
            final(self).view() == old(self).view().insert(handle.id, asset),
    {
        let id = handle.id;
        match self.position(id) {
            Some(i) => {
                proof {
                    lemma_map_update(self.store@, i as int, asset);
                }
                self.store.set(i, (id, asset));
            },
            None => {
                self.store.push((id, asset));
                proof {
                    let (before, now) = (old(self).store@, self.store@);
                    let n = before.len() as int;
                    assert forall|q: HandleId| #[trigger] self.view().contains_key(q) implies old(self).view().insert(id, asset).contains_key(q) && self.view()[q] == old(self).view().insert(id, asset)[q] by {
                        let j = choose|j: int| 0 <= j < now.len() && now[j].0 == q;
                        self.lemma_entry(j);
                        if j != n {
                            old(self).lemma_entry(j);
                        }
                    }
                    assert forall|q: HandleId| #[trigger] old(self).view().insert(id, asset).contains_key(q) implies self.view().contains_key(q) by {
                        if q == id {
                            self.lemma_entry(n);
                        } else {
                            let j = choose|j: int| 0 <= j < before.len() && before[j].0 == q;
                            assert(now[j].0 == q);
                        }
                    }
                    assert(self.view() =~= old(self).view().insert(id, asset));
                }
            },
        }
    }

    /// The asset under `handle`'s id, if there is one.
    pub fn get(&self, handle: Handle<T>) -> (r: Option<&T>)
        requires
            self.wf(),
        ensures
            r is Some <==> self.view().contains_key(handle.id),
            r matches Some(v) ==> *v == self.view()[handle.id],
    {
        match self.position(handle.id) {
            Some(i) => {
                proof {
                    self.lemma_entry(i as int);
                }
                Some(&self.store[i].1)
            },
            None => None,
        }
    }

    /// The asset under `handle`'s id to change in place, if there is one.
    pub fn get_mut(&mut self, handle: Handle<T>) -> (r: Option<&mut T>)
        requires
            old(self).wf(),
        ensures
            final(self).wf(),
            r is Some <==> old(self).view().contains_key(handle.id),
            r is Some ==> *r.unwrap() == old(self).view()[handle.id] && final(self).view() == old(
                self,
            ).view().insert(handle.id, *final(r.unwrap())),
            r is None ==> final(self).view() == old(self).view(),
    {
        match self.position(handle.id) {
            Some(i) => {
                proof {
                    self.lemma_entry(i as int);
                }
                let entry = &mut self.store[i];
                let asset = &mut entry.1;
                proof {
                    lemma_map_update(old(self).store@, i as int, *final(asset));
                }
                Some(asset)
            },
            None => None,
        }
    }

    /// Drops the asset under `handle`'s id, if there is one.
    pub fn remove(&mut self, handle: Handle<T>)
        requires
            old(self).wf(),
        ensures
            final(self).wf(),
            final(self).view() == old(self).view().remove(handle.id),
    {
        let id = handle.id;
        match self.position(id) {
            Some(i) => {
                self.store.remove(i);
                proof {
                    let (before, now) = (old(self).store@, self.store@);
                    before.remove_ensures(i as int);
                    assert forall|q: HandleId| #[trigger] self.view().contains_key(q) implies old(self).view().remove(id).contains_key(q) && self.view()[q] == old(self).view().remove(id)[q] by {
                        let j = choose|j: int| 0 <= j < now.len() && now[j].0 == q;
                        self.lemma_entry(j);
                        if j < i {
                            old(self).lemma_entry(j);
                        } else {
                            old(self).lemma_entry(j + 1);
                        }
                    }
                    assert forall|q: HandleId| #[trigger] old(self).view().remove(id).contains_key(q) implies self.view().contains_key(q) by {
                        let j = choose|j: int| 0 <= j < before.len() && before[j].0 == q;
                        if j < i {
                            assert(now[j].0 == q);
                        } else {
                            assert(now[j - 1].0 == q);
                        }
                    }
                    assert(self.view() =~= old(self).view().remove(id));
                }
            },
            None => {
                assert(self.view() =~= old(self).view().remove(id));
            },
        }
    }
}

/// Turns the bytes of a file into an asset.
pub trait AssetLoader {
    type LoadedAsset;

    fn load(&self, bytes: &[u8]) -> Option<Self::LoadedAsset>;
}

/// A file's raw bytes as an asset.
pub struct Bytes(pub Vec<u8>);

/// Loads any file as its raw bytes.
pub struct BytesLoader {}

impl BytesLoader {
    pub fn new() -> (r: BytesLoader) {
        BytesLoader {  }
    }

    /// The file's bytes, as they are.
    pub fn load_bytes(&self, bytes: &[u8]) -> (r: Bytes)
        ensures
            r.0@ == bytes@,
    {
        Bytes(vstd::slice::slice_to_vec(bytes))
    }
}

impl AssetLoader for BytesLoader {
    type LoadedAsset = Bytes;

    fn load(&self, bytes: &[u8]) -> (r: Option<Bytes>) {
        Some(self.load_bytes(bytes))
    }
}

} // verus!
