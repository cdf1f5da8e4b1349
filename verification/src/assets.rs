use std::marker::PhantomData;
use std::sync::Arc;
use vstd::prelude::*;

verus! {

/// Calls `Arc::clone`, which hands back a second pointer to the same
/// allocation: the value behind the new pointer is the value behind the old.
#[verifier::external_body]
fn share<T>(asset: &Arc<T>) -> (shared: Arc<T>)
    ensures
        shared == *asset,
{
    Arc::clone(asset)
}

/// A typed ticket for an asset held in an [`AssetStore`].
pub struct AssetHandle<T> {
    index: u32,
    generation: u32,
    _marker: PhantomData<T>,
}

impl<T> AssetHandle<T> {
    /// Slot of the asset in its store.
    pub closed spec fn index(&self) -> u32 {
        self.index
    }

    /// Generation the slot had when the handle was issued.
    pub closed spec fn generation(&self) -> u32 {
        self.generation
    }

    /// A handle for slot `index` at generation `generation`.
    pub fn new(index: u32, generation: u32) -> (h: Self)
        ensures
            h.index() == index,
            h.generation() == generation,
    {
        Self { index, generation, _marker: PhantomData }
    }
}

/// An append-only list of shared assets, each stored with a generation.
pub struct AssetStore<T> {
    list: Vec<(u32, Arc<T>)>,
}

impl<T> View for AssetStore<T> {
    type V = Seq<(u32, T)>;

    /// The stored `(generation, asset)` pairs in insertion order.
    closed spec fn view(&self) -> Seq<(u32, T)> {
        Seq::new(self.list@.len(), |i: int| (self.list@[i].0, *self.list@[i].1))
    }
}

impl<T> Default for AssetStore<T> {
    fn default() -> (s: Self)
        ensures
            s@.len() == 0,
    {
        Self { list: Vec::new() }
    }
}

impl<T> AssetStore<T> {
    /// What a lookup with `(index, generation)` yields: the asset in slot
    /// `index` if the slot exists and carries that generation.
    pub open spec fn lookup(&self, index: u32, generation: u32) -> Option<T> {
        if index < self@.len() && self@[index as int].0 == generation {
            Some(self@[index as int].1)
        } else {
            None
        }
    }

    /// Number of stored assets.
    pub fn len(&self) -> (n: usize)
        ensures
            n == self@.len(),
    {
        self.list.len()
    }

    /// Appends `asset` with generation 0 and returns the handle of its slot.
    pub fn insert(&mut self, asset: T) -> (h: AssetHandle<T>)
        requires
            old(self)@.len() <= u32::MAX,
        ensures
            final(self)@ == old(self)@.push((0u32, asset)),
            h.index() == old(self)@.len(),
            h.generation() == 0,
    {
        let index = self.list.len() as u32;
        let generation: u32 = 0;
        self.list.push((generation, Arc::new(asset)));
        assert(self@ =~= old(self)@.push((0u32, asset)));
        AssetHandle::new(index, generation)
    }

    /// The asset that `handle` names, if its slot exists and the generations
    /// agree.
    pub fn get(&self, handle: AssetHandle<T>) -> (r: Option<Arc<T>>)
        ensures
            match r {
                Some(a) => self.lookup(handle.index(), handle.generation()) == Some(*a),
                None => self.lookup(handle.index(), handle.generation()) is None,
            },
    {
        let i = handle.index as usize;
        if i >= self.list.len() {
            return None;
        }
        let entry = &self.list[i];
        if entry.0 != handle.generation {
            return None;
        }
        Some(share(&entry.1))
    }
}

/// One store per asset kind: meshes, albedo textures and normal maps.
pub struct AssetRegistry<M, A, N> {
    meshes: AssetStore<M>,
    albedos: AssetStore<A>,
    normals: AssetStore<N>,
}

impl<M, A, N> Default for AssetRegistry<M, A, N> {
    fn default() -> (r: Self)
        ensures
            r.meshes()@.len() == 0,
            r.albedos()@.len() == 0,
            r.normals()@.len() == 0,
    {
        Self {
            meshes: AssetStore::default(),
            albedos: AssetStore::default(),
            normals: AssetStore::default(),
        }
    }
}

impl<M, A, N> AssetRegistry<M, A, N> {
    /// The store of meshes.
    pub closed spec fn meshes(&self) -> AssetStore<M> {
        self.meshes
    }

    /// The store of albedo textures.
    pub closed spec fn albedos(&self) -> AssetStore<A> {
        self.albedos
    }

    /// The store of normal maps.
    pub closed spec fn normals(&self) -> AssetStore<N> {
        self.normals
    }

    /// An empty registry.
    pub fn new() -> (r: Self)
        ensures
            r.meshes()@.len() == 0,
            r.albedos()@.len() == 0,
            r.normals()@.len() == 0,
    {
        Self::default()
    }

    /// Stores a mesh and returns its handle.
    pub fn insert_mesh(&mut self, mesh: M) -> (h: AssetHandle<M>)
        requires
            old(self).meshes()@.len() <= u32::MAX,
        ensures
            final(self).meshes()@ == old(self).meshes()@.push((0u32, mesh)),
            final(self).albedos() == old(self).albedos(),
            final(self).normals() == old(self).normals(),
            h.index() == old(self).meshes()@.len(),
            h.generation() == 0,
    {
        self.meshes.insert(mesh)
    }

    /// Stores an albedo texture and returns its handle.
    pub fn insert_albedo(&mut self, albedo: A) -> (h: AssetHandle<A>)
        requires
            old(self).albedos()@.len() <= u32::MAX,
        ensures
            final(self).albedos()@ == old(self).albedos()@.push((0u32, albedo)),
            final(self).meshes() == old(self).meshes(),
            final(self).normals() == old(self).normals(),
            h.index() == old(self).albedos()@.len(),
            h.generation() == 0,
    {
        self.albedos.insert(albedo)
    }

    /// Stores a normal map and returns its handle.
    pub fn insert_normal(&mut self, normal: N) -> (h: AssetHandle<N>)
        requires
            old(self).normals()@.len() <= u32::MAX,
        ensures
            final(self).normals()@ == old(self).normals()@.push((0u32, normal)),
            final(self).meshes() == old(self).meshes(),
            final(self).albedos() == old(self).albedos(),
            h.index() == old(self).normals()@.len(),
            h.generation() == 0,
    {
        self.normals.insert(normal)
    }

    /// The mesh that `handle` names, if there is one.
    pub fn get_mesh(&self, handle: AssetHandle<M>) -> (r: Option<Arc<M>>)
        ensures
            match r {
                Some(a) => self.meshes().lookup(handle.index(), handle.generation()) == Some(*a),
                None => self.meshes().lookup(handle.index(), handle.generation()) is None,
            },
    {
        self.meshes.get(handle)
    }

    /// The albedo texture that `handle` names, if there is one.
    pub fn get_albedo(&self, handle: AssetHandle<A>) -> (r: Option<Arc<A>>)
        ensures
            match r {
                Some(a) => self.albedos().lookup(handle.index(), handle.generation()) == Some(*a),
                None => self.albedos().lookup(handle.index(), handle.generation()) is None,
            },
    {
        self.albedos.get(handle)
    }

    /// The normal map that `handle` names, if there is one.
    pub fn get_normal(&self, handle: AssetHandle<N>) -> (r: Option<Arc<N>>)
        ensures
            match r {
                Some(a) => self.normals().lookup(handle.index(), handle.generation()) == Some(*a),
                None => self.normals().lookup(handle.index(), handle.generation()) is None,
            },
    {
        self.normals.get(handle)
    }
}

} // verus!
