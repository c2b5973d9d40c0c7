use ic_stable_structures::memory_manager::{MemoryId, MemoryManager};
use ic_stable_structures::memory_manager::VirtualMemory;
use ic_stable_structures::{Cell, DefaultMemoryImpl, StableBTreeMap};
use vstd::prelude::*;

verus! {

/// Durable region holding the 64-bit id counter.
#[verifier::external_body]
pub struct IdRegion {
    inner: Cell<u64, VirtualMemory<DefaultMemoryImpl>>,
}

/// Durable region holding one ordered map from a 64-bit key to record bytes.
#[verifier::external_body]
pub struct ByteRegion {
    inner: StableBTreeMap<u64, Vec<u8>, VirtualMemory<DefaultMemoryImpl>>,
}

/// The counter value held in an id region.
pub uninterp spec fn id_value(r: IdRegion) -> u64;

/// The key-to-bytes contents of a byte region.
pub uninterp spec fn region_map(r: ByteRegion) -> Map<u64, Seq<u8>>;

impl IdRegion {
    /// Relies on `Cell::get` of ic_stable_structures: returns the held value.
    #[verifier::external_body]
    pub(crate) fn get(&self) -> (r: u64)
        ensures
            r == id_value(*self),
    {
        *self.inner.get()
    }

    /// Relies on `Cell::set` of ic_stable_structures: the cell durably holds
    /// the given value afterwards. A failed durable write aborts the process
    /// inside the call, as counter uniqueness cannot outlive such a fault.
    #[verifier::external_body]
    pub(crate) fn set(&mut self, v: u64)
        ensures
            id_value(*final(self)) == v,
    {
        self.inner.set(v);
    }
}

impl ByteRegion {
    /// Relies on `BTreeMap::get` of ic_stable_structures: the bytes stored
    /// under the key, if any.
    #[verifier::external_body]
    pub(crate) fn get(&self, key: u64) -> (r: Option<Vec<u8>>)
        ensures
            match r {
                Some(v) => region_map(*self).contains_key(key) && v@ == region_map(*self)[key],
                None => !region_map(*self).contains_key(key),
            },
    {
        self.inner.get(&key)
    }

    /// Relies on `BTreeMap::insert` of ic_stable_structures: maps the key to
    /// the bytes and returns the prior bytes under that key, if any.
    #[verifier::external_body]
    pub(crate) fn insert(&mut self, key: u64, value: Vec<u8>) -> (prior: Option<Vec<u8>>)
        ensures
            region_map(*final(self)) == region_map(*old(self)).insert(key, value@),
            match prior {
                Some(v) => region_map(*old(self)).contains_key(key) && v@ == region_map(
                    *old(self),
                )[key],
                None => !region_map(*old(self)).contains_key(key),
            },
    {
        self.inner.insert(key, value)
    }

    /// Relies on `BTreeMap::remove` of ic_stable_structures: unmaps the key
    /// and returns the prior bytes under it, if any.
    #[verifier::external_body]
    pub(crate) fn remove(&mut self, key: u64) -> (prior: Option<Vec<u8>>)
        ensures
            region_map(*final(self)) == region_map(*old(self)).remove(key),
            match prior {
                Some(v) => region_map(*old(self)).contains_key(key) && v@ == region_map(
                    *old(self),
                )[key],
                None => !region_map(*old(self)).contains_key(key),
            },
    {
        self.inner.remove(&key)
    }

    /// Relies on `BTreeMap::keys` of ic_stable_structures: the map's keys in
    /// ascending order.
    #[verifier::external_body]
    pub(crate) fn keys(&self) -> (r: Vec<u64>)
        ensures
            forall|i: int, j: int|
                #![trigger r@[i], r@[j]]
                0 <= i < j < r@.len() ==> r@[i] < r@[j],
            forall|k: u64| #[trigger]
                r@.contains(k) <==> region_map(*self).contains_key(k),
    {
        self.inner.keys().collect()
    }
}

/// The three durable regions the service is built on.
pub struct Backing {
    pub counter: IdRegion,
    pub debts: ByteRegion,
    pub escrows: ByteRegion,
}

/// A just-created backing: the counter at zero and both maps empty.
pub open spec fn backing_fresh(b: Backing) -> bool {
    id_value(b.counter) == 0 && region_map(b.debts) == Map::<u64, Seq<u8>>::empty()
        && region_map(b.escrows) == Map::<u64, Seq<u8>>::empty()
}

/// Relies on `MemoryManager`, `Cell::init` and `StableBTreeMap::init` of
/// ic_stable_structures: carves three regions out of one fresh durable
/// memory; on fresh memory the counter starts at zero and both maps are
/// empty.
#[verifier::external_body]
pub(crate) fn backing_init() -> (r: Backing)
    ensures
        backing_fresh(r),
{
    let mgr = MemoryManager::init(DefaultMemoryImpl::default());
    let counter = Cell::init(mgr.get(MemoryId::new(0)), 0);
    let debts = StableBTreeMap::init(mgr.get(MemoryId::new(1)));
    let escrows = StableBTreeMap::init(mgr.get(MemoryId::new(2)));
    Backing {
        counter: IdRegion { inner: counter },
        debts: ByteRegion { inner: debts },
        escrows: ByteRegion { inner: escrows },
    }
}

} // verus!
