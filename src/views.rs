//! Typed views over store paths: unsigned 64-bit leaves and maps keyed by
//! agent identifier, each in a read-only and a read-write flavour.
use vstd::prelude::*;
use crate::codec::AgentID;
use crate::proxy::{sub_path, Proxy};
use crate::store::{is_under, Store};

verus! {

/// A read-only unsigned 64-bit leaf.
#[derive(Clone)]
pub struct ImmutableUint64 {
    proxy: Proxy,
}

impl View for ImmutableUint64 {
    type V = Seq<u8>;

    /// The path the leaf reads.
    closed spec fn view(&self) -> Seq<u8> {
        self.proxy@
    }
}

impl ImmutableUint64 {
    /// The leaf at the path of `proxy`.
    pub fn new(proxy: Proxy) -> (r: ImmutableUint64)
        ensures
            r@ == proxy@,
    {
        ImmutableUint64 { proxy }
    }

    /// Whether a value is stored at this leaf.
    pub fn has_value(&self, store: &Store) -> (r: bool)
        requires
            store.wf(),
        ensures
            r == store@.contains_key(self@),
    {
        self.proxy.has_value(store)
    }

    /// The stored value, or zero when none is stored.
    pub fn value(&self, store: &Store) -> (r: u64)
        requires
            store.wf(),
        ensures
            r == store.leaf(self@),
    {
        self.proxy.get_u64(store)
    }
}

/// A read-write unsigned 64-bit leaf.
#[derive(Clone)]
pub struct MutableUint64 {
    proxy: Proxy,
}

impl View for MutableUint64 {
    type V = Seq<u8>;

    /// The path the leaf reads and writes.
    closed spec fn view(&self) -> Seq<u8> {
        self.proxy@
    }
}

impl MutableUint64 {
    /// The leaf at the path of `proxy`.
    pub fn new(proxy: Proxy) -> (r: MutableUint64)
        ensures
            r@ == proxy@,
    {
        MutableUint64 { proxy }
    }

    /// Removes the stored value; the leaf then reads zero.
    pub fn delete(&self, store: &mut Store)
        requires
            old(store).wf(),
        ensures
            final(store).wf(),
            final(store)@ == old(store)@.remove(self@),
    {
        self.proxy.delete(store)
    }

    /// Whether a value is stored at this leaf.
    pub fn has_value(&self, store: &Store) -> (r: bool)
        requires
            store.wf(),
        ensures
            r == store@.contains_key(self@),
    {
        self.proxy.has_value(store)
    }

    /// Stores `value` at this leaf; zero is stored like any other value.
    pub fn set_value(&self, store: &mut Store, value: u64)
        requires
            old(store).wf(),
        ensures
            final(store).wf(),
            final(store)@ == old(store)@.insert(self@, value),
    {
        self.proxy.set_u64(store, value)
    }

    /// The stored value, or zero when none is stored.
    pub fn value(&self, store: &Store) -> (r: u64)
        requires
            store.wf(),
        ensures
            r == store.leaf(self@),
    {
        self.proxy.get_u64(store)
    }
}

/// A read-only map from agent identifier to unsigned 64-bit leaf.
#[derive(Clone)]
pub struct MapAgentIDToImmutableUint64 {
    proxy: Proxy,
}

impl View for MapAgentIDToImmutableUint64 {
    type V = Seq<u8>;

    /// The path under which the map's entries lie.
    closed spec fn view(&self) -> Seq<u8> {
        self.proxy@
    }
}

impl MapAgentIDToImmutableUint64 {
    /// The map rooted at the path of `proxy`.
    pub fn new(proxy: Proxy) -> (r: MapAgentIDToImmutableUint64)
        ensures
            r@ == proxy@,
    {
        MapAgentIDToImmutableUint64 { proxy }
    }

    /// The leaf for `key`, at the map's path extended by the key's encoding.
    pub fn get_uint64(&self, key: &AgentID) -> (r: ImmutableUint64)
        ensures
            r@ == sub_path(self@, key@),
    {
        ImmutableUint64 { proxy: self.proxy.key(key.as_bytes()) }
    }
}

/// A read-write map from agent identifier to unsigned 64-bit leaf.
#[derive(Clone)]
pub struct MapAgentIDToMutableUint64 {
    proxy: Proxy,
}

impl View for MapAgentIDToMutableUint64 {
    type V = Seq<u8>;

    /// The path under which the map's entries lie.
    closed spec fn view(&self) -> Seq<u8> {
        self.proxy@
    }
}

impl MapAgentIDToMutableUint64 {
    /// The map rooted at the path of `proxy`.
    pub fn new(proxy: Proxy) -> (r: MapAgentIDToMutableUint64)
        ensures
            r@ == proxy@,
    {
        MapAgentIDToMutableUint64 { proxy }
    }

    /// Removes every entry at or below the map's path; the rest of the
    /// store is left as it was.
    pub fn clear(&self, store: &mut Store)
        requires
            old(store).wf(),
        ensures
            final(store).wf(),
            forall|k: Seq<u8>| #[trigger] final(store)@.contains_key(k)
                <==> (old(store)@.contains_key(k) && !is_under(k, self@)),
            forall|k: Seq<u8>| #[trigger] final(store)@.contains_key(k) ==> final(store)@[k] == old(store)@[k],
    {
        self.proxy.clear_map(store)
    }

    /// The leaf for `key`, at the map's path extended by the key's encoding.
    pub fn get_uint64(&self, key: &AgentID) -> (r: MutableUint64)
        ensures
            r@ == sub_path(self@, key@),
    {
        MutableUint64 { proxy: self.proxy.key(key.as_bytes()) }
    }
}

/// The read-only allowances that one owner granted, by spender.
pub type ImmutableAllowancesForAgent = MapAgentIDToImmutableUint64;

/// The read-write allowances that one owner granted, by spender.
pub type MutableAllowancesForAgent = MapAgentIDToMutableUint64;

} // verus!
