//! A position in the state store's key namespace, and the store operations
//! made at that position.
use vstd::prelude::*;
use vstd::string::StringSliceAdditionalSpecFns;
use crate::codec::string_to_bytes;
use crate::store::{is_under, Store, SEPARATOR};

verus! {

/// The path reached by extending `p` with the key component `k`: `k` alone
/// under the empty path, else `p`, the separator, then `k`.
pub open spec fn sub_path(p: Seq<u8>, k: Seq<u8>) -> Seq<u8> {
    if p.len() == 0 {
        k
    } else {
        p + seq![SEPARATOR] + k
    }
}

/// Extending one path by two different components gives two different paths.
pub proof fn lemma_sub_path_injective(p: Seq<u8>, a: Seq<u8>, b: Seq<u8>)
    requires
        a != b,
    ensures
        sub_path(p, a) != sub_path(p, b),
{
    if p.len() != 0 {
        let n = p.len() + 1;
        let x = sub_path(p, a);
        let y = sub_path(p, b);
        assert(x.subrange(n as int, x.len() as int) =~= a);
        assert(y.subrange(n as int, y.len() as int) =~= b);
    }
}

/// A path extended by a component lies below the path it extends.
pub proof fn lemma_sub_path_under(p: Seq<u8>, k: Seq<u8>, q: Seq<u8>)
    requires
        q == p || is_under(p, q),
    ensures
        is_under(sub_path(p, k), q),
{
    let x = sub_path(p, k);
    if q.len() != 0 {
        if p.len() == 0 {
            assert(false);
        }
        assert(x.subrange(0, p.len() as int) =~= p);
        if q == p {
            assert(x.subrange(0, q.len() as int) =~= q);
        } else {
            assert(x.subrange(0, q.len() as int) =~= p.subrange(0, q.len() as int));
            assert(x[q.len() as int] == p[q.len() as int]);
        }
    }
}

/// A handle on one path of the state store. It holds no data: reads and
/// writes at its path go to the store passed in.
#[derive(Clone)]
pub struct Proxy {
    key: Vec<u8>,
}

impl View for Proxy {
    type V = Seq<u8>;

    closed spec fn view(&self) -> Seq<u8> {
        self.key@
    }
}

impl Proxy {
    /// The handle on the empty path, where the contract's state is rooted.
    pub fn nil() -> (r: Proxy)
        ensures
            r@ == Seq::<u8>::empty(),
    {
        let r = Proxy { key: Vec::new() };
        assert(r@ =~= Seq::<u8>::empty());
        r
    }

    /// A copy of this handle, on the same path.
    pub fn copy(&self) -> (r: Proxy)
        ensures
            r@ == self@,
    {
        Proxy { key: self.key.clone() }
    }

    /// The bytes of this handle's path.
    pub fn to_bytes(&self) -> (r: Vec<u8>)
        ensures
            r@ == self@,
    {
        self.key.clone()
    }

    /// The handle on the top-level entry named `name`, whatever this
    /// handle's own path.
    pub fn root(&self, name: &str) -> (r: Proxy)
        ensures
            r@ == name.spec_bytes(),
    {
        Proxy { key: string_to_bytes(name) }
    }

    /// The handle on this path extended by the encoded component `key`.
    pub fn key(&self, key: &Vec<u8>) -> (r: Proxy)
        ensures
            r@ == sub_path(self@, key@),
    {
        if self.key.len() == 0 {
            return Proxy { key: key.clone() };
        }
        let mut buf: Vec<u8> = self.key.clone();
        buf.push(SEPARATOR);
        let mut i: usize = 0;
        while i < key.len()
            invariant
                0 <= i <= key@.len(),
                buf@ == self@ + seq![SEPARATOR] + key@.subrange(0, i as int),
            decreases key@.len() - i,
        {
            buf.push(key[i]);
            i = i + 1;
            assert(buf@ =~= self@ + seq![SEPARATOR] + key@.subrange(0, i as int));
        }
        assert(key@.subrange(0, key@.len() as int) =~= key@);
        Proxy { key: buf }
    }

    /// The leaf value at this path: zero where nothing is stored.
    pub fn get_u64(&self, store: &Store) -> (r: u64)
        requires
            store.wf(),
        ensures
            r == store.leaf(self@),
    {
        store.get_u64(&self.key)
    }

    /// Stores `value` at this path.
    pub fn set_u64(&self, store: &mut Store, value: u64)
        requires
            old(store).wf(),
        ensures
            final(store).wf(),
            final(store)@ == old(store)@.insert(self@, value),
    {
        store.set_u64(&self.key, value)
    }

    /// Whether a value is stored at this path.
    pub fn has_value(&self, store: &Store) -> (r: bool)
        requires
            store.wf(),
        ensures
            r == store@.contains_key(self@),
    {
        store.contains(&self.key)
    }

    /// Removes the value stored at this path, if any.
    pub fn delete(&self, store: &mut Store)
        requires
            old(store).wf(),
        ensures
            final(store).wf(),
            final(store)@ == old(store)@.remove(self@),
    {
        store.delete(&self.key)
    }

    /// Removes every entry at or below this path.
    pub fn clear_map(&self, store: &mut Store)
        requires
            old(store).wf(),
        ensures
            final(store).wf(),
            forall|k: Seq<u8>| #[trigger] final(store)@.contains_key(k)
                <==> (old(store)@.contains_key(k) && !is_under(k, self@)),
            forall|k: Seq<u8>| #[trigger] final(store)@.contains_key(k) ==> final(store)@[k] == old(store)@[k],
    {
        store.clear_under(&self.key)
    }
}

} // verus!
