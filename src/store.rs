//! The byte-keyed store that holds the contract's state, kept in a
//! wasmlib dictionary. Every value it holds is an unsigned 64-bit leaf.
use vstd::prelude::*;
use crate::codec::{le_bytes, le_value, lemma_le_value_of_bytes, lemma_le_bytes_injective};
use crate::codec::{uint64_from_bytes, uint64_to_bytes};

verus! {

#[verifier::external_type_specification]
#[verifier::external_body]
pub struct ExScDict(wasmlib::ScDict);

/// What a wasmlib dictionary holds: each key's bytes mapped to its value's bytes.
pub uninterp spec fn dict_entries(d: wasmlib::ScDict) -> Map<Seq<u8>, Seq<u8>>;

/// Whether a wasmlib dictionary keeps its entries in memory, rather than
/// forwarding them to the host's state.
pub uninterp spec fn dict_is_local(d: wasmlib::ScDict) -> bool;

/// Relies on wasmlib::ScDict::new: given no bytes, an empty in-memory dictionary.
#[verifier::external_body]
fn dict_new() -> (r: wasmlib::ScDict)
    ensures
        dict_is_local(r),
        dict_entries(r).dom() == Set::<Seq<u8>>::empty(),
{
    wasmlib::ScDict::new(&[])
}

/// Relies on wasmlib::ScDict::get: the bytes stored under `key`, or none.
#[verifier::external_body]
fn dict_get(d: &wasmlib::ScDict, key: &Vec<u8>) -> (r: Vec<u8>)
    requires
        dict_is_local(*d),
    ensures
        dict_entries(*d).contains_key(key@) ==> r@ == dict_entries(*d)[key@],
        !dict_entries(*d).contains_key(key@) ==> r@.len() == 0,
{
    d.get(key)
}

/// Relies on wasmlib::ScDict::exists: whether `key` has an entry.
#[verifier::external_body]
fn dict_exists(d: &wasmlib::ScDict, key: &Vec<u8>) -> (r: bool)
    requires
        dict_is_local(*d),
    ensures
        r == dict_entries(*d).contains_key(key@),
{
    d.exists(key)
}

/// Relies on wasmlib::ScDict::set: stores `value` under `key`.
#[verifier::external_body]
fn dict_set(d: &mut wasmlib::ScDict, key: &Vec<u8>, value: &Vec<u8>)
    requires
        dict_is_local(*old(d)),
    ensures
        dict_is_local(*final(d)),
        dict_entries(*final(d)) == dict_entries(*old(d)).insert(key@, value@),
{
    d.set(key, value)
}

/// Relies on wasmlib::ScDict::delete: removes the entry under `key`, if any.
#[verifier::external_body]
fn dict_delete(d: &mut wasmlib::ScDict, key: &Vec<u8>)
    requires
        dict_is_local(*old(d)),
    ensures
        dict_is_local(*final(d)),
        dict_entries(*final(d)) == dict_entries(*old(d)).remove(key@),
{
    d.delete(key)
}

/// Whether `k` lies at or below the path `p`: `p` itself, or `p` followed
/// by the separator and more. Everything lies below the empty path.
pub open spec fn is_under(k: Seq<u8>, p: Seq<u8>) -> bool {
    ||| p.len() == 0
    ||| k == p
    ||| (p.len() < k.len() && k.subrange(0, p.len() as int) == p && k[p.len() as int] == SEPARATOR)
}

/// The byte that joins a path to the key that extends it (`.`).
pub const SEPARATOR: u8 = 0x2e;

/// Whether `k` is among the first `n` keys of `keys`.
pub open spec fn listed(keys: Seq<Vec<u8>>, n: int, k: Seq<u8>) -> bool {
    exists|j: int| 0 <= j < n && #[trigger] keys[j]@ == k
}

/// Whether the path `k` lies at or below the path `p`.
fn starts_path(k: &Vec<u8>, p: &Vec<u8>) -> (r: bool)
    ensures
        r == is_under(k@, p@),
{
    let pl = p.len();
    if pl == 0 {
        return true;
    }
    if k.len() < pl {
        return false;
    }
    let mut i: usize = 0;
    while i < pl
        invariant
            pl == p@.len(),
            pl <= k@.len(),
            0 <= i <= pl,
            forall|j: int| 0 <= j < i ==> k@[j] == p@[j],
        decreases pl - i,
    {
        if k[i] != p[i] {
            assert(k@ != p@);
            assert(k@.subrange(0, pl as int)[i as int] != p@[i as int]);
            return false;
        }
        i = i + 1;
    }
    assert(k@.subrange(0, pl as int) =~= p@);
    if k.len() == pl {
        assert(k@ =~= p@);
        return true;
    }
    k[pl] == SEPARATOR
}

/// The contract's state store. Every key is a path; every value is the
/// encoding of an unsigned 64-bit leaf.
pub struct Store {
    dict: wasmlib::ScDict,
    /// Every key that has an entry, and possibly some deleted since; a clear
    /// drops those that no longer have one.
    keys: Vec<Vec<u8>>,
}

impl View for Store {
    type V = Map<Seq<u8>, u64>;

    /// The leaf value stored at each path that has an entry.
    closed spec fn view(&self) -> Map<Seq<u8>, u64> {
        Map::new(|k: Seq<u8>| self.entries().contains_key(k), |k: Seq<u8>| le_value(self.entries()[k]))
    }
}

impl Store {
    /// The raw entries of the underlying dictionary.
    pub closed spec fn entries(&self) -> Map<Seq<u8>, Seq<u8>> {
        dict_entries(self.dict)
    }

    /// The dictionary is in memory, every key with an entry is listed, and
    /// every entry is the encoding of a leaf value.
    pub closed spec fn wf(&self) -> bool {
        &&& dict_is_local(self.dict)
        &&& forall|k: Seq<u8>| #[trigger] self.entries().contains_key(k) ==> listed(self.keys@, self.keys@.len() as int, k)
        &&& forall|k: Seq<u8>| #[trigger] self.entries().contains_key(k) ==> self.entries()[k] == le_bytes(le_value(self.entries()[k]))
    }

    /// The value that a leaf at `k` reads: the stored one, or zero when absent.
    pub open spec fn leaf(&self, k: Seq<u8>) -> u64 {
        if self@.contains_key(k) { self@[k] } else { 0 }
    }

    /// An empty store.
    pub fn new() -> (r: Store)
        ensures
            r.wf(),
            r@ == Map::<Seq<u8>, u64>::empty(),
    {
        let r = Store { dict: dict_new(), keys: Vec::new() };
        assert(r@ =~= Map::<Seq<u8>, u64>::empty());
        r
    }

    /// The leaf value at `key`; zero where nothing was stored.
    pub fn get_u64(&self, key: &Vec<u8>) -> (r: u64)
        requires
            self.wf(),
        ensures
            r == self.leaf(key@),
    {
        let bytes = dict_get(&self.dict, key);
        proof {
            if self.entries().contains_key(key@) {
                assert(bytes@ == le_bytes(le_value(self.entries()[key@])));
            }
        }
        let r = uint64_from_bytes(&bytes);
        proof {
            if self.entries().contains_key(key@) {
                lemma_le_bytes_injective(r, le_value(self.entries()[key@]));
            }
        }
        r
    }

    /// Whether a value was stored at `key`.
    pub fn contains(&self, key: &Vec<u8>) -> (r: bool)
        requires
            self.wf(),
        ensures
            r == self@.contains_key(key@),
    {
        dict_exists(&self.dict, key)
    }

    /// Stores `value` at `key`.
    pub fn set_u64(&mut self, key: &Vec<u8>, value: u64)
        requires
            old(self).wf(),
        ensures
            final(self).wf(),
            final(self)@ == old(self)@.insert(key@, value),
    {
        let present = dict_exists(&self.dict, key);
        let bytes = uint64_to_bytes(value);
        dict_set(&mut self.dict, key, &bytes);
        if !present {
            self.keys.push(key.clone());
        }
        proof {
            lemma_le_value_of_bytes(value);
            assert forall|k: Seq<u8>| #[trigger] self.entries().contains_key(k)
                implies listed(self.keys@, self.keys@.len() as int, k) by {
                if k == key@ {
                    if present {
                        assert(old(self).entries().contains_key(k));
                        let j = choose|j: int| 0 <= j < old(self).keys@.len() && #[trigger] old(self).keys@[j]@ == k;
                        assert(self.keys@[j]@ == k);
                    } else {
                        assert(self.keys@[self.keys@.len() - 1]@ == k);
                    }
                } else {
                    assert(old(self).entries().contains_key(k));
                    let j = choose|j: int| 0 <= j < old(self).keys@.len() && #[trigger] old(self).keys@[j]@ == k;
                    assert(self.keys@[j]@ == k);
                }
            }
        }
        assert(self@ =~= old(self)@.insert(key@, value));
    }

    /// Removes whatever was stored at `key`.
    pub fn delete(&mut self, key: &Vec<u8>)
        requires
            old(self).wf(),
        ensures
            final(self).wf(),
            final(self)@ == old(self)@.remove(key@),
    {
        dict_delete(&mut self.dict, key);
        assert(self@ =~= old(self)@.remove(key@));
    }

    /// Removes every entry at or below the path `prefix`; the others stay.
    pub fn clear_under(&mut self, prefix: &Vec<u8>)
        requires
            old(self).wf(),
        ensures
            final(self).wf(),
            forall|k: Seq<u8>| #[trigger] final(self)@.contains_key(k)
                <==> (old(self)@.contains_key(k) && !is_under(k, prefix@)),
            forall|k: Seq<u8>| #[trigger] final(self)@.contains_key(k) ==> final(self)@[k] == old(self)@[k],
    {
        let ghost old_entries = self.entries();
        let n = self.keys.len();
        let mut kept: Vec<Vec<u8>> = Vec::new();
        let mut i: usize = 0;
        while i < n
            invariant
                n == self.keys@.len(),
                self.keys@ == old(self).keys@,
                old_entries == old(self).entries(),
                dict_is_local(self.dict),
                0 <= i <= n,
                forall|k: Seq<u8>| #[trigger] self.entries().contains_key(k)
                    <==> (old_entries.contains_key(k) && !(is_under(k, prefix@) && listed(self.keys@, i as int, k))),
                forall|k: Seq<u8>| #[trigger] self.entries().contains_key(k) ==> self.entries()[k] == old_entries[k],
                forall|j: int| 0 <= j < i && !is_under(#[trigger] self.keys@[j]@, prefix@)
                    && self.entries().contains_key(self.keys@[j]@)
                    ==> listed(kept@, kept@.len() as int, self.keys@[j]@),
            decreases n - i,
        {
            let ghost kept_before = kept@;
            let ghost entries_before = self.entries();
            let under = starts_path(&self.keys[i], prefix);
            if under {
                dict_delete(&mut self.dict, &self.keys[i]);
            } else if dict_exists(&self.dict, &self.keys[i]) {
                kept.push(self.keys[i].clone());
            }
            proof {
                let ki = self.keys@[i as int]@;
                assert forall|k: Seq<u8>| listed(self.keys@, i + 1, k) <==> (listed(self.keys@, i as int, k) || k == ki) by {
                    if k == ki {
                        assert(self.keys@[i as int]@ == k);
                    }
                    if listed(self.keys@, i + 1, k) && k != ki {
                        let j = choose|j: int| 0 <= j < i + 1 && #[trigger] self.keys@[j]@ == k;
                        assert(j < i);
                    }
                }
                assert forall|k: Seq<u8>| #[trigger] self.entries().contains_key(k)
                    <==> (old_entries.contains_key(k) && !(is_under(k, prefix@) && listed(self.keys@, i + 1, k))) by {
                    assert(entries_before.contains_key(k)
                        <==> (old_entries.contains_key(k) && !(is_under(k, prefix@) && listed(self.keys@, i as int, k))));
                }
                assert forall|k: Seq<u8>| #[trigger] self.entries().contains_key(k)
                    implies self.entries()[k] == old_entries[k] by {
                    assert(entries_before.contains_key(k));
                }
                assert forall|j: int| 0 <= j < i + 1 && !is_under(#[trigger] self.keys@[j]@, prefix@)
                    && self.entries().contains_key(self.keys@[j]@)
                    implies listed(kept@, kept@.len() as int, self.keys@[j]@) by {
                    assert(entries_before.contains_key(self.keys@[j]@));
                    if j < i {
                        assert(listed(kept_before, kept_before.len() as int, self.keys@[j]@));
                        let m = choose|m: int| 0 <= m < kept_before.len() && #[trigger] kept_before[m]@ == self.keys@[j]@;
                        assert(kept@[m] == kept_before[m]);
                    } else {
                        assert(kept@[kept@.len() - 1]@ == self.keys@[j]@);
                    }
                }
            }
            i = i + 1;
        }
        let ghost keys0 = self.keys@;
        proof {
            assert forall|k: Seq<u8>| #[trigger] self.entries().contains_key(k)
                implies listed(kept@, kept@.len() as int, k) by {
                assert(old_entries.contains_key(k));
                assert(listed(keys0, n as int, k));
                let j = choose|j: int| 0 <= j < n && #[trigger] keys0[j]@ == k;
                assert(!is_under(keys0[j]@, prefix@));
                assert(self.entries().contains_key(keys0[j]@));
            }
            assert forall|k: Seq<u8>| #[trigger] self.entries().contains_key(k)
                implies old_entries.contains_key(k) && self.entries()[k] == old_entries[k] by {
            }
        }
        let ghost entries_after = self.entries();
        self.keys = kept;
        proof {
            assert(self.entries() == entries_after);
            assert forall|k: Seq<u8>| #[trigger] self.entries().contains_key(k)
                implies self.entries()[k] == le_bytes(le_value(self.entries()[k])) by {
                assert(old_entries.contains_key(k));
                assert(old(self).entries().contains_key(k));
            }
            assert forall|k: Seq<u8>| #[trigger] self@.contains_key(k)
                <==> (old(self)@.contains_key(k) && !is_under(k, prefix@)) by {
                if old_entries.contains_key(k) && is_under(k, prefix@) {
                    assert(listed(keys0, n as int, k));
                    assert(self.entries().contains_key(k) == false);
                }
            }
        }
    }
}

} // verus!
