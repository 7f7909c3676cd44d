//! What holds of the state views across calls, stated over the paths that
//! the accessors return and the leaf values that the store holds.
use vstd::prelude::*;
use crate::proxy::{lemma_sub_path_injective, lemma_sub_path_under};
use crate::state::{
    all_allowances_path, allowance_path, allowances_for_agent_path, balance_path, balances_path, supply_path,
};
use crate::state::{STATE_ALL_ALLOWANCES, STATE_BALANCES, STATE_SUPPLY};
use crate::store::{is_under, Store};
use vstd::string::{is_ascii, is_ascii_spec_bytes};

verus! {

/// Navigation is pure: asking the balances or allowances for the same agents
/// twice gives the same path both times. No accessor takes the store, so
/// none can change it.
pub proof fn lemma_navigation_deterministic(a1: Seq<u8>, a2: Seq<u8>, b1: Seq<u8>, b2: Seq<u8>)
    requires
        a1 == a2,
        b1 == b2,
    ensures
        balance_path(a1) == balance_path(a2),
        allowance_path(a1, b1) == allowance_path(a2, b2),
{
}

/// A fresh store reads zero for the supply and for every balance and allowance.
pub proof fn lemma_fresh_state_reads_zero(s: Store)
    requires
        s@ == Map::<Seq<u8>, u64>::empty(),
    ensures
        s.leaf(supply_path()) == 0,
        forall|a: Seq<u8>| #[trigger] s.leaf(balance_path(a)) == 0,
        forall|a: Seq<u8>, b: Seq<u8>| #[trigger] s.leaf(allowance_path(a, b)) == 0,
{
}

/// After the supply is written, it reads back the written value, through the
/// read-write facade and through any read-only one, which share its path.
pub proof fn lemma_supply_write_then_read(s: Store, t: Store, v: u64)
    requires
        t@ == s@.insert(supply_path(), v),
    ensures
        t.leaf(supply_path()) == v,
{
}

/// A balance written through the read-write facade reads back the written
/// value through a read-only facade over the same root.
pub proof fn lemma_balance_write_then_read(s: Store, t: Store, a: Seq<u8>, v: u64)
    requires
        t@ == s@.insert(balance_path(a), v),
    ensures
        t.leaf(balance_path(a)) == v,
{
}

/// Writing the balance of one agent leaves the balance of every other agent
/// as it was.
pub proof fn lemma_balances_independent(s: Store, t: Store, a: Seq<u8>, b: Seq<u8>, v: u64)
    requires
        a != b,
        t@ == s@.insert(balance_path(a), v),
    ensures
        t.leaf(balance_path(b)) == s.leaf(balance_path(b)),
{
    lemma_sub_path_injective(balances_path(), a, b);
}

/// Once the allowances are cleared, every owner-spender pair reads zero,
/// whatever was written before.
pub proof fn lemma_cleared_allowances_read_zero(s: Store, t: Store)
    requires
        forall|k: Seq<u8>| #[trigger] t@.contains_key(k)
            <==> (s@.contains_key(k) && !is_under(k, all_allowances_path())),
    ensures
        forall|a: Seq<u8>, b: Seq<u8>| #[trigger] t.leaf(allowance_path(a, b)) == 0,
{
    assert forall|a: Seq<u8>, b: Seq<u8>| #[trigger] t.leaf(allowance_path(a, b)) == 0 by {
        let q = all_allowances_path();
        lemma_sub_path_under(q, a, q);
        lemma_sub_path_under(allowances_for_agent_path(a), b, q);
        assert(!t@.contains_key(allowance_path(a, b)));
    }
}

/// The three state keys start with different bytes.
pub proof fn lemma_state_keys_differ()
    ensures
        supply_path().len() == 6 && supply_path()[0] == 0x73,
        balances_path().len() == 8 && balances_path()[0] == 0x62,
        all_allowances_path().len() == 14 && all_allowances_path()[0] == 0x61,
{
    reveal_strlit("supply");
    reveal_strlit("balances");
    reveal_strlit("all_allowances");
    assert(is_ascii(STATE_SUPPLY));
    assert(is_ascii(STATE_BALANCES));
    assert(is_ascii(STATE_ALL_ALLOWANCES));
    is_ascii_spec_bytes(STATE_SUPPLY);
    is_ascii_spec_bytes(STATE_BALANCES);
    is_ascii_spec_bytes(STATE_ALL_ALLOWANCES);
}

/// Clearing the allowances leaves the supply and every balance as they were.
pub proof fn lemma_clear_keeps_supply_and_balances(s: Store, t: Store)
    requires
        forall|k: Seq<u8>| #[trigger] t@.contains_key(k)
            <==> (s@.contains_key(k) && !is_under(k, all_allowances_path())),
        forall|k: Seq<u8>| #[trigger] t@.contains_key(k) ==> t@[k] == s@[k],
    ensures
        t.leaf(supply_path()) == s.leaf(supply_path()),
        forall|a: Seq<u8>| #[trigger] t.leaf(balance_path(a)) == s.leaf(balance_path(a)),
{
    lemma_state_keys_differ();
    let q = all_allowances_path();
    assert(!is_under(supply_path(), q));
    assert(t@.contains_key(supply_path()) == s@.contains_key(supply_path()));
    assert forall|a: Seq<u8>| #[trigger] t.leaf(balance_path(a)) == s.leaf(balance_path(a)) by {
        let k = balance_path(a);
        assert(k[0] == 0x62);
        if q.len() < k.len() {
            assert(k.subrange(0, q.len() as int)[0] == k[0]);
        }
        assert(!is_under(k, q));
        assert(t@.contains_key(k) == s@.contains_key(k));
    }
}

} // verus!
