//! The token contract's state: a total supply, balances by agent, and
//! allowances by owner then spender, seen read-only or read-write.
use vstd::prelude::*;
use vstd::string::StringSliceAdditionalSpecFns;
use crate::codec::AgentID;
use crate::proxy::{sub_path, Proxy};
use crate::store::{is_under, Store};
use crate::views::{
    ImmutableAllowancesForAgent, ImmutableUint64, MapAgentIDToImmutableUint64,
    MapAgentIDToMutableUint64, MutableAllowancesForAgent, MutableUint64,
};

verus! {

/// State key of the allowances, by owner then spender.
pub const STATE_ALL_ALLOWANCES: &'static str = "all_allowances";

/// State key of the balances, by agent.
pub const STATE_BALANCES: &'static str = "balances";

/// State key of the total supply.
pub const STATE_SUPPLY: &'static str = "supply";

/// Path of the total supply.
pub open spec fn supply_path() -> Seq<u8> {
    STATE_SUPPLY.spec_bytes()
}

/// Path of the balances map.
pub open spec fn balances_path() -> Seq<u8> {
    STATE_BALANCES.spec_bytes()
}

/// Path of the allowances map.
pub open spec fn all_allowances_path() -> Seq<u8> {
    STATE_ALL_ALLOWANCES.spec_bytes()
}

/// Path of the balance of the agent encoded as `a`.
pub open spec fn balance_path(a: Seq<u8>) -> Seq<u8> {
    sub_path(balances_path(), a)
}

/// Path of the allowances granted by the owner encoded as `owner`.
pub open spec fn allowances_for_agent_path(owner: Seq<u8>) -> Seq<u8> {
    sub_path(all_allowances_path(), owner)
}

/// Path of the amount that `owner` allows `spender` to transfer. Distinct
/// spenders of one owner have distinct paths; two different owner-spender
/// pairs can share a path when their encodings hold the separator `.`.
pub open spec fn allowance_path(owner: Seq<u8>, spender: Seq<u8>) -> Seq<u8> {
    sub_path(allowances_for_agent_path(owner), spender)
}

/// The read-only allowance maps of all owners.
#[derive(Clone)]
pub struct MapAgentIDToImmutableAllowancesForAgent {
    proxy: Proxy,
}

impl View for MapAgentIDToImmutableAllowancesForAgent {
    type V = Seq<u8>;

    closed spec fn view(&self) -> Seq<u8> {
        self.proxy@
    }
}

impl MapAgentIDToImmutableAllowancesForAgent {
    /// The allowances granted by `key`, at this map's path extended by the
    /// key's encoding.
    pub fn get_allowances_for_agent(&self, key: &AgentID) -> (r: ImmutableAllowancesForAgent)
        ensures
            r@ == sub_path(self@, key@),
    {
        MapAgentIDToImmutableUint64::new(self.proxy.key(key.as_bytes()))
    }
}

/// The read-only state facade.
#[derive(Clone)]
pub struct ImmutableErc20State {
    proxy: Proxy,
}

impl View for ImmutableErc20State {
    type V = Seq<u8>;

    /// The state's root path.
    closed spec fn view(&self) -> Seq<u8> {
        self.proxy@
    }
}

impl ImmutableErc20State {
    /// The facade over the state rooted at the path of `proxy`.
    pub fn new(proxy: Proxy) -> (r: ImmutableErc20State)
        ensures
            r@ == proxy@,
    {
        ImmutableErc20State { proxy }
    }

    /// The allowances, by owner then spender.
    pub fn all_allowances(&self) -> (r: MapAgentIDToImmutableAllowancesForAgent)
        ensures
            r@ == all_allowances_path(),
    {
        MapAgentIDToImmutableAllowancesForAgent { proxy: self.proxy.root(STATE_ALL_ALLOWANCES) }
    }

    /// The balances, by agent.
    pub fn balances(&self) -> (r: MapAgentIDToImmutableUint64)
        ensures
            r@ == balances_path(),
    {
        MapAgentIDToImmutableUint64::new(self.proxy.root(STATE_BALANCES))
    }

    /// The total supply.
    pub fn supply(&self) -> (r: ImmutableUint64)
        ensures
            r@ == supply_path(),
    {
        ImmutableUint64::new(self.proxy.root(STATE_SUPPLY))
    }
}

/// The read-write allowance maps of all owners.
#[derive(Clone)]
pub struct MapAgentIDToMutableAllowancesForAgent {
    proxy: Proxy,
}

impl View for MapAgentIDToMutableAllowancesForAgent {
    type V = Seq<u8>;

    closed spec fn view(&self) -> Seq<u8> {
        self.proxy@
    }
}

impl MapAgentIDToMutableAllowancesForAgent {
    /// Removes every allowance of every owner, and whatever else lies at or
    /// below this map's path; the rest of the store is left as it was.
    pub fn clear(&self, store: &mut Store)
        requires
            old(store).wf(),
        ensures
            final(store).wf(),
            forall|k: Seq<u8>| #[trigger] final(store)@.contains_key(k)
                <==> (old(store)@.contains_key(k) && !is_under(k, self@)),
            forall|k: Seq<u8>| #[trigger] final(store)@.contains_key(k) ==> final(store)@[k] == old(store)@[k],
    {
        self.proxy.clear_map(store)
    }

    /// The allowances granted by `key`, at this map's path extended by the
    /// key's encoding.
    pub fn get_allowances_for_agent(&self, key: &AgentID) -> (r: MutableAllowancesForAgent)
        ensures
            r@ == sub_path(self@, key@),
    {
        MapAgentIDToMutableUint64::new(self.proxy.key(key.as_bytes()))
    }
}

/// The read-write state facade.
#[derive(Clone)]
pub struct MutableErc20State {
    proxy: Proxy,
}

impl View for MutableErc20State {
    type V = Seq<u8>;

    /// The state's root path.
    closed spec fn view(&self) -> Seq<u8> {
        self.proxy@
    }
}

impl MutableErc20State {
    /// The facade over the state rooted at the path of `proxy`.
    pub fn new(proxy: Proxy) -> (r: MutableErc20State)
        ensures
            r@ == proxy@,
    {
        MutableErc20State { proxy }
    }

    /// The read-only facade over the same root.
    pub fn as_immutable(&self) -> (r: ImmutableErc20State)
        ensures
            r@ == self@,
    {
        ImmutableErc20State { proxy: self.proxy.copy() }
    }

    /// The allowances, by owner then spender.
    pub fn all_allowances(&self) -> (r: MapAgentIDToMutableAllowancesForAgent)
        ensures
            r@ == all_allowances_path(),
    {
        MapAgentIDToMutableAllowancesForAgent { proxy: self.proxy.root(STATE_ALL_ALLOWANCES) }
    }

    /// The balances, by agent.
    pub fn balances(&self) -> (r: MapAgentIDToMutableUint64)
        ensures
            r@ == balances_path(),
    {
        MapAgentIDToMutableUint64::new(self.proxy.root(STATE_BALANCES))
    }

    /// The total supply.
    pub fn supply(&self) -> (r: MutableUint64)
        ensures
            r@ == supply_path(),
    {
        MutableUint64::new(self.proxy.root(STATE_SUPPLY))
    }
}

} // verus!
