//! Typed state views for an ERC20-style token contract.
//!
//! The contract's state lives in a byte-keyed store. This library presents
//! it as a total supply, a map of balances and a two-level map of
//! allowances, each reached through read-only or read-write views.
//!
//! Views hold only a path; reads take the `Store` and writes take it
//! mutably. A `Store` is always an in-memory wasmlib dictionary
//! (`ScDict::new`): the dictionary that forwards to the host's state
//! (`ScDict::state`) cannot be reached through this library.

pub mod codec;
pub mod store;
pub mod proxy;
pub mod views;
pub mod state;
pub mod laws;

pub use codec::AgentID;
pub use proxy::Proxy;
pub use state::{
    ImmutableErc20State, MapAgentIDToImmutableAllowancesForAgent, MapAgentIDToMutableAllowancesForAgent,
    MutableErc20State,
};
pub use store::Store;
pub use views::{
    ImmutableAllowancesForAgent, ImmutableUint64, MapAgentIDToImmutableUint64, MapAgentIDToMutableUint64,
    MutableAllowancesForAgent, MutableUint64,
};
