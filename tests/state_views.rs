use erc20_state::codec::AgentID;
use erc20_state::proxy::Proxy;
use erc20_state::state::{MutableErc20State, STATE_ALL_ALLOWANCES, STATE_BALANCES, STATE_SUPPLY};
use erc20_state::store::Store;
use wasmlib::{address_from_bytes, ScAgentID, ScHname};

fn contract_agent(hname: u32) -> AgentID {
    AgentID::from_bytes(ScAgentID::new(&address_from_bytes(&[]), ScHname(hname)).to_bytes())
}

fn alice() -> AgentID {
    contract_agent(1)
}

fn bob() -> AgentID {
    contract_agent(2)
}

fn carol() -> AgentID {
    contract_agent(3)
}

fn fresh() -> (Store, MutableErc20State) {
    (Store::new(), MutableErc20State::new(Proxy::nil()))
}

#[test]
fn navigation_gives_same_location_twice() {
    let (mut store, m) = fresh();
    let first = m.balances().get_uint64(&alice());
    let second = m.balances().get_uint64(&alice());
    assert!(!first.has_value(&store));
    first.set_value(&mut store, 11);
    assert_eq!(second.value(&store), 11);
    assert!(!m.balances().get_uint64(&bob()).has_value(&store));
}

#[test]
fn fresh_state_reads_zero() {
    let (store, m) = fresh();
    let s = m.as_immutable();
    assert_eq!(s.supply().value(&store), 0);
    assert_eq!(s.balances().get_uint64(&alice()).value(&store), 0);
    assert_eq!(s.balances().get_uint64(&bob()).value(&store), 0);
    assert_eq!(s.all_allowances().get_allowances_for_agent(&alice()).get_uint64(&bob()).value(&store), 0);
    assert!(!m.supply().has_value(&store));
}

#[test]
fn supply_write_then_read() {
    let (mut store, m) = fresh();
    m.supply().set_value(&mut store, 42);
    assert_eq!(m.supply().value(&store), 42);
    assert_eq!(m.as_immutable().supply().value(&store), 42);
}

#[test]
fn balances_are_independent() {
    let (mut store, m) = fresh();
    m.balances().get_uint64(&bob()).set_value(&mut store, 5);
    m.balances().get_uint64(&alice()).set_value(&mut store, 9);
    assert_eq!(m.balances().get_uint64(&bob()).value(&store), 5);
    assert_eq!(m.balances().get_uint64(&alice()).value(&store), 9);
}

#[test]
fn balance_written_mutably_reads_immutably() {
    let (mut store, m) = fresh();
    m.balances().get_uint64(&alice()).set_value(&mut store, 123);
    let s = m.as_immutable();
    assert_eq!(s.balances().get_uint64(&alice()).value(&store), 123);
}

#[test]
fn clear_makes_allowances_read_zero() {
    let (mut store, m) = fresh();
    let owner = m.all_allowances().get_allowances_for_agent(&bob());
    owner.get_uint64(&carol()).set_value(&mut store, 3);
    let before = owner.get_uint64(&carol()).value(&store);
    assert_eq!(before, 3);
    m.all_allowances().clear(&mut store);
    assert_eq!(owner.get_uint64(&carol()).value(&store), 0);
    assert!(!owner.get_uint64(&carol()).has_value(&store));
}

#[test]
fn scenario_supply_round_trip() {
    let (mut store, m) = fresh();
    m.supply().set_value(&mut store, 1_000_000);
    assert_eq!(m.as_immutable().supply().value(&store), 1_000_000);
}

#[test]
fn scenario_two_account_balances() {
    let (mut store, m) = fresh();
    m.balances().get_uint64(&alice()).set_value(&mut store, 40);
    m.balances().get_uint64(&bob()).set_value(&mut store, 60);
    let s = m.as_immutable();
    assert_eq!(s.balances().get_uint64(&alice()).value(&store), 40);
    assert_eq!(s.balances().get_uint64(&bob()).value(&store), 60);
    assert_eq!(s.balances().get_uint64(&carol()).value(&store), 0);
}

#[test]
fn scenario_nested_allowances() {
    let (mut store, m) = fresh();
    m.all_allowances().get_allowances_for_agent(&alice()).get_uint64(&bob()).set_value(&mut store, 25);
    let s = m.as_immutable();
    assert_eq!(s.all_allowances().get_allowances_for_agent(&alice()).get_uint64(&bob()).value(&store), 25);
    assert_eq!(s.all_allowances().get_allowances_for_agent(&bob()).get_uint64(&alice()).value(&store), 0);
}

#[test]
fn scenario_demotion_view() {
    let (mut store, m) = fresh();
    let s = m.as_immutable();
    m.supply().set_value(&mut store, 7);
    assert_eq!(s.supply().value(&store), 7);
}

#[test]
fn scenario_clear() {
    let (mut store, m) = fresh();
    let of_alice = m.all_allowances().get_allowances_for_agent(&alice());
    of_alice.get_uint64(&bob()).set_value(&mut store, 25);
    of_alice.get_uint64(&carol()).set_value(&mut store, 9);
    m.supply().set_value(&mut store, 100);
    m.balances().get_uint64(&alice()).set_value(&mut store, 50);
    m.all_allowances().clear(&mut store);
    assert_eq!(of_alice.get_uint64(&bob()).value(&store), 0);
    assert_eq!(of_alice.get_uint64(&carol()).value(&store), 0);
    assert_eq!(m.supply().value(&store), 100);
    assert_eq!(m.balances().get_uint64(&alice()).value(&store), 50);
}

#[test]
fn scenario_key_encoding_determinism() {
    let first = contract_agent(0x0102_0304);
    let second = contract_agent(0x0102_0305);
    assert_ne!(first.to_bytes(), second.to_bytes());
    let (mut store, m) = fresh();
    m.balances().get_uint64(&first).set_value(&mut store, 1);
    m.balances().get_uint64(&second).set_value(&mut store, 2);
    assert_eq!(m.balances().get_uint64(&first).value(&store), 1);
    assert_eq!(m.balances().get_uint64(&second).value(&store), 2);
}

#[test]
fn agent_encoding_is_canonical() {
    let bytes = contract_agent(0x0a0b_0c0d).to_bytes();
    let mut expected = vec![2u8];
    expected.extend(vec![0u8; 32]);
    expected.extend(vec![0x0d, 0x0c, 0x0b, 0x0a]);
    assert_eq!(bytes, expected);
    assert_eq!(AgentID::from_bytes(expected.clone()).to_bytes(), expected);
}

#[test]
fn root_paths_are_the_state_key_names() {
    let p = Proxy::nil();
    assert_eq!(p.root(STATE_SUPPLY).to_bytes(), b"supply".to_vec());
    assert_eq!(p.root(STATE_BALANCES).to_bytes(), b"balances".to_vec());
    assert_eq!(p.root(STATE_ALL_ALLOWANCES).to_bytes(), b"all_allowances".to_vec());
    assert_eq!(p.key(&vec![7, 8]).root(STATE_SUPPLY).to_bytes(), b"supply".to_vec());
}

#[test]
fn key_extends_path_with_separator() {
    let p = Proxy::nil();
    assert_eq!(p.key(&vec![1, 2]).to_bytes(), vec![1, 2]);
    let q = p.root("balances").key(&vec![1, 2]).key(&vec![3]);
    assert_eq!(q.to_bytes(), b"balances.\x01\x02.\x03".to_vec());
    assert_eq!(p.root("").to_bytes(), Vec::<u8>::new());
}

#[test]
fn zero_is_stored_like_any_value() {
    let (mut store, m) = fresh();
    m.supply().set_value(&mut store, 0);
    assert!(m.supply().has_value(&store));
    assert_eq!(m.supply().value(&store), 0);
}

#[test]
fn extreme_values_round_trip() {
    let (mut store, m) = fresh();
    m.supply().set_value(&mut store, u64::MAX);
    assert_eq!(m.supply().value(&store), u64::MAX);
    m.supply().set_value(&mut store, 0x0102_0304_0506_0708);
    assert_eq!(m.supply().value(&store), 0x0102_0304_0506_0708);
    m.supply().set_value(&mut store, 1);
    assert_eq!(m.supply().value(&store), 1);
}

#[test]
fn overwrite_replaces_value() {
    let (mut store, m) = fresh();
    let leaf = m.balances().get_uint64(&alice());
    leaf.set_value(&mut store, 10);
    leaf.set_value(&mut store, 20);
    assert_eq!(leaf.value(&store), 20);
}

#[test]
fn delete_makes_leaf_read_zero() {
    let (mut store, m) = fresh();
    m.supply().set_value(&mut store, 8);
    m.supply().delete(&mut store);
    assert!(!m.supply().has_value(&store));
    assert_eq!(m.supply().value(&store), 0);
}

#[test]
fn clear_of_one_owner_keeps_other_owners() {
    let (mut store, m) = fresh();
    m.all_allowances().get_allowances_for_agent(&alice()).get_uint64(&bob()).set_value(&mut store, 4);
    m.all_allowances().get_allowances_for_agent(&bob()).get_uint64(&alice()).set_value(&mut store, 6);
    m.all_allowances().get_allowances_for_agent(&alice()).clear(&mut store);
    assert_eq!(m.all_allowances().get_allowances_for_agent(&alice()).get_uint64(&bob()).value(&store), 0);
    assert_eq!(m.all_allowances().get_allowances_for_agent(&bob()).get_uint64(&alice()).value(&store), 6);
}

#[test]
fn clear_then_write_again() {
    let (mut store, m) = fresh();
    let leaf = m.all_allowances().get_allowances_for_agent(&alice()).get_uint64(&bob());
    leaf.set_value(&mut store, 25);
    m.all_allowances().clear(&mut store);
    leaf.set_value(&mut store, 30);
    assert_eq!(leaf.value(&store), 30);
    m.all_allowances().clear(&mut store);
    assert_eq!(leaf.value(&store), 0);
    assert!(!leaf.has_value(&store));
}
