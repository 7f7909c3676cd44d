//! Byte encodings used by the state layout: unsigned 64-bit leaves,
//! state key names, and agent identifiers.
use vstd::prelude::*;
use vstd::string::StringSliceAdditionalSpecFns;

verus! {

/// Little-endian bytes of a 64-bit value.
pub open spec fn le_bytes(v: u64) -> Seq<u8> {
    seq![
        v as u8,
        (v >> 8u64) as u8,
        (v >> 16u64) as u8,
        (v >> 24u64) as u8,
        (v >> 32u64) as u8,
        (v >> 40u64) as u8,
        (v >> 48u64) as u8,
        (v >> 56u64) as u8,
    ]
}

/// The value whose little-endian bytes are `s`.
pub open spec fn le_value(s: Seq<u8>) -> u64 {
    choose|v: u64| le_bytes(v) == s
}

/// Two values with the same little-endian bytes are equal.
pub proof fn lemma_le_bytes_injective(a: u64, b: u64)
    requires
        le_bytes(a) == le_bytes(b),
    ensures
        a == b,
{
    let sa = le_bytes(a);
    let sb = le_bytes(b);
    assert(sa[0] == sb[0] && sa[1] == sb[1] && sa[2] == sb[2] && sa[3] == sb[3]);
    assert(sa[4] == sb[4] && sa[5] == sb[5] && sa[6] == sb[6] && sa[7] == sb[7]);
    assert(a == b) by (bit_vector)
        requires
            a as u8 == b as u8,
            (a >> 8u64) as u8 == (b >> 8u64) as u8,
            (a >> 16u64) as u8 == (b >> 16u64) as u8,
            (a >> 24u64) as u8 == (b >> 24u64) as u8,
            (a >> 32u64) as u8 == (b >> 32u64) as u8,
            (a >> 40u64) as u8 == (b >> 40u64) as u8,
            (a >> 48u64) as u8 == (b >> 48u64) as u8,
            (a >> 56u64) as u8 == (b >> 56u64) as u8,
    ;
}

/// Decoding the bytes of a value gives the value back.
pub proof fn lemma_le_value_of_bytes(v: u64)
    ensures
        le_value(le_bytes(v)) == v,
{
    let w = le_value(le_bytes(v));
    assert(le_bytes(w) == le_bytes(v));
    lemma_le_bytes_injective(w, v);
}

/// Relies on wasmlib::uint64_to_bytes: the eight little-endian bytes of `value`.
#[verifier::external_body]
pub(crate) fn uint64_to_bytes(value: u64) -> (r: Vec<u8>)
    ensures
        r@ == le_bytes(value),
{
    wasmlib::uint64_to_bytes(value)
}

/// Relies on wasmlib::uint64_from_bytes: zero for no bytes, else the value
/// whose eight little-endian bytes are given; it panics on other lengths.
#[verifier::external_body]
pub(crate) fn uint64_from_bytes(buf: &Vec<u8>) -> (r: u64)
    requires
        buf@.len() == 0 || buf@.len() == 8,
    ensures
        buf@.len() == 0 ==> r == 0,
        buf@.len() == 8 ==> le_bytes(r) == buf@,
{
    wasmlib::uint64_from_bytes(buf)
}

/// Relies on wasmlib::string_to_bytes: the UTF-8 bytes of `value`.
#[verifier::external_body]
pub(crate) fn string_to_bytes(value: &str) -> (r: Vec<u8>)
    ensures
        r@ == value.spec_bytes(),
{
    wasmlib::string_to_bytes(value)
}

/// An agent identifier, held as its canonical byte encoding (for a wasmlib
/// agent, `AgentID::from_bytes(agent.to_bytes())`). Two agents are the same
/// exactly when their encodings are equal.
///
/// Map paths join encodings with the separator `.`, so an encoding that holds
/// that byte can make two owner-spender pairs share one allowance path: one
/// level of keys is collision-free, two levels need not be.
pub struct AgentID {
    bytes: Vec<u8>,
}

impl View for AgentID {
    type V = Seq<u8>;

    closed spec fn view(&self) -> Seq<u8> {
        self.bytes@
    }
}

impl AgentID {
    /// The identifier whose canonical encoding is `bytes`.
    pub fn from_bytes(bytes: Vec<u8>) -> (r: AgentID)
        ensures
            r@ == bytes@,
    {
        AgentID { bytes }
    }

    /// The canonical encoding, used as a map key.
    pub fn to_bytes(&self) -> (r: Vec<u8>)
        ensures
            r@ == self@,
    {
        self.bytes.clone()
    }

    /// The canonical encoding, borrowed.
    pub fn as_bytes(&self) -> (r: &Vec<u8>)
        ensures
            r@ == self@,
    {
        &self.bytes
    }
}

} // verus!
