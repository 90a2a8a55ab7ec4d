//! A generic registry for mapping protocol states and packet IDs to values
//! (decoders, handlers, and the like).
//!
//! Two parallel registries share the key space `(state, packet_id)`: one
//! resolves a frame to its decoder, the other to its handler.  Both are
//! built once at startup by successive `register` calls and are thereafter
//! read-only; registering the same key twice is a configuration error and
//! fails loudly rather than overwriting.

use std::collections::HashMap;

use vstd::prelude::*;

use crate::protocol::ProtocolState;
use crate::varint::VarInt;

verus! {

broadcast use vstd::std_specs::hash::group_hash_axioms;

/// Error raised when a `(state, packet_id)` key is registered twice.
#[derive(Debug, Clone, Copy, PartialEq, Eq, Structural)]
pub enum RegistryError {
    /// The key is already registered.
    DuplicateKey,
}

/// A state's position in the protocol flow, used to build registry keys.
pub open spec fn state_ordinal(state: ProtocolState) -> u64 {
    match state {
        ProtocolState::Handshake => 0,
        ProtocolState::Status => 1,
        ProtocolState::Login => 2,
        ProtocolState::Configuration => 3,
        ProtocolState::Play => 4,
    }
}

/// The registry key of a `(state, packet_id)` pair: the state's ordinal in
/// the high 32 bits, the id's bit pattern in the low 32.
pub open spec fn spec_key(state: ProtocolState, id: VarInt) -> u64 {
    (state_ordinal(state) << 32) | ((id.0 as u32) as u64)
}

/// Distinct `(state, packet_id)` pairs get distinct registry keys.
pub proof fn lemma_spec_key_injective(s1: ProtocolState, i1: VarInt, s2: ProtocolState, i2: VarInt)
    requires
        spec_key(s1, i1) == spec_key(s2, i2),
    ensures
        s1 == s2,
        i1 == i2,
{
    let a1 = state_ordinal(s1);
    let a2 = state_ordinal(s2);
    let b1 = (i1.0 as u32) as u64;
    let b2 = (i2.0 as u32) as u64;
    assert(((a1 << 32) | b1) == ((a2 << 32) | b2) ==> a1 == a2 && b1 == b2) by (bit_vector)
        requires
            a1 < 5 && a2 < 5 && b1 < 0x100000000 && b2 < 0x100000000,
    ;
    let x1 = i1.0;
    let x2 = i2.0;
    assert(((x1 as u32) as u64) == ((x2 as u32) as u64) ==> x1 == x2) by (bit_vector);
}

/// Builds the registry key of a `(state, packet_id)` pair.
pub fn make_key(state: ProtocolState, id: VarInt) -> (r: u64)
    ensures
        r == spec_key(state, id),
{
    let ordinal: u64 = match state {
        ProtocolState::Handshake => 0,
        ProtocolState::Status => 1,
        ProtocolState::Login => 2,
        ProtocolState::Configuration => 3,
        ProtocolState::Play => 4,
    };
    (ordinal << 32u64) | ((id.0 as u32) as u64)
}

/// A generic registry for mapping protocol states and packet IDs to values.
/// Its view is the map from registry keys (see `spec_key`) to values.
pub struct ProtocolRegistry<V> {
    inner: HashMap<u64, V>,
}

impl<V> View for ProtocolRegistry<V> {
    type V = Map<u64, V>;

    closed spec fn view(&self) -> Map<u64, V> {
        self.inner@
    }
}

impl<V> Default for ProtocolRegistry<V> {
    /// An empty registry.
    fn default() -> (r: Self)
        ensures
            r@ == Map::<u64, V>::empty(),
    {
        ProtocolRegistry::new()
    }
}

impl<V> ProtocolRegistry<V> {
    /// Creates an empty registry.
    pub fn new() -> (r: Self)
        ensures
            r@ == Map::<u64, V>::empty(),
    {
        ProtocolRegistry { inner: HashMap::new() }
    }

    /// Registers a new combination of protocol state and packet ID to the
    /// provided value.  Registering a key that is already present is a
    /// configuration error: it fails and leaves the registry unchanged.
    pub fn register(&mut self, state: ProtocolState, id: VarInt, value: V) -> (r: Result<
        (),
        RegistryError,
    >)
        ensures
            old(self)@.contains_key(spec_key(state, id)) ==> r is Err && final(self)@ == old(
                self,
            )@,
            !old(self)@.contains_key(spec_key(state, id)) ==> r is Ok && final(self)@ == old(
                self,
            )@.insert(spec_key(state, id), value),
    {
        let key = make_key(state, id);
        if self.inner.contains_key(&key) {
            Err(RegistryError::DuplicateKey)
        } else {
            self.inner.insert(key, value);
            Ok(())
        }
    }

    /// Tries to get the value registered for the protocol state and packet
    /// ID, if one is present.
    pub fn get(&self, state: ProtocolState, id: VarInt) -> (r: Option<&V>)
        ensures
            r is Some <==> self@.contains_key(spec_key(state, id)),
            r matches Some(v) ==> *v == self@[spec_key(state, id)],
    {
        let key = make_key(state, id);
        self.inner.get(&key)
    }

    /// Removes the entry for the protocol state and packet ID, if present.
    pub fn remove(&mut self, state: ProtocolState, id: VarInt)
        ensures
            final(self)@ == old(self)@.remove(spec_key(state, id)),
    {
        let key = make_key(state, id);
        self.inner.remove(&key);
        proof {
            assert(final(self)@ =~= old(self)@.remove(spec_key(state, id)));
        }
    }
}

} // verus!
