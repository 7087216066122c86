//! The WireGuard envelope around an AWP packet.
use vstd::prelude::*;

verus! {

pub struct WgEnvelope {
    pub inner: u64,
}

pub open spec fn spec_wrap(packet: u64) -> WgEnvelope {
    WgEnvelope { inner: packet }
}

pub open spec fn spec_unwrap(env: WgEnvelope) -> u64 {
    env.inner
}

/// Wraps a packet.
pub fn wrap(packet: u64) -> (e: WgEnvelope)
    ensures
        e == spec_wrap(packet),
{
    WgEnvelope { inner: packet }
}

/// The wrapped packet.
pub fn unwrap(env: WgEnvelope) -> (p: u64)
    ensures
        p == spec_unwrap(env),
{
    env.inner
}

/// Unwrapping a wrapped packet gives the packet back.
pub proof fn lemma_wrap_unwrap(packet: u64)
    ensures
        spec_unwrap(spec_wrap(packet)) == packet,
{
}

} // verus!
