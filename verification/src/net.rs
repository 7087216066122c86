//! AWP-lite: the sovereign socket layer, its frame transmitter and the
//! WireGuard envelope.
use vstd::prelude::*;
use crate::kernel::{SovereignBoot, AXON_PROOF};

pub mod virtio_net;
pub mod wireguard_stub;

verus! {

/// The AWP-lite protection domain.
pub struct AwpLite;

impl AwpLite {
    pub fn new() -> (a: Self) {
        AwpLite
    }
}

/// The seed mixed into every AWP tag.
pub const AWP_TAG_SEED: u64 = 0xA4E0_4153_0000_0001;

/// Node id and version mixed with the seed.
pub open spec fn awp_mix(node_id: u64, version: u32) -> u64 {
    node_id ^ ((version as u64) << 32u64) ^ AWP_TAG_SEED
}

/// The confirmation tag `send` derives from a node id and a version: 0 for an
/// invalid input (a zero node id or version); otherwise the mix, or the seed
/// itself where the mix cancels to 0, so that a valid input never gets 0.
pub open spec fn awp_tag(node_id: u64, version: u32) -> u64 {
    if node_id == 0 || version == 0 {
        0
    } else if awp_mix(node_id, version) != 0 {
        awp_mix(node_id, version)
    } else {
        AWP_TAG_SEED
    }
}

/// Socket-layer check: a non-zero tag mixed from `node_id` and `version` when
/// both are valid (non-zero), 0 otherwise.
pub fn send(node_id: u64, version: u32) -> (tag: u64)
    ensures
        tag == awp_tag(node_id, version),
        tag != 0 <==> (node_id != 0 && version != 0),
{
    if node_id == 0 || version == 0 {
        return 0;
    }
    let v = version as u64;
    let mix = node_id ^ (v << 32u64) ^ AWP_TAG_SEED;
    if mix != 0 {
        mix
    } else {
        AWP_TAG_SEED
    }
}

/// The tag of node 1, version 1 is not zero.
pub proof fn lemma_loopback_tag_nonzero()
    ensures
        awp_tag(1, 1) != 0,
{
    assert(1u64 ^ (1u64 << 32u64) ^ 0xA4E0_4153_0000_0001u64 != 0) by (bit_vector);
    assert(awp_mix(1, 1) == 1u64 ^ (1u64 << 32u64) ^ 0xA4E0_4153_0000_0001u64);
}

/// The loopback check: with a live link it transmits a loopback frame from
/// node 1; without one it checks the tag of node 1, version 1.
pub fn loopback_test(net: &mut virtio_net::VirtioNet) -> (r: bool)
    requires
        old(net).wf(),
    ensures
        final(net).wf(),
        r,
        !old(net).live() ==> *final(net) == *old(net),
        old(net).live() ==> virtio_net::VirtioNet::sent_rel(
            old(net),
            final(net),
            1,
            crate::bytes::ascii_bytes("AWP:loopback"@),
        ),
{
    if net.is_live() {
        proof {
            reveal_strlit("AWP:loopback");
        }
        net.send_awp_frame(1, crate::bytes::lit("AWP:loopback"))
    } else {
        proof {
            lemma_loopback_tag_nonzero();
        }
        let tag = send(1, 1);
        tag != 0
    }
}

impl AwpLite {
    /// The handshake over the NIC `net`: the loopback check, which transmits
    /// a loopback frame from node 1 when the link is live.
    pub fn handshake_on(&self, net: &mut virtio_net::VirtioNet) -> (r: bool)
        requires
            old(net).wf(),
        ensures
            final(net).wf(),
            r,
            !old(net).live() ==> *final(net) == *old(net),
            old(net).live() ==> virtio_net::VirtioNet::sent_rel(
                old(net),
                final(net),
                1,
                crate::bytes::ascii_bytes("AWP:loopback"@),
            ),
    {
        loopback_test(net)
    }
}

impl SovereignBoot for AwpLite {
    open spec fn live(&self) -> bool {
        true
    }

    /// Live when the socket layer's tag check passes: the loopback check
    /// with no NIC at hand (see `handshake_on` for the check over a NIC).
    fn handshake(&self) -> (r: bool)
        ensures
            r == (awp_tag(1, 1) != 0),
            r,
    {
        proof {
            lemma_loopback_tag_nonzero();
        }
        send(1, 1) != 0
    }

    fn proof_value(&self) -> (r: u32)
        ensures
            r == AXON_PROOF,
    {
        AXON_PROOF
    }
}


impl Default for AwpLite {
    fn default() -> (d: Self)
        ensures
            d == AwpLite,
    {
        Self::new()
    }
}

} // verus!
