use lib::kernel::SovereignBoot;
use lib::net::virtio_net::{awp_magic, VirtioNet, AWP_FRAME_HDR, AWP_MAGIC};
use lib::net::wireguard_stub::{unwrap, wrap};
use lib::net::{loopback_test, send, AwpLite};

#[test]
fn send_nonzero_with_valid_inputs() {
    assert_ne!(send(1, 1), 0);
}

#[test]
fn send_zero_with_zero_node_id() {
    assert_eq!(send(0, 1), 0);
}

#[test]
fn send_zero_with_zero_version() {
    assert_eq!(send(1, 0), 0);
}

#[test]
fn send_mixes_node_and_version() {
    assert_eq!(send(1, 1), 1 ^ (1u64 << 32) ^ 0xA4E0_4153_0000_0001);
    assert_eq!(send(0xA4E0_4152_0000_0001, 1), 0xA4E0_4153_0000_0001);
    assert_ne!(send(u64::MAX, u32::MAX), 0);
}

#[test]
fn loopback_test_passes() {
    let mut net = VirtioNet::new();
    assert!(loopback_test(&mut net));
}

#[test]
fn awp_handshake_is_live() {
    assert!(AwpLite::new().handshake());
}

#[test]
fn awp_lite_handshake_matches_loopback() {
    let mut net = VirtioNet::new();
    assert_eq!(AwpLite::new().handshake(), loopback_test(&mut net));
}

#[test]
fn awp_magic_is_correct() {
    assert_eq!(&AWP_MAGIC, b"AIEONYX\0");
    assert_eq!(&awp_magic(), b"AIEONYX\0");
}

#[test]
fn awp_frame_hdr_size() {
    assert_eq!(AWP_FRAME_HDR, 24);
}

#[test]
fn virtio_net_init_returns_false_on_host() {
    // Without a device found, the transmit path is not live.
    assert!(!VirtioNet::new().is_live());
}

#[test]
fn send_awp_frame_returns_false_when_not_live() {
    let mut net = VirtioNet::new();
    assert!(!net.send_awp_frame(0x4153, b"sovereign"));
}

#[test]
fn frames_sent_starts_at_zero() {
    assert_eq!(VirtioNet::new().frames_sent(), 0);
}

#[test]
fn live_link_sends_framed_payload() {
    let mut net = VirtioNet::new();
    net.attach(0x0a00_3a00, 0x4b02_0000, 0x4b02_0100);
    assert!(net.is_live());
    assert!(net.send_awp_frame(0x4153, b"sovereign"));
    assert_eq!(net.frames_sent(), 1);
    let f = net.frame_bytes();
    assert_eq!(&f[0..8], b"AIEONYX\0");
    assert_eq!(&f[8..16], &0x4153u64.to_le_bytes());
    assert_eq!(&f[16..20], &1u32.to_le_bytes());
    assert_eq!(&f[20..24], &9u32.to_le_bytes());
    assert_eq!(&f[24..], b"sovereign");
    assert_eq!(net.notify_register(), 0x0a00_3a00 + 0x050);
    assert!(loopback_test(&mut net));
    assert_eq!(net.frames_sent(), 2);
    assert_eq!(&net.frame_bytes()[24..], b"AWP:loopback");
}

#[test]
fn wrap_unwrap_roundtrip() {
    assert_eq!(unwrap(wrap(0x4153)), 0x4153);
}

#[test]
fn handshake_on_live_nic_transmits() {
    let mut idle = VirtioNet::new();
    assert!(AwpLite::new().handshake_on(&mut idle));
    assert_eq!(idle.frames_sent(), 0);
    let mut net = VirtioNet::new();
    net.attach(0x0a00_3a00, 0x4b02_0000, 0x4b02_0100);
    assert!(AwpLite::new().handshake_on(&mut net));
    assert_eq!(net.frames_sent(), 1);
    assert_eq!(&net.frame_bytes()[8..16], &1u64.to_le_bytes());
    assert_eq!(&net.frame_bytes()[24..], b"AWP:loopback");
}
