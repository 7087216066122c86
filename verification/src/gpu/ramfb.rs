//! The QEMU ramfb display: the configuration record and the fw_cfg DMA
//! request that hand the framebuffer to the host, and the verdict on the
//! request's completion word.
use vstd::prelude::*;

verus! {

pub const FW_CFG_DMA_CTL_ERROR: u32 = 0x01;
pub const FW_CFG_DMA_CTL_SELECT: u32 = 0x08;
pub const FW_CFG_DMA_CTL_WRITE: u32 = 0x10;
pub const FW_CFG_RAMFB_KEY: u16 = 0x0025;
/// DRM fourcc `XR24`.
pub const FORMAT_XR24: u32 = 0x3432_5258;
/// Where the configuration record and the DMA request are placed.
pub const RAMFB_CFG_ADDR: u64 = 0x4B00_8000;
pub const RAMFB_DMA_ADDR: u64 = 0x4B00_8020;
/// The size of the configuration record.
pub const RAMFB_CFG_LEN: u32 = 28;
/// How many non-final completion words are tolerated before giving up.
pub const MAX_TRIES: u32 = 1_000_000;

/// `x` as four big-endian bytes.
pub open spec fn be32_bytes(x: u32) -> Seq<u8> {
    seq![
        (x / 0x100_0000) as u8,
        ((x / 0x1_0000) % 0x100) as u8,
        ((x / 0x100) % 0x100) as u8,
        (x % 0x100) as u8,
    ]
}

/// `x` as eight big-endian bytes.
pub open spec fn be64_bytes(x: u64) -> Seq<u8> {
    be32_bytes((x / 0x1_0000_0000) as u32) + be32_bytes((x % 0x1_0000_0000) as u32)
}

fn push_be32(out: &mut Vec<u8>, x: u32)
    ensures
        final(out)@ == old(out)@ + be32_bytes(x),
{
    out.push((x / 0x100_0000) as u8);
    out.push(((x / 0x1_0000) % 0x100) as u8);
    out.push(((x / 0x100) % 0x100) as u8);
    out.push((x % 0x100) as u8);
    assert(out@ =~= old(out)@ + be32_bytes(x));
}

fn push_be64(out: &mut Vec<u8>, x: u64)
    ensures
        final(out)@ == old(out)@ + be64_bytes(x),
{
    push_be32(out, (x / 0x1_0000_0000) as u32);
    push_be32(out, (x % 0x1_0000_0000) as u32);
    assert(out@ =~= old(out)@ + be64_bytes(x));
}

/// The ramfb configuration record: framebuffer address, format, flags 0,
/// width, height and stride (4 bytes a pixel), all big-endian.
pub open spec fn spec_cfg(fb_addr: u64, width: u32, height: u32) -> Seq<u8> {
    be64_bytes(fb_addr) + be32_bytes(FORMAT_XR24) + be32_bytes(0) + be32_bytes(width) + be32_bytes(height)
        + be32_bytes((width * 4) as u32)
}

/// The configuration record for a `width` x `height` framebuffer at `fb_addr`.
pub fn ramfb_cfg(fb_addr: u64, width: u32, height: u32) -> (cfg: Vec<u8>)
    requires
        width * 4 <= u32::MAX,
    ensures
        cfg@ == spec_cfg(fb_addr, width, height),
        cfg@.len() == RAMFB_CFG_LEN,
{
    let mut cfg: Vec<u8> = Vec::new();
    push_be64(&mut cfg, fb_addr);
    push_be32(&mut cfg, FORMAT_XR24);
    push_be32(&mut cfg, 0);
    push_be32(&mut cfg, width);
    push_be32(&mut cfg, height);
    push_be32(&mut cfg, width * 4);
    cfg
}

/// The control word of the request: select the ramfb item and write to it.
pub open spec fn spec_dma_control() -> u32 {
    0x0025_0018
}

/// The fw_cfg DMA request: control word, length of the record and the
/// record's address, all big-endian.
pub open spec fn spec_dma_request() -> Seq<u8> {
    be32_bytes(spec_dma_control()) + be32_bytes(RAMFB_CFG_LEN) + be64_bytes(RAMFB_CFG_ADDR)
}

/// The fw_cfg DMA request that writes the configuration record.
pub fn fw_cfg_dma_request() -> (req: Vec<u8>)
    ensures
        req@ == spec_dma_request(),
        req@.len() == 16,
{
    let control: u32 = ((FW_CFG_RAMFB_KEY as u32) << 16u32) | FW_CFG_DMA_CTL_SELECT | FW_CFG_DMA_CTL_WRITE;
    assert(control == 0x0025_0018) by (bit_vector)
        requires
            control == ((0x0025u16 as u32) << 16u32) | 0x08u32 | 0x10u32,
    ;
    let mut req: Vec<u8> = Vec::new();
    push_be32(&mut req, control);
    push_be32(&mut req, RAMFB_CFG_LEN);
    push_be64(&mut req, RAMFB_CFG_ADDR);
    req
}

/// Where waiting for the request stands.
#[derive(Clone, Copy, PartialEq, Eq, Debug, Structural)]
pub enum DmaPoll {
    /// The host reported an error, or gave no answer in time.
    Failed,
    /// The request completed.
    Done,
    /// Not yet: read the completion word again.
    Again,
}

/// The verdict on a completion word `ctl` (in host order) read after `tries`
/// earlier non-final reads; and the new count.
pub fn dma_poll(ctl: u32, tries: u32) -> (r: (DmaPoll, u32))
    requires
        tries <= MAX_TRIES,
    ensures
        ctl % 2 == 1 ==> r == (DmaPoll::Failed, tries),
        ctl == 0 ==> r == (DmaPoll::Done, tries),
        ctl % 2 == 0 && ctl != 0 ==> r.1 == tries + 1 && r.0 == if tries + 1 > MAX_TRIES {
            DmaPoll::Failed
        } else {
            DmaPoll::Again
        },
{
    assert(ctl & FW_CFG_DMA_CTL_ERROR == ctl % 2) by (bit_vector);
    if ctl & FW_CFG_DMA_CTL_ERROR != 0 {
        return (DmaPoll::Failed, tries);
    }
    if ctl == 0 {
        return (DmaPoll::Done, tries);
    }
    let t = tries + 1;
    if t > MAX_TRIES {
        (DmaPoll::Failed, t)
    } else {
        (DmaPoll::Again, t)
    }
}

} // verus!
