//! virtio-gpu control commands, field for field as the device reads them.
use vstd::prelude::*;
use crate::kernel::verify::{le32_bytes, le64_bytes};
use crate::kernel::virtio_blk::{push_le32, push_le64};

verus! {

pub const CMD_GET_DISPLAY_INFO: u32 = 0x0100;
pub const CMD_RESOURCE_CREATE_2D: u32 = 0x0101;
pub const CMD_SET_SCANOUT: u32 = 0x0103;
pub const CMD_RESOURCE_FLUSH: u32 = 0x0104;
pub const CMD_TRANSFER_TO_HOST_2D: u32 = 0x0105;
pub const CMD_RESOURCE_ATTACH_BACKING: u32 = 0x0106;
pub const RESP_OK_NODATA: u32 = 0x1100;
pub const FORMAT_B8G8R8X8_UNORM: u32 = 2;

#[derive(Clone, Copy)]
pub struct GpuCtrlHdr {
    pub cmd_type: u32,
    pub flags: u32,
    pub fence_id: u64,
    pub ctx_id: u32,
    pub padding: u32,
}

#[derive(Clone, Copy)]
pub struct GpuResourceCreate2d {
    pub hdr: GpuCtrlHdr,
    pub resource_id: u32,
    pub format: u32,
    pub width: u32,
    pub height: u32,
}

#[derive(Clone, Copy)]
pub struct GpuRect {
    pub x: u32,
    pub y: u32,
    pub width: u32,
    pub height: u32,
}

#[derive(Clone, Copy)]
pub struct GpuSetScanout {
    pub hdr: GpuCtrlHdr,
    pub r: GpuRect,
    pub scanout_id: u32,
    pub resource_id: u32,
}

#[derive(Clone, Copy)]
pub struct GpuResourceFlush {
    pub hdr: GpuCtrlHdr,
    pub r: GpuRect,
    pub resource_id: u32,
    pub padding: u32,
}

#[derive(Clone, Copy)]
pub struct GpuTransferToHost2d {
    pub hdr: GpuCtrlHdr,
    pub r: GpuRect,
    pub offset: u64,
    pub resource_id: u32,
    pub padding: u32,
}

#[derive(Clone, Copy)]
pub struct GpuMemEntry {
    pub addr: u64,
    pub length: u32,
    pub padding: u32,
}

#[derive(Clone, Copy)]
pub struct GpuResourceAttachBacking {
    pub hdr: GpuCtrlHdr,
    pub resource_id: u32,
    pub nr_entries: u32,
    pub entry: GpuMemEntry,
}

#[derive(Clone, Copy)]
pub struct GpuCtrlResp {
    pub hdr: GpuCtrlHdr,
}

/// A header for command `cmd_type`: no flags, no fence, context 0.
pub open spec fn plain_hdr(cmd_type: u32) -> GpuCtrlHdr {
    GpuCtrlHdr { cmd_type, flags: 0, fence_id: 0, ctx_id: 0, padding: 0 }
}

fn hdr(cmd_type: u32) -> (h: GpuCtrlHdr)
    ensures
        h == plain_hdr(cmd_type),
{
    GpuCtrlHdr { cmd_type, flags: 0, fence_id: 0, ctx_id: 0, padding: 0 }
}

/// RESOURCE_CREATE_2D for a `width` x `height` resource.
pub fn resource_create_2d(resource_id: u32, format: u32, width: u32, height: u32) -> (c: GpuResourceCreate2d)
    ensures
        c == (GpuResourceCreate2d { hdr: plain_hdr(CMD_RESOURCE_CREATE_2D), resource_id, format, width, height }),
{
    GpuResourceCreate2d { hdr: hdr(CMD_RESOURCE_CREATE_2D), resource_id, format, width, height }
}

/// RESOURCE_ATTACH_BACKING with one memory entry.
pub fn attach_backing(resource_id: u32, addr: u64, length: u32) -> (c: GpuResourceAttachBacking)
    ensures
        c == (GpuResourceAttachBacking {
            hdr: plain_hdr(CMD_RESOURCE_ATTACH_BACKING),
            resource_id,
            nr_entries: 1,
            entry: GpuMemEntry { addr, length, padding: 0 },
        }),
{
    GpuResourceAttachBacking {
        hdr: hdr(CMD_RESOURCE_ATTACH_BACKING),
        resource_id,
        nr_entries: 1,
        entry: GpuMemEntry { addr, length, padding: 0 },
    }
}

/// SET_SCANOUT covering the whole `width` x `height` resource.
pub fn set_scanout_cmd(scanout_id: u32, resource_id: u32, width: u32, height: u32) -> (c: GpuSetScanout)
    ensures
        c == (GpuSetScanout {
            hdr: plain_hdr(CMD_SET_SCANOUT),
            r: GpuRect { x: 0, y: 0, width, height },
            scanout_id,
            resource_id,
        }),
{
    GpuSetScanout { hdr: hdr(CMD_SET_SCANOUT), r: GpuRect { x: 0, y: 0, width, height }, scanout_id, resource_id }
}

/// TRANSFER_TO_HOST_2D of a rectangle, offset 0.
pub fn transfer_to_host_2d(resource_id: u32, x: u32, y: u32, w: u32, h: u32) -> (c: GpuTransferToHost2d)
    ensures
        c == (GpuTransferToHost2d {
            hdr: plain_hdr(CMD_TRANSFER_TO_HOST_2D),
            r: GpuRect { x, y, width: w, height: h },
            offset: 0,
            resource_id,
            padding: 0,
        }),
{
    GpuTransferToHost2d {
        hdr: hdr(CMD_TRANSFER_TO_HOST_2D),
        r: GpuRect { x, y, width: w, height: h },
        offset: 0,
        resource_id,
        padding: 0,
    }
}

/// RESOURCE_FLUSH of a rectangle.
pub fn resource_flush(resource_id: u32, x: u32, y: u32, w: u32, h: u32) -> (c: GpuResourceFlush)
    ensures
        c == (GpuResourceFlush {
            hdr: plain_hdr(CMD_RESOURCE_FLUSH),
            r: GpuRect { x, y, width: w, height: h },
            resource_id,
            padding: 0,
        }),
{
    GpuResourceFlush { hdr: hdr(CMD_RESOURCE_FLUSH), r: GpuRect { x, y, width: w, height: h }, resource_id, padding: 0 }
}

// ── Wire layout ───────────────────────────────────────────────────────────────
// Each command goes to the device as its fields in order, little-endian,
// with no padding between them.

/// The 24 bytes of a control header.
pub open spec fn hdr_layout(h: GpuCtrlHdr) -> Seq<u8> {
    le32_bytes(h.cmd_type) + le32_bytes(h.flags) + le64_bytes(h.fence_id) + le32_bytes(h.ctx_id)
        + le32_bytes(h.padding)
}

/// The 16 bytes of a rectangle.
pub open spec fn rect_layout(r: GpuRect) -> Seq<u8> {
    le32_bytes(r.x) + le32_bytes(r.y) + le32_bytes(r.width) + le32_bytes(r.height)
}

pub open spec fn create_layout(c: GpuResourceCreate2d) -> Seq<u8> {
    hdr_layout(c.hdr) + le32_bytes(c.resource_id) + le32_bytes(c.format) + le32_bytes(c.width)
        + le32_bytes(c.height)
}

pub open spec fn attach_layout(c: GpuResourceAttachBacking) -> Seq<u8> {
    hdr_layout(c.hdr) + le32_bytes(c.resource_id) + le32_bytes(c.nr_entries) + le64_bytes(c.entry.addr)
        + le32_bytes(c.entry.length) + le32_bytes(c.entry.padding)
}

pub open spec fn scanout_layout(c: GpuSetScanout) -> Seq<u8> {
    hdr_layout(c.hdr) + rect_layout(c.r) + le32_bytes(c.scanout_id) + le32_bytes(c.resource_id)
}

pub open spec fn transfer_layout(c: GpuTransferToHost2d) -> Seq<u8> {
    hdr_layout(c.hdr) + rect_layout(c.r) + le64_bytes(c.offset) + le32_bytes(c.resource_id)
        + le32_bytes(c.padding)
}

pub open spec fn flush_layout(c: GpuResourceFlush) -> Seq<u8> {
    hdr_layout(c.hdr) + rect_layout(c.r) + le32_bytes(c.resource_id) + le32_bytes(c.padding)
}

fn push_hdr(out: &mut Vec<u8>, h: &GpuCtrlHdr)
    ensures
        final(out)@ == old(out)@ + hdr_layout(*h),
{
    push_le32(out, h.cmd_type);
    push_le32(out, h.flags);
    push_le64(out, h.fence_id);
    push_le32(out, h.ctx_id);
    push_le32(out, h.padding);
    assert(out@ =~= old(out)@ + hdr_layout(*h));
}

fn push_rect(out: &mut Vec<u8>, r: &GpuRect)
    ensures
        final(out)@ == old(out)@ + rect_layout(*r),
{
    push_le32(out, r.x);
    push_le32(out, r.y);
    push_le32(out, r.width);
    push_le32(out, r.height);
    assert(out@ =~= old(out)@ + rect_layout(*r));
}

/// The bytes of a control header.
pub fn hdr_bytes(h: &GpuCtrlHdr) -> (v: Vec<u8>)
    ensures
        v@ == hdr_layout(*h),
{
    let mut v: Vec<u8> = Vec::new();
    push_hdr(&mut v, h);
    assert(v@ =~= hdr_layout(*h));
    v
}

/// The bytes of RESOURCE_CREATE_2D.
pub fn create_bytes(c: &GpuResourceCreate2d) -> (v: Vec<u8>)
    ensures
        v@ == create_layout(*c),
{
    let mut v = hdr_bytes(&c.hdr);
    push_le32(&mut v, c.resource_id);
    push_le32(&mut v, c.format);
    push_le32(&mut v, c.width);
    push_le32(&mut v, c.height);
    assert(v@ =~= create_layout(*c));
    v
}

/// The bytes of RESOURCE_ATTACH_BACKING.
pub fn attach_bytes(c: &GpuResourceAttachBacking) -> (v: Vec<u8>)
    ensures
        v@ == attach_layout(*c),
{
    let mut v = hdr_bytes(&c.hdr);
    push_le32(&mut v, c.resource_id);
    push_le32(&mut v, c.nr_entries);
    push_le64(&mut v, c.entry.addr);
    push_le32(&mut v, c.entry.length);
    push_le32(&mut v, c.entry.padding);
    assert(v@ =~= attach_layout(*c));
    v
}

/// The bytes of SET_SCANOUT.
pub fn scanout_bytes(c: &GpuSetScanout) -> (v: Vec<u8>)
    ensures
        v@ == scanout_layout(*c),
{
    let mut v = hdr_bytes(&c.hdr);
    push_rect(&mut v, &c.r);
    push_le32(&mut v, c.scanout_id);
    push_le32(&mut v, c.resource_id);
    assert(v@ =~= scanout_layout(*c));
    v
}

/// The bytes of TRANSFER_TO_HOST_2D.
pub fn transfer_bytes(c: &GpuTransferToHost2d) -> (v: Vec<u8>)
    ensures
        v@ == transfer_layout(*c),
{
    let mut v = hdr_bytes(&c.hdr);
    push_rect(&mut v, &c.r);
    push_le64(&mut v, c.offset);
    push_le32(&mut v, c.resource_id);
    push_le32(&mut v, c.padding);
    assert(v@ =~= transfer_layout(*c));
    v
}

/// The bytes of RESOURCE_FLUSH.
pub fn flush_bytes(c: &GpuResourceFlush) -> (v: Vec<u8>)
    ensures
        v@ == flush_layout(*c),
{
    let mut v = hdr_bytes(&c.hdr);
    push_rect(&mut v, &c.r);
    push_le32(&mut v, c.resource_id);
    push_le32(&mut v, c.padding);
    assert(v@ =~= flush_layout(*c));
    v
}

} // verus!
