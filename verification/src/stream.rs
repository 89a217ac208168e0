//! The screen stream: how the length-prefixed H.264 packets from the phone
//! are framed, and which decoded frames are shown.

use vstd::prelude::*;

verus! {

/// Largest packet accepted; a larger length means the stream is corrupt.
pub const MAX_PACKET: usize = 20_000_000;

/// What to do after reading a packet header.
#[derive(PartialEq, Eq, Structural, Debug)]
pub enum PacketStep {
    /// An empty packet: read the next header.
    Skip,
    /// A corrupt length: close the connection.
    Stop,
    /// Read a packet of this many bytes.
    Read(usize),
}

/// A header's 4 bytes read as a big-endian `u32`.
pub open spec fn be_u32(h: Seq<u8>) -> nat {
    (h[0] as nat) * 16777216 + (h[1] as nat) * 65536 + (h[2] as nat) * 256 + (h[3] as nat)
}

pub open spec fn packet_step_of(h: Seq<u8>) -> PacketStep {
    let n = be_u32(h);
    if n == 0 {
        PacketStep::Skip
    } else if n > 20_000_000 {
        PacketStep::Stop
    } else {
        PacketStep::Read(n as usize)
    }
}

/// What a packet header announces.
pub fn packet_step(header: [u8; 4]) -> (r: PacketStep)
    ensures
        r == packet_step_of(header@),
{
    let size: u32 = (header[0] as u32) * 16777216 + (header[1] as u32) * 65536 + (header[2] as u32)
        * 256 + (header[3] as u32);
    let n = size as usize;
    if n == 0 {
        PacketStep::Skip
    } else if n > MAX_PACKET {
        PacketStep::Stop
    } else {
        PacketStep::Read(n)
    }
}

/// Whether a decoded frame of `len` bytes is an RGBA picture of `w`×`h`.
pub fn frame_fits(len: usize, w: usize, h: usize) -> (r: bool)
    ensures
        r == (len as int == w as int * h as int * 4),
{
    let wl = w as u128;
    let hl = h as u128;
    assert(wl * hl <= 0xffff_ffff_ffff_ffffu128 * 0xffff_ffff_ffff_ffffu128) by (nonlinear_arith)
        requires
            wl <= 0xffff_ffff_ffff_ffffu128,
            hl <= 0xffff_ffff_ffff_ffffu128,
    ;
    let prod: u128 = wl * hl;
    if prod > len as u128 {
        return false;
    }
    len as u128 == prod * 4
}

/// The size of an RGBA picture of `w`×`h`, when it fits in memory sizes.
pub fn rgba_len(w: usize, h: usize) -> (r: Option<usize>)
    ensures
        match r {
            Some(n) => n as int == w as int * h as int * 4,
            None => w as int * h as int * 4 > usize::MAX,
        },
{
    match w.checked_mul(h) {
        Some(p) => p.checked_mul(4),
        None => {
            assert(w as int * h as int * 4 > usize::MAX) by (nonlinear_arith)
                requires
                    w as int * h as int > usize::MAX,
            ;
            None
        },
    }
}

/// The newest of the frames received since the last look; the older ones
/// are dropped.
pub fn latest_frame(frames: Vec<Vec<u8>>) -> (r: Option<Vec<u8>>)
    ensures
        match r {
            Some(f) => frames@.len() > 0 && f == frames@.last(),
            None => frames@.len() == 0,
        },
{
    let mut frames = frames;
    frames.pop()
}

} // verus!
