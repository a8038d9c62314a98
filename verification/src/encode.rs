//! The encoder settings this sender asks of the H.264 encoder: a fixed
//! bitrate and frame rate, and the two-`u32` packing its frame-size and
//! frame-rate attributes use. Driving the encoder itself is OS work outside
//! this library.

use vstd::prelude::*;

verus! {

/// The encoded stream's bitrate, in bits per second.
pub const DEFAULT_BITRATE_BPS: u32 = 8_000_000;

/// The encoded stream's frame rate, in frames per second.
pub const DEFAULT_FRAME_RATE: u32 = 60;

/// The sample flag that marks a keyframe.
pub const SAMPLE_FLAG_KEYFRAME: u32 = 0x1;

/// One encoded access unit, Annex B framed, ready to be sent as one wire
/// frame.
#[derive(Debug, PartialEq, Eq)]
pub struct EncodedFrame {
    pub data: Vec<u8>,
    pub is_keyframe: bool,
}

/// Packs two `u32`s into one `u64` attribute: `high` in the upper 32 bits,
/// `low` in the lower (width and height, or numerator and denominator).
pub fn pack_u32_pair(high: u32, low: u32) -> (packed: u64)
    ensures
        packed == high as nat * 0x1_0000_0000 + low as nat,
{
    let packed = ((high as u64) << 32u64) | (low as u64);
    assert(((high as u64) << 32u64) | (low as u64) == high as u64 * 0x1_0000_0000u64 + low as u64) by (bit_vector);
    packed
}

/// Whether an encoded sample's flags mark it a keyframe.
pub fn is_keyframe(sample_flags: u32) -> (r: bool)
    ensures
        r == (sample_flags % 2 == 1),
{
    let r = sample_flags & SAMPLE_FLAG_KEYFRAME != 0;
    assert((sample_flags & 1u32 != 0u32) == (sample_flags % 2 == 1)) by (bit_vector);
    r
}

} // verus!
