//! G.711 mu-law companding.
//!
//! The encoder follows the canonical standard derivation: the sample
//! magnitude is clipped, biased, split into a segment (the position of its
//! leading bit above the bias) and a four-bit mantissa, and the assembled
//! byte is complemented.

use vstd::prelude::*;

verus! {

/// Segment of a biased magnitude, the index of the first segment end
/// (0xFF, 0x1FF, ... 0x7FFF) that is not below it.
pub open spec fn spec_ulaw_segment(mag: int) -> int {
    if mag <= 0xFF {
        0
    } else if mag <= 0x1FF {
        1
    } else if mag <= 0x3FF {
        2
    } else if mag <= 0x7FF {
        3
    } else if mag <= 0xFFF {
        4
    } else if mag <= 0x1FFF {
        5
    } else if mag <= 0x3FFF {
        6
    } else {
        7
    }
}

/// The divisor that stands for the mantissa shift of a segment:
/// two to the power of (segment + 3).
pub open spec fn spec_ulaw_divisor(seg: int) -> int {
    if seg == 0 {
        8
    } else if seg == 1 {
        16
    } else if seg == 2 {
        32
    } else if seg == 3 {
        64
    } else if seg == 4 {
        128
    } else if seg == 5 {
        256
    } else if seg == 6 {
        512
    } else {
        1024
    }
}

/// The canonical G.711 mu-law encoding of a 16-bit linear sample:
/// clip the magnitude to 32635, add the bias 132, take the segment and the
/// four mantissa bits below it, and complement the assembled byte.
pub open spec fn spec_linear_to_ulaw(sample: i16) -> u8 {
    let sign: int = if sample < 0 {
        0x80
    } else {
        0
    };
    let raw: int = if sample < 0 {
        -(sample as int)
    } else {
        sample as int
    };
    let clipped: int = if raw > 32635 {
        32635
    } else {
        raw
    };
    let mag: int = clipped + 132;
    let seg: int = spec_ulaw_segment(mag);
    let mantissa: int = (mag / spec_ulaw_divisor(seg)) % 16;
    (255 - (sign + seg * 16 + mantissa)) as u8
}

/// Encodes one 16-bit linear sample as a G.711 mu-law byte.
pub fn linear_to_ulaw(sample: i16) -> (r: u8)
    ensures
        r == spec_linear_to_ulaw(sample),
{
    let sign: i32 = if sample < 0 {
        0x80
    } else {
        0
    };
    let mut magnitude: i32 = sample as i32;
    if magnitude < 0 {
        magnitude = -magnitude;
    }
    if magnitude > 32635 {
        magnitude = 32635;
    }
    magnitude = magnitude + 132;
    let seg: i32 = if magnitude <= 0xFF {
        0
    } else if magnitude <= 0x1FF {
        1
    } else if magnitude <= 0x3FF {
        2
    } else if magnitude <= 0x7FF {
        3
    } else if magnitude <= 0xFFF {
        4
    } else if magnitude <= 0x1FFF {
        5
    } else if magnitude <= 0x3FFF {
        6
    } else {
        7
    };
    let divisor: i32 = if seg == 0 {
        8
    } else if seg == 1 {
        16
    } else if seg == 2 {
        32
    } else if seg == 3 {
        64
    } else if seg == 4 {
        128
    } else if seg == 5 {
        256
    } else if seg == 6 {
        512
    } else {
        1024
    };
    let mantissa: i32 = (magnitude / divisor) % 16;
    (255 - (sign + seg * 16 + mantissa)) as u8
}

/// Encodes a buffer of 16-bit linear samples as G.711 mu-law bytes,
/// one byte per sample, in order.
pub fn encode_ulaw_payload(samples: &Vec<i16>) -> (r: Vec<u8>)
    ensures
        r@.len() == samples@.len(),
        forall|i: int|
            0 <= i < samples@.len() ==> r@[i] == spec_linear_to_ulaw(samples@[i]),
{
    let mut out: Vec<u8> = Vec::new();
    let mut k: usize = 0;
    while k < samples.len()
        invariant
            k <= samples@.len(),
            out@.len() == k,
            forall|i: int| 0 <= i < k ==> out@[i] == spec_linear_to_ulaw(samples@[i]),
        decreases samples@.len() - k,
    {
        out.push(linear_to_ulaw(samples[k]));
        k = k + 1;
    }
    out
}

} // verus!
