//! Sample buffers for the test-traffic sender: packing 16-bit linear
//! samples into little-endian wire bytes, mono or interleaved stereo
//! with an optional channel swap.

use vstd::prelude::*;

verus! {

/// The 16-bit two's-complement bit pattern of a sample, as an integer.
pub open spec fn spec_i16_bits(s: i16) -> int {
    if s >= 0 {
        s as int
    } else {
        s as int + 0x10000
    }
}

/// Low (first) little-endian byte of a sample.
pub open spec fn spec_le_lo(s: i16) -> u8 {
    (spec_i16_bits(s) % 256) as u8
}

/// High (second) little-endian byte of a sample.
pub open spec fn spec_le_hi(s: i16) -> u8 {
    (spec_i16_bits(s) / 256) as u8
}

/// Byte `j` of a mono 16-bit little-endian sample buffer.
pub open spec fn spec_mono_byte(samples: Seq<i16>, j: int) -> u8 {
    if j % 2 == 0 {
        spec_le_lo(samples[j / 2])
    } else {
        spec_le_hi(samples[j / 2])
    }
}

/// Byte `j` of an interleaved stereo 16-bit little-endian buffer; with
/// `swapped` set the channels trade places in each sample pair.
pub open spec fn spec_stereo_byte(left: Seq<i16>, right: Seq<i16>, swapped: bool, j: int) -> u8 {
    let i = j / 4;
    let a = if swapped {
        right[i]
    } else {
        left[i]
    };
    let b = if swapped {
        left[i]
    } else {
        right[i]
    };
    if j % 4 == 0 {
        spec_le_lo(a)
    } else if j % 4 == 1 {
        spec_le_hi(a)
    } else if j % 4 == 2 {
        spec_le_lo(b)
    } else {
        spec_le_hi(b)
    }
}

/// Appends one sample's two little-endian bytes.
fn push_sample_le(out: &mut Vec<u8>, s: i16)
    ensures
        final(out)@ =~= old(out)@ + seq![spec_le_lo(s), spec_le_hi(s)],
{
    let bits: u16 = if s >= 0 {
        s as u16
    } else {
        ((s as i32) + 0x10000) as u16
    };
    out.push((bits % 256) as u8);
    out.push((bits / 256) as u8);
}

/// Packs mono samples as consecutive 16-bit little-endian values.
pub fn pack_samples_le(samples: &Vec<i16>) -> (r: Vec<u8>)
    ensures
        r@.len() == 2 * samples@.len(),
        forall|j: int| 0 <= j < r@.len() ==> r@[j] == spec_mono_byte(samples@, j),
{
    let mut out: Vec<u8> = Vec::new();
    let mut k: usize = 0;
    while k < samples.len()
        invariant
            k <= samples@.len(),
            out@.len() == 2 * k,
            forall|j: int| 0 <= j < out@.len() ==> out@[j] == spec_mono_byte(samples@, j),
        decreases samples@.len() - k,
    {
        push_sample_le(&mut out, samples[k]);
        assert forall|j: int| 0 <= j < out@.len() implies out@[j] == spec_mono_byte(
            samples@,
            j,
        ) by {
            if j >= 2 * k {
                assert(j / 2 == k as int);
            }
        }
        k = k + 1;
    }
    out
}

/// Interleaves two equally long channels as 16-bit little-endian pairs;
/// with `swapped` set the channels trade places in each pair.
pub fn interleave_stereo_le(left: &Vec<i16>, right: &Vec<i16>, swapped: bool) -> (r: Vec<u8>)
    requires
        left@.len() == right@.len(),
    ensures
        r@.len() == 4 * left@.len(),
        forall|j: int|
            0 <= j < r@.len() ==> r@[j] == spec_stereo_byte(left@, right@, swapped, j),
{
    let mut out: Vec<u8> = Vec::new();
    let mut k: usize = 0;
    while k < left.len()
        invariant
            k <= left@.len(),
            left@.len() == right@.len(),
            out@.len() == 4 * k,
            forall|j: int|
                0 <= j < out@.len() ==> out@[j] == spec_stereo_byte(left@, right@, swapped, j),
        decreases left@.len() - k,
    {
        let (a, b) = if swapped {
            (right[k], left[k])
        } else {
            (left[k], right[k])
        };
        push_sample_le(&mut out, a);
        push_sample_le(&mut out, b);
        assert forall|j: int| 0 <= j < out@.len() implies out@[j] == spec_stereo_byte(
            left@,
            right@,
            swapped,
            j,
        ) by {
            if j >= 4 * k {
                assert(j / 4 == k as int);
            }
        }
        k = k + 1;
    }
    out
}

/// Loading audio from a file is not provided: every call reports an
/// empty sample buffer, and callers fall back to generated tone audio.
pub fn load_audio_file(_path: &str) -> (r: Result<Vec<u8>, ()>)
    ensures
        r matches Ok(v) && v@.len() == 0,
{
    Ok(Vec::new())
}

} // verus!
