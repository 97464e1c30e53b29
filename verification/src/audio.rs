//! Audio format descriptors and the payload-format classifier.

use vstd::prelude::*;

use crate::latency::LatencyMetadata;

verus! {

/// One decoded packet's payload together with what was resolved about it.
#[derive(Debug)]
pub struct AudioChunk {
    /// Payload bytes, as carried on the wire.
    pub data: Vec<u8>,
    /// Resolved format descriptor.
    pub format: AudioFormat,
    /// 16-bit wire sequence number, widened for storage.
    pub sequence_number: u32,
    /// 32-bit media timestamp from the packet header.
    pub timestamp: u32,
    /// Latency instrumentation attached to this chunk.
    pub metadata: LatencyMetadata,
}

/// Codec label of a decoded audio payload.
#[derive(Debug, Clone, Copy, PartialEq, Eq, Structural)]
pub enum AudioCodec {
    Opus,
    G711Ulaw,
    G711Alaw,
    G722,
    Pcm,
}

/// Resolved format descriptor of an audio payload.
#[derive(Debug, Clone, Copy, PartialEq, Eq, Structural)]
pub struct AudioFormat {
    pub codec: AudioCodec,
    pub sample_rate: u32,
    pub channels: u8,
    pub bits_per_sample: u8,
}

impl AudioFormat {
    /// Opus, mono, 48 kHz, 16 bits per sample.
    pub fn opus_mono_48khz() -> (r: Self)
        ensures
            r == (AudioFormat {
                codec: AudioCodec::Opus,
                sample_rate: 48000u32,
                channels: 1u8,
                bits_per_sample: 16u8,
            }),
    {
        Self { codec: AudioCodec::Opus, sample_rate: 48000, channels: 1, bits_per_sample: 16 }
    }

    /// G.711 mu-law, mono, 8 kHz, 8 bits per sample.
    pub fn g711_ulaw_mono() -> (r: Self)
        ensures
            r == (AudioFormat {
                codec: AudioCodec::G711Ulaw,
                sample_rate: 8000u32,
                channels: 1u8,
                bits_per_sample: 8u8,
            }),
    {
        Self { codec: AudioCodec::G711Ulaw, sample_rate: 8000, channels: 1, bits_per_sample: 8 }
    }
}

/// The classification table: what format a payload-type code stands for.
///
/// Payload type 0 is G.711 mu-law narrowband telephony audio; 111 is the
/// conventional label for Opus; every other code falls back to generic
/// linear PCM.
pub open spec fn spec_detect_audio_format(payload_type: u8) -> AudioFormat {
    if payload_type == 0 {
        AudioFormat {
            codec: AudioCodec::G711Ulaw,
            sample_rate: 8000u32,
            channels: 1u8,
            bits_per_sample: 8u8,
        }
    } else if payload_type == 111 {
        AudioFormat {
            codec: AudioCodec::Opus,
            sample_rate: 48000u32,
            channels: 1u8,
            bits_per_sample: 16u8,
        }
    } else {
        AudioFormat {
            codec: AudioCodec::Pcm,
            sample_rate: 8000u32,
            channels: 1u8,
            bits_per_sample: 16u8,
        }
    }
}

/// Maps a payload-type code to its audio format descriptor.
pub fn detect_audio_format(payload_type: u8) -> (r: AudioFormat)
    ensures
        r == spec_detect_audio_format(payload_type),
{
    match payload_type {
        0 => AudioFormat::g711_ulaw_mono(),
        111 => AudioFormat::opus_mono_48khz(),
        _ => AudioFormat {
            codec: AudioCodec::Pcm,
            sample_rate: 8000,
            channels: 1,
            bits_per_sample: 16,
        },
    }
}

} // verus!
