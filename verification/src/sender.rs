//! The test-traffic sender's decision logic.
//!
//! Each tick one packet is built from the sender's running header state.
//! Depending on the configured probabilities and the rolls drawn for the
//! tick, the packet is dropped, held back one slot to be flushed after
//! its successor (single-slot reordering), or sent; the sequence number
//! and media timestamp then advance.  The caller owns the socket and the
//! clock and performs what this module decides.

use vstd::prelude::*;

use crate::packet::{
    encode_packet, spec_encode, RtpHeader, RtpPacket, RtpPacketModel,
};
use crate::registry::{spec_expected_next, spec_saturating_inc};

verus! {

/// Fixed configuration of a sending session.
pub struct SenderConfig {
    pub payload_type: u8,
    /// Packet-loss probability, in percent.
    pub packet_loss: u8,
    /// Single-slot reordering probability, in percent.
    pub out_of_order: u8,
    /// Tick interval, in milliseconds.
    pub interval_ms: u64,
    /// Swap audio channels after this many seconds; 0 disables it.
    pub swap_channels_after: u64,
}

/// Running state of a sending session.
pub struct SenderState {
    pub ssrc: u32,
    pub sequence_number: u16,
    pub timestamp: u32,
    /// The packet held back for single-slot reordering, if any.
    pub buffered: Option<Vec<u8>>,
    /// Counters; each saturates at its maximum.
    pub packets_sent: u64,
    pub packets_dropped: u64,
    pub packets_reordered: u64,
}

/// The packet a sender in this state emits for a payload.
pub open spec fn spec_sender_packet_model(
    config: SenderConfig,
    state: SenderState,
    payload: Seq<u8>,
) -> RtpPacketModel {
    RtpPacketModel {
        version: 2,
        padding: false,
        extension: false,
        marker: false,
        payload_type: config.payload_type,
        sequence_number: state.sequence_number,
        timestamp: state.timestamp,
        ssrc: state.ssrc,
        csrc: Seq::empty(),
        extension_profile: 0,
        extension_data: Seq::empty(),
        payload,
    }
}

/// Whether this tick's packet is dropped.
pub open spec fn spec_should_drop(config: SenderConfig, loss_roll: u8) -> bool {
    config.packet_loss > 0 && loss_roll < config.packet_loss
}

/// Whether this tick's packet is held back for reordering.
pub open spec fn spec_should_hold(config: SenderConfig, reorder_roll: u8) -> bool {
    config.out_of_order > 0 && reorder_roll < config.out_of_order
}

/// The media-timestamp step for one tick: the sample count scaled by the
/// tick interval, truncated to the 32-bit timestamp space.
pub open spec fn spec_timestamp_step(samples_per_packet: int, interval_ms: int) -> int {
    (samples_per_packet * interval_ms / 20) % 0x100000000
}

/// Whether the channels should be swapped now: a configured swap period
/// has fully elapsed since the last swap.
pub fn should_swap_channels(swap_channels_after: u64, elapsed_secs: u64) -> (r: bool)
    ensures
        r == (swap_channels_after > 0 && elapsed_secs >= swap_channels_after),
{
    swap_channels_after > 0 && elapsed_secs >= swap_channels_after
}

impl SenderState {
    /// One tick of the sending session: builds the packet for the given
    /// payload, decides its fate from the two rolls, and advances the
    /// sequence number and timestamp.  The returned datagrams are to be
    /// sent in order.
    pub fn step(
        &mut self,
        config: &SenderConfig,
        payload: Vec<u8>,
        samples_per_packet: usize,
        loss_roll: u8,
        reorder_roll: u8,
    ) -> (send: Vec<Vec<u8>>)
        requires
            config.payload_type < 128,
        ensures
            final(self).ssrc == old(self).ssrc,
            final(self).sequence_number == spec_expected_next(old(self).sequence_number),
            final(self).timestamp as int == (old(self).timestamp + spec_timestamp_step(
                samples_per_packet as int,
                config.interval_ms as int,
            )) % 0x100000000,
            ({
                let wire = spec_encode(spec_sender_packet_model(*config, *old(self), payload@));
                &&& (spec_should_drop(*config, loss_roll) ==> {
                    &&& send@.len() == 0
                    &&& final(self).buffered == old(self).buffered
                    &&& final(self).packets_sent == old(self).packets_sent
                    &&& final(self).packets_dropped == spec_saturating_inc(
                        old(self).packets_dropped,
                    )
                    &&& final(self).packets_reordered == old(self).packets_reordered
                })
                &&& (!spec_should_drop(*config, loss_roll) && spec_should_hold(
                    *config,
                    reorder_roll,
                ) ==> {
                    &&& final(self).buffered matches Some(b) && b@ == wire
                    &&& final(self).packets_sent == old(self).packets_sent
                    &&& final(self).packets_dropped == old(self).packets_dropped
                    &&& (old(self).buffered matches Some(b0) ==> send@.len() == 1 && send@[0]@
                        == b0@ && final(self).packets_reordered == spec_saturating_inc(
                        old(self).packets_reordered,
                    ))
                    &&& (old(self).buffered is None ==> send@.len() == 0 && final(self).packets_reordered == old(self).packets_reordered)
                })
                &&& (!spec_should_drop(*config, loss_roll) && !spec_should_hold(
                    *config,
                    reorder_roll,
                ) ==> {
                    &&& final(self).buffered is None
                    &&& final(self).packets_sent == spec_saturating_inc(old(self).packets_sent)
                    &&& final(self).packets_dropped == old(self).packets_dropped
                    &&& (old(self).buffered matches Some(b0) ==> send@.len() == 2 && send@[0]@
                        == wire && send@[1]@ == b0@ && final(self).packets_reordered
                        == spec_saturating_inc(old(self).packets_reordered))
                    &&& (old(self).buffered is None ==> send@.len() == 1 && send@[0]@ == wire
                        && final(self).packets_reordered == old(self).packets_reordered)
                })
            }),
    {
        let packet = RtpPacket {
            header: RtpHeader {
                version: 2,
                padding: false,
                extension: false,
                marker: false,
                payload_type: config.payload_type,
                sequence_number: self.sequence_number,
                timestamp: self.timestamp,
                ssrc: self.ssrc,
                csrc: Vec::new(),
                extension_profile: 0,
                extension_data: Vec::new(),
            },
            payload,
        };
        proof {
            assert(packet@ =~= spec_sender_packet_model(*config, *old(self), packet.payload@));
        }
        let wire = encode_packet(&packet);

        let mut send: Vec<Vec<u8>> = Vec::new();
        if config.packet_loss > 0 && loss_roll < config.packet_loss {
            if self.packets_dropped < u64::MAX {
                self.packets_dropped = self.packets_dropped + 1;
            }
        } else if config.out_of_order > 0 && reorder_roll < config.out_of_order {
            match self.buffered.take() {
                Some(earlier) => {
                    send.push(earlier);
                    if self.packets_reordered < u64::MAX {
                        self.packets_reordered = self.packets_reordered + 1;
                    }
                },
                None => {},
            }
            self.buffered = Some(wire);
        } else {
            send.push(wire);
            if self.packets_sent < u64::MAX {
                self.packets_sent = self.packets_sent + 1;
            }
            match self.buffered.take() {
                Some(earlier) => {
                    send.push(earlier);
                    if self.packets_reordered < u64::MAX {
                        self.packets_reordered = self.packets_reordered + 1;
                    }
                },
                None => {},
            }
        }

        self.sequence_number = if self.sequence_number == 0xFFFF {
            0
        } else {
            self.sequence_number + 1
        };
        proof {
            let a = samples_per_packet as int;
            let b = config.interval_ms as int;
            assert(a * b <= (u64::MAX as int) * (u64::MAX as int)) by (nonlinear_arith)
                requires
                    0 <= a <= u64::MAX as int,
                    0 <= b <= u64::MAX as int,
            ;
            assert((u64::MAX as int) * (u64::MAX as int) < u128::MAX as int);
        }
        let step128: u128 = (samples_per_packet as u128) * (config.interval_ms as u128) / 20;
        let delta: u32 = (step128 % 0x100000000) as u32;
        let ts: u64 = self.timestamp as u64 + delta as u64;
        self.timestamp = (ts % 0x100000000) as u32;
        send
    }

    /// Hands out the packet still held back for reordering, if any, to
    /// be sent as the session ends.
    pub fn flush(&mut self) -> (r: Option<Vec<u8>>)
        ensures
            r == old(self).buffered,
            final(self).buffered is None,
            final(self).packets_reordered == if old(self).buffered is Some {
                spec_saturating_inc(old(self).packets_reordered)
            } else {
                old(self).packets_reordered
            },
            final(self).ssrc == old(self).ssrc,
            final(self).sequence_number == old(self).sequence_number,
            final(self).timestamp == old(self).timestamp,
            final(self).packets_sent == old(self).packets_sent,
            final(self).packets_dropped == old(self).packets_dropped,
    {
        let r = self.buffered.take();
        if r.is_some() {
            if self.packets_reordered < u64::MAX {
                self.packets_reordered = self.packets_reordered + 1;
            }
        }
        r
    }
}

} // verus!
