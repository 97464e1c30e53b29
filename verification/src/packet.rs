//! The wire format of a real-time transport packet.
//!
//! A packet is a 12-byte fixed header (version, padding / extension /
//! marker flags, contributing-source count, payload type, sequence number,
//! timestamp, synchronization source), an optional contributing-source
//! list, an optional header extension, and the payload bytes.  The decoder
//! rejects anything shorter than the fixed header and any version other
//! than 2; it performs no semantic validation of the payload against the
//! declared codec.

use vstd::prelude::*;

verus! {

/// Why a datagram was rejected by the decoder.
#[derive(Debug, Clone, Copy, PartialEq, Eq, Structural)]
pub enum DecodeError {
    /// Shorter than the 12-byte fixed header.
    HeaderTooShort,
    /// The version field is not 2.
    UnsupportedVersion,
    /// The header announces more contributing sources than the datagram holds.
    TruncatedCsrcList,
    /// The header announces an extension block that the datagram does not hold.
    TruncatedExtension,
    /// The padding flag is set but the trailing padding count is impossible.
    BadPadding,
}

/// Structured header of a decoded packet.
#[derive(Debug, Clone)]
pub struct RtpHeader {
    pub version: u8,
    pub padding: bool,
    pub extension: bool,
    pub marker: bool,
    pub payload_type: u8,
    pub sequence_number: u16,
    pub timestamp: u32,
    pub ssrc: u32,
    pub csrc: Vec<u32>,
    pub extension_profile: u16,
    pub extension_data: Vec<u8>,
}

/// A decoded packet: header plus payload bytes.
#[derive(Debug, Clone)]
pub struct RtpPacket {
    pub header: RtpHeader,
    pub payload: Vec<u8>,
}

/// Mathematical model of a decoded packet.
#[verifier::ext_equal]
pub struct RtpPacketModel {
    pub version: u8,
    pub padding: bool,
    pub extension: bool,
    pub marker: bool,
    pub payload_type: u8,
    pub sequence_number: u16,
    pub timestamp: u32,
    pub ssrc: u32,
    pub csrc: Seq<u32>,
    pub extension_profile: u16,
    pub extension_data: Seq<u8>,
    pub payload: Seq<u8>,
}

impl View for RtpPacket {
    type V = RtpPacketModel;

    open spec fn view(&self) -> RtpPacketModel {
        RtpPacketModel {
            version: self.header.version,
            padding: self.header.padding,
            extension: self.header.extension,
            marker: self.header.marker,
            payload_type: self.header.payload_type,
            sequence_number: self.header.sequence_number,
            timestamp: self.header.timestamp,
            ssrc: self.header.ssrc,
            csrc: self.header.csrc@,
            extension_profile: self.header.extension_profile,
            extension_data: self.header.extension_data@,
            payload: self.payload@,
        }
    }
}

/// Big-endian 16-bit value at byte offset `i`.
pub open spec fn spec_be16(data: Seq<u8>, i: int) -> int {
    (data[i] as int) * 256 + (data[i + 1] as int)
}

/// Big-endian 32-bit value at byte offset `i`.
pub open spec fn spec_be32(data: Seq<u8>, i: int) -> int {
    (data[i] as int) * 0x1000000 + (data[i + 1] as int) * 0x10000 + (data[i + 2] as int) * 256
        + (data[i + 3] as int)
}

/// Contributing-source count: the low four bits of the first byte.
pub open spec fn spec_cc(data: Seq<u8>) -> int {
    (data[0] as int) % 16
}

/// Padding flag: bit 5 of the first byte.
pub open spec fn spec_has_padding(data: Seq<u8>) -> bool {
    ((data[0] as int) / 32) % 2 == 1
}

/// Extension flag: bit 4 of the first byte.
pub open spec fn spec_has_extension(data: Seq<u8>) -> bool {
    ((data[0] as int) / 16) % 2 == 1
}

/// Length of the fixed header and the contributing-source list.
pub open spec fn spec_header_len(data: Seq<u8>) -> int {
    12 + 4 * spec_cc(data)
}

/// Offset of the first payload byte: past the contributing sources and,
/// when the extension flag is set, past the extension block, whose length
/// field counts 32-bit words.
pub open spec fn spec_payload_start(data: Seq<u8>) -> int {
    if spec_has_extension(data) {
        spec_header_len(data) + 4 + 4 * spec_be16(data, spec_header_len(data) + 2)
    } else {
        spec_header_len(data)
    }
}

/// The bytes after the header and extension, padding not yet removed.
pub open spec fn spec_payload_region(data: Seq<u8>) -> Seq<u8> {
    data.subrange(spec_payload_start(data), data.len() as int)
}

/// The payload bytes: the region after the header, with the trailing
/// padding bytes removed when the padding flag is set.
pub open spec fn spec_payload(data: Seq<u8>) -> Seq<u8> {
    let region = spec_payload_region(data);
    if spec_has_padding(data) {
        region.take(region.len() - (region.last() as int))
    } else {
        region
    }
}

/// The model a well-formed datagram decodes to.
pub open spec fn spec_model(data: Seq<u8>) -> RtpPacketModel {
    RtpPacketModel {
        version: ((data[0] as int) / 64) as u8,
        padding: spec_has_padding(data),
        extension: spec_has_extension(data),
        marker: (data[1] as int) / 128 == 1,
        payload_type: ((data[1] as int) % 128) as u8,
        sequence_number: spec_be16(data, 2) as u16,
        timestamp: spec_be32(data, 4) as u32,
        ssrc: spec_be32(data, 8) as u32,
        csrc: Seq::new(spec_cc(data) as nat, |i: int| spec_be32(data, 12 + 4 * i) as u32),
        extension_profile: if spec_has_extension(data) {
            spec_be16(data, spec_header_len(data)) as u16
        } else {
            0
        },
        extension_data: if spec_has_extension(data) {
            data.subrange(spec_header_len(data) + 4, spec_payload_start(data))
        } else {
            Seq::empty()
        },
        payload: spec_payload(data),
    }
}

/// What decoding a byte sequence yields: the model of the packet, or the
/// first reason the datagram is rejected.
pub open spec fn spec_decode(data: Seq<u8>) -> Result<RtpPacketModel, DecodeError> {
    if data.len() < 12 {
        Err(DecodeError::HeaderTooShort)
    } else if (data[0] as int) / 64 != 2 {
        Err(DecodeError::UnsupportedVersion)
    } else if data.len() < spec_header_len(data) {
        Err(DecodeError::TruncatedCsrcList)
    } else if spec_has_extension(data) && data.len() < spec_header_len(data) + 4 {
        Err(DecodeError::TruncatedExtension)
    } else if spec_has_extension(data) && data.len() < spec_payload_start(data) {
        Err(DecodeError::TruncatedExtension)
    } else if spec_has_padding(data) && spec_payload_region(data).len() == 0 {
        Err(DecodeError::BadPadding)
    } else if spec_has_padding(data) && (spec_payload_region(data).last() as int)
        > spec_payload_region(data).len() {
        Err(DecodeError::BadPadding)
    } else {
        Ok(spec_model(data))
    }
}

/// Any input shorter than the fixed header is rejected, whatever it holds.
pub proof fn lemma_short_input_rejected(data: Seq<u8>)
    requires
        data.len() < 12,
    ensures
        spec_decode(data) == Err::<RtpPacketModel, DecodeError>(DecodeError::HeaderTooShort),
{
}

/// Parses a raw datagram into a structured header plus payload.
pub fn decode_packet(data: &[u8]) -> (r: Result<RtpPacket, DecodeError>)
    ensures
        match r {
            Ok(p) => spec_decode(data@) is Ok && p@ == spec_decode(data@)->Ok_0,
            Err(e) => spec_decode(data@) is Err && e == spec_decode(data@)->Err_0,
        },
{
    let len = data.len();
    if len < 12 {
        return Err(DecodeError::HeaderTooShort);
    }
    let b0 = data[0];
    let b1 = data[1];
    if b0 / 64 != 2 {
        return Err(DecodeError::UnsupportedVersion);
    }
    let cc: usize = (b0 % 16) as usize;
    let header_len: usize = 12 + 4 * cc;
    if len < header_len {
        return Err(DecodeError::TruncatedCsrcList);
    }
    let has_padding = (b0 / 32) % 2 == 1;
    let has_extension = (b0 / 16) % 2 == 1;
    let marker = b1 / 128 == 1;
    let payload_type = b1 % 128;
    let sequence_number: u16 = (data[2] as u16) * 256 + (data[3] as u16);
    let timestamp: u32 = (data[4] as u32) * 0x1000000 + (data[5] as u32) * 0x10000 + (data[6]
        as u32) * 256 + (data[7] as u32);
    let ssrc: u32 = (data[8] as u32) * 0x1000000 + (data[9] as u32) * 0x10000 + (data[10] as u32)
        * 256 + (data[11] as u32);

    let mut csrc: Vec<u32> = Vec::new();
    let mut i: usize = 0;
    while i < cc
        invariant
            i <= cc,
            cc <= 15,
            len == data@.len(),
            len >= header_len,
            header_len == 12 + 4 * cc,
            csrc@.len() == i,
            forall|k: int| 0 <= k < i ==> csrc@[k] == spec_be32(data@, 12 + 4 * k) as u32,
        decreases cc - i,
    {
        let off: usize = 12 + 4 * i;
        let word: u32 = (data[off] as u32) * 0x1000000 + (data[off + 1] as u32) * 0x10000 + (
        data[off + 2] as u32) * 256 + (data[off + 3] as u32);
        csrc.push(word);
        i = i + 1;
    }

    let mut extension_profile: u16 = 0;
    let mut extension_data: Vec<u8> = Vec::new();
    let mut payload_start: usize = header_len;
    if has_extension {
        if len < header_len + 4 {
            return Err(DecodeError::TruncatedExtension);
        }
        extension_profile = (data[header_len] as u16) * 256 + (data[header_len + 1] as u16);
        let ext_words: usize = (data[header_len + 2] as usize) * 256 + (data[header_len + 3]
            as usize);
        let ext_len: usize = 4 * ext_words;
        assert(spec_payload_start(data@) == header_len + 4 + ext_len);
        if len - header_len - 4 < ext_len {
            return Err(DecodeError::TruncatedExtension);
        }
        payload_start = header_len + 4 + ext_len;
        let mut j: usize = 0;
        while j < ext_len
            invariant
                j <= ext_len,
                len == data@.len(),
                len >= header_len + 4 + ext_len,
                extension_data@.len() == j,
                forall|k: int| 0 <= k < j ==> extension_data@[k] == data@[header_len + 4 + k],
            decreases ext_len - j,
        {
            extension_data.push(data[header_len + 4 + j]);
            j = j + 1;
        }
    }

    let region_len: usize = len - payload_start;
    let payload: Vec<u8>;
    if has_padding {
        if region_len == 0 {
            return Err(DecodeError::BadPadding);
        }
        let pad: usize = data[len - 1] as usize;
        assert(data@[len - 1] == spec_payload_region(data@).last());
        if pad > region_len {
            return Err(DecodeError::BadPadding);
        }
        payload = vstd::slice::slice_to_vec(
            vstd::slice::slice_subrange(data, payload_start, len - pad),
        );
        assert(payload@ =~= spec_payload(data@));
    } else {
        payload = vstd::slice::slice_to_vec(vstd::slice::slice_subrange(data, payload_start, len));
        assert(payload@ =~= spec_payload(data@));
    }

    let packet = RtpPacket {
        header: RtpHeader {
            version: 2,
            padding: has_padding,
            extension: has_extension,
            marker,
            payload_type,
            sequence_number,
            timestamp,
            ssrc,
            csrc,
            extension_profile,
            extension_data,
        },
        payload,
    };
    proof {
        assert(packet@.csrc =~= spec_model(data@).csrc);
        assert(packet@.extension_data =~= spec_model(data@).extension_data);
        assert(packet@ =~= spec_model(data@));
    }
    Ok(packet)
}

/// Big-endian byte `k` (0 or 1) of a 16-bit value.
pub open spec fn spec_u16_byte(v: u16, k: int) -> u8 {
    if k == 0 {
        ((v as int) / 256) as u8
    } else {
        ((v as int) % 256) as u8
    }
}

/// Big-endian byte `k` (0 to 3) of a 32-bit value.
pub open spec fn spec_u32_byte(v: u32, k: int) -> u8 {
    if k == 0 {
        ((v as int) / 0x1000000) as u8
    } else if k == 1 {
        (((v as int) / 0x10000) % 256) as u8
    } else if k == 2 {
        (((v as int) / 256) % 256) as u8
    } else {
        ((v as int) % 256) as u8
    }
}

/// The contributing-source list on the wire: each entry as four
/// big-endian bytes, in order.
pub open spec fn spec_csrc_bytes(csrc: Seq<u32>) -> Seq<u8> {
    Seq::new((4 * csrc.len()) as nat, |j: int| spec_u32_byte(csrc[j / 4], j % 4))
}

/// The first twelve bytes of an encoded packet.
pub open spec fn spec_fixed_header_bytes(m: RtpPacketModel) -> Seq<u8> {
    seq![
        (128 + (if m.padding {
            32int
        } else {
            0int
        }) + (if m.extension {
            16int
        } else {
            0int
        }) + m.csrc.len() as int) as u8,
        ((if m.marker {
            128int
        } else {
            0int
        }) + m.payload_type as int) as u8,
        spec_u16_byte(m.sequence_number, 0),
        spec_u16_byte(m.sequence_number, 1),
        spec_u32_byte(m.timestamp, 0),
        spec_u32_byte(m.timestamp, 1),
        spec_u32_byte(m.timestamp, 2),
        spec_u32_byte(m.timestamp, 3),
        spec_u32_byte(m.ssrc, 0),
        spec_u32_byte(m.ssrc, 1),
        spec_u32_byte(m.ssrc, 2),
        spec_u32_byte(m.ssrc, 3),
    ]
}

/// The extension block on the wire: profile, length in 32-bit words,
/// then the extension bytes; empty when the extension flag is clear.
pub open spec fn spec_extension_bytes(m: RtpPacketModel) -> Seq<u8> {
    if m.extension {
        seq![
            spec_u16_byte(m.extension_profile, 0),
            spec_u16_byte(m.extension_profile, 1),
            spec_u16_byte((m.extension_data.len() / 4) as u16, 0),
            spec_u16_byte((m.extension_data.len() / 4) as u16, 1),
        ] + m.extension_data
    } else {
        Seq::empty()
    }
}

/// The full wire image of a packet model.
pub open spec fn spec_encode(m: RtpPacketModel) -> Seq<u8> {
    spec_fixed_header_bytes(m) + spec_csrc_bytes(m.csrc) + spec_extension_bytes(m) + m.payload
}

/// A model the encoder can turn into bytes: version 2, no trailing
/// padding, a payload type that fits its seven-bit field, at most 15
/// contributing sources, and an extension block of whole 32-bit words
/// whose word count fits its 16-bit field.
pub open spec fn spec_encodable(m: RtpPacketModel) -> bool {
    &&& m.version == 2
    &&& !m.padding
    &&& m.payload_type < 128
    &&& m.csrc.len() <= 15
    &&& (m.extension ==> m.extension_data.len() % 4 == 0 && m.extension_data.len() / 4 <= 0xFFFF)
    &&& (!m.extension ==> m.extension_data.len() == 0 && m.extension_profile == 0)
}

/// The two big-endian bytes of a 16-bit value recompose to it.
proof fn lemma_u16_bytes_roundtrip(v: u16)
    ensures
        (spec_u16_byte(v, 0) as int) * 256 + (spec_u16_byte(v, 1) as int) == v as int,
{
}

/// The four big-endian bytes of a 32-bit value recompose to it.
proof fn lemma_u32_bytes_roundtrip(v: u32)
    ensures
        (spec_u32_byte(v, 0) as int) * 0x1000000 + (spec_u32_byte(v, 1) as int) * 0x10000 + (
        spec_u32_byte(v, 2) as int) * 256 + (spec_u32_byte(v, 3) as int) == v as int,
{
    assert((v as int) / 0x10000 == ((v as int) / 0x1000000) * 256 + ((v as int) / 0x10000) % 256);
    assert((v as int) / 256 == ((v as int) / 0x10000) * 256 + ((v as int) / 256) % 256);
    assert(v as int == ((v as int) / 256) * 256 + (v as int) % 256);
}

/// Decoding inverts encoding: the wire image of any encodable packet
/// model decodes back to exactly that model.
#[verifier::rlimit(100)]
#[verifier::spinoff_prover]
pub proof fn lemma_encode_decode_round_trip(m: RtpPacketModel)
    requires
        spec_encodable(m),
    ensures
        spec_decode(spec_encode(m)) == Ok::<RtpPacketModel, DecodeError>(m),
{
    let d = spec_encode(m);
    let a = spec_fixed_header_bytes(m);
    let b = spec_csrc_bytes(m.csrc);
    let c = spec_extension_bytes(m);
    let cc = m.csrc.len() as int;
    let ce = c.len() as int;
    assert(a.len() == 12);
    assert(b.len() == 4 * cc);
    assert(ce == if m.extension {
        4 + m.extension_data.len() as int
    } else {
        0int
    });
    assert(d.len() == 12 + 4 * cc + ce + m.payload.len());

    assert forall|i: int| 0 <= i < 12 implies d[i] == a[i] by {}
    assert forall|i: int| 0 <= i < 4 * cc implies d[12 + i] == b[i] by {}
    assert forall|i: int| 0 <= i < ce implies d[12 + 4 * cc + i] == c[i] by {}
    assert forall|i: int| 0 <= i < m.payload.len() implies d[12 + 4 * cc + ce + i]
        == m.payload[i] by {}

    let x16: int = if m.extension {
        16
    } else {
        0
    };
    let b0val: int = 128 + x16 + cc;
    assert(d[0] == b0val as u8);
    assert((d[0] as int) == b0val);
    assert((d[0] as int) / 64 == 2);
    assert(spec_cc(d) == cc);
    assert(!spec_has_padding(d));
    assert(spec_has_extension(d) == m.extension);
    assert(spec_header_len(d) == 12 + 4 * cc);

    let b1val: int = (if m.marker {
        128int
    } else {
        0int
    }) + m.payload_type as int;
    assert(d[1] as int == b1val);
    assert((d[1] as int) / 128 == 1 <==> m.marker);
    assert((d[1] as int) % 128 == m.payload_type as int);

    lemma_u16_bytes_roundtrip(m.sequence_number);
    assert(spec_be16(d, 2) == m.sequence_number as int);
    lemma_u32_bytes_roundtrip(m.timestamp);
    assert(spec_be32(d, 4) == m.timestamp as int);
    lemma_u32_bytes_roundtrip(m.ssrc);
    assert(spec_be32(d, 8) == m.ssrc as int);

    assert forall|i: int| 0 <= i < cc implies spec_be32(d, 12 + 4 * i) as u32 == m.csrc[i] by {
        assert forall|k: int| 0 <= k < 4 implies d[12 + 4 * i + k] == spec_u32_byte(
            m.csrc[i],
            k,
        ) by {
            assert(b[4 * i + k] == spec_u32_byte(m.csrc[(4 * i + k) / 4], (4 * i + k) % 4));
            assert((4 * i + k) / 4 == i);
            assert((4 * i + k) % 4 == k);
        }
        lemma_u32_bytes_roundtrip(m.csrc[i]);
    }
    assert(spec_model(d).csrc =~= m.csrc);

    if m.extension {
        let hlen = 12 + 4 * cc;
        let w: u16 = (m.extension_data.len() / 4) as u16;
        assert(d[hlen] == spec_u16_byte(m.extension_profile, 0));
        assert(d[hlen + 1] == spec_u16_byte(m.extension_profile, 1));
        assert(d[hlen + 2] == spec_u16_byte(w, 0));
        assert(d[hlen + 3] == spec_u16_byte(w, 1));
        lemma_u16_bytes_roundtrip(m.extension_profile);
        lemma_u16_bytes_roundtrip(w);
        assert(spec_be16(d, hlen) == m.extension_profile as int);
        assert(spec_be16(d, hlen + 2) == w as int);
        assert(4 * (w as int) == m.extension_data.len() as int);
        assert(spec_payload_start(d) == hlen + 4 + m.extension_data.len());
        assert(d.len() >= spec_payload_start(d));
        assert forall|i: int| 0 <= i < m.extension_data.len() implies d[hlen + 4 + i]
            == m.extension_data[i] by {
            assert(c[4 + i] == m.extension_data[i]);
        }
        assert(spec_model(d).extension_data =~= m.extension_data);
    } else {
        assert(spec_payload_start(d) == 12 + 4 * cc);
        assert(spec_model(d).extension_data =~= m.extension_data);
    }

    assert(spec_payload_region(d) =~= m.payload);
    assert(spec_decode(d) is Ok);
    assert(spec_model(d) =~= m);
}

/// Appends the four big-endian bytes of a 32-bit value.
fn push_be32(out: &mut Vec<u8>, v: u32)
    ensures
        final(out)@ =~= old(out)@ + seq![
            spec_u32_byte(v, 0),
            spec_u32_byte(v, 1),
            spec_u32_byte(v, 2),
            spec_u32_byte(v, 3),
        ],
{
    out.push((v / 0x1000000) as u8);
    out.push(((v / 0x10000) % 256) as u8);
    out.push(((v / 256) % 256) as u8);
    out.push((v % 256) as u8);
}

/// Appends every byte of a slice, in order.
fn push_bytes(out: &mut Vec<u8>, src: &[u8])
    ensures
        final(out)@ =~= old(out)@ + src@,
{
    let mut j: usize = 0;
    while j < src.len()
        invariant
            j <= src@.len(),
            out@ =~= old(out)@ + src@.take(j as int),
        decreases src@.len() - j,
    {
        out.push(src[j]);
        assert(out@ =~= old(out)@ + src@.take(j + 1));
        j = j + 1;
    }
    assert(src@.take(src@.len() as int) =~= src@);
}

/// Serializes a packet into its wire image.
pub fn encode_packet(p: &RtpPacket) -> (r: Vec<u8>)
    requires
        spec_encodable(p@),
    ensures
        r@ == spec_encode(p@),
{
    let mut out: Vec<u8> = Vec::new();
    let b0: u8 = 128 + (if p.header.padding {
        32
    } else {
        0
    }) + (if p.header.extension {
        16
    } else {
        0
    }) + (p.header.csrc.len() as u8);
    out.push(b0);
    let b1: u8 = (if p.header.marker {
        128
    } else {
        0
    }) + p.header.payload_type;
    out.push(b1);
    out.push((p.header.sequence_number / 256) as u8);
    out.push((p.header.sequence_number % 256) as u8);
    push_be32(&mut out, p.header.timestamp);
    push_be32(&mut out, p.header.ssrc);
    assert(out@ =~= spec_fixed_header_bytes(p@));

    let cc = p.header.csrc.len();
    let mut i: usize = 0;
    while i < cc
        invariant
            i <= cc,
            cc == p.header.csrc@.len(),
            spec_encodable(p@),
            out@ =~= spec_fixed_header_bytes(p@) + spec_csrc_bytes(p@.csrc.take(i as int)),
        decreases cc - i,
    {
        push_be32(&mut out, p.header.csrc[i]);
        proof {
            let full = spec_csrc_bytes(p@.csrc.take(i + 1));
            let prev = spec_csrc_bytes(p@.csrc.take(i as int));
            assert forall|j: int| 0 <= j < full.len() implies full[j] == (prev + seq![
                spec_u32_byte(p@.csrc[i as int], 0),
                spec_u32_byte(p@.csrc[i as int], 1),
                spec_u32_byte(p@.csrc[i as int], 2),
                spec_u32_byte(p@.csrc[i as int], 3),
            ])[j] by {
                assert(full[j] == spec_u32_byte(p@.csrc.take(i + 1)[j / 4], j % 4));
            }
            assert(full =~= prev + seq![
                spec_u32_byte(p@.csrc[i as int], 0),
                spec_u32_byte(p@.csrc[i as int], 1),
                spec_u32_byte(p@.csrc[i as int], 2),
                spec_u32_byte(p@.csrc[i as int], 3),
            ]);
        }
        i = i + 1;
    }
    proof {
        assert(p@.csrc.take(cc as int) =~= p@.csrc);
    }

    if p.header.extension {
        out.push((p.header.extension_profile / 256) as u8);
        out.push((p.header.extension_profile % 256) as u8);
        let words: usize = p.header.extension_data.len() / 4;
        out.push(((words / 256) % 256) as u8);
        out.push((words % 256) as u8);
        push_bytes(&mut out, p.header.extension_data.as_slice());
    }
    assert(out@ =~= spec_fixed_header_bytes(p@) + spec_csrc_bytes(p@.csrc) + spec_extension_bytes(
        p@,
    ));

    push_bytes(&mut out, p.payload.as_slice());
    assert(out@ =~= spec_encode(p@));
    out
}

} // verus!
