use vstd::prelude::*;

verus! {

/// Largest packet, header included, that the transport sends.
pub const MTU_SIZE: usize = 1300;

/// Largest QUIC datagram frame the transport accepts.
pub const MAX_DATAGRAM_SIZE: usize = 1400;

/// The three logical QUIC streams of a session.
#[derive(Debug, Clone, Copy, PartialEq, Eq, Structural)]
pub enum StreamType {
    Video,
    Audio,
    Control,
}

/// QUIC congestion controller choice.
#[derive(Debug, Clone, Copy, PartialEq, Eq, Structural)]
pub enum CongestionController {
    Cubic,
    Bbr,
    NewReno,
}

/// Key encapsulation mechanism of the handshake.
#[derive(Debug, Clone, Copy, PartialEq, Eq, Structural)]
pub enum KemAlgorithm {
    MlKem768,
    Hybrid,
}

/// The fixed twelve-byte RTP header (RFC 3550) without CSRC list.
#[derive(Debug, Clone)]
pub struct RtpHeader {
    pub version: u8,
    pub padding: bool,
    pub extension: bool,
    pub csrc_count: u8,
    pub marker: bool,
    pub payload_type: u8,
    pub sequence_number: u16,
    pub timestamp: u32,
    pub ssrc: u32,
}

/// First header byte: version in the top two bits, then P, X, and the CSRC count.
pub open spec fn rtp_byte0(h: RtpHeader) -> u8 {
    (h.version << 6u8) | (if h.padding { 0x20u8 } else { 0u8 }) | (if h.extension { 0x10u8 } else { 0u8 })
        | h.csrc_count
}

/// Second header byte: marker bit, then the payload type.
pub open spec fn rtp_byte1(h: RtpHeader) -> u8 {
    (if h.marker { 0x80u8 } else { 0u8 }) | h.payload_type
}

/// The four bytes of a `u32` in network byte order.
pub open spec fn be32_seq(x: u32) -> Seq<u8> {
    seq![
        ((x >> 24u32) & 0xffu32) as u8,
        ((x >> 16u32) & 0xffu32) as u8,
        ((x >> 8u32) & 0xffu32) as u8,
        (x & 0xffu32) as u8,
    ]
}

/// The wire encoding of an RTP header: two flag bytes, then sequence number,
/// timestamp and SSRC in network byte order.
pub open spec fn rtp_header_bytes(h: RtpHeader) -> Seq<u8> {
    seq![
        rtp_byte0(h),
        rtp_byte1(h),
        ((h.sequence_number >> 8u16) & 0xffu16) as u8,
        (h.sequence_number & 0xffu16) as u8,
        be32_seq(h.timestamp)[0],
        be32_seq(h.timestamp)[1],
        be32_seq(h.timestamp)[2],
        be32_seq(h.timestamp)[3],
        be32_seq(h.ssrc)[0],
        be32_seq(h.ssrc)[1],
        be32_seq(h.ssrc)[2],
        be32_seq(h.ssrc)[3],
    ]
}

/// Big-endian `u16` from two bytes.
pub open spec fn be16(b0: u8, b1: u8) -> u16 {
    ((b0 as u16) << 8u16) | (b1 as u16)
}

/// Big-endian `u32` from four bytes.
pub open spec fn be32(b0: u8, b1: u8, b2: u8, b3: u8) -> u32 {
    ((b0 as u32) << 24u32) | ((b1 as u32) << 16u32) | ((b2 as u32) << 8u32) | (b3 as u32)
}

/// The header that the first twelve bytes of `data` describe.
pub open spec fn rtp_header_of(data: Seq<u8>) -> RtpHeader {
    RtpHeader {
        version: data[0] >> 6u8,
        padding: (data[0] & 0x20u8) != 0,
        extension: (data[0] & 0x10u8) != 0,
        csrc_count: data[0] & 0x0fu8,
        marker: (data[1] & 0x80u8) != 0,
        payload_type: data[1] & 0x7fu8,
        sequence_number: be16(data[2], data[3]),
        timestamp: be32(data[4], data[5], data[6], data[7]),
        ssrc: be32(data[8], data[9], data[10], data[11]),
    }
}

/// The header `RtpHeader::new` builds.
pub open spec fn rtp_header_spec(payload_type: u8, sequence_number: u16, timestamp: u32, ssrc: u32, marker: bool) -> RtpHeader {
    RtpHeader {
        version: 2,
        padding: false,
        extension: false,
        csrc_count: 0,
        marker,
        payload_type,
        sequence_number,
        timestamp,
        ssrc,
    }
}

/// A header whose every field fits the width the wire gives it.
pub open spec fn rtp_header_fits_wire(h: RtpHeader) -> bool {
    &&& h.version < 4
    &&& h.csrc_count < 16
    &&& h.payload_type < 128
}

fn be16_bytes(x: u16) -> (r: (u8, u8))
    ensures
        r.0 == ((x >> 8u16) & 0xffu16) as u8,
        r.1 == (x & 0xffu16) as u8,
{
    (((x >> 8u16) & 0xffu16) as u8, (x & 0xffu16) as u8)
}

fn be32_bytes(x: u32) -> (r: (u8, u8, u8, u8))
    ensures
        seq![r.0, r.1, r.2, r.3] == be32_seq(x),
{
    (
        ((x >> 24u32) & 0xffu32) as u8,
        ((x >> 16u32) & 0xffu32) as u8,
        ((x >> 8u32) & 0xffu32) as u8,
        (x & 0xffu32) as u8,
    )
}

impl RtpHeader {
    /// A version-2 header without padding, extension or CSRCs.
    pub fn new(payload_type: u8, sequence_number: u16, timestamp: u32, ssrc: u32, marker: bool) -> (h: Self)
        ensures
            h == rtp_header_spec(payload_type, sequence_number, timestamp, ssrc, marker),
    {
        RtpHeader {
            version: 2,
            padding: false,
            extension: false,
            csrc_count: 0,
            marker,
            payload_type,
            sequence_number,
            timestamp,
            ssrc,
        }
    }

    /// Serializes the header into its twelve wire bytes.
    pub fn encode(&self) -> (buf: [u8; 12])
        ensures
            buf@ == rtp_header_bytes(*self),
    {
        let b0 = (self.version << 6u8) | (if self.padding { 0x20u8 } else { 0u8 }) | (if self.extension {
            0x10u8
        } else {
            0u8
        }) | self.csrc_count;
        let b1 = (if self.marker { 0x80u8 } else { 0u8 }) | self.payload_type;
        let (s0, s1) = be16_bytes(self.sequence_number);
        let (t0, t1, t2, t3) = be32_bytes(self.timestamp);
        let (c0, c1, c2, c3) = be32_bytes(self.ssrc);
        let buf = [b0, b1, s0, s1, t0, t1, t2, t3, c0, c1, c2, c3];
        assert(buf@ =~= rtp_header_bytes(*self));
        buf
    }

    /// Parses the first twelve bytes of `data`; `None` when fewer are given.
    pub fn decode(data: &[u8]) -> (r: Option<Self>)
        ensures
            data@.len() < 12 ==> r is None,
            data@.len() >= 12 ==> r == Some(rtp_header_of(data@)),
    {
        if data.len() < 12 {
            return None;
        }
        Some(RtpHeader {
            version: data[0] >> 6u8,
            padding: (data[0] & 0x20u8) != 0,
            extension: (data[0] & 0x10u8) != 0,
            csrc_count: data[0] & 0x0fu8,
            marker: (data[1] & 0x80u8) != 0,
            payload_type: data[1] & 0x7fu8,
            sequence_number: ((data[2] as u16) << 8u16) | (data[3] as u16),
            timestamp: ((data[4] as u32) << 24u32) | ((data[5] as u32) << 16u32) | ((data[6] as u32)
                << 8u32) | (data[7] as u32),
            ssrc: ((data[8] as u32) << 24u32) | ((data[9] as u32) << 16u32) | ((data[10] as u32)
                << 8u32) | (data[11] as u32),
        })
    }
}

/// The one-byte H.264 NAL unit header.
#[derive(Debug, Clone)]
pub struct NaluHeader {
    pub forbidden_zero_bit: bool,
    pub nal_ref_idc: u8,
    pub nal_unit_type: u8,
}

impl NaluHeader {
    /// Splits a NAL header byte into its F bit, NRI (two bits) and type (five bits).
    pub fn from_byte(byte: u8) -> (h: Self)
        ensures
            h.forbidden_zero_bit == ((byte & 0x80u8) != 0),
            h.nal_ref_idc == (byte & 0x60u8) >> 5u8,
            h.nal_unit_type == byte & 0x1fu8,
            h.nal_ref_idc < 4,
            h.nal_unit_type < 32,
    {
        proof {
            assert((byte & 0x60u8) >> 5u8 < 4 && byte & 0x1fu8 < 32) by (bit_vector);
        }
        NaluHeader {
            forbidden_zero_bit: (byte & 0x80u8) != 0,
            nal_ref_idc: (byte & 0x60u8) >> 5u8,
            nal_unit_type: byte & 0x1fu8,
        }
    }
}

/// Decoding the encoding of a header gives that header back, for every header
/// whose fields fit their wire widths (version < 4, CSRC count < 16,
/// payload type < 128).
pub proof fn lemma_rtp_decode_encode(h: RtpHeader)
    requires
        rtp_header_fits_wire(h),
    ensures
        rtp_header_of(rtp_header_bytes(h)) == h,
{
    let b = rtp_header_bytes(h);
    let v = h.version;
    let c = h.csrc_count;
    let p = h.payload_type;
    let pad = if h.padding { 0x20u8 } else { 0u8 };
    let ext = if h.extension { 0x10u8 } else { 0u8 };
    let mk = if h.marker { 0x80u8 } else { 0u8 };
    assert(b[0] == (v << 6u8) | pad | ext | c);
    assert(v < 4 && c < 16 && (pad == 0x20u8 || pad == 0u8) && (ext == 0x10u8 || ext == 0u8) ==> {
        let x = (v << 6u8) | pad | ext | c;
        &&& x >> 6u8 == v
        &&& ((x & 0x20u8) != 0) == (pad == 0x20u8)
        &&& ((x & 0x10u8) != 0) == (ext == 0x10u8)
        &&& x & 0x0fu8 == c
    }) by (bit_vector);
    assert(p < 128 && (mk == 0x80u8 || mk == 0u8) ==> {
        let y = mk | p;
        &&& ((y & 0x80u8) != 0) == (mk == 0x80u8)
        &&& y & 0x7fu8 == p
    }) by (bit_vector);
    let s = h.sequence_number;
    assert(be16(((s >> 8u16) & 0xffu16) as u8, (s & 0xffu16) as u8) == s) by (bit_vector);
    let t = h.timestamp;
    assert(be32(((t >> 24u32) & 0xffu32) as u8, ((t >> 16u32) & 0xffu32) as u8, ((t >> 8u32)
        & 0xffu32) as u8, (t & 0xffu32) as u8) == t) by (bit_vector);
    let q = h.ssrc;
    assert(be32(((q >> 24u32) & 0xffu32) as u8, ((q >> 16u32) & 0xffu32) as u8, ((q >> 8u32)
        & 0xffu32) as u8, (q & 0xffu32) as u8) == q) by (bit_vector);
}

/// Every twelve bytes are the encoding of the header they decode to, and that
/// header fits the wire widths.
pub proof fn lemma_rtp_encode_decode(data: Seq<u8>)
    requires
        data.len() >= 12,
    ensures
        rtp_header_fits_wire(rtp_header_of(data)),
        rtp_header_bytes(rtp_header_of(data)) == data.subrange(0, 12),
{
    let h = rtp_header_of(data);
    let d0 = data[0];
    let d1 = data[1];
    assert(d0 >> 6u8 < 4 && d0 & 0x0fu8 < 16) by (bit_vector);
    assert(((d0 >> 6u8) << 6u8) | (if (d0 & 0x20u8) != 0 { 0x20u8 } else { 0u8 }) | (if (d0 & 0x10u8)
        != 0 { 0x10u8 } else { 0u8 }) | (d0 & 0x0fu8) == d0) by (bit_vector);
    assert(d1 & 0x7fu8 < 128) by (bit_vector);
    assert((if (d1 & 0x80u8) != 0 { 0x80u8 } else { 0u8 }) | (d1 & 0x7fu8) == d1) by (bit_vector);
    let (a, b) = (data[2], data[3]);
    assert(((be16(a, b) >> 8u16) & 0xffu16) as u8 == a && (be16(a, b) & 0xffu16) as u8 == b)
        by (bit_vector);
    let (t0, t1, t2, t3) = (data[4], data[5], data[6], data[7]);
    assert(be32_seq(be32(t0, t1, t2, t3)) =~= seq![t0, t1, t2, t3]) by {
        let x = be32(t0, t1, t2, t3);
        assert(((x >> 24u32) & 0xffu32) as u8 == t0 && ((x >> 16u32) & 0xffu32) as u8 == t1 && ((x
            >> 8u32) & 0xffu32) as u8 == t2 && (x & 0xffu32) as u8 == t3) by (bit_vector)
            requires
                x == be32(t0, t1, t2, t3),
        ;
    }
    let (c0, c1, c2, c3) = (data[8], data[9], data[10], data[11]);
    assert(be32_seq(be32(c0, c1, c2, c3)) =~= seq![c0, c1, c2, c3]) by {
        let x = be32(c0, c1, c2, c3);
        assert(((x >> 24u32) & 0xffu32) as u8 == c0 && ((x >> 16u32) & 0xffu32) as u8 == c1 && ((x
            >> 8u32) & 0xffu32) as u8 == c2 && (x & 0xffu32) as u8 == c3) by (bit_vector)
            requires
                x == be32(c0, c1, c2, c3),
        ;
    }
    assert(rtp_header_bytes(h) =~= data.subrange(0, 12));
}

} // verus!
