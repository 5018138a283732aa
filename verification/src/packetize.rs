//! NAL-aware packetization of encoded video frames and of audio frames into
//! MTU-sized RTP packets (single NAL unit packets and FU-A fragments).

use vstd::prelude::*;
use bytes::BytesMut;
use crate::bytes_buf::{bytes_mut_contents, bytes_with_capacity, bytes_extend, bytes_put_u8};
use crate::rtp::{MTU_SIZE, RtpHeader, NaluHeader, rtp_header_bytes, rtp_header_spec};

verus! {

/// RTP payload type of video packets.
pub const VIDEO_PAYLOAD_TYPE: u8 = 96;

/// RTP payload type of audio packets.
pub const AUDIO_PAYLOAD_TYPE: u8 = 97;

/// Fragment bytes per FU-A packet: the MTU less the RTP header and the two FU bytes.
pub const FUA_PAYLOAD_SIZE: usize = 1286;

/// NAL unit type of an FU-A fragmentation unit.
pub const FUA_NAL_TYPE: u8 = 28;

/// An Annex-B start code (`00 00 01`, or `00 00 00 01`) begins at `i`.
pub open spec fn start_code_at(data: Seq<u8>, i: int) -> bool {
    ||| data[i] == 0 && data[i + 1] == 0 && data[i + 2] == 1
    ||| i + 3 < data.len() && data[i] == 0 && data[i + 1] == 0 && data[i + 2] == 0 && data[i + 3] == 1
}

/// The scan for start codes looks at positions below this bound.
pub open spec fn scan_limit(len: int) -> int {
    if len >= 3 {
        len - 3
    } else {
        0
    }
}

/// The first start code at or after `i` within the scan window, or the end of `data`.
pub open spec fn nalu_boundary(data: Seq<u8>, i: int) -> int
    decreases data.len() - i,
{
    if 0 <= i < scan_limit(data.len() as int) {
        if start_code_at(data, i) {
            i
        } else {
            nalu_boundary(data, i + 1)
        }
    } else {
        data.len() as int
    }
}

/// `seq` advanced by `k` modulo 2^16.
pub open spec fn seq_add(seq: u16, k: int) -> u16 {
    ((seq as int + k) % 0x10000) as u16
}

/// Number of FU-A fragments a NAL unit of `len` bytes is cut into (its first
/// byte travels in the FU indicator and header).
pub open spec fn fua_count(len: int) -> int {
    (len - 1 + (FUA_PAYLOAD_SIZE - 1)) / (FUA_PAYLOAD_SIZE as int)
}

/// Start (inclusive) and end (exclusive) in the NAL unit of the bytes of fragment `k`.
pub open spec fn fua_range(len: int, k: int) -> (int, int) {
    let start = 1 + k * FUA_PAYLOAD_SIZE;
    let end = if start + FUA_PAYLOAD_SIZE < len {
        start + FUA_PAYLOAD_SIZE
    } else {
        len
    };
    (start, end)
}

/// FU header byte of fragment `k`: start bit on the first, end bit on the last.
pub open spec fn fu_header_byte(nal_byte: u8, k: int, last: bool) -> u8 {
    let t = nal_byte & 0x1fu8;
    if k == 0 {
        0x80u8 | t
    } else if last {
        0x40u8 | t
    } else {
        t
    }
}

/// FU indicator byte: F and NRI of the NAL header with type 28.
pub open spec fn fu_indicator_byte(nal_byte: u8) -> u8 {
    (nal_byte & 0xe0u8) | FUA_NAL_TYPE
}

/// Fragment `k` of `nalu`: RTP header, FU indicator, FU header, fragment
/// bytes. The RTP marker is set on the last fragment when the NAL unit ends the
/// frame.
pub open spec fn fua_packet(nalu: Seq<u8>, seq: u16, ts: u32, ssrc: u32, frame_end: bool, k: int) -> Seq<u8> {
    let (start, end) = fua_range(nalu.len() as int, k);
    let last = end == nalu.len();
    rtp_header_bytes(rtp_header_spec(VIDEO_PAYLOAD_TYPE, seq_add(seq, k), ts, ssrc, frame_end && last)) + seq![
        fu_indicator_byte(nalu[0]),
        fu_header_byte(nalu[0], k, last),
    ] + nalu.subrange(start, end)
}

/// All FU-A fragments of `nalu`, numbered from `seq`.
pub open spec fn fua_packets(nalu: Seq<u8>, seq: u16, ts: u32, ssrc: u32, frame_end: bool) -> Seq<Seq<u8>> {
    Seq::new(fua_count(nalu.len() as int) as nat, |k: int| fua_packet(nalu, seq, ts, ssrc, frame_end, k))
}

/// Packets of one NAL unit numbered from `seq`: a single packet when it fits
/// the MTU, else FU-A fragments; `frame_end` says the unit ends the frame.
pub open spec fn nalu_packets(nalu: Seq<u8>, seq: u16, ts: u32, ssrc: u32, frame_end: bool) -> Seq<Seq<u8>> {
    if nalu.len() <= MTU_SIZE - 12 {
        seq![rtp_header_bytes(rtp_header_spec(VIDEO_PAYLOAD_TYPE, seq, ts, ssrc, frame_end)) + nalu]
    } else {
        fua_packets(nalu, seq, ts, ssrc, frame_end)
    }
}

/// A three-byte start code `00 00 01` begins at `i`.
pub open spec fn code3_at(d: Seq<u8>, i: int) -> bool {
    0 <= i && i + 3 <= d.len() && d[i] == 0 && d[i + 1] == 0 && d[i + 2] == 1
}

/// A four-byte start code `00 00 00 01` begins at `i`.
pub open spec fn code4_at(d: Seq<u8>, i: int) -> bool {
    0 <= i && i + 4 <= d.len() && d[i] == 0 && d[i + 1] == 0 && d[i + 2] == 0 && d[i + 3] == 1
}

/// An Annex-B start code begins at `i`.
pub open spec fn code_at(d: Seq<u8>, i: int) -> bool {
    code3_at(d, i) || code4_at(d, i)
}

/// Length of the start code at `i` (the four-byte form when it begins there).
pub open spec fn code_len(d: Seq<u8>, i: int) -> int {
    if code4_at(d, i) {
        4
    } else {
        3
    }
}

/// The first start code at or after `i`, or the end of `d`.
pub open spec fn next_code(d: Seq<u8>, i: int) -> int
    decreases d.len() - i,
{
    if 0 <= i < d.len() {
        if code_at(d, i) {
            i
        } else {
            next_code(d, i + 1)
        }
    } else {
        d.len() as int
    }
}

/// The next start code from `i` lies between `i` and the end; before it there
/// is none, and it ends within `d`.
pub proof fn lemma_next_code(d: Seq<u8>, i: int)
    requires
        0 <= i <= d.len(),
    ensures
        i <= next_code(d, i) <= d.len(),
        next_code(d, i) < d.len() ==> code_at(d, next_code(d, i)) && next_code(d, i) + code_len(d, next_code(d, i))
            <= d.len(),
        forall|j: int| i <= j < next_code(d, i) ==> !code_at(d, j),
    decreases d.len() - i,
{
    if i < d.len() && !code_at(d, i) {
        lemma_next_code(d, i + 1);
    }
}

/// Where the NAL unit after the start code found from `i` begins.
pub open spec fn after_code(d: Seq<u8>, i: int) -> int {
    let e = next_code(d, i);
    if e < d.len() {
        e + code_len(d, e)
    } else {
        d.len() as int
    }
}

/// The NAL units of `d` from `i` on: the non-empty runs of bytes between start
/// codes (and the ends of `d`), without the codes.
pub open spec fn units_from(d: Seq<u8>, i: int) -> Seq<Seq<u8>>
    decreases d.len() - i,
{
    if 0 <= i < d.len() {
        let e = next_code(d, i);
        proof {
            lemma_next_code(d, i);
        }
        (if i < e {
            seq![d.subrange(i, e)]
        } else {
            Seq::empty()
        }) + units_from(d, after_code(d, i))
    } else {
        Seq::empty()
    }
}

/// The NAL units of an Annex-B frame.
pub open spec fn nal_units(d: Seq<u8>) -> Seq<Seq<u8>> {
    units_from(d, 0)
}

/// Packets of the NAL units `us[j..]`, numbered consecutively from `seq`; the
/// last unit ends the frame.
pub open spec fn units_packets(us: Seq<Seq<u8>>, j: int, seq: u16, ts: u32, ssrc: u32) -> Seq<Seq<u8>>
    decreases us.len() - j,
{
    if 0 <= j < us.len() {
        let ps = nalu_packets(us[j], seq, ts, ssrc, j == us.len() - 1);
        ps + units_packets(us, j + 1, seq_add(seq, ps.len() as int), ts, ssrc)
    } else {
        Seq::empty()
    }
}

/// RTP timestamp of a frame whose presentation time is `timestamp_us` microseconds.
pub open spec fn rtp_timestamp(timestamp_us: u64) -> u32 {
    (timestamp_us / 1000) as u32
}

/// The packets of a video frame.
pub open spec fn video_packets(data: Seq<u8>, seq: u16, timestamp_us: u64, ssrc: u32) -> Seq<Seq<u8>> {
    units_packets(nal_units(data), 0, seq, rtp_timestamp(timestamp_us), ssrc)
}

/// The single packet of an audio frame.
pub open spec fn audio_packet(data: Seq<u8>, seq: u16, timestamp_us: u64, ssrc: u32) -> Seq<u8> {
    rtp_header_bytes(rtp_header_spec(AUDIO_PAYLOAD_TYPE, seq, rtp_timestamp(timestamp_us), ssrc, true))
        + data
}

/// What a list of packet buffers holds.
pub open spec fn packet_contents(ps: Seq<BytesMut>) -> Seq<Seq<u8>> {
    ps.map_values(|p: BytesMut| bytes_mut_contents(p))
}

/// Finds the first start code at or after `start` (before the last three bytes).
pub fn find_next_nalu(data: &[u8], start: usize) -> (r: Option<usize>)
    ensures
        match r {
            Some(i) => {
                &&& start <= i < scan_limit(data@.len() as int)
                &&& start_code_at(data@, i as int)
                &&& forall|j: int| start <= j < i ==> !start_code_at(data@, j)
            },
            None => forall|j: int| start <= j < scan_limit(data@.len() as int) ==> !start_code_at(data@, j),
        },
        match r {
            Some(i) => i == nalu_boundary(data@, start as int),
            None => nalu_boundary(data@, start as int) == data@.len(),
        },
{
    let limit = if data.len() >= 3 {
        data.len() - 3
    } else {
        0
    };
    let mut i = start;
    while i < limit
        invariant
            limit == scan_limit(data@.len() as int),
            start <= i,
            forall|j: int| start <= j < i ==> !start_code_at(data@, j),
            nalu_boundary(data@, start as int) == nalu_boundary(data@, i as int),
        decreases limit - i,
    {
        if data[i] == 0 && data[i + 1] == 0 && data[i + 2] == 1 {
            return Some(i);
        }
        if i + 3 < data.len() && data[i] == 0 && data[i + 1] == 0 && data[i + 2] == 0 && data[i + 3] == 1 {
            return Some(i);
        }
        i = i + 1;
    }
    None
}

proof fn lemma_fua_count(len: int, k: int)
    requires
        len >= 2,
        k >= 0,
        1 + k * FUA_PAYLOAD_SIZE < len,
    ensures
        k < fua_count(len),
        1 + k * FUA_PAYLOAD_SIZE + FUA_PAYLOAD_SIZE >= len ==> k + 1 == fua_count(len),
{
    let n = len - 1;
    assert(k * 1286 < n ==> k < (n + 1285) / 1286) by (nonlinear_arith)
        requires
            k >= 0,
            n >= 1,
    ;
    assert(k * 1286 < n && n <= k * 1286 + 1286 ==> (n + 1285) / 1286 == k + 1) by (nonlinear_arith)
        requires
            k >= 0,
            n >= 1,
    ;
}

/// Appends the FU-A fragments of a NAL unit too large for one packet and
/// returns the sequence number after the last fragment.
fn packetize_fua(nalu: &[u8], seq: u16, ts: u32, ssrc: u32, frame_end: bool, packets: &mut Vec<BytesMut>) -> (next: u16)
    requires
        nalu@.len() + 12 > MTU_SIZE,
    ensures
        packet_contents(final(packets)@) == packet_contents(old(packets)@) + fua_packets(nalu@, seq, ts, ssrc, frame_end),
        next == seq_add(seq, fua_count(nalu@.len() as int)),
{
    let ghost len = nalu.len() as int;
    let ghost all = fua_packets(nalu@, seq, ts, ssrc, frame_end);
    let header_byte = nalu[0];
    let nal_header = NaluHeader::from_byte(header_byte);
    let mut offset: usize = 1;
    let mut remaining: usize = nalu.len() - 1;
    let mut first = true;
    let mut cur_seq = seq;
    let ghost mut k: int = 0;
    assert(all.take(0) =~= Seq::<Seq<u8>>::empty());
    assert(packet_contents(old(packets)@) + all.take(0) =~= packet_contents(old(packets)@));
    while remaining > 0
        invariant
            len == nalu@.len(),
            len <= usize::MAX,
            len + 12 > MTU_SIZE,
            all == fua_packets(nalu@, seq, ts, ssrc, frame_end),
            header_byte == nalu@[0],
            nal_header.nal_unit_type == header_byte & 0x1fu8,
            1 <= offset <= len,
            offset + remaining == len,
            0 <= k,
            remaining > 0 ==> offset == 1 + k * FUA_PAYLOAD_SIZE,
            remaining == 0 ==> k == fua_count(len),
            k <= fua_count(len),
            first == (k == 0),
            cur_seq == seq_add(seq, k),
            packet_contents(packets@) == packet_contents(old(packets)@) + all.take(k),
        decreases remaining,
    {
        proof {
            lemma_fua_count(len, k);
        }
        let payload_size = if remaining < FUA_PAYLOAD_SIZE {
            remaining
        } else {
            FUA_PAYLOAD_SIZE
        };
        let mut packet = bytes_with_capacity(payload_size + 14);
        let fu_indicator = (header_byte & 0xe0u8) | FUA_NAL_TYPE;
        let last = remaining <= payload_size;
        let fu_header = if first {
            0x80u8 | nal_header.nal_unit_type
        } else if last {
            0x40u8 | nal_header.nal_unit_type
        } else {
            0x00u8 | nal_header.nal_unit_type
        };
        let rtp_header = RtpHeader::new(VIDEO_PAYLOAD_TYPE, cur_seq, ts, ssrc, frame_end && last);
        let hdr = rtp_header.encode();
        bytes_extend(&mut packet, hdr.as_slice());
        bytes_put_u8(&mut packet, fu_indicator);
        bytes_put_u8(&mut packet, fu_header);
        bytes_extend(&mut packet, &nalu[offset..offset + payload_size]);
        proof {
            let (st, en) = fua_range(len, k);
            assert(st == offset && en == offset + payload_size);
            assert(0x00u8 | nal_header.nal_unit_type == nal_header.nal_unit_type) by (bit_vector);
            assert(bytes_mut_contents(packet) =~= fua_packet(nalu@, seq, ts, ssrc, frame_end, k));
            assert(all[k] == fua_packet(nalu@, seq, ts, ssrc, frame_end, k));
        }
        let ghost before = packets@;
        packets.push(packet);
        proof {
            assert(packet_contents(packets@) =~= packet_contents(before).push(bytes_mut_contents(packet)));
            assert(all.take(k + 1) =~= all.take(k).push(all[k]));
            assert(packet_contents(packets@) =~= packet_contents(old(packets)@) + all.take(k + 1));
        }
        first = false;
        offset = offset + payload_size;
        remaining = remaining - payload_size;
        cur_seq = cur_seq.wrapping_add(1);
        proof {
            k = k + 1;
        }
    }
    assert(all.take(k) =~= all);
    cur_seq
}

/// The position of the first start code at or after `from`, or the length.
fn next_start_code(data: &[u8], from: usize) -> (e: usize)
    requires
        from <= data@.len(),
    ensures
        e == next_code(data@, from as int),
{
    let mut i = from;
    while i < data.len()
        invariant
            from <= i <= data@.len(),
            next_code(data@, from as int) == next_code(data@, i as int),
        decreases data@.len() - i,
    {
        let n = data.len() - i;
        if n >= 3 && data[i] == 0 && data[i + 1] == 0 && data[i + 2] == 1 {
            return i;
        }
        if n >= 4 && data[i] == 0 && data[i + 1] == 0 && data[i + 2] == 0 && data[i + 3] == 1 {
            return i;
        }
        i = i + 1;
    }
    i
}

/// The runs `data[a..b]` that the NAL units of `data` occupy, in order.
fn nal_unit_ranges(data: &[u8]) -> (r: Vec<(usize, usize)>)
    ensures
        r@.len() == nal_units(data@).len(),
        forall|k: int|
            0 <= k < r@.len() ==> {
                let (a, b) = #[trigger] r@[k];
                &&& a < b <= data@.len()
                &&& data@.subrange(a as int, b as int) == nal_units(data@)[k]
            },
{
    let ghost d = data@;
    let ghost whole = nal_units(d);
    let mut r: Vec<(usize, usize)> = Vec::new();
    let mut i: usize = 0;
    assert(Seq::<Seq<u8>>::empty() + whole =~= whole);
    while i < data.len()
        invariant
            d == data@,
            whole == nal_units(d),
            i <= d.len(),
            forall|k: int|
                0 <= k < r@.len() ==> {
                    let (a, b) = #[trigger] r@[k];
                    a < b <= d.len()
                },
            r@.map_values(|p: (usize, usize)| d.subrange(p.0 as int, p.1 as int)) + units_from(d, i as int)
                == whole,
        decreases d.len() - i,
    {
        let ghost i0 = i as int;
        let e = next_start_code(data, i);
        proof {
            lemma_next_code(d, i as int);
        }
        let ghost before = r@;
        let ghost rest = units_from(d, after_code(d, i as int));
        if i < e {
            r.push((i, e));
            proof {
                assert(r@.map_values(|p: (usize, usize)| d.subrange(p.0 as int, p.1 as int)) =~= before.map_values(
                    |p: (usize, usize)| d.subrange(p.0 as int, p.1 as int),
                ).push(d.subrange(i as int, e as int)));
                assert(units_from(d, i as int) == seq![d.subrange(i as int, e as int)] + rest);
            }
        } else {
            assert(units_from(d, i as int) =~= rest);
        }
        assert(r@.map_values(|p: (usize, usize)| d.subrange(p.0 as int, p.1 as int)) + rest =~= whole);
        if e < data.len() {
            if data.len() - e >= 4 && data[e] == 0 && data[e + 1] == 0 && data[e + 2] == 0 && data[e + 3] == 1 {
                i = e + 4;
            } else {
                i = e + 3;
            }
        } else {
            i = e;
        }
        assert(i as int == after_code(d, i0));
    }
    proof {
        assert(units_from(d, i as int) =~= Seq::<Seq<u8>>::empty());
        assert(r@.map_values(|p: (usize, usize)| d.subrange(p.0 as int, p.1 as int)) =~= whole);
        assert forall|k: int| 0 <= k < r@.len() implies {
            let (a, b) = #[trigger] r@[k];
            &&& a < b <= data@.len()
            &&& data@.subrange(a as int, b as int) == nal_units(data@)[k]
        } by {
            assert(r@.map_values(|p: (usize, usize)| d.subrange(p.0 as int, p.1 as int))[k] == whole[k]);
        }
    }
    r
}

/// Cuts an encoded Annex-B frame into RTP packets: each NAL unit (the bytes
/// between start codes, without them) becomes one packet when it fits the
/// MTU, else a run of FU-A fragments. Packets are numbered consecutively from
/// `seq`, and only the frame's last packet carries the marker bit.
pub fn packetize_video_frame(data: &[u8], seq: u16, timestamp_us: u64, ssrc: u32) -> (packets: Vec<BytesMut>)
    ensures
        packet_contents(packets@) == video_packets(data@, seq, timestamp_us, ssrc),
{
    let ts = (timestamp_us / 1000) as u32;
    let ranges = nal_unit_ranges(data);
    let ghost us = nal_units(data@);
    let mut packets: Vec<BytesMut> = Vec::new();
    let mut cur_seq = seq;
    let ghost whole = units_packets(us, 0, seq, ts, ssrc);
    assert(packet_contents(packets@) + whole =~= whole);
    let mut j: usize = 0;
    while j < ranges.len()
        invariant
            j <= ranges@.len(),
            ranges@.len() == us.len(),
            us == nal_units(data@),
            forall|k: int|
                0 <= k < ranges@.len() ==> {
                    let (a, b) = #[trigger] ranges@[k];
                    &&& a < b <= data@.len()
                    &&& data@.subrange(a as int, b as int) == us[k]
                },
            ts == rtp_timestamp(timestamp_us),
            whole == units_packets(us, 0, seq, ts, ssrc),
            packet_contents(packets@) + units_packets(us, j as int, cur_seq, ts, ssrc) == whole,
        decreases ranges@.len() - j,
    {
        let (a, b) = ranges[j];
        assert(ranges@[j as int] == (a, b));
        let nalu = &data[a..b];
        assert(nalu@ == us[j as int]);
        let frame_end = j == ranges.len() - 1;
        let ghost before = packets@;
        let ghost here = nalu_packets(nalu@, cur_seq, ts, ssrc, frame_end);
        let ghost rest = units_packets(us, j + 1, seq_add(cur_seq, here.len() as int), ts, ssrc);
        assert(units_packets(us, j as int, cur_seq, ts, ssrc) == here + rest);
        if nalu.len() <= MTU_SIZE - 12 {
            let header = RtpHeader::new(VIDEO_PAYLOAD_TYPE, cur_seq, ts, ssrc, frame_end);
            let mut packet = bytes_with_capacity(nalu.len() + 12);
            let hdr = header.encode();
            bytes_extend(&mut packet, hdr.as_slice());
            bytes_extend(&mut packet, nalu);
            packets.push(packet);
            proof {
                assert(packet_contents(packets@) =~= packet_contents(before) + here);
            }
            cur_seq = cur_seq.wrapping_add(1);
        } else {
            cur_seq = packetize_fua(nalu, cur_seq, ts, ssrc, frame_end, &mut packets);
        }
        proof {
            assert(packet_contents(packets@) + rest =~= packet_contents(before) + (here + rest));
        }
        j = j + 1;
    }
    packets
}

/// Builds the packet of an audio frame: one RTP header (payload type 97,
/// marker set) followed by the whole frame.
pub fn packetize_audio_frame(data: &[u8], seq: u16, timestamp_us: u64, ssrc: u32) -> (packet: BytesMut)
    requires
        data@.len() + 12 <= isize::MAX,
    ensures
        bytes_mut_contents(packet) == audio_packet(data@, seq, timestamp_us, ssrc),
{
    let header = RtpHeader::new(AUDIO_PAYLOAD_TYPE, seq, (timestamp_us / 1000) as u32, ssrc, true);
    let mut packet = bytes_with_capacity(data.len() + 12);
    let hdr = header.encode();
    bytes_extend(&mut packet, hdr.as_slice());
    bytes_extend(&mut packet, data);
    assert(bytes_mut_contents(packet) =~= audio_packet(data@, seq, timestamp_us, ssrc));
    packet
}

} // verus!
