//! Properties of the packetizer's output that hold for every frame.

use vstd::prelude::*;
use crate::rtp::{MTU_SIZE, RtpHeader, rtp_header_bytes, rtp_header_of, rtp_header_spec, lemma_rtp_decode_encode, be16, be32};
use crate::packetize::{
    fu_indicator_byte, fu_header_byte, VIDEO_PAYLOAD_TYPE, AUDIO_PAYLOAD_TYPE, audio_packet, FUA_PAYLOAD_SIZE, fua_count, fua_range, fua_packet,
    fua_packets, nalu_packets, video_packets, rtp_timestamp, seq_add, code_at, next_code, after_code,
    lemma_next_code, units_from, nal_units, units_packets,
};
use vstd::arithmetic::div_mod::lemma_add_mod_noop_right;

verus! {

/// A packet starts with a version-2 RTP header of payload type 96 carrying
/// the given timestamp and SSRC.
pub open spec fn is_video_rtp_packet(p: Seq<u8>, ts: u32, ssrc: u32) -> bool {
    &&& p.len() >= 12
    &&& rtp_header_of(p).version == 2
    &&& rtp_header_of(p).payload_type == VIDEO_PAYLOAD_TYPE
    &&& rtp_header_of(p).timestamp == ts
    &&& rtp_header_of(p).ssrc == ssrc
}

proof fn lemma_header_prefix(h: RtpHeader, rest: Seq<u8>)
    requires
        h.version == 2,
        h.payload_type < 128,
        h.csrc_count == 0,
    ensures
        rtp_header_of(rtp_header_bytes(h) + rest) == h,
        (rtp_header_bytes(h) + rest).len() == 12 + rest.len(),
{
    let hb = rtp_header_bytes(h);
    let p = hb + rest;
    assert(forall|i: int| 0 <= i < 12 ==> p[i] == hb[i]);
    assert(rtp_header_of(p) == rtp_header_of(hb));
    lemma_rtp_decode_encode(h);
}

/// The NAL unit a run of FU-A fragments carries: the NAL header byte rebuilt
/// from F and NRI of the first FU indicator and the type of the first FU
/// header, followed by the fragment bytes of all packets in order.
pub open spec fn fua_reassemble(ps: Seq<Seq<u8>>) -> Seq<u8> {
    seq![(ps[0][12] & 0xe0u8) | (ps[0][13] & 0x1fu8)] + ps.map_values(
        |p: Seq<u8>| p.subrange(14, p.len() as int),
    ).flatten()
}

spec fn fua_bound(len: int, k: int) -> int {
    if 1 + k * FUA_PAYLOAD_SIZE < len {
        1 + k * FUA_PAYLOAD_SIZE
    } else {
        len
    }
}

proof fn lemma_fua_fragment_bytes(nalu: Seq<u8>, seq: u16, ts: u32, ssrc: u32, frame_end: bool, k: int)
    requires
        nalu.len() + 12 > MTU_SIZE,
        0 <= k < fua_count(nalu.len() as int),
    ensures
        fua_packet(nalu, seq, ts, ssrc, frame_end, k).subrange(14, fua_packet(nalu, seq, ts, ssrc, frame_end, k).len() as int)
            == nalu.subrange(fua_bound(nalu.len() as int, k), fua_bound(nalu.len() as int, k + 1)),
        fua_bound(nalu.len() as int, k) == 1 + k * FUA_PAYLOAD_SIZE,
{
    let len = nalu.len() as int;
    assert(k * 1286 < len - 1) by (nonlinear_arith)
        requires
            0 <= k < (len - 1 + 1285) / 1286,
            len >= 2,
    ;
    let (st, en) = fua_range(len, k);
    let last = en == len;
    let h = rtp_header_spec(VIDEO_PAYLOAD_TYPE, seq_add(seq, k), ts, ssrc, frame_end && last);
    let p = fua_packet(nalu, seq, ts, ssrc, frame_end, k);
    assert(p =~= rtp_header_bytes(h) + seq![fu_indicator_byte(nalu[0]), fu_header_byte(nalu[0], k, last)]
        + nalu.subrange(st, en));
    assert(p.subrange(14, p.len() as int) =~= nalu.subrange(st, en));
}

proof fn lemma_fua_prefix(nalu: Seq<u8>, seq: u16, ts: u32, ssrc: u32, frame_end: bool, k: int)
    requires
        nalu.len() + 12 > MTU_SIZE,
        0 <= k <= fua_count(nalu.len() as int),
    ensures
        fua_packets(nalu, seq, ts, ssrc, frame_end).map_values(|p: Seq<u8>| p.subrange(14, p.len() as int)).take(
            k,
        ).flatten() == nalu.subrange(1, fua_bound(nalu.len() as int, k)),
    decreases k,
{
    let len = nalu.len() as int;
    let pay = fua_packets(nalu, seq, ts, ssrc, frame_end).map_values(|p: Seq<u8>| p.subrange(14, p.len() as int));
    if k == 0 {
        assert(pay.take(0) =~= Seq::<Seq<u8>>::empty());
        assert(nalu.subrange(1, 1) =~= Seq::<u8>::empty());
    } else {
        lemma_fua_prefix(nalu, seq, ts, ssrc, frame_end, k - 1);
        lemma_fua_fragment_bytes(nalu, seq, ts, ssrc, frame_end, k - 1);
        assert(pay.take(k) =~= pay.take(k - 1).push(pay[k - 1]));
        pay.take(k - 1).lemma_flatten_push(pay[k - 1]);
        assert(nalu.subrange(1, fua_bound(len, k - 1)) + nalu.subrange(fua_bound(len, k - 1), fua_bound(len, k))
            =~= nalu.subrange(1, fua_bound(len, k)));
    }
}

/// FU-A fragmentation loses nothing: reassembling the fragments of a NAL unit
/// too large for one packet gives the NAL unit back.
pub proof fn lemma_fua_lossless(nalu: Seq<u8>, seq: u16, ts: u32, ssrc: u32, frame_end: bool)
    requires
        nalu.len() + 12 > MTU_SIZE,
    ensures
        fua_reassemble(fua_packets(nalu, seq, ts, ssrc, frame_end)) == nalu,
{
    let len = nalu.len() as int;
    let ps = fua_packets(nalu, seq, ts, ssrc, frame_end);
    let n = fua_count(len);
    assert(n >= 1 && n * 1286 >= len - 1) by (nonlinear_arith)
        requires
            n == (len - 1 + 1285) / 1286,
            len >= 2,
    ;
    lemma_fua_prefix(nalu, seq, ts, ssrc, frame_end, n);
    let pay = ps.map_values(|p: Seq<u8>| p.subrange(14, p.len() as int));
    assert(pay.take(n) =~= pay);
    let b = nalu[0];
    let p0 = fua_packet(nalu, seq, ts, ssrc, frame_end, 0);
    assert(ps[0] == p0);
    let (st, en) = fua_range(len, 0);
    let h = rtp_header_spec(VIDEO_PAYLOAD_TYPE, seq_add(seq, 0), ts, ssrc, frame_end && en == len);
    assert(p0 =~= rtp_header_bytes(h) + seq![fu_indicator_byte(b), fu_header_byte(b, 0, en == len)]
        + nalu.subrange(st, en));
    assert(p0[12] == (b & 0xe0u8) | 28u8);
    assert(p0[13] == 0x80u8 | (b & 0x1fu8));
    assert((((b & 0xe0u8) | 28u8) & 0xe0u8) | ((0x80u8 | (b & 0x1fu8)) & 0x1fu8) == b) by (bit_vector);
    assert(fua_reassemble(ps) =~= nalu);
}

proof fn lemma_seq_add_add(s: u16, a: int, b: int)
    requires
        a >= 0,
        b >= 0,
    ensures
        seq_add(seq_add(s, a), b) == seq_add(s, a + b),
{
    lemma_add_mod_noop_right(b, s as int + a, 0x10000);
    assert(seq_add(s, a) as int == (s as int + a) % 0x10000);
}

proof fn lemma_fua_count_bounds(len: int)
    requires
        len + 12 > MTU_SIZE,
    ensures
        fua_count(len) >= 2,
{
    let n = fua_count(len);
    assert(n >= 2) by (nonlinear_arith)
        requires
            n == (len - 1 + 1285) / 1286,
            len > 1288,
    ;
}

/// Every packet of one NAL unit fits the MTU and carries a version-2 video
/// header with sequence number `seq + i`; only the last, and only when the
/// unit ends the frame, carries the marker.
proof fn lemma_nalu_packets_headers(nalu: Seq<u8>, seq: u16, ts: u32, ssrc: u32, frame_end: bool)
    requires
        nalu.len() >= 1,
    ensures
        nalu_packets(nalu, seq, ts, ssrc, frame_end).len() >= 1,
        forall|i: int|
            0 <= i < nalu_packets(nalu, seq, ts, ssrc, frame_end).len() ==> {
                let p = #[trigger] nalu_packets(nalu, seq, ts, ssrc, frame_end)[i];
                &&& p.len() <= MTU_SIZE
                &&& is_video_rtp_packet(p, ts, ssrc)
                &&& rtp_header_of(p).sequence_number == seq_add(seq, i)
                &&& rtp_header_of(p).marker == (frame_end && i == nalu_packets(nalu, seq, ts, ssrc, frame_end).len()
                    - 1)
                &&& rtp_header_of(p) == rtp_header_spec(
                    VIDEO_PAYLOAD_TYPE,
                    seq_add(seq, i),
                    ts,
                    ssrc,
                    frame_end && i == nalu_packets(nalu, seq, ts, ssrc, frame_end).len() - 1,
                )
            },
{
    let ps = nalu_packets(nalu, seq, ts, ssrc, frame_end);
    if nalu.len() + 12 <= MTU_SIZE {
        lemma_header_prefix(rtp_header_spec(VIDEO_PAYLOAD_TYPE, seq, ts, ssrc, frame_end), nalu);
        assert(seq_add(seq, 0) == seq);
    } else {
        let len = nalu.len() as int;
        let n = fua_count(len);
        lemma_fua_count_bounds(len);
        assert forall|i: int| 0 <= i < ps.len() implies {
            let p = #[trigger] ps[i];
            &&& p.len() <= MTU_SIZE
            &&& is_video_rtp_packet(p, ts, ssrc)
            &&& rtp_header_of(p).sequence_number == seq_add(seq, i)
            &&& rtp_header_of(p).marker == (frame_end && i == ps.len() - 1)
            &&& rtp_header_of(p) == rtp_header_spec(VIDEO_PAYLOAD_TYPE, seq_add(seq, i), ts, ssrc, frame_end && i
                == ps.len() - 1)
        } by {
            let (st, en) = fua_range(len, i);
            let last = en == len;
            assert(i * 1286 < len - 1 && (last <==> i == n - 1)) by (nonlinear_arith)
                requires
                    0 <= i < n,
                    n == (len - 1 + 1285) / 1286,
                    len >= 2,
                    st == 1 + i * 1286,
                    en == (if st + 1286 < len { st + 1286 } else { len }),
                    last == (en == len),
            ;
            let h = rtp_header_spec(VIDEO_PAYLOAD_TYPE, seq_add(seq, i), ts, ssrc, frame_end && last);
            let rest = seq![fu_indicator_byte(nalu[0]), fu_header_byte(nalu[0], i, last)] + nalu.subrange(st, en);
            assert(ps[i] == fua_packet(nalu, seq, ts, ssrc, frame_end, i));
            assert(fua_packet(nalu, seq, ts, ssrc, frame_end, i) =~= rtp_header_bytes(h) + rest);
            lemma_header_prefix(h, rest);
        }
    }
}

/// Every NAL unit from `i` on is non-empty and holds no start code.
proof fn lemma_units_from_wellformed(d: Seq<u8>, i: int)
    requires
        0 <= i <= d.len(),
    ensures
        forall|k: int|
            0 <= k < units_from(d, i).len() ==> {
                let u = #[trigger] units_from(d, i)[k];
                &&& u.len() >= 1
                &&& forall|j: int| 0 <= j < u.len() ==> !code_at(u, j)
            },
    decreases d.len() - i,
{
    if i < d.len() {
        let e = next_code(d, i);
        lemma_next_code(d, i);
        let a = after_code(d, i);
        lemma_units_from_wellformed(d, a);
        let head: Seq<Seq<u8>> = if i < e {
            seq![d.subrange(i, e)]
        } else {
            Seq::empty()
        };
        let rest = units_from(d, a);
        assert(units_from(d, i) == head + rest);
        if i < e {
            let u = d.subrange(i, e);
            assert forall|j: int| 0 <= j < u.len() implies !code_at(u, j) by {
                assert(!code_at(d, i + j));
                if crate::packetize::code3_at(u, j) {
                    assert(crate::packetize::code3_at(d, i + j));
                }
                if crate::packetize::code4_at(u, j) {
                    assert(crate::packetize::code4_at(d, i + j));
                }
            }
        }
        assert forall|k: int| 0 <= k < (head + rest).len() implies {
            let u = #[trigger] (head + rest)[k];
            &&& u.len() >= 1
            &&& forall|j: int| 0 <= j < u.len() ==> !code_at(u, j)
        } by {
            if k < head.len() {
                assert((head + rest)[k] == head[k]);
            } else {
                assert((head + rest)[k] == rest[k - head.len()]);
            }
        }
    }
}

/// The NAL units of a frame are the non-empty runs between its start codes:
/// none is empty and none holds a start code; a frame without start codes is
/// a single unit.
pub proof fn lemma_nal_units_wellformed(data: Seq<u8>)
    ensures
        forall|k: int|
            0 <= k < nal_units(data).len() ==> {
                let u = #[trigger] nal_units(data)[k];
                &&& u.len() >= 1
                &&& forall|j: int| 0 <= j < u.len() ==> !code_at(u, j)
            },
        data.len() > 0 && (forall|j: int| 0 <= j < data.len() ==> !code_at(data, j)) ==> nal_units(data) == seq![data],
{
    lemma_units_from_wellformed(data, 0);
    if data.len() > 0 && (forall|j: int| 0 <= j < data.len() ==> !code_at(data, j)) {
        lemma_next_code(data, 0);
        assert(next_code(data, 0) == data.len());
        assert(units_from(data, data.len() as int) =~= Seq::<Seq<u8>>::empty());
        assert(data.subrange(0, data.len() as int) =~= data);
        assert(nal_units(data) =~= seq![data]);
    }
}

/// Every NAL unit in `us` is non-empty.
pub open spec fn units_nonempty(us: Seq<Seq<u8>>) -> bool {
    forall|k: int| 0 <= k < us.len() ==> (#[trigger] us[k]).len() >= 1
}

proof fn lemma_units_packets_headers(us: Seq<Seq<u8>>, j: int, seq: u16, ts: u32, ssrc: u32)
    requires
        0 <= j <= us.len(),
        units_nonempty(us),
    ensures
        j < us.len() ==> units_packets(us, j, seq, ts, ssrc).len() >= 1,
        forall|i: int|
            0 <= i < units_packets(us, j, seq, ts, ssrc).len() ==> {
                let p = #[trigger] units_packets(us, j, seq, ts, ssrc)[i];
                &&& p.len() <= MTU_SIZE
                &&& is_video_rtp_packet(p, ts, ssrc)
                &&& rtp_header_of(p).sequence_number == seq_add(seq, i)
                &&& rtp_header_of(p).marker == (i == units_packets(us, j, seq, ts, ssrc).len() - 1)
                &&& rtp_header_of(p) == rtp_header_spec(
                    VIDEO_PAYLOAD_TYPE,
                    seq_add(seq, i),
                    ts,
                    ssrc,
                    i == units_packets(us, j, seq, ts, ssrc).len() - 1,
                )
            },
    decreases us.len() - j,
{
    if j < us.len() {
        let last = j == us.len() - 1;
        let here = nalu_packets(us[j], seq, ts, ssrc, last);
        let h = here.len() as int;
        let next = seq_add(seq, h);
        let rest = units_packets(us, j + 1, next, ts, ssrc);
        assert(us[j].len() >= 1);
        lemma_nalu_packets_headers(us[j], seq, ts, ssrc, last);
        lemma_units_packets_headers(us, j + 1, next, ts, ssrc);
        let all = units_packets(us, j, seq, ts, ssrc);
        assert(all == here + rest);
        if last {
            assert(rest.len() == 0);
        }
        assert forall|i: int| 0 <= i < all.len() implies {
            let p = #[trigger] all[i];
            &&& p.len() <= MTU_SIZE
            &&& is_video_rtp_packet(p, ts, ssrc)
            &&& rtp_header_of(p).sequence_number == seq_add(seq, i)
            &&& rtp_header_of(p).marker == (i == all.len() - 1)
            &&& rtp_header_of(p) == rtp_header_spec(VIDEO_PAYLOAD_TYPE, seq_add(seq, i), ts, ssrc, i == all.len()
                - 1)
        } by {
            if i < h {
                assert(all[i] == here[i]);
            } else {
                assert(all[i] == rest[i - h]);
                lemma_seq_add_add(seq, h, i - h);
            }
        }
    }
}

/// Every packet of a frame fits the MTU and begins with a version-2 RTP
/// header of the video payload type carrying the frame's timestamp and SSRC;
/// packet `i` carries sequence number `seq + i` (modulo 2^16), and only the
/// frame's last packet carries the marker bit.
pub proof fn lemma_video_packets_wellformed(data: Seq<u8>, seq: u16, timestamp_us: u64, ssrc: u32)
    ensures
        forall|i: int|
            0 <= i < video_packets(data, seq, timestamp_us, ssrc).len() ==> {
                let p = #[trigger] video_packets(data, seq, timestamp_us, ssrc)[i];
                &&& p.len() <= MTU_SIZE
                &&& is_video_rtp_packet(p, rtp_timestamp(timestamp_us), ssrc)
                &&& rtp_header_of(p).sequence_number == seq_add(seq, i)
                &&& rtp_header_of(p).marker == (i == video_packets(data, seq, timestamp_us, ssrc).len() - 1)
            },
        nal_units(data).len() > 0 ==> video_packets(data, seq, timestamp_us, ssrc).len() >= 1,
{
    lemma_units_from_wellformed(data, 0);
    lemma_units_packets_headers(nal_units(data), 0, seq, rtp_timestamp(timestamp_us), ssrc);
}

/// The packets of each NAL unit of `us[j..]`, one group per unit, in the order
/// they are sent.
pub open spec fn units_packet_groups(us: Seq<Seq<u8>>, j: int, seq: u16, ts: u32, ssrc: u32) -> Seq<
    Seq<Seq<u8>>,
>
    decreases us.len() - j,
{
    if 0 <= j < us.len() {
        let ps = nalu_packets(us[j], seq, ts, ssrc, j == us.len() - 1);
        seq![ps] + units_packet_groups(us, j + 1, seq_add(seq, ps.len() as int), ts, ssrc)
    } else {
        Seq::empty()
    }
}

/// The NAL unit a group of packets carries: the payload of a lone packet, or
/// the reassembly of a run of FU-A fragments.
pub open spec fn group_payload(g: Seq<Seq<u8>>) -> Seq<u8> {
    if g.len() == 1 {
        g[0].subrange(12, g[0].len() as int)
    } else {
        fua_reassemble(g)
    }
}

proof fn lemma_flatten_cons<A>(x: Seq<A>, rest: Seq<Seq<A>>)
    ensures
        (seq![x] + rest).flatten() == x + rest.flatten(),
{
    assert((seq![x] + rest).drop_first() =~= rest);
}

proof fn lemma_nalu_group_payload(nalu: Seq<u8>, seq: u16, ts: u32, ssrc: u32, frame_end: bool)
    requires
        nalu.len() >= 1,
    ensures
        group_payload(nalu_packets(nalu, seq, ts, ssrc, frame_end)) == nalu,
{
    if nalu.len() + 12 <= MTU_SIZE {
        let p = rtp_header_bytes(rtp_header_spec(VIDEO_PAYLOAD_TYPE, seq, ts, ssrc, frame_end)) + nalu;
        assert(p.subrange(12, p.len() as int) =~= nalu);
    } else {
        lemma_fua_count_bounds(nalu.len() as int);
        lemma_fua_lossless(nalu, seq, ts, ssrc, frame_end);
    }
}

#[verifier::spinoff_prover]
proof fn lemma_groups_from(us: Seq<Seq<u8>>, j: int, seq: u16, ts: u32, ssrc: u32)
    requires
        0 <= j <= us.len(),
        units_nonempty(us),
    ensures
        units_packet_groups(us, j, seq, ts, ssrc).flatten() == units_packets(us, j, seq, ts, ssrc),
        units_packet_groups(us, j, seq, ts, ssrc).map_values(|g: Seq<Seq<u8>>| group_payload(g)) == us.subrange(
            j,
            us.len() as int,
        ),
    decreases us.len() - j,
{
    let groups = units_packet_groups(us, j, seq, ts, ssrc);
    if j < us.len() {
        let here = nalu_packets(us[j], seq, ts, ssrc, j == us.len() - 1);
        let next = seq_add(seq, here.len() as int);
        let rest = units_packet_groups(us, j + 1, next, ts, ssrc);
        lemma_groups_from(us, j + 1, next, ts, ssrc);
        assert(groups == seq![here] + rest);
        lemma_flatten_cons(here, rest);
        assert(units_packets(us, j, seq, ts, ssrc) == here + units_packets(us, j + 1, next, ts, ssrc));
        assert(us[j].len() >= 1);
        lemma_nalu_group_payload(us[j], seq, ts, ssrc, j == us.len() - 1);
        let m = groups.map_values(|g: Seq<Seq<u8>>| group_payload(g));
        let mr = rest.map_values(|g: Seq<Seq<u8>>| group_payload(g));
        assert(mr == us.subrange(j + 1, us.len() as int));
        assert(m =~= seq![us[j]] + mr);
        assert(seq![us[j]] + us.subrange(j + 1, us.len() as int) =~= us.subrange(j, us.len() as int));
    } else {
        assert(groups.map_values(|g: Seq<Seq<u8>>| group_payload(g)) =~= us.subrange(j, us.len() as int));
    }
}

/// Packetizing loses nothing of the NAL units: the packets of a frame fall
/// into one group per NAL unit, in order, and each group gives its unit back
/// (a lone packet's payload, or the FU-A reassembly).
pub proof fn lemma_video_frame_lossless(data: Seq<u8>, seq: u16, timestamp_us: u64, ssrc: u32)
    ensures
        units_packet_groups(nal_units(data), 0, seq, rtp_timestamp(timestamp_us), ssrc).flatten() == video_packets(
            data,
            seq,
            timestamp_us,
            ssrc,
        ),
        units_packet_groups(nal_units(data), 0, seq, rtp_timestamp(timestamp_us), ssrc).map_values(
            |g: Seq<Seq<u8>>| group_payload(g),
        ) == nal_units(data),
{
    let us = nal_units(data);
    lemma_units_from_wellformed(data, 0);
    lemma_groups_from(us, 0, seq, rtp_timestamp(timestamp_us), ssrc);
    assert(us.subrange(0, us.len() as int) =~= us);
}

/// The number the four bytes of `p` from `at` on spell in network byte order.
pub open spec fn wire_u32(p: Seq<u8>, at: int) -> int {
    p[at] * 0x1000000 + p[at + 1] * 0x10000 + p[at + 2] * 0x100 + p[at + 3]
}

/// The first twelve bytes of a packet whose decoded header is a plain
/// version-2 header, read back as numbers.
proof fn lemma_header_wire(p: Seq<u8>, h: RtpHeader)
    requires
        p.len() >= 12,
        rtp_header_of(p) == h,
        h.version == 2,
        !h.padding,
        !h.extension,
        h.csrc_count == 0,
    ensures
        p[0] == 0x80,
        p[1] == (if h.marker { 0x80int } else { 0int }) + h.payload_type,
        p[2] * 0x100 + p[3] == h.sequence_number,
        wire_u32(p, 4) == h.timestamp,
        wire_u32(p, 8) == h.ssrc,
{
    let (b0, b1) = (p[0], p[1]);
    assert(b0 >> 6u8 == 2 && (b0 & 0x20u8) == 0 && (b0 & 0x10u8) == 0 && b0 & 0x0fu8 == 0 ==> b0 == 0x80u8)
        by (bit_vector);
    assert(b1 == (if (b1 & 0x80u8) != 0 { 0x80u8 } else { 0u8 }) + (b1 & 0x7fu8)) by (bit_vector);
    let (s0, s1) = (p[2], p[3]);
    assert(be16(s0, s1) == s0 as u16 * 0x100 + s1 as u16) by (bit_vector);
    let (t0, t1, t2, t3) = (p[4], p[5], p[6], p[7]);
    assert(be32(t0, t1, t2, t3) == t0 as u32 * 0x1000000 + t1 as u32 * 0x10000 + t2 as u32 * 0x100 + t3 as u32)
        by (bit_vector);
    let (c0, c1, c2, c3) = (p[8], p[9], p[10], p[11]);
    assert(be32(c0, c1, c2, c3) == c0 as u32 * 0x1000000 + c1 as u32 * 0x10000 + c2 as u32 * 0x100 + c3 as u32)
        by (bit_vector);
}

/// The RTP timestamp of a frame is its time in milliseconds, truncated to
/// 32 bits.
proof fn lemma_rtp_timestamp_millis(timestamp_us: u64)
    ensures
        rtp_timestamp(timestamp_us) as int == (timestamp_us as int / 1000) % 0x1_0000_0000,
{
    let q: u64 = timestamp_us / 1000;
    assert(q as u32 == q % 0x1_0000_0000) by (bit_vector);
}

/// On the wire, packet `i` of a frame with `n` packets starts with `80`, then
/// `E0` when it is the last packet (marker and payload type 96) and `60`
/// otherwise, then the sequence number `seq + i`, the frame's time in
/// milliseconds and the SSRC, each in network byte order and truncated to its
/// field (16, 32 and 32 bits); and it fits the 1300-byte MTU.
pub proof fn lemma_video_packets_on_wire(data: Seq<u8>, seq: u16, timestamp_us: u64, ssrc: u32)
    ensures
        forall|i: int|
            0 <= i < video_packets(data, seq, timestamp_us, ssrc).len() ==> {
                let p = #[trigger] video_packets(data, seq, timestamp_us, ssrc)[i];
                &&& 12 <= p.len() <= 1300
                &&& p[0] == 0x80
                &&& p[1] == (if i == video_packets(data, seq, timestamp_us, ssrc).len() - 1 {
                    0xe0int
                } else {
                    0x60int
                })
                &&& p[2] * 0x100 + p[3] == (seq + i) % 0x10000
                &&& wire_u32(p, 4) == (timestamp_us / 1000) % 0x1_0000_0000
                &&& wire_u32(p, 8) == ssrc
            },
{
    let ts = rtp_timestamp(timestamp_us);
    let ps = video_packets(data, seq, timestamp_us, ssrc);
    lemma_units_from_wellformed(data, 0);
    lemma_units_packets_headers(nal_units(data), 0, seq, ts, ssrc);
    lemma_rtp_timestamp_millis(timestamp_us);
    assert forall|i: int| 0 <= i < ps.len() implies {
        let p = #[trigger] ps[i];
        &&& 12 <= p.len() <= 1300
        &&& p[0] == 0x80
        &&& p[1] == (if i == ps.len() - 1 {
            0xe0int
        } else {
            0x60int
        })
        &&& p[2] * 0x100 + p[3] == (seq + i) % 0x10000
        &&& wire_u32(p, 4) == (timestamp_us / 1000) % 0x1_0000_0000
        &&& wire_u32(p, 8) == ssrc
    } by {
        let h = rtp_header_spec(VIDEO_PAYLOAD_TYPE, seq_add(seq, i), ts, ssrc, i == ps.len() - 1);
        lemma_header_wire(ps[i], h);
        assert(seq_add(seq, i) as int == (seq + i) % 0x10000);
    }
}

/// An audio frame travels whole in one packet: the 12-byte header `80 E1`
/// (marker and payload type 97), the sequence number, the frame's time in
/// milliseconds truncated to 32 bits and the SSRC, then every byte of the
/// frame.
pub proof fn lemma_audio_packet_on_wire(data: Seq<u8>, seq: u16, timestamp_us: u64, ssrc: u32)
    ensures
        audio_packet(data, seq, timestamp_us, ssrc).len() == data.len() + 12,
        audio_packet(data, seq, timestamp_us, ssrc).subrange(12, data.len() + 12int) == data,
        audio_packet(data, seq, timestamp_us, ssrc)[0] == 0x80,
        audio_packet(data, seq, timestamp_us, ssrc)[1] == 0xe1,
        audio_packet(data, seq, timestamp_us, ssrc)[2] * 0x100 + audio_packet(data, seq, timestamp_us, ssrc)[3]
            == seq,
        wire_u32(audio_packet(data, seq, timestamp_us, ssrc), 4) == (timestamp_us / 1000) % 0x1_0000_0000,
        wire_u32(audio_packet(data, seq, timestamp_us, ssrc), 8) == ssrc,
{
    let h = rtp_header_spec(AUDIO_PAYLOAD_TYPE, seq, rtp_timestamp(timestamp_us), ssrc, true);
    let p = audio_packet(data, seq, timestamp_us, ssrc);
    lemma_header_prefix(h, data);
    assert(p == rtp_header_bytes(h) + data);
    assert(p.subrange(12, data.len() + 12int) =~= data);
    lemma_header_wire(p, h);
    lemma_rtp_timestamp_millis(timestamp_us);
}

/// How one NAL unit of `n` bytes is carried. With at most 1288 bytes it
/// travels as one packet: the 12-byte header and the unit. A longer unit is
/// cut into `ceil((n - 1) / 1286)` FU-A fragments: fragment `k` carries the
/// unit's bytes `1 + 1286·k` up to 1286 further (the last one the rest), so
/// every fragment but the last fills the 1300-byte MTU; byte 12 is the FU
/// indicator (F and NRI of the unit's first byte, type 28) and byte 13 the FU
/// header (the start bit 0x80 on the first fragment only, the end bit 0x40 on
/// the last only, then the unit's type).
pub proof fn lemma_nalu_fragments(nalu: Seq<u8>, seq: u16, ts: u32, ssrc: u32, frame_end: bool)
    requires
        nalu.len() >= 1,
    ensures
        nalu.len() <= 1288 ==> {
            let ps = nalu_packets(nalu, seq, ts, ssrc, frame_end);
            &&& ps.len() == 1
            &&& ps[0].len() == nalu.len() + 12
            &&& ps[0].subrange(12, nalu.len() + 12int) == nalu
        },
        nalu.len() > 1288 ==> {
            let ps = nalu_packets(nalu, seq, ts, ssrc, frame_end);
            &&& ps.len() == (nalu.len() - 1 + 1285) / 1286
            &&& forall|k: int|
                0 <= k < ps.len() ==> {
                    let size = if k < ps.len() - 1 {
                        1286
                    } else {
                        nalu.len() - 1 - 1286 * k
                    };
                    &&& (#[trigger] ps[k]).len() == 14 + size
                    &&& ps[k].subrange(14, 14 + size) == nalu.subrange(1 + 1286 * k, 1 + 1286 * k + size)
                    &&& ps[k][12] == (nalu[0] & 0xe0u8) | 28u8
                    &&& ps[k][13] == (if k == 0 {
                        0x80u8
                    } else if k == ps.len() - 1 {
                        0x40u8
                    } else {
                        0u8
                    }) | (nalu[0] & 0x1fu8)
                }
        },
{
    let ps = nalu_packets(nalu, seq, ts, ssrc, frame_end);
    let len = nalu.len() as int;
    if len <= 1288 {
        let p = ps[0];
        assert(p.subrange(12, len + 12) =~= nalu);
    } else {
        let n = fua_count(len);
        lemma_fua_count_bounds(len);
        assert forall|k: int| 0 <= k < ps.len() implies {
            let size = if k < ps.len() - 1 {
                1286
            } else {
                nalu.len() - 1 - 1286 * k
            };
            &&& (#[trigger] ps[k]).len() == 14 + size
            &&& ps[k].subrange(14, 14 + size) == nalu.subrange(1 + 1286 * k, 1 + 1286 * k + size)
            &&& ps[k][12] == (nalu[0] & 0xe0u8) | 28u8
            &&& ps[k][13] == (if k == 0 {
                0x80u8
            } else if k == ps.len() - 1 {
                0x40u8
            } else {
                0u8
            }) | (nalu[0] & 0x1fu8)
        } by {
            let (st, en) = fua_range(len, k);
            let last = en == len;
            assert(st == 1 + 1286 * k);
            assert((k < n - 1 ==> st + 1286 < len) && (k == n - 1 ==> st + 1286 >= len) && st < len)
                by (nonlinear_arith)
                requires
                    0 <= k < n,
                    n == (len - 1 + 1285) / 1286,
                    len > 1288,
                    st == 1 + 1286 * k,
            ;
            let size = if k < ps.len() - 1 {
                1286
            } else {
                len - 1 - 1286 * k
            };
            assert(en - st == size);
            let h = rtp_header_spec(VIDEO_PAYLOAD_TYPE, seq_add(seq, k), ts, ssrc, frame_end && last);
            let p = ps[k];
            assert(p == fua_packet(nalu, seq, ts, ssrc, frame_end, k));
            assert(p =~= rtp_header_bytes(h) + seq![fu_indicator_byte(nalu[0]), fu_header_byte(nalu[0], k, last)]
                + nalu.subrange(st, en));
            assert(p.subrange(14, 14 + size) =~= nalu.subrange(st, en));
            let b = nalu[0];
            assert(0u8 | (b & 0x1fu8) == b & 0x1fu8) by (bit_vector);
        }
    }
}

} // verus!
