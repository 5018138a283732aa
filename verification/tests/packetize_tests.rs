use catremote::packetize::{find_next_nalu, packetize_audio_frame, packetize_video_frame};
use catremote::rtp::{RtpHeader, MTU_SIZE};

#[test]
fn find_next_nalu_three_and_four_byte_codes() {
    let data = [0x65u8, 0x11, 0x00, 0x00, 0x01, 0x41, 0x22, 0x33];
    assert_eq!(find_next_nalu(&data, 0), Some(2));
    assert_eq!(find_next_nalu(&data, 3), None);
    let data = [0x65u8, 0x00, 0x00, 0x00, 0x01, 0x41, 0x22];
    assert_eq!(find_next_nalu(&data, 1), Some(1));
    // a start code in the last three bytes is not looked at
    let data = [0x65u8, 0x22, 0x00, 0x00, 0x01];
    assert_eq!(find_next_nalu(&data, 0), None);
    assert_eq!(find_next_nalu(&[], 0), None);
    assert_eq!(find_next_nalu(&[0, 0, 1, 7], 5), None);
}

#[test]
fn video_frame_small_nalus() {
    let data = [0u8, 0, 1, 0x67, 0xaa, 0xab, 0, 0, 1, 0x68, 0xbb, 0xcc, 0xdd];
    let packets = packetize_video_frame(&data, 10, 90_000, 0x11223344);
    assert_eq!(packets.len(), 2);
    let first = &packets[0][..];
    let h0 = RtpHeader::decode(first).unwrap();
    assert_eq!(h0.payload_type, 96);
    assert_eq!(h0.sequence_number, 10);
    assert_eq!(h0.timestamp, 90);
    assert_eq!(h0.ssrc, 0x11223344);
    assert!(!h0.marker);
    assert_eq!(&first[12..], &data[3..6]);
    let second = &packets[1][..];
    let h1 = RtpHeader::decode(second).unwrap();
    assert_eq!(h1.sequence_number, 11);
    assert!(h1.marker);
    assert_eq!(&second[12..], &data[9..]);
}

#[test]
fn video_frame_four_byte_start_code_is_stripped() {
    let data = [0u8, 0, 0, 1, 0x67, 0xaa, 0, 0, 1, 0x68, 0xbb, 0xcc, 0xdd];
    let packets = packetize_video_frame(&data, 0, 0, 0);
    assert_eq!(packets.len(), 2);
    assert_eq!(&packets[0][12..], &data[4..6]);
    assert_eq!(&packets[1][12..], &data[9..]);
    // empty runs between adjacent start codes give no unit
    let data = [0u8, 0, 1, 0, 0, 0, 1, 0x41, 0x05, 0, 0, 1];
    let packets = packetize_video_frame(&data, 0, 0, 0);
    assert_eq!(packets.len(), 1);
    assert_eq!(&packets[0][12..], &[0x41u8, 0x05][..]);
    assert!(RtpHeader::decode(&packets[0][..]).unwrap().marker);
}

#[test]
fn video_frame_without_start_codes_is_one_packet() {
    let data = [0x41u8, 1, 2, 3];
    let packets = packetize_video_frame(&data, 65535, 1_999, 5);
    assert_eq!(packets.len(), 1);
    let h = RtpHeader::decode(&packets[0][..]).unwrap();
    assert_eq!(h.sequence_number, 65535);
    assert_eq!(h.timestamp, 1);
    assert!(h.marker);
    assert_eq!(&packets[0][12..], &data[..]);
}

#[test]
fn video_frame_empty() {
    assert!(packetize_video_frame(&[], 0, 0, 0).is_empty());
}

#[test]
fn video_frame_large_nalu_uses_fua() {
    let mut data = vec![0x65u8];
    for i in 0..3000u32 {
        data.push((i % 251) as u8 + 1);
    }
    let packets = packetize_video_frame(&data, 100, 5_000, 9);
    // 3000 fragment bytes at 1286 per packet
    assert_eq!(packets.len(), 3);
    let mut rebuilt = Vec::new();
    for (k, p) in packets.iter().enumerate() {
        assert!(p.len() <= MTU_SIZE);
        let h = RtpHeader::decode(&p[..]).unwrap();
        assert_eq!(h.sequence_number, 100 + k as u16);
        assert_eq!(h.timestamp, 5);
        assert_eq!(h.marker, k == 2);
        assert_eq!(p[12], (0x65 & 0xe0) | 28);
        let expected_header = match k {
            0 => 0x80 | 0x05,
            2 => 0x40 | 0x05,
            _ => 0x05,
        };
        assert_eq!(p[13], expected_header);
        rebuilt.extend_from_slice(&p[14..]);
    }
    assert_eq!(packets[0].len(), 1300);
    assert_eq!(packets[2].len(), 14 + 3000 - 2 * 1286);
    assert_eq!(&rebuilt[..], &data[1..]);
}

#[test]
fn video_frame_nalu_exactly_filling_mtu() {
    let data = vec![0x41u8; 1288];
    let packets = packetize_video_frame(&data, 0, 0, 0);
    assert_eq!(packets.len(), 1);
    assert_eq!(packets[0].len(), 1300);
    let data = vec![0x41u8; 1289];
    let packets = packetize_video_frame(&data, 0, 0, 0);
    assert_eq!(packets.len(), 2);
    assert_eq!(packets[1].len(), 14 + 2);
}

#[test]
fn audio_frame_packet() {
    let data = [9u8, 8, 7];
    let p = packetize_audio_frame(&data, 3, 20_000, 77);
    let h = RtpHeader::decode(&p[..]).unwrap();
    assert_eq!(h.payload_type, 97);
    assert_eq!(h.sequence_number, 3);
    assert_eq!(h.timestamp, 20);
    assert_eq!(h.ssrc, 77);
    assert!(h.marker);
    assert_eq!(&p[12..], &data[..]);
    assert_eq!(p.len(), 15);
}

#[test]
fn video_frame_reassembles_to_the_frame() {
    // a large unit (fragmented) followed by a small one (single packet)
    let mut first_unit = vec![0x65u8];
    for i in 0..2000u32 {
        first_unit.push((i % 200) as u8 + 2);
    }
    let second_unit = [0x41u8, 0x9a, 0x1b];
    let mut data = vec![0u8, 0, 1];
    data.extend_from_slice(&first_unit);
    data.extend_from_slice(&[0, 0, 0, 1]);
    data.extend_from_slice(&second_unit);
    let packets = packetize_video_frame(&data, 7, 0, 1);
    assert_eq!(packets.len(), 3);
    // group of the first unit: FU-A fragments
    let first = &packets[0];
    assert_eq!(first[12], (0x65 & 0xe0) | 28);
    let mut unit = vec![(first[12] & 0xe0) | (first[13] & 0x1f)];
    for p in &packets[..2] {
        unit.extend_from_slice(&p[14..]);
    }
    assert_eq!(unit, first_unit);
    // group of the second unit: one packet
    assert_eq!(&packets[2][12..], &second_unit[..]);
    let headers: Vec<RtpHeader> = packets.iter().map(|p| RtpHeader::decode(&p[..]).unwrap()).collect();
    let seqs: Vec<u16> = headers.iter().map(|h| h.sequence_number).collect();
    assert_eq!(seqs, vec![7, 8, 9]);
    let markers: Vec<bool> = headers.iter().map(|h| h.marker).collect();
    assert_eq!(markers, vec![false, false, true]);
}

#[test]
fn video_frame_sequence_numbers_wrap() {
    let mut data = vec![0x65u8; 1500];
    data.extend_from_slice(&[0, 0, 1, 0x41]);
    let packets = packetize_video_frame(&data, 65535, 0, 0);
    let seqs: Vec<u16> = packets.iter().map(|p| RtpHeader::decode(&p[..]).unwrap().sequence_number).collect();
    assert_eq!(seqs, vec![65535, 0, 1]);
}
