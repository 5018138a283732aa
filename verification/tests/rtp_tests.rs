use catremote::rtp::{NaluHeader, RtpHeader};

#[test]
fn rtp_header_new_defaults() {
    let h = RtpHeader::new(96, 7, 1234, 0xdeadbeef, true);
    assert_eq!(h.version, 2);
    assert!(!h.padding);
    assert!(!h.extension);
    assert_eq!(h.csrc_count, 0);
    assert!(h.marker);
    assert_eq!(h.payload_type, 96);
    assert_eq!(h.sequence_number, 7);
    assert_eq!(h.timestamp, 1234);
    assert_eq!(h.ssrc, 0xdeadbeef);
}

#[test]
fn rtp_header_encode_bytes() {
    let h = RtpHeader::new(96, 0x0102, 0x03040506, 0x0708090a, true);
    assert_eq!(
        h.encode(),
        [0x80, 0xe0, 0x01, 0x02, 0x03, 0x04, 0x05, 0x06, 0x07, 0x08, 0x09, 0x0a]
    );
    let h = RtpHeader::new(97, 0xffff, 0, 1, false);
    assert_eq!(h.encode(), [0x80, 0x61, 0xff, 0xff, 0, 0, 0, 0, 0, 0, 0, 1]);
}

#[test]
fn rtp_header_decode_fields() {
    let data = [0xb3u8, 0xe0, 0x12, 0x34, 0, 0, 0x01, 0x00, 0xff, 0xee, 0xdd, 0xcc, 0x99];
    let h = RtpHeader::decode(&data).unwrap();
    assert_eq!(h.version, 2);
    assert!(h.padding);
    assert!(h.extension);
    assert_eq!(h.csrc_count, 3);
    assert!(h.marker);
    assert_eq!(h.payload_type, 0x60);
    assert_eq!(h.sequence_number, 0x1234);
    assert_eq!(h.timestamp, 256);
    assert_eq!(h.ssrc, 0xffeeddcc);
}

#[test]
fn rtp_header_decode_short_input() {
    assert!(RtpHeader::decode(&[0u8; 11]).is_none());
    assert!(RtpHeader::decode(&[]).is_none());
}

#[test]
fn rtp_header_roundtrip() {
    let h = RtpHeader {
        version: 2,
        padding: true,
        extension: false,
        csrc_count: 15,
        marker: false,
        payload_type: 127,
        sequence_number: 65535,
        timestamp: u32::MAX,
        ssrc: 42,
    };
    let d = RtpHeader::decode(&h.encode()).unwrap();
    assert_eq!(d.version, h.version);
    assert_eq!(d.padding, h.padding);
    assert_eq!(d.extension, h.extension);
    assert_eq!(d.csrc_count, h.csrc_count);
    assert_eq!(d.marker, h.marker);
    assert_eq!(d.payload_type, h.payload_type);
    assert_eq!(d.sequence_number, h.sequence_number);
    assert_eq!(d.timestamp, h.timestamp);
    assert_eq!(d.ssrc, h.ssrc);
    let bytes = [0x5au8, 0xa5, 1, 2, 3, 4, 5, 6, 7, 8, 9, 10];
    assert_eq!(RtpHeader::decode(&bytes).unwrap().encode(), bytes);
}

#[test]
fn nalu_header_fields() {
    let h = NaluHeader::from_byte(0x67);
    assert!(!h.forbidden_zero_bit);
    assert_eq!(h.nal_ref_idc, 3);
    assert_eq!(h.nal_unit_type, 7);
    let h = NaluHeader::from_byte(0x85);
    assert!(h.forbidden_zero_bit);
    assert_eq!(h.nal_ref_idc, 0);
    assert_eq!(h.nal_unit_type, 5);
}
