use rspc::frame::{
    FrameError, FrameFlag, ReplyFlag, ReplyFlagBit, ReplyHeader, RequestFlag, RequestFlagBit,
    RequestHeader, FLAG_EOS_MASK, FLAG_FIRST_MASK, FLAG_SIGNAL_MASK,
};

#[test]
fn request_header_roundtrip() {
    let h = RequestHeader::new(
        0xDEAD_BEEF,
        RequestFlag::decode(FLAG_FIRST_MASK | FLAG_EOS_MASK),
        0x0102_0304,
        0xFFFF_FFFF,
    );
    let bytes = h.encode_to_array();
    let decoded = RequestHeader::decode(&bytes).unwrap();
    assert_eq!(decoded, h);
}

#[test]
fn reply_header_roundtrip() {
    let h = ReplyHeader::new(42, ReplyFlag::decode(FLAG_EOS_MASK), 7, 13);
    let bytes = h.encode_to_array();
    let decoded = ReplyHeader::decode(&bytes).unwrap();
    assert_eq!(decoded, h);
}

#[test]
fn decode_short_buffer_fails() {
    let buf = [0u8; 15];
    assert_eq!(
        RequestHeader::decode(&buf),
        Err(FrameError::DecodeBufNotEnough)
    );
    assert_eq!(
        ReplyHeader::decode(&buf),
        Err(FrameError::DecodeBufNotEnough)
    );
    assert_eq!(
        RequestHeader::decode(&[]),
        Err(FrameError::DecodeBufNotEnough)
    );
}

#[test]
fn decode_is_total_on_16_bytes() {
    let buf = [0xFFu8; 16];
    let h = RequestHeader::decode(&buf).unwrap();
    assert_eq!(h.request_id, u32::MAX);
    assert_eq!(h.flag.flag, u32::MAX);
    assert_eq!(h.method_id, u32::MAX);
    assert_eq!(h.body_len, u32::MAX);
}

#[test]
fn encode_small_buffer_fails_and_leaves_buffer() {
    let h = RequestHeader::new(1, RequestFlag::default(), 2, 3);
    let mut buf = vec![9u8; 10];
    assert_eq!(h.encode(&mut buf), Err(FrameError::EncodeBufNotEnough));
    assert_eq!(buf, vec![9u8; 10]);

    let r = ReplyHeader::new(1, ReplyFlag::default(), 2, 3);
    let mut buf2 = vec![7u8; 15];
    assert_eq!(r.encode(&mut buf2), Err(FrameError::EncodeBufNotEnough));
    assert_eq!(buf2, vec![7u8; 15]);
}

#[test]
fn encode_writes_big_endian_fields() {
    let h = RequestHeader::new(0x0102_0304, RequestFlag::decode(5), 0x0A0B_0C0D, 0x0000_0010);
    let bytes = h.encode_to_array();
    assert_eq!(
        bytes,
        [
            0x01, 0x02, 0x03, 0x04, // request_id
            0x00, 0x00, 0x00, 0x05, // flag
            0x0A, 0x0B, 0x0C, 0x0D, // method_id
            0x00, 0x00, 0x00, 0x10, // body_len
        ]
    );
}

#[test]
fn encode_into_buffer_keeps_tail() {
    let h = ReplyHeader::new(0x1111_2222, ReplyFlag::decode(1), 0, 4);
    let mut buf = vec![0xEEu8; 20];
    assert_eq!(h.encode(&mut buf), Ok(()));
    assert_eq!(&buf[0..4], &[0x11, 0x11, 0x22, 0x22]);
    assert_eq!(&buf[4..8], &[0, 0, 0, 1]);
    assert_eq!(&buf[8..12], &[0, 0, 0, 0]);
    assert_eq!(&buf[12..16], &[0, 0, 0, 4]);
    assert_eq!(&buf[16..20], &[0xEE, 0xEE, 0xEE, 0xEE]);
}

#[test]
fn request_flag_bits_are_independent() {
    let f = RequestFlag::default();
    assert!(!f.is(RequestFlagBit::EOS));
    assert!(!f.is(RequestFlagBit::SIGNAL));
    assert!(!f.is(RequestFlagBit::FIRST));

    let f = f.set(RequestFlagBit::FIRST);
    assert!(f.is(RequestFlagBit::FIRST));
    assert!(!f.is(RequestFlagBit::EOS));
    assert_eq!(f.encode(), FLAG_FIRST_MASK);

    let f = f.set(RequestFlagBit::EOS).set(RequestFlagBit::SIGNAL);
    assert_eq!(f.encode(), FLAG_FIRST_MASK | FLAG_EOS_MASK | FLAG_SIGNAL_MASK);

    let f = f.clear(RequestFlagBit::FIRST);
    assert!(!f.is(RequestFlagBit::FIRST));
    assert!(f.is(RequestFlagBit::EOS));
    assert!(f.is(RequestFlagBit::SIGNAL));
    assert_eq!(f.encode(), FLAG_EOS_MASK | FLAG_SIGNAL_MASK);
}

#[test]
fn reply_flag_bits_are_independent() {
    let f = ReplyFlag::default().set(ReplyFlagBit::EOS);
    assert!(f.is(ReplyFlagBit::EOS));
    assert!(!f.is(ReplyFlagBit::SIGNAL));
    let f = f.set(ReplyFlagBit::SIGNAL).clear(ReplyFlagBit::EOS);
    assert!(!f.is(ReplyFlagBit::EOS));
    assert!(f.is(ReplyFlagBit::SIGNAL));
    assert_eq!(ReplyFlag::decode(f.encode()), f);
}

#[test]
fn header_flag_queries() {
    let h = RequestHeader::new(
        0,
        RequestFlag::default().set(RequestFlagBit::FIRST).set(RequestFlagBit::EOS),
        0,
        0,
    );
    assert!(h.is_first());
    assert!(h.is_eos());
    assert!(!h.is_signal());

    let r = ReplyHeader::new(0, ReplyFlag::default().set(ReplyFlagBit::SIGNAL), 0, 0);
    assert!(r.is_signal());
    assert!(!r.is_eos());
}
