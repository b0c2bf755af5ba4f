use chat_core::wire::{decode_u16, encode_u16, read, Error};

#[test]
fn encode_u16_is_big_endian() {
    assert_eq!(encode_u16(0), [0, 0]);
    assert_eq!(encode_u16(1), [0, 1]);
    assert_eq!(encode_u16(258), [1, 2]);
    assert_eq!(encode_u16(8439), [32, 247]);
    assert_eq!(encode_u16(65535), [255, 255]);
}

#[test]
fn decode_u16_reads_big_endian() {
    assert_eq!(decode_u16(&[0, 0]), 0);
    assert_eq!(decode_u16(&[1, 2]), 258);
    assert_eq!(decode_u16(&[255, 255]), 65535);
}

#[test]
fn u16_roundtrip_on_all_values() {
    for n in 0..=u16::MAX {
        assert_eq!(decode_u16(&encode_u16(n)), n);
    }
}

#[test]
fn write_frames_the_payload() {
    let mut out = vec![9u8];
    assert_eq!(chat_core::wire::write(&mut out, b"hi"), Ok(()));
    assert_eq!(out, vec![9, 0, 2, b'h', b'i']);
    assert_eq!(chat_core::wire::write(&mut out, b""), Ok(()));
    assert_eq!(out, vec![9, 0, 2, b'h', b'i', 0, 0]);
}

#[test]
fn write_refuses_a_payload_that_is_too_big_and_writes_nothing() {
    let payload = vec![7u8; 65536];
    let mut out = vec![1u8, 2, 3];
    assert_eq!(chat_core::wire::write(&mut out, &payload), Err(Error::ErrPacketTooBig));
    assert_eq!(out, vec![1, 2, 3]);
}

#[test]
fn write_takes_the_largest_payload() {
    let payload = vec![7u8; 65535];
    let mut out = Vec::new();
    assert_eq!(chat_core::wire::write(&mut out, &payload), Ok(()));
    assert_eq!(out.len(), 65537);
    assert_eq!(&out[..2], &[255, 255]);
    let (body, used) = read(&out).unwrap();
    assert_eq!(used, 65537);
    assert_eq!(body, payload);
}

#[test]
fn read_gives_back_what_write_framed() {
    let mut out = Vec::new();
    chat_core::wire::write(&mut out, b"first").unwrap();
    chat_core::wire::write(&mut out, b"second").unwrap();
    let (body, used) = read(&out).unwrap();
    assert_eq!(body, b"first");
    assert_eq!(used, 7);
    let (body, used) = read(&out[used..]).unwrap();
    assert_eq!(body, b"second");
    assert_eq!(used, 8);
}

#[test]
fn read_fails_on_a_frame_that_is_cut_short() {
    assert_eq!(read(&[]), Err(Error::IoError));
    assert_eq!(read(&[0]), Err(Error::IoError));
    assert_eq!(read(&[0, 3, 1, 2]), Err(Error::IoError));
    assert_eq!(read(&[0, 0]), Ok((vec![], 2)));
}

#[test]
fn error_description_of_a_packet_that_is_too_big() {
    assert_eq!(Error::ErrPacketTooBig.description(), "Packet size must fit into an u16");
}

#[test]
fn error_description_of_a_stream_that_failed() {
    assert_eq!(
        Error::IoError.description(),
        "Stream failed or ended before the packet was complete"
    );
}
