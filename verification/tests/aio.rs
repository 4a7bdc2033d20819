use bytes::{Bytes, BytesMut};
use slip_codec::aio::{SlipCodec, SlipDecoder, SlipEncoder};
use slip_codec::{SlipError, END, ESC, ESC_END, ESC_ESC, MAX_PACKET_SIZE};

#[test]
fn aio_empty_decode() {
    let input: [u8; 2] = [0xc0, 0xc0];

    let mut slip = SlipDecoder::default();
    let mut buf = BytesMut::from(&input[..]);
    let res = slip.decode(&mut buf).unwrap();
    assert!(res.is_none());
    assert!(buf.is_empty());
}

#[test]
fn aio_simple_decode() {
    let input: [u8; 7] = [0xc0, 0x01, 0x02, 0x03, 0x04, 0x05, 0xc0];
    let data: [u8; 5] = [0x01, 0x02, 0x03, 0x04, 0x05];

    let mut slip = SlipDecoder::default();
    let mut buf = BytesMut::from(&input[..]);
    let buf = slip.decode(&mut buf).unwrap().unwrap();
    assert_eq!(data.len(), buf.len());
    assert_eq!(&data[..], &buf);
}

#[test]
fn aio_decode_esc_then_esc_end_sequence() {
    let input: [u8; 6] = [0xc0, 0x01, 0xdb, 0xdc, 0x03, 0xc0];
    let data: [u8; 3] = [0x01, 0xc0, 0x03];

    let mut slip = SlipDecoder::default();
    let mut buf = BytesMut::from(&input[..]);
    let buf = slip.decode(&mut buf).unwrap().unwrap();
    assert_eq!(data.len(), buf.len());
    assert_eq!(&data[..], &buf);
}

#[test]
fn aio_decode_esc_then_esc_esc_sequence() {
    let input: [u8; 6] = [0xc0, 0x01, 0xdb, 0xdd, 0x03, 0xc0];
    let data: [u8; 3] = [0x01, 0xdb, 0x03];

    let mut slip = SlipDecoder::default();
    let mut buf = BytesMut::from(&input[..]);
    let buf = slip.decode(&mut buf).unwrap().unwrap();
    assert_eq!(data.len(), buf.len());
    assert_eq!(&data[..], &buf);
}

#[test]
fn aio_multi_part_decode() {
    let input_1: [u8; 6] = [0xc0, 0x01, 0x02, 0x03, 0x04, 0x05];
    let input_2: [u8; 6] = [0x05, 0x06, 0x07, 0x08, 0x09, 0xc0];
    let data: [u8; 10] = [0x01, 0x02, 0x03, 0x04, 0x05, 0x05, 0x06, 0x07, 0x08, 0x09];

    let mut slip = SlipDecoder::default();
    let mut buf = BytesMut::from(&input_1[..]);

    {
        let res = slip.decode(&mut buf).unwrap();
        assert!(res.is_none());
        assert_eq!(0, buf.len());
    }

    buf.extend_from_slice(&input_2[..]);

    {
        let buf = slip.decode(&mut buf).unwrap().unwrap();
        assert_eq!(data.len(), buf.len());
        assert_eq!(&data[..], &buf);
    }
}

#[test]
fn aio_empty_encode() {
    let expected: [u8; 2] = [0xc0, 0xc0];

    // default is to begin and end with END tokens
    let mut output = BytesMut::new();
    let mut slip = SlipEncoder::default();
    slip.encode(Bytes::new(), &mut output).unwrap();
    assert_eq!(&expected[..], &output);

    // override to only use END token to terminate packet
    let mut output = BytesMut::new();
    let mut slip = SlipEncoder::new(false);
    slip.encode(Bytes::new(), &mut output).unwrap();
    assert_eq!(&expected[..1], &output);
}

#[test]
fn aio_encode_esc_esc_sequence() {
    let input: [u8; 3] = [0x01, ESC, 0x03];
    let expected: [u8; 6] = [0xc0, 0x01, ESC, ESC_ESC, 0x03, 0xc0];
    let mut output = BytesMut::new();

    let mut slip = SlipEncoder::default();
    slip.encode(Bytes::copy_from_slice(&input[..]), &mut output).unwrap();
    assert_eq!(&expected[..], &output);
}

#[test]
fn aio_encode_end_esc_sequence() {
    let input: [u8; 3] = [0x01, END, 0x03];
    let expected: [u8; 6] = [0xc0, 0x01, ESC, ESC_END, 0x03, 0xc0];
    let mut output = BytesMut::new();

    let mut slip = SlipEncoder::default();
    slip.encode(Bytes::copy_from_slice(&input[..]), &mut output).unwrap();
    assert_eq!(&expected[..], &output);
}

#[test]
fn aio_encode_appends_to_what_the_buffer_holds() {
    let mut output = BytesMut::from(&[0x7f][..]);
    let mut slip = SlipEncoder::new(false);
    slip.encode(Bytes::from_static(&[0x41, ESC, END]), &mut output).unwrap();
    assert_eq!(&[0x7f, 0x41, ESC, ESC_ESC, ESC, ESC_END, END][..], &output);
}

#[test]
fn aio_decode_stops_after_one_frame_and_leaves_the_rest() {
    let mut src = BytesMut::from(&[END, 0x01, END, 0x02, 0x03, END, 0x04][..]);
    let mut slip = SlipDecoder::default();

    let first = slip.decode(&mut src).unwrap().unwrap();
    assert_eq!(&[0x01][..], &first);
    assert_eq!(&[0x02, 0x03, END, 0x04][..], &src);

    let second = slip.decode(&mut src).unwrap().unwrap();
    assert_eq!(&[0x02, 0x03][..], &second);
    assert_eq!(&[0x04][..], &src);

    assert!(slip.decode(&mut src).unwrap().is_none());
    src.extend_from_slice(&[0x05, END]);
    let third = slip.decode(&mut src).unwrap().unwrap();
    assert_eq!(&[0x04, 0x05][..], &third);
}

#[test]
fn aio_framing_error_drops_the_frame_and_resynchronizes() {
    let mut src = BytesMut::from(&[0x01, ESC, 0x02, 0x03, ESC, END, 0x04, 0x05, END][..]);
    let mut slip = SlipDecoder::default();

    assert!(matches!(slip.decode(&mut src), Err(SlipError::FramingError)));
    assert_eq!(&[0x03, ESC, END, 0x04, 0x05, END][..], &src);

    let frame = slip.decode(&mut src).unwrap().unwrap();
    assert_eq!(&[0x04, 0x05][..], &frame);
    assert!(src.is_empty());
}

#[test]
fn aio_frame_beyond_the_bound_is_oversized() {
    let mut slip = SlipDecoder::with_capacity(3);
    let mut src = BytesMut::from(&[END, 0x01, 0x02, 0x03, END, 0x04, ESC, ESC_ESC, END][..]);
    assert_eq!(&[0x01, 0x02, 0x03][..], &slip.decode(&mut src).unwrap().unwrap());
    assert_eq!(&[0x04, ESC][..], &slip.decode(&mut src).unwrap().unwrap());

    let mut slip = SlipDecoder::with_capacity(3);
    let mut src = BytesMut::from(&[END, 0x01, 0x02][..]);
    assert!(slip.decode(&mut src).unwrap().is_none());
    let mut src = BytesMut::from(&[0x03, 0x04, 0x05, END][..]);
    assert!(matches!(slip.decode(&mut src), Err(SlipError::OversizedPacket)));
    assert_eq!(&[0x05, END][..], &src);
}

#[test]
fn aio_default_bound_is_the_recommended_packet_size() {
    let mut wire = vec![0x55u8; MAX_PACKET_SIZE];
    wire.push(END);
    let mut slip = SlipDecoder::default();
    let mut src = BytesMut::from(&wire[..]);
    let frame = slip.decode(&mut src).unwrap().unwrap();
    assert_eq!(MAX_PACKET_SIZE, frame.len());

    let mut wire = vec![0x55u8; MAX_PACKET_SIZE + 1];
    wire.push(END);
    let mut src = BytesMut::from(&wire[..]);
    assert!(matches!(slip.decode(&mut src), Err(SlipError::OversizedPacket)));
    assert_eq!(&[END][..], &src);
}

#[test]
fn aio_codec_round_trip() {
    let mut codec = SlipCodec::new();
    let mut wire = BytesMut::new();
    codec.encode(Bytes::from_static(&[0x01, END, ESC, 0x02]), &mut wire).unwrap();
    assert_eq!(&[END, 0x01, ESC, ESC_END, ESC, ESC_ESC, 0x02, END][..], &wire);
    let frame = codec.decode(&mut wire).unwrap().unwrap();
    assert_eq!(&[0x01, END, ESC, 0x02][..], &frame);
    assert!(wire.is_empty());

    let mut codec = SlipCodec::default();
    let mut wire = BytesMut::new();
    codec.encode(Bytes::from_static(&[0x09]), &mut wire).unwrap();
    assert_eq!(&[END, 0x09, END][..], &wire);
}

#[test]
fn aio_builder_sets_both_halves() {
    let mut codec = SlipCodec::builder().begin_with_end(false).capacity(2).build();
    let mut wire = BytesMut::new();
    codec.encode(Bytes::from_static(&[0x01, 0x02]), &mut wire).unwrap();
    assert_eq!(&[0x01, 0x02, END][..], &wire);
    assert_eq!(&[0x01, 0x02][..], &codec.decode(&mut wire).unwrap().unwrap());

    codec.encode(Bytes::from_static(&[0x01, 0x02, 0x03]), &mut wire).unwrap();
    assert!(matches!(codec.decode(&mut wire), Err(SlipError::OversizedPacket)));

    let mut codec = SlipCodec::builder().build();
    let mut wire = BytesMut::new();
    codec.encode(Bytes::new(), &mut wire).unwrap();
    assert_eq!(&[END, END][..], &wire);
    assert!(codec.decode(&mut wire).unwrap().is_none());

    let mut codec = SlipCodec::builder().capacity(1).begin_with_end(true).build();
    let mut wire = BytesMut::from(&[0x01, 0x02][..]);
    assert!(matches!(codec.decode(&mut wire), Err(SlipError::OversizedPacket)));
}

#[test]
fn aio_resynchronize_gets_past_an_oversized_packet() {
    let mut slip = SlipDecoder::with_capacity(2);
    let mut src = BytesMut::from(&[0x01, 0x02, 0x03, 0x04, END, 0x05, 0x06, END][..]);
    assert!(matches!(slip.decode(&mut src), Err(SlipError::OversizedPacket)));
    assert_eq!(&[0x04, END, 0x05, 0x06, END][..], &src);

    slip.resynchronize();
    let frame = slip.decode(&mut src).unwrap().unwrap();
    assert_eq!(&[0x05, 0x06][..], &frame);
    assert!(src.is_empty());

    let mut codec = SlipCodec::builder().capacity(1).build();
    let mut src = BytesMut::from(&[0x01, 0x02, END, 0x03, END][..]);
    assert!(matches!(codec.decode(&mut src), Err(SlipError::OversizedPacket)));
    codec.resynchronize();
    assert_eq!(&[0x03][..], &codec.decode(&mut src).unwrap().unwrap());
}
