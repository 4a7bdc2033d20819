use slip_codec::{Action, SlipDecoder, SlipEncoder, SlipError, END, ESC, ESC_END, ESC_ESC};

#[test]
fn encoder_empty_encode() {
    let expected: [u8; 2] = [0xc0, 0xc0];
    let mut output = Vec::<u8>::new();

    let mut slip = SlipEncoder::new(true);
    let len = slip.encode(&[0; 0], &mut output).unwrap();
    assert_eq!(expected.len(), len);
    assert_eq!(&expected, output.as_slice());
}

#[test]
fn encoder_encode_esc_esc_sequence() {
    let input: [u8; 3] = [0x01, ESC, 0x03];
    let expected: [u8; 6] = [0xc0, 0x01, ESC, ESC_ESC, 0x03, 0xc0];
    let mut output = Vec::<u8>::new();

    let mut slip = SlipEncoder::new(true);
    let len = slip.encode(&input, &mut output).unwrap();
    assert_eq!(expected.len(), len);
    assert_eq!(&expected, output.as_slice());
}

#[test]
fn encoder_encode_end_esc_sequence() {
    let input: [u8; 3] = [0x01, END, 0x03];
    let expected: [u8; 6] = [0xc0, 0x01, ESC, ESC_END, 0x03, 0xc0];
    let mut output = Vec::<u8>::new();

    let mut slip = SlipEncoder::new(true);
    let len = slip.encode(&input, &mut output).unwrap();
    assert_eq!(expected.len(), len);
    assert_eq!(&expected, output.as_slice());
}

#[test]
fn decoder_empty_decode() {
    let input: [u8; 2] = [0xc0, 0xc0];

    let mut slip = SlipDecoder::new();
    let mut buf: Vec<u8> = Vec::new();
    let res = slip.decode(&mut input.as_ref(), &mut buf);
    assert!(res.is_err());
    assert!(buf.is_empty());
}

#[test]
fn decoder_simple_decode() {
    let input: [u8; 7] = [0xc0, 0x01, 0x02, 0x03, 0x04, 0x05, 0xc0];
    let data: [u8; 5] = [0x01, 0x02, 0x03, 0x04, 0x05];

    let mut slip = SlipDecoder::new();
    let mut buf: Vec<u8> = Vec::new();
    let len = slip.decode(&mut input.as_ref(), &mut buf).unwrap();
    assert_eq!(data.len(), len);
    assert_eq!(data.len(), buf.len());
    assert_eq!(&data, buf.as_slice());
}

#[test]
fn decoder_decode_esc_then_esc_end_sequence() {
    let input: [u8; 6] = [0xc0, 0x01, 0xdb, 0xdc, 0x03, 0xc0];
    let data: [u8; 3] = [0x01, 0xc0, 0x03];

    let mut slip = SlipDecoder::new();
    let mut buf: Vec<u8> = Vec::new();
    let len = slip.decode(&mut input.as_ref(), &mut buf).unwrap();
    assert_eq!(data.len(), len);
    assert_eq!(data.len(), buf.len());
    assert_eq!(&data, buf.as_slice());
}

#[test]
fn decoder_decode_esc_then_esc_esc_sequence() {
    let input: [u8; 6] = [0xc0, 0x01, 0xdb, 0xdd, 0x03, 0xc0];
    let data: [u8; 3] = [0x01, 0xdb, 0x03];

    let mut slip = SlipDecoder::new();
    let mut buf: Vec<u8> = Vec::new();
    let len = slip.decode(&mut input.as_ref(), &mut buf).unwrap();
    assert_eq!(data.len(), len);
    assert_eq!(data.len(), buf.len());
    assert_eq!(&data, buf.as_slice());
}

#[test]
fn decoder_multi_part_decode() {
    let input_1: [u8; 6] = [0xc0, 0x01, 0x02, 0x03, 0x04, 0x05];
    let input_2: [u8; 6] = [0x05, 0x06, 0x07, 0x08, 0x09, 0xc0];
    let data: [u8; 10] = [0x01, 0x02, 0x03, 0x04, 0x05, 0x05, 0x06, 0x07, 0x08, 0x09];

    let mut slip = SlipDecoder::new();
    let mut buf: Vec<u8> = Vec::new();

    {
        let res = slip.decode(&mut input_1.as_ref(), &mut buf);
        assert!(res.is_err());
        assert_eq!(5, buf.len());
    }

    {
        let len = slip.decode(&mut input_2.as_ref(), &mut buf).unwrap();
        assert_eq!(data.len(), len);
        assert_eq!(data.len(), buf.len());
        assert_eq!(&data, buf.as_slice());
    }
}

#[test]
fn encode_without_leading_delimiter() {
    let mut output = Vec::<u8>::new();
    let mut slip = SlipEncoder::new(false);
    let len = slip.encode(&[], &mut output).unwrap();
    assert_eq!(1, len);
    assert_eq!(vec![END], output);

    let len = slip.encode(&[0x01, END, ESC], &mut output).unwrap();
    assert_eq!(6, len);
    assert_eq!(vec![END, 0x01, ESC, ESC_END, ESC, ESC_ESC, END], output);
}

#[test]
fn default_encoder_begins_with_end() {
    let mut output = Vec::<u8>::new();
    let mut slip = SlipEncoder::default();
    let len = slip.encode(&[0x41], &mut output).unwrap();
    assert_eq!(3, len);
    assert_eq!(vec![END, 0x41, END], output);
}

#[test]
fn encode_appends_to_what_the_sink_holds() {
    let mut output: Vec<u8> = vec![0x7f];
    let mut slip = SlipEncoder::new(true);
    let len = slip.encode(&[0x41, 0x42], &mut output).unwrap();
    assert_eq!(4, len);
    assert_eq!(vec![0x7f, END, 0x41, 0x42, END], output);
}

#[test]
fn encoded_len_follows_the_formula() {
    let slip = SlipEncoder::new(true);
    assert_eq!(Some(2), slip.encoded_len(&[]));
    assert_eq!(Some(5), slip.encoded_len(&[1, 2, 3]));
    assert_eq!(Some(8), slip.encoded_len(&[1, END, 3, ESC]));
    let bare = SlipEncoder::new(false);
    assert_eq!(Some(1), bare.encoded_len(&[]));
    assert_eq!(Some(7), bare.encoded_len(&[1, END, 3, ESC]));
    assert_eq!(Some(3), bare.encoded_len(&[ESC_END, ESC_ESC]));
}

#[test]
fn stuff_byte_escapes_only_the_reserved_bytes() {
    let mut sink: Vec<u8> = Vec::new();
    slip_codec::stuff_byte(0x00, &mut sink);
    slip_codec::stuff_byte(END, &mut sink);
    slip_codec::stuff_byte(ESC, &mut sink);
    slip_codec::stuff_byte(ESC_END, &mut sink);
    slip_codec::stuff_byte(ESC_ESC, &mut sink);
    slip_codec::stuff_byte(0xff, &mut sink);
    assert_eq!(vec![0x00, ESC, ESC_END, ESC, ESC_ESC, ESC_END, ESC_ESC, 0xff], sink);
}

#[test]
fn tokens_are_those_of_rfc_1055() {
    assert_eq!(0xC0, END);
    assert_eq!(0xDB, ESC);
    assert_eq!(0xDC, ESC_END);
    assert_eq!(0xDD, ESC_ESC);
    assert_eq!(1006, slip_codec::MAX_PACKET_SIZE);
}

#[test]
fn round_trip_of_every_byte_value() {
    let frame: Vec<u8> = (0..=255u8).collect();
    for leading in [true, false] {
        let mut wire = Vec::<u8>::new();
        let written = SlipEncoder::new(leading).encode(&frame, &mut wire).unwrap();
        assert_eq!(256 + 2 + if leading { 2 } else { 1 }, written);
        assert_eq!(written, wire.len());

        let mut slip = SlipDecoder::new();
        let mut source: &[u8] = &wire;
        let mut sink = Vec::<u8>::new();
        let len = slip.decode(&mut source, &mut sink).unwrap();
        assert_eq!(256, len);
        assert_eq!(frame, sink);
        assert!(source.is_empty());
        assert_eq!(0, slip.count());
        assert!(matches!(slip.decode(&mut source, &mut sink), Err(SlipError::EndOfStream)));
    }
}

#[test]
fn decode_stops_after_one_frame_and_leaves_the_rest() {
    let wire: [u8; 7] = [END, 0x01, END, 0x02, 0x03, END, 0x04];
    let mut slip = SlipDecoder::new();
    let mut source: &[u8] = &wire;
    let mut sink = Vec::<u8>::new();

    assert_eq!(1, slip.decode(&mut source, &mut sink).unwrap());
    assert_eq!(&[0x02, 0x03, END, 0x04], source);
    assert_eq!(vec![0x01], sink);

    assert_eq!(2, slip.decode(&mut source, &mut sink).unwrap());
    assert_eq!(&[0x04], source);
    assert_eq!(vec![0x01, 0x02, 0x03], sink);

    assert!(matches!(slip.decode(&mut source, &mut sink), Err(SlipError::EndOfStream)));
    assert!(source.is_empty());
    assert_eq!(vec![0x01, 0x02, 0x03, 0x04], sink);
    assert_eq!(1, slip.count());
}

#[test]
fn decode_of_nothing_changes_nothing() {
    let mut slip = SlipDecoder::new();
    let mut sink = Vec::<u8>::new();
    let mut source: &[u8] = &[0x01, ESC];
    assert!(matches!(slip.decode(&mut source, &mut sink), Err(SlipError::EndOfStream)));
    let mut nothing: &[u8] = &[];
    assert!(matches!(slip.decode(&mut nothing, &mut sink), Err(SlipError::EndOfStream)));
    assert_eq!(vec![0x01], sink);
    assert_eq!(1, slip.count());
    let mut rest: &[u8] = &[ESC_ESC, END];
    assert_eq!(2, slip.decode(&mut rest, &mut sink).unwrap());
    assert_eq!(vec![0x01, ESC], sink);
}

#[test]
fn framing_error_is_reported_once_and_left_behind_at_the_next_delimiter() {
    let wire: [u8; 9] = [0x01, ESC, 0x02, 0x03, ESC, END, 0x04, 0x05, END];
    let mut slip = SlipDecoder::new();
    let mut source: &[u8] = &wire;
    let mut sink = Vec::<u8>::new();

    assert!(matches!(slip.decode(&mut source, &mut sink), Err(SlipError::FramingError)));
    assert_eq!(&[0x03, ESC, END, 0x04, 0x05, END], source);
    assert_eq!(vec![0x01], sink);

    let len = slip.decode(&mut source, &mut sink).unwrap();
    assert_eq!(2, len);
    assert!(source.is_empty());
    assert_eq!(&[0x04, 0x05], &sink[sink.len() - len..]);
}

#[test]
fn chunk_boundaries_do_not_matter() {
    let frame: [u8; 6] = [0x10, END, 0x20, ESC, ESC_END, 0x30];
    let mut wire = Vec::<u8>::new();
    SlipEncoder::new(true).encode(&frame, &mut wire).unwrap();

    for cut in 0..=wire.len() {
        for second in cut..=wire.len() {
            let mut slip = SlipDecoder::new();
            let mut sink = Vec::<u8>::new();
            let mut frames = 0;
            for chunk in [&wire[..cut], &wire[cut..second], &wire[second..]] {
                let mut source: &[u8] = chunk;
                match slip.decode(&mut source, &mut sink) {
                    Ok(len) => {
                        frames += 1;
                        assert_eq!(frame.len(), len);
                    }
                    Err(SlipError::EndOfStream) => {}
                    Err(other) => panic!("{:?}", other),
                }
                assert!(source.is_empty());
            }
            assert_eq!(1, frames);
            assert_eq!(&frame, sink.as_slice());
        }
    }
}

#[test]
fn feed_and_push_drive_a_decoder_byte_by_byte() {
    let mut slip = SlipDecoder::new();
    assert!(matches!(slip.feed(END), Action::Skip));
    assert!(matches!(slip.feed(0x41), Action::Store(0x41)));
    assert_eq!(0, slip.count());
    assert!(matches!(slip.push(0x41, 1), Ok(1)));
    assert_eq!(1, slip.count());
    assert!(matches!(slip.feed(ESC), Action::Skip));
    assert!(matches!(slip.feed(ESC_END), Action::Store(END)));
    assert!(matches!(slip.push(END, 0), Err(SlipError::OversizedPacket)));
    assert_eq!(1, slip.count());
    assert!(matches!(slip.feed(ESC_ESC), Action::Store(ESC)));
    assert!(matches!(slip.push(ESC, 1), Ok(1)));
    assert_eq!(2, slip.count());
    assert!(matches!(slip.feed(END), Action::Deliver(2)));
    assert_eq!(0, slip.count());
    assert!(matches!(slip.feed(ESC), Action::Skip));
    assert!(matches!(slip.feed(0x00), Action::Fail(SlipError::FramingError)));
    assert!(matches!(slip.feed(0x01), Action::Skip));
    assert!(matches!(slip.feed(ESC), Action::Skip));
    assert!(matches!(slip.feed(END), Action::Discard));
    assert!(matches!(slip.feed(END), Action::Skip));
    assert!(matches!(slip.feed(0x02), Action::Store(0x02)));
}

#[test]
fn default_decoder_has_seen_nothing() {
    let mut slip = SlipDecoder::default();
    assert_eq!(0, slip.count());
    let mut source: &[u8] = &[0x09, END];
    let mut sink = Vec::<u8>::new();
    assert_eq!(1, slip.decode(&mut source, &mut sink).unwrap());
    assert_eq!(vec![0x09], sink);
}

#[test]
fn errors_convert_to_io_errors_and_back() {
    for (error, name) in [
        (SlipError::FramingError, "FramingError"),
        (SlipError::OversizedPacket, "OversizedPacket"),
        (SlipError::EndOfStream, "EndOfStream"),
    ] {
        assert_eq!(name, error.name());
        assert_eq!(name, format!("{:?}", error));
        let converted = std::io::Error::from(error);
        assert_eq!(std::io::ErrorKind::Other, converted.kind());
        assert_eq!(name, converted.to_string());
    }

    let broken = std::io::Error::new(std::io::ErrorKind::BrokenPipe, "gone");
    let wrapped = SlipError::from(broken);
    assert_eq!("ReadError", wrapped.name());
    assert!(matches!(&wrapped, SlipError::ReadError(inner) if inner.kind() == std::io::ErrorKind::BrokenPipe));
    let back = std::io::Error::from(wrapped);
    assert_eq!(std::io::ErrorKind::BrokenPipe, back.kind());
    assert_eq!("gone", back.to_string());
}

#[test]
fn resynchronize_drops_the_frame_in_progress() {
    let mut slip = SlipDecoder::new();
    let mut sink = Vec::<u8>::new();
    let mut source: &[u8] = &[0x01, 0x02];
    assert!(matches!(slip.decode(&mut source, &mut sink), Err(SlipError::EndOfStream)));
    assert_eq!(2, slip.count());

    slip.resynchronize();
    let mut source: &[u8] = &[0x03, ESC, 0x04, END, 0x05, END];
    let len = slip.decode(&mut source, &mut sink).unwrap();
    assert_eq!(1, len);
    assert_eq!(vec![0x01, 0x02, 0x05], sink);
    assert!(source.is_empty());
}
