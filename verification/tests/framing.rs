//! The frame writer and the poll-driven frame reader, under whole,
//! fragmented and queued arrivals.

use overcast_core::framing::{load_send_buffer, FrameReader};
use overcast_core::message::{
    Header, ServerToClientTcpMessage, HEADER_SERIALIZED_SIZE, MAX_SERVER_MESSAGE_SIZE,
};
use overcast_core::serialization::{
    deserialize_sum, DecodeError, PrimKind, PrimValue, Serializable,
};

fn send_buffer() -> Vec<u8> {
    vec![0u8; HEADER_SERIALIZED_SIZE + MAX_SERVER_MESSAGE_SIZE]
}

#[test]
fn frame_writer_layout() {
    // Header (origin 0, payload length 1) then the tag byte.
    let mut buffer = send_buffer();
    let total = load_send_buffer(&ServerToClientTcpMessage::ServerClosing, 0, &mut buffer);
    assert_eq!(total, 9);
    assert_eq!(buffer, vec![0, 0, 0, 0, 0, 0, 0, 1, 2]);
}

#[test]
fn whole_frame_delivers_message_once() {
    let mut buffer = send_buffer();
    let total = load_send_buffer(&ServerToClientTcpMessage::WelcomeIn, 0, &mut buffer);

    let mut reader = FrameReader::new();
    reader.push_bytes(&buffer[..total]);
    assert_eq!(
        reader.poll_message::<ServerToClientTcpMessage>(),
        Ok(Some(ServerToClientTcpMessage::WelcomeIn))
    );
    assert_eq!(reader.buffered_len(), 0);
    assert_eq!(reader.poll_message::<ServerToClientTcpMessage>(), Ok(None));
}

#[test]
fn fragmented_frame_yields_nothing_until_complete() {
    // Feed one frame split across 1, 2 and N sub-arrivals: every poll
    // before the frame is whole yields nothing, then the message
    // arrives exactly once.
    let mut buffer = send_buffer();
    let total = load_send_buffer(&ServerToClientTcpMessage::ServerClosing, 3, &mut buffer);
    let frame = &buffer[..total];

    for split in 1..=frame.len() {
        let mut reader = FrameReader::new();
        let mut yielded = Vec::new();
        for chunk in frame.chunks(split) {
            reader.push_bytes(chunk);
            match reader.poll_message::<ServerToClientTcpMessage>() {
                Ok(Some(message)) => yielded.push(message),
                Ok(None) => {}
                Err(e) => panic!("unexpected decode failure: {:?}", e),
            }
        }
        assert_eq!(yielded, vec![ServerToClientTcpMessage::ServerClosing]);
        assert_eq!(reader.poll_message::<ServerToClientTcpMessage>(), Ok(None));
        assert_eq!(reader.buffered_len(), 0);
    }
}

#[test]
fn fragmented_frame_polls_empty_before_each_chunk() {
    let mut buffer = send_buffer();
    let total = load_send_buffer(&ServerToClientTcpMessage::ServerFull, 0, &mut buffer);
    let frame = &buffer[..total];

    let mut reader = FrameReader::new();
    for i in 0..frame.len() {
        // every strict prefix of the frame yields nothing, poll after poll
        assert_eq!(reader.poll_message::<ServerToClientTcpMessage>(), Ok(None));
        assert_eq!(reader.poll_message::<ServerToClientTcpMessage>(), Ok(None));
        reader.push_bytes(&frame[i..i + 1]);
    }
    assert_eq!(
        reader.poll_message::<ServerToClientTcpMessage>(),
        Ok(Some(ServerToClientTcpMessage::ServerFull))
    );
    assert_eq!(reader.poll_message::<ServerToClientTcpMessage>(), Ok(None));
}

#[test]
fn two_buffered_frames_drain_in_arrival_order() {
    let mut first = send_buffer();
    let first_len = load_send_buffer(&ServerToClientTcpMessage::WelcomeIn, 0, &mut first);
    let mut second = send_buffer();
    let second_len = load_send_buffer(&ServerToClientTcpMessage::ServerClosing, 0, &mut second);

    let mut reader = FrameReader::new();
    reader.push_bytes(&first[..first_len]);
    reader.push_bytes(&second[..second_len]);

    assert_eq!(
        reader.poll_message::<ServerToClientTcpMessage>(),
        Ok(Some(ServerToClientTcpMessage::WelcomeIn))
    );
    assert_eq!(
        reader.poll_message::<ServerToClientTcpMessage>(),
        Ok(Some(ServerToClientTcpMessage::ServerClosing))
    );
    assert_eq!(reader.poll_message::<ServerToClientTcpMessage>(), Ok(None));
    assert_eq!(reader.buffered_len(), 0);
}

#[test]
fn float_variant_frame_decodes_on_first_poll() {
    // Header (origin_id 7, payload_len 5), tag byte 2, then one
    // four-byte big-endian float: decodes on the first poll to the
    // third declared variant carrying that float; 13 bytes consumed,
    // 0 left buffered.
    let value = 216.25f32;
    let mut frame = vec![0, 0, 0, 7, 0, 0, 0, 5, 2];
    frame.extend_from_slice(&value.to_bits().to_be_bytes());
    assert_eq!(frame.len(), 13);

    let mut reader = FrameReader::new();
    reader.push_bytes(&frame);
    let (header, payload) = reader.poll_frame().expect("frame fully buffered");
    assert_eq!(header, Header { client: 7, size: 5 });
    assert_eq!(payload.len(), 5);
    assert_eq!(reader.buffered_len(), 0);

    let variants = vec![vec![], vec![], vec![PrimKind::F32]];
    let (tag, fields) = deserialize_sum(&variants, &payload).expect("declared variant");
    assert_eq!(tag, 2);
    assert_eq!(fields, vec![PrimValue::F32Bits(value.to_bits())]);
    assert_eq!(f32::from_bits(match fields[0] {
        PrimValue::F32Bits(bits) => bits,
        _ => unreachable!(),
    }), value);
}

#[test]
fn undeclared_tag_is_recoverable_failure() {
    // Payload length declared as 1, tag byte beyond the declared
    // variants: a decode failure comes back, nothing aborts.
    let frame = vec![0, 0, 0, 7, 0, 0, 0, 1, 9];

    let mut reader = FrameReader::new();
    reader.push_bytes(&frame);
    assert_eq!(
        reader.poll_message::<ServerToClientTcpMessage>(),
        Err(DecodeError::UnrecognizedTag)
    );
    // the corrupt frame was consumed; the stream position is past it
    assert_eq!(reader.buffered_len(), 0);
}

#[test]
fn short_payload_padding_reaches_size_bound() {
    // A declared payload shorter than the decoded type's bound is
    // padded with zeros up to the bound before decoding, mirroring
    // the maximum-sized receive buffer; a zero-length payload thus
    // decodes as tag 0.
    let frame = vec![0, 0, 0, 0, 0, 0, 0, 0];
    let mut reader = FrameReader::new();
    reader.push_bytes(&frame);
    assert_eq!(
        reader.poll_message::<ServerToClientTcpMessage>(),
        Ok(Some(ServerToClientTcpMessage::WelcomeIn))
    );
}

#[test]
fn header_round_trips_through_its_codec() {
    let header = Header { client: 81235, size: 4096 };
    let mut buffer = vec![0u8; 8];
    let written = header.serialize(&mut buffer, 0);
    assert_eq!(written, 8);
    assert_eq!(Header::deserialize(&buffer), Ok(header));
    assert_eq!(
        Header::deserialize(&buffer[..7]),
        Err(DecodeError::SourceTooShort)
    );
}

#[test]
fn primitives_round_trip_through_the_trait() {
    let mut buffer = vec![0u8; 8];

    let x = 0xDEADu16;
    x.serialize(&mut buffer, 0);
    assert_eq!(buffer[..2], [0xDE, 0xAD]);
    assert_eq!(u16::deserialize(&buffer), Ok(x));

    let x = -1234567890i32;
    x.serialize(&mut buffer, 0);
    assert_eq!(i32::deserialize(&buffer), Ok(x));

    let x = 0x0102030405060708u64;
    x.serialize(&mut buffer, 0);
    assert_eq!(buffer, vec![1, 2, 3, 4, 5, 6, 7, 8]);
    assert_eq!(u64::deserialize(&buffer), Ok(x));

    let x = -87i8;
    x.serialize(&mut buffer, 0);
    assert_eq!(i8::deserialize(&buffer), Ok(x));

    assert_eq!(u32::deserialize(&buffer[..3]), Err(DecodeError::SourceTooShort));
}
