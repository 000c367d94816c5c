use br_protocol::decoder::{Decoder, DecoderResult, DecoderState, ParseError};
use br_protocol::{OwnedProtocolMessage, ProtocolMessage};

fn frame_for(message_id: u16, src: u8, dst: u8, payload: &[u8]) -> Vec<u8> {
    let mut message = ProtocolMessage {
        payload_length: payload.len() as u16,
        message_id,
        src_device_id: src,
        dst_device_id: dst,
        payload,
        checksum: 0,
    };
    message.checksum = message.calculate_crc();
    message.serialize()
}

fn feed_all(decoder: &mut Decoder, bytes: &[u8]) -> Vec<DecoderResult> {
    bytes.iter().map(|byte| decoder.parse_byte(*byte)).collect()
}

fn expect_success(result: DecoderResult) -> OwnedProtocolMessage {
    match result {
        DecoderResult::Success(message) => message,
        other => panic!("expected a message, got {:?}", other),
    }
}

fn expect_checksum_error(result: DecoderResult) -> OwnedProtocolMessage {
    match result {
        DecoderResult::Error(ParseError::ChecksumError(message)) => message,
        other => panic!("expected a checksum error, got {:?}", other),
    }
}

#[test]
fn new_decoder_awaits_first_magic_byte() {
    let decoder = Decoder::new();
    assert!(matches!(decoder.state, DecoderState::AwaitingStart1));
}

#[test]
fn thirteen_byte_frame_decodes_on_last_byte() {
    let bytes: [u8; 13] = [
        0x42, 0x52, 0x03, 0x00, 0x01, 0x00, 0x01, 0x02, 0x10, 0x20, 0x30, 0xFB, 0x00,
    ];
    let mut decoder = Decoder::new();
    for byte in &bytes[..12] {
        assert!(matches!(decoder.parse_byte(*byte), DecoderResult::InProgress));
    }
    let message = expect_success(decoder.parse_byte(bytes[12]));
    assert_eq!(message.payload_length, 3);
    assert_eq!(message.message_id, 1);
    assert_eq!(message.src_device_id, 1);
    assert_eq!(message.dst_device_id, 2);
    assert_eq!(message.checksum, 0x00FB);
    assert_eq!(message.as_protocol_message().payload, &[0x10, 0x20, 0x30]);
    assert!(matches!(decoder.state, DecoderState::AwaitingStart1));
}

#[test]
fn states_follow_the_frame_layout() {
    let bytes = frame_for(0x0102, 7, 9, &[0xAA, 0xBB]);
    let mut decoder = Decoder::new();
    decoder.parse_byte(bytes[0]);
    assert!(matches!(decoder.state, DecoderState::AwaitingStart2));
    decoder.parse_byte(bytes[1]);
    assert!(matches!(decoder.state, DecoderState::ReadingHeader { idx: 0, .. }));
    for (count, byte) in bytes[2..7].iter().enumerate() {
        decoder.parse_byte(*byte);
        match &decoder.state {
            DecoderState::ReadingHeader { buf, idx } => {
                assert_eq!(*idx as usize, count + 1);
                assert_eq!(&buf[..count + 1], &bytes[2..3 + count]);
            }
            other => panic!("expected the header phase, got {:?}", other),
        }
    }
    decoder.parse_byte(bytes[7]);
    assert!(matches!(decoder.state, DecoderState::ReadingPayload { .. }));
    decoder.parse_byte(bytes[8]);
    assert!(matches!(decoder.state, DecoderState::ReadingPayload { .. }));
    decoder.parse_byte(bytes[9]);
    assert!(matches!(decoder.state, DecoderState::ReadingChecksum { idx: 0, .. }));
    decoder.parse_byte(bytes[10]);
    match &decoder.state {
        DecoderState::ReadingChecksum { buf, idx } => {
            assert_eq!(*idx, 1);
            assert_eq!(buf[0], bytes[10]);
        }
        other => panic!("expected the checksum phase, got {:?}", other),
    }
    let message = expect_success(decoder.parse_byte(bytes[11]));
    assert_eq!(message.message_id, 0x0102);
    assert!(matches!(decoder.state, DecoderState::AwaitingStart1));
}

#[test]
fn round_trip_returns_the_message() {
    let payload = [1u8, 2, 3, 4, 5, 6, 7, 8, 9];
    let mut sent = ProtocolMessage {
        payload_length: 9,
        message_id: 0xBEEF,
        src_device_id: 0x11,
        dst_device_id: 0x22,
        payload: &payload,
        checksum: 0,
    };
    sent.checksum = sent.calculate_crc();
    let wire = sent.serialize();
    let mut decoder = Decoder::new();
    let mut results = feed_all(&mut decoder, &wire);
    let last = results.pop().unwrap();
    assert_eq!(results.len(), wire.len() - 1);
    assert!(results.iter().all(|result| matches!(result, DecoderResult::InProgress)));
    let received = expect_success(last);
    assert_eq!(received.as_protocol_message(), sent);
}

#[test]
fn wrong_first_byte_is_refused_and_decoder_stays() {
    for byte in [0x00u8, 0x41, 0x43, 0x52, 0xFF] {
        let mut decoder = Decoder::new();
        let result = decoder.parse_byte(byte);
        assert!(matches!(result, DecoderResult::Error(ParseError::InvalidStartByte)));
        assert!(matches!(decoder.state, DecoderState::AwaitingStart1));
        assert!(matches!(decoder.parse_byte(0x42), DecoderResult::InProgress));
        assert!(matches!(decoder.state, DecoderState::AwaitingStart2));
    }
}

#[test]
fn wrong_second_byte_sends_decoder_back_to_start() {
    for byte in [0x00u8, 0x42, 0x51, 0x53, 0xFF] {
        let mut decoder = Decoder::new();
        assert!(matches!(decoder.parse_byte(0x42), DecoderResult::InProgress));
        let result = decoder.parse_byte(byte);
        assert!(matches!(result, DecoderResult::Error(ParseError::InvalidStartByte)));
        assert!(matches!(decoder.state, DecoderState::AwaitingStart1));
        let result = decoder.parse_byte(0x52);
        assert!(matches!(result, DecoderResult::Error(ParseError::InvalidStartByte)));
        assert!(matches!(decoder.state, DecoderState::AwaitingStart1));
    }
}

#[test]
fn frame_after_refused_bytes_still_decodes() {
    let mut bytes = vec![0x00, 0x42, 0x00, 0x52];
    let frame = frame_for(5, 1, 2, &[9, 8, 7]);
    bytes.extend_from_slice(&frame);
    let mut decoder = Decoder::new();
    let mut results = feed_all(&mut decoder, &bytes);
    let message = expect_success(results.pop().unwrap());
    assert_eq!(message.as_protocol_message().payload, &[9, 8, 7]);
    assert!(matches!(results[0], DecoderResult::Error(ParseError::InvalidStartByte)));
    assert!(matches!(results[1], DecoderResult::InProgress));
    assert!(matches!(results[2], DecoderResult::Error(ParseError::InvalidStartByte)));
    assert!(matches!(results[3], DecoderResult::Error(ParseError::InvalidStartByte)));
    assert!(results[4..].iter().all(|result| matches!(result, DecoderResult::InProgress)));
}

#[test]
fn flipped_payload_byte_gives_checksum_error_with_received_payload() {
    let payload = [0x10u8, 0x20, 0x30, 0x40];
    let mut wire = frame_for(0x0203, 3, 4, &payload);
    wire[8 + 2] ^= 0x01;
    let mut decoder = Decoder::new();
    let mut results = feed_all(&mut decoder, &wire);
    let received = expect_checksum_error(results.pop().unwrap());
    assert!(results.iter().all(|result| matches!(result, DecoderResult::InProgress)));
    assert_eq!(received.as_protocol_message().payload, &[0x10, 0x20, 0x31, 0x40]);
    assert_eq!(received.payload_length, 4);
    assert_eq!(received.message_id, 0x0203);
    assert_eq!(received.src_device_id, 3);
    assert_eq!(received.dst_device_id, 4);
    assert_eq!(received.checksum, u16::from_le_bytes([wire[12], wire[13]]));
    assert!(!received.as_protocol_message().has_valid_crc());
    assert!(matches!(decoder.state, DecoderState::AwaitingStart1));

    let next = frame_for(0x0A0B, 5, 6, &[0xDE, 0xAD]);
    let mut results = feed_all(&mut decoder, &next);
    let message = expect_success(results.pop().unwrap());
    assert!(results.iter().all(|result| matches!(result, DecoderResult::InProgress)));
    assert_eq!(message.message_id, 0x0A0B);
    assert_eq!(message.as_protocol_message().payload, &[0xDE, 0xAD]);
}

#[test]
fn wrong_checksum_bytes_give_checksum_error() {
    let mut wire = frame_for(1, 1, 2, &[0x10, 0x20, 0x30]);
    let last = wire.len() - 1;
    wire[last] = wire[last].wrapping_add(1);
    let mut decoder = Decoder::new();
    let mut results = feed_all(&mut decoder, &wire);
    let received = expect_checksum_error(results.pop().unwrap());
    assert_eq!(received.checksum, 0x01FB);
    assert_eq!(received.as_protocol_message().calculate_crc(), 0x00FB);
    assert_eq!(received.as_protocol_message().payload, &[0x10, 0x20, 0x30]);
}

#[test]
fn empty_payload_goes_from_header_to_checksum() {
    let wire = frame_for(0x0042, 8, 9, &[]);
    assert_eq!(wire.len(), 10);
    let mut decoder = Decoder::new();
    for byte in &wire[..7] {
        assert!(matches!(decoder.parse_byte(*byte), DecoderResult::InProgress));
    }
    assert!(matches!(decoder.state, DecoderState::ReadingHeader { idx: 5, .. }));
    assert!(matches!(decoder.parse_byte(wire[7]), DecoderResult::InProgress));
    assert!(matches!(decoder.state, DecoderState::ReadingChecksum { idx: 0, .. }));
    assert!(matches!(decoder.parse_byte(wire[8]), DecoderResult::InProgress));
    let message = expect_success(decoder.parse_byte(wire[9]));
    assert_eq!(message.payload_length, 0);
    assert_eq!(message.message_id, 0x0042);
    assert!(message.as_protocol_message().payload.is_empty());
    assert_eq!(message.as_protocol_message().serialize(), wire);
}

#[test]
fn empty_payload_after_nonempty_frame_is_empty() {
    let mut decoder = Decoder::new();
    let first = frame_for(1, 1, 1, &[1, 2, 3, 4, 5]);
    let mut results = feed_all(&mut decoder, &first);
    expect_success(results.pop().unwrap());
    let second = frame_for(2, 2, 2, &[]);
    let mut results = feed_all(&mut decoder, &second);
    let message = expect_success(results.pop().unwrap());
    assert!(message.as_protocol_message().payload.is_empty());
    assert_eq!(message.message_id, 2);
}

#[test]
fn payload_beyond_inline_storage_decodes_and_serializes_again() {
    let payload: Vec<u8> = (0..200u32).map(|value| (value * 7 + 3) as u8).collect();
    let wire = frame_for(0x1234, 0x56, 0x78, &payload);
    assert_eq!(wire.len(), 210);
    let mut decoder = Decoder::new();
    let mut results = feed_all(&mut decoder, &wire);
    let message = expect_success(results.pop().unwrap());
    assert!(results.iter().all(|result| matches!(result, DecoderResult::InProgress)));
    assert_eq!(message.payload_length, 200);
    assert_eq!(message.as_protocol_message().payload, payload.as_slice());
    assert_eq!(message.as_protocol_message().serialize(), wire);
}

#[test]
fn payload_of_exactly_inline_size_and_one_more() {
    for size in [127usize, 128, 129] {
        let payload: Vec<u8> = (0..size).map(|value| value as u8).collect();
        let wire = frame_for(size as u16, 0, 0, &payload);
        let mut decoder = Decoder::new();
        let mut results = feed_all(&mut decoder, &wire);
        let message = expect_success(results.pop().unwrap());
        assert_eq!(message.as_protocol_message().payload, payload.as_slice());
    }
}

#[test]
fn largest_payload_round_trips() {
    let payload: Vec<u8> = (0..65535u32).map(|value| (value % 251) as u8).collect();
    let wire = frame_for(0xFFFF, 0xFF, 0xFF, &payload);
    assert_eq!(wire.len(), 65545);
    let mut decoder = Decoder::new();
    let mut results = feed_all(&mut decoder, &wire);
    let message = expect_success(results.pop().unwrap());
    assert_eq!(message.payload_length, 0xFFFF);
    assert_eq!(message.as_protocol_message().payload, payload.as_slice());
}

#[test]
fn length_field_is_little_endian() {
    let payload = vec![0u8; 0x0102];
    let wire = frame_for(0, 0, 0, &payload);
    assert_eq!(wire[2], 0x02);
    assert_eq!(wire[3], 0x01);
    let mut decoder = Decoder::new();
    for byte in &wire[..8] {
        decoder.parse_byte(*byte);
    }
    for (count, byte) in wire[8..8 + 0x0102 - 1].iter().enumerate() {
        assert!(matches!(decoder.parse_byte(*byte), DecoderResult::InProgress), "{}", count);
        assert!(matches!(decoder.state, DecoderState::ReadingPayload { .. }));
    }
    decoder.parse_byte(wire[8 + 0x0102 - 1]);
    assert!(matches!(decoder.state, DecoderState::ReadingChecksum { .. }));
}

#[test]
fn magic_bytes_inside_a_frame_are_payload() {
    let payload = [0x42u8, 0x52, 0x42, 0x52];
    let wire = frame_for(0x5242, 0x42, 0x52, &payload);
    let mut decoder = Decoder::new();
    let mut results = feed_all(&mut decoder, &wire);
    let message = expect_success(results.pop().unwrap());
    assert!(results.iter().all(|result| matches!(result, DecoderResult::InProgress)));
    assert_eq!(message.as_protocol_message().payload, &payload);
}

#[test]
fn corrupted_length_keeps_decoder_waiting() {
    let mut wire = frame_for(1, 1, 2, &[0x10, 0x20, 0x30]);
    wire[2] = 0x05;
    let mut decoder = Decoder::new();
    let results = feed_all(&mut decoder, &wire);
    assert!(results.iter().all(|result| matches!(result, DecoderResult::InProgress)));
    assert!(matches!(decoder.state, DecoderState::ReadingChecksum { idx: 0, .. }));
    assert!(matches!(decoder.parse_byte(0x00), DecoderResult::InProgress));
    assert!(matches!(decoder.state, DecoderState::ReadingChecksum { idx: 1, .. }));
    let received = expect_checksum_error(decoder.parse_byte(0x00));
    assert_eq!(received.payload_length, 5);
    assert_eq!(received.as_protocol_message().payload, &[0x10, 0x20, 0x30, 0xFB, 0x00]);
    assert_eq!(received.checksum, 0);
}

#[test]
fn two_frames_back_to_back() {
    let mut wire = frame_for(1, 1, 2, &[1]);
    wire.extend_from_slice(&frame_for(2, 3, 4, &[2, 3]));
    let mut decoder = Decoder::new();
    let results = feed_all(&mut decoder, &wire);
    let mut messages = Vec::new();
    for result in results {
        match result {
            DecoderResult::Success(message) => messages.push(message),
            DecoderResult::InProgress => {}
            DecoderResult::Error(error) => panic!("unexpected error {:?}", error),
        }
    }
    assert_eq!(messages.len(), 2);
    assert_eq!(messages[0].as_protocol_message().payload, &[1]);
    assert_eq!(messages[1].as_protocol_message().payload, &[2, 3]);
    assert_eq!(messages[1].src_device_id, 3);
    assert_eq!(messages[1].dst_device_id, 4);
}

#[test]
fn parse_errors_compare_and_clone() {
    let mut wire = frame_for(1, 1, 2, &[0x10, 0x20, 0x30]);
    wire[9] = 0x21;
    let mut decoder = Decoder::new();
    let mut results = feed_all(&mut decoder, &wire);
    let error = match results.pop().unwrap() {
        DecoderResult::Error(error) => error,
        other => panic!("expected an error, got {:?}", other),
    };
    let copy = error.clone();
    assert_eq!(error, copy);
    assert_ne!(error, ParseError::InvalidStartByte);
    assert_ne!(ParseError::IncompleteData, ParseError::InvalidStartByte);
    match copy {
        ParseError::ChecksumError(message) => {
            assert_eq!(message.as_protocol_message().payload, &[0x10, 0x21, 0x30]);
        }
        other => panic!("expected a checksum error, got {:?}", other),
    }
}

#[test]
fn every_message_handed_out_is_complete() {
    let mut decoder = Decoder::new();
    let mut seed: u32 = 0x2545_F491;
    let mut successes = 0usize;
    let mut checksum_errors = 0usize;
    for round in 0..4000u32 {
        seed = seed.wrapping_mul(1_664_525).wrapping_add(1_013_904_223);
        let size = ((seed >> 16) % 20) as usize;
        let payload: Vec<u8> = (0..size).map(|k| (seed >> (k % 24)) as u8).collect();
        let mut wire = frame_for(round as u16, (seed >> 8) as u8, seed as u8, &payload);
        if round % 3 == 0 && size > 0 {
            wire[8 + (round as usize % size)] ^= 0x80;
        }
        if round % 5 == 0 {
            wire.insert(0, (seed >> 4) as u8 | 0x80);
        }
        for byte in wire {
            match decoder.parse_byte(byte) {
                DecoderResult::Success(message) => {
                    successes += 1;
                    let view = message.as_protocol_message();
                    assert_eq!(view.payload.len(), view.payload_length as usize);
                    assert!(view.has_valid_crc());
                    assert!(matches!(decoder.state, DecoderState::AwaitingStart1));
                }
                DecoderResult::Error(ParseError::ChecksumError(message)) => {
                    checksum_errors += 1;
                    let view = message.as_protocol_message();
                    assert_eq!(view.payload.len(), view.payload_length as usize);
                    assert!(!view.has_valid_crc());
                    assert!(matches!(decoder.state, DecoderState::AwaitingStart1));
                }
                DecoderResult::Error(ParseError::InvalidStartByte) => {
                    assert!(matches!(decoder.state, DecoderState::AwaitingStart1));
                }
                DecoderResult::Error(ParseError::IncompleteData) => {
                    panic!("the reserved error was returned");
                }
                DecoderResult::InProgress => {}
            }
        }
    }
    assert_eq!(successes + checksum_errors, 4000);
    assert!(successes > 2000);
    assert!(checksum_errors > 1000);
}
