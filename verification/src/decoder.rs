//! The incremental decoder: a state machine that is handed a stream one byte
//! at a time and answers each byte with "go on", a message, or an error.
use vstd::prelude::*;

use crate::frame::{u16_from_le, Message};
use crate::payload::{payload_len, payload_with_capacity, push_payload_byte, PayloadBuffer};
use crate::stream::{
    current_field, is_partial_frame, message_of, next_received, outcome, phase_of, Failure,
    Outcome, Phase,
};
use crate::{OwnedProtocolMessage, HEADER};

verus! {

/// Why a byte did not lead to a message.
#[derive(Debug, PartialEq, Clone)]
pub enum ParseError {
    /// The byte was not the magic byte due at this point.
    InvalidStartByte,
    /// Reserved; the decoder never returns it.
    IncompleteData,
    /// A whole frame arrived and its checksum is wrong. The message is handed
    /// over as it was received.
    ChecksumError(OwnedProtocolMessage),
}

/// The decoder's answer to one byte.
#[derive(Debug)]
pub enum DecoderResult {
    /// The byte completed a frame whose checksum is right.
    Success(OwnedProtocolMessage),
    /// The byte was accepted and the frame is not complete yet.
    InProgress,
    /// The byte was refused, or completed a frame whose checksum is wrong.
    Error(ParseError),
}

/// The decoder's position in a frame, with the bytes of the current field.
#[derive(Debug)]
pub enum DecoderState {
    /// Nothing accepted; the first magic byte is due.
    AwaitingStart1,
    /// The first magic byte accepted; the second is due.
    AwaitingStart2,
    /// Both magic bytes accepted, and `idx` of the six header bytes, which
    /// are the first `idx` bytes of `buf`.
    ReadingHeader { buf: [u8; 6], idx: u8 },
    /// The header accepted, and the bytes of the payload that `buf` holds.
    ReadingPayload { buf: PayloadBuffer },
    /// Header and payload accepted, and `idx` of the two checksum bytes,
    /// which are the first `idx` bytes of `buf`.
    ReadingChecksum { buf: [u8; 2], idx: u8 },
}

/// Decodes one stream. Feed it every byte of the stream, in order, through
/// [`Decoder::parse_byte`].
pub struct Decoder {
    pub state: DecoderState,
    message: OwnedProtocolMessage,
}

impl View for ParseError {
    type V = Failure;

    open spec fn view(&self) -> Failure {
        match *self {
            ParseError::InvalidStartByte => Failure::InvalidStartByte,
            ParseError::IncompleteData => Failure::IncompleteData,
            ParseError::ChecksumError(message) => Failure::ChecksumError(message@),
        }
    }
}

impl View for DecoderResult {
    type V = Outcome;

    open spec fn view(&self) -> Outcome {
        match *self {
            DecoderResult::Success(message) => Outcome::Success(message@),
            DecoderResult::InProgress => Outcome::InProgress,
            DecoderResult::Error(error) => Outcome::Error(error@),
        }
    }
}

impl DecoderState {
    /// The phase that this state belongs to.
    pub open spec fn phase(self) -> Phase {
        match self {
            DecoderState::AwaitingStart1 => Phase::AwaitingStart1,
            DecoderState::AwaitingStart2 => Phase::AwaitingStart2,
            DecoderState::ReadingHeader { .. } => Phase::ReadingHeader,
            DecoderState::ReadingPayload { .. } => Phase::ReadingPayload,
            DecoderState::ReadingChecksum { .. } => Phase::ReadingChecksum,
        }
    }

    /// The bytes of the field under way that this state holds.
    pub open spec fn buffered(self) -> Seq<u8> {
        match self {
            DecoderState::AwaitingStart1 => Seq::empty(),
            DecoderState::AwaitingStart2 => Seq::empty(),
            DecoderState::ReadingHeader { buf, idx } => buf@.subrange(0, idx as int),
            DecoderState::ReadingPayload { buf } => buf@,
            DecoderState::ReadingChecksum { buf, idx } => buf@.subrange(0, idx as int),
        }
    }
}

impl View for Decoder {
    type V = Seq<u8>;

    /// The bytes of the current frame accepted so far.
    closed spec fn view(&self) -> Seq<u8> {
        match self.state {
            DecoderState::AwaitingStart1 => Seq::empty(),
            DecoderState::AwaitingStart2 => seq![HEADER[0]],
            DecoderState::ReadingHeader { buf, idx } => seq![HEADER[0], HEADER[1]] + buf@.subrange(
                0,
                idx as int,
            ),
            DecoderState::ReadingPayload { buf } => self.message@.prefix_bytes() + buf@,
            DecoderState::ReadingChecksum { buf, idx } => self.message@.summed_bytes()
                + buf@.subrange(0, idx as int),
        }
    }
}

impl Decoder {
    /// The invariant of a decoder: each buffer holds less than its field
    /// needs, and a payload is pending exactly when it has been read in full.
    pub closed spec fn wf(&self) -> bool {
        match self.state {
            DecoderState::AwaitingStart1 => self.message@.payload.len() == 0,
            DecoderState::AwaitingStart2 => self.message@.payload.len() == 0,
            DecoderState::ReadingHeader { buf, idx } => idx < 6 && self.message@.payload.len()
                == 0,
            DecoderState::ReadingPayload { buf } => buf@.len() < self.message.payload_length,
            DecoderState::ReadingChecksum { buf, idx } => idx < 2 && self.message@.complete(),
        }
    }

    /// The phase that the `state` field stands in.
    pub closed spec fn phase(&self) -> Phase {
        self.state.phase()
    }

    /// The bytes that the `state` field holds.
    pub closed spec fn buffered(&self) -> Seq<u8> {
        self.state.buffered()
    }

    /// What a well-formed decoder has accepted is the beginning of a frame
    /// that is still under way, and its `state` field says how far that frame
    /// has come: the variant is the phase, and the buffer holds what has
    /// arrived of the current field.
    pub proof fn lemma_state_follows_received(&self)
        requires
            self.wf(),
        ensures
            is_partial_frame(self@),
            self.phase() == phase_of(self@),
            self.buffered() == current_field(self@),
    {
    }

    /// A decoder at the start of a stream.
    pub fn new() -> (decoder: Self)
        ensures
            decoder.wf(),
            decoder@ == Seq::<u8>::empty(),
            decoder.phase() == Phase::AwaitingStart1,
    {
        Self { state: DecoderState::AwaitingStart1, message: OwnedProtocolMessage::default() }
    }

    /// Takes the next byte of the stream.
    ///
    /// A byte that is not the magic byte due is refused with
    /// `InvalidStartByte`, and the decoder then waits for the first magic
    /// byte. Past the magic bytes every byte is accepted, and the answer is
    /// `InProgress` until the byte that completes the frame: that one is
    /// answered with the message, as `Success` when its checksum is right and
    /// inside `ChecksumError` when it is not. Either way the decoder is then
    /// at the start of the next frame.
    ///
    /// The length field is believed as it arrives. A corrupted length makes
    /// the decoder set aside up to 65535 bytes and wait for that many before
    /// the checksum can expose the damage; no smaller limit is imposed here.
    pub fn parse_byte(&mut self, byte: u8) -> (result: DecoderResult)
        requires
            old(self).wf(),
        ensures
            final(self).wf(),
            final(self)@ == next_received(old(self)@, byte),
            result@ == outcome(old(self)@, byte),
            final(self).phase() == phase_of(final(self)@),
    {
        match &mut self.state {
            DecoderState::AwaitingStart1 => {
                if byte == HEADER[0] {
                    self.state = DecoderState::AwaitingStart2;
                    return DecoderResult::InProgress;
                }
                return DecoderResult::Error(ParseError::InvalidStartByte);
            },
            DecoderState::AwaitingStart2 => {
                if byte == HEADER[1] {
                    self.state = DecoderState::ReadingHeader { buf: [0; 6], idx: 0 };
                    return DecoderResult::InProgress;
                }
                self.state = DecoderState::AwaitingStart1;
                return DecoderResult::Error(ParseError::InvalidStartByte);
            },
            DecoderState::ReadingHeader { buf, idx } => {
                buf[*idx as usize] = byte;
                *idx += 1;
                // The header is complete: on to the payload, if there is one.
                if *idx == 6 {
                    self.message.payload_length = u16_from_le(buf[0], buf[1]);
                    self.message.message_id = u16_from_le(buf[2], buf[3]);
                    self.message.src_device_id = buf[4];
                    self.message.dst_device_id = buf[5];
                    if self.message.payload_length == 0 {
                        self.state = DecoderState::ReadingChecksum { buf: [0; 2], idx: 0 };
                    } else {
                        self.state = DecoderState::ReadingPayload {
                            buf: payload_with_capacity(self.message.payload_length as usize),
                        };
                    }
                }
                return DecoderResult::InProgress;
            },
            DecoderState::ReadingPayload { buf } => {
                push_payload_byte(buf, byte);
                if payload_len(buf) == self.message.payload_length as usize {
                    let mut state = DecoderState::ReadingChecksum { buf: [0; 2], idx: 0 };
                    core::mem::swap(&mut self.state, &mut state);
                    match state {
                        DecoderState::ReadingPayload { buf } => {
                            self.message.payload = buf;
                        },
                        _ => {},
                    }
                }
                return DecoderResult::InProgress;
            },
            DecoderState::ReadingChecksum { buf, idx } => {
                buf[*idx as usize] = byte;
                *idx += 1;
                if *idx == 2 {
                    self.message.checksum = u16_from_le(buf[0], buf[1]);
                    self.reset();
                    let mut message = OwnedProtocolMessage::default();
                    core::mem::swap(&mut self.message, &mut message);
                    proof {
                        let frame = old(self)@.push(byte);
                        assert(frame.subrange(8, frame.len() - 2) =~= message@.payload);
                        assert(message_of(frame) =~= message@);
                    }
                    if !message.as_protocol_message().has_valid_crc() {
                        return DecoderResult::Error(ParseError::ChecksumError(message));
                    }
                    return DecoderResult::Success(message);
                }
                return DecoderResult::InProgress;
            },
        }
    }

    fn reset(&mut self)
        ensures
            final(self).state is AwaitingStart1,
            final(self).message == old(self).message,
    {
        self.state = DecoderState::AwaitingStart1;
    }
}

} // verus!
