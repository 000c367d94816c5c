//! Decoding as a function on byte sequences.
//!
//! A decoder in the middle of a frame is characterised by the bytes of that
//! frame it has accepted so far. This module says, for such a sequence and the
//! next byte, what the decoder answers and what it has accepted afterwards.
//! The executable decoder is verified to follow these definitions step by step.
use vstd::prelude::*;

use crate::frame::{
    lemma_byte_sum_nonnegative, lemma_byte_sum_update, u16_le, Message, MAGIC_FIRST,
    MAGIC_SECOND, OVERHEAD_LEN, PREFIX_LEN,
};

verus! {

/// Why a byte did not lead to a message.
pub enum Failure {
    /// The byte was not the magic byte due at this point.
    InvalidStartByte,
    /// Reserved; no input produces it.
    IncompleteData,
    /// A whole frame arrived and its checksum is wrong. The message is what
    /// was received, checksum included.
    ChecksumError(Message),
}

/// What the decoder answers to one byte.
pub enum Outcome {
    /// The byte completed a frame whose checksum is right.
    Success(Message),
    /// The byte was accepted and the frame is not complete yet.
    InProgress,
    /// The byte was refused, or completed a frame whose checksum is wrong.
    Error(Failure),
}

/// Where in a frame the decoder stands.
pub enum Phase {
    AwaitingStart1,
    AwaitingStart2,
    ReadingHeader,
    ReadingPayload,
    ReadingChecksum,
}

/// The payload length that the length field of `bytes` declares.
pub open spec fn declared_length(bytes: Seq<u8>) -> u16
    recommends
        bytes.len() >= 4,
{
    u16_le(bytes[2], bytes[3])
}

/// `bytes` has exactly the size that its own length field calls for.
pub open spec fn is_whole_frame(bytes: Seq<u8>) -> bool {
    bytes.len() >= OVERHEAD_LEN && bytes.len() == OVERHEAD_LEN + declared_length(bytes)
}

/// The message that a whole frame carries.
pub open spec fn message_of(frame: Seq<u8>) -> Message
    recommends
        is_whole_frame(frame),
{
    Message {
        payload_length: declared_length(frame),
        message_id: u16_le(frame[4], frame[5]),
        src_device_id: frame[6],
        dst_device_id: frame[7],
        payload: frame.subrange(PREFIX_LEN as int, frame.len() - 2),
        checksum: u16_le(frame[frame.len() - 2], frame[frame.len() - 1]),
    }
}

/// `received` can be what a decoder has accepted of a frame still under way:
/// it opens with the magic bytes as far as it goes, and it is shorter than the
/// frame that its length field, once present, declares.
pub open spec fn is_partial_frame(received: Seq<u8>) -> bool {
    &&& received.len() >= 1 ==> received[0] == MAGIC_FIRST
    &&& received.len() >= 2 ==> received[1] == MAGIC_SECOND
    &&& received.len() >= PREFIX_LEN ==> received.len() < OVERHEAD_LEN + declared_length(received)
}

/// The phase of a decoder that has accepted `received`.
pub open spec fn phase_of(received: Seq<u8>) -> Phase {
    if received.len() == 0 {
        Phase::AwaitingStart1
    } else if received.len() == 1 {
        Phase::AwaitingStart2
    } else if received.len() < PREFIX_LEN {
        Phase::ReadingHeader
    } else if received.len() < PREFIX_LEN + declared_length(received) {
        Phase::ReadingPayload
    } else {
        Phase::ReadingChecksum
    }
}

/// The bytes of `received` that belong to the field under way: what follows
/// the magic bytes during the header, the header during the payload, and the
/// payload during the checksum.
pub open spec fn current_field(received: Seq<u8>) -> Seq<u8> {
    match phase_of(received) {
        Phase::AwaitingStart1 => Seq::empty(),
        Phase::AwaitingStart2 => Seq::empty(),
        Phase::ReadingHeader => received.subrange(2, received.len() as int),
        Phase::ReadingPayload => received.subrange(PREFIX_LEN as int, received.len() as int),
        Phase::ReadingChecksum => received.subrange(
            PREFIX_LEN + declared_length(received),
            received.len() as int,
        ),
    }
}

/// `byte` may follow `received`. Only the two magic bytes are ever refused:
/// past them, every byte is taken as part of the frame.
pub open spec fn accepts(received: Seq<u8>, byte: u8) -> bool {
    &&& received.len() == 0 ==> byte == MAGIC_FIRST
    &&& received.len() == 1 ==> byte == MAGIC_SECOND
}

/// What a decoder that has accepted `received` answers to `byte`.
pub open spec fn outcome(received: Seq<u8>, byte: u8) -> Outcome {
    let extended = received.push(byte);
    if !accepts(received, byte) {
        Outcome::Error(Failure::InvalidStartByte)
    } else if !is_whole_frame(extended) {
        Outcome::InProgress
    } else if message_of(extended).checksum_matches() {
        Outcome::Success(message_of(extended))
    } else {
        Outcome::Error(Failure::ChecksumError(message_of(extended)))
    }
}

/// What a decoder that has accepted `received` has accepted after `byte`:
/// nothing, if the byte was refused or completed a frame; else one byte more.
pub open spec fn next_received(received: Seq<u8>, byte: u8) -> Seq<u8> {
    let extended = received.push(byte);
    if !accepts(received, byte) || is_whole_frame(extended) {
        Seq::empty()
    } else {
        extended
    }
}

/// What a decoder that has accepted `received` has accepted after it was fed
/// all of `input`, byte by byte.
pub open spec fn received_after(received: Seq<u8>, input: Seq<u8>) -> Seq<u8>
    decreases input.len(),
{
    if input.len() == 0 {
        received
    } else {
        next_received(received_after(received, input.drop_last()), input.last())
    }
}

/// The answers of a decoder that has accepted `received` to the bytes of
/// `input`, one answer per byte.
pub open spec fn answers(received: Seq<u8>, input: Seq<u8>) -> Seq<Outcome>
    decreases input.len(),
{
    if input.len() == 0 {
        Seq::empty()
    } else {
        answers(received, input.drop_last()).push(
            outcome(received_after(received, input.drop_last()), input.last()),
        )
    }
}

/// `bytes` is a frame: it opens with the magic bytes and has the size that its
/// length field calls for. Nothing is said of its checksum.
pub open spec fn is_frame(bytes: Seq<u8>) -> bool {
    &&& is_whole_frame(bytes)
    &&& bytes[0] == MAGIC_FIRST
    &&& bytes[1] == MAGIC_SECOND
}

/// The answer that is due when the last byte of `frame` arrives.
pub open spec fn answer_to_frame(frame: Seq<u8>) -> Outcome {
    if message_of(frame).checksum_matches() {
        Outcome::Success(message_of(frame))
    } else {
        Outcome::Error(Failure::ChecksumError(message_of(frame)))
    }
}

/// A byte that is accepted without completing a frame leaves a partial frame
/// behind, and so does every other byte: the decoder's state is always one.
pub proof fn lemma_next_received_is_partial(received: Seq<u8>, byte: u8)
    requires
        is_partial_frame(received),
    ensures
        is_partial_frame(next_received(received, byte)),
{
    let extended = received.push(byte);
    if received.len() >= PREFIX_LEN {
        assert(declared_length(extended) == declared_length(received));
    }
}

/// A message that the decoder hands out, in `Success` or in `ChecksumError`,
/// has a payload of exactly the length that its header declares.
pub proof fn lemma_outcome_message_complete(received: Seq<u8>, byte: u8)
    ensures
        match outcome(received, byte) {
            Outcome::Success(message) => message.complete() && message.checksum_matches(),
            Outcome::Error(Failure::ChecksumError(message)) => message.complete()
                && !message.checksum_matches(),
            Outcome::Error(Failure::InvalidStartByte) => !accepts(received, byte),
            Outcome::Error(Failure::IncompleteData) => false,
            Outcome::InProgress => true,
        },
{
}

/// Feeding `first` and then `second` is feeding their concatenation.
pub proof fn lemma_feed_concat(received: Seq<u8>, first: Seq<u8>, second: Seq<u8>)
    ensures
        received_after(received, first + second) == received_after(
            received_after(received, first),
            second,
        ),
        answers(received, first + second) == answers(received, first) + answers(
            received_after(received, first),
            second,
        ),
    decreases second.len(),
{
    if second.len() == 0 {
        assert(first + second =~= first);
        assert(answers(received, first) + Seq::<Outcome>::empty() =~= answers(received, first));
    } else {
        lemma_feed_concat(received, first, second.drop_last());
        assert((first + second).drop_last() =~= first + second.drop_last());
        assert(answers(received, first + second) =~= answers(received, first) + answers(
            received_after(received, first),
            second,
        ));
    }
}

/// A decoder at the start of a frame that is fed the first `count` bytes of a
/// frame, short of the whole, accepts them all and answers `InProgress` to
/// each.
pub proof fn lemma_feed_frame_prefix(frame: Seq<u8>, count: int)
    requires
        is_frame(frame),
        0 <= count < frame.len(),
    ensures
        received_after(Seq::empty(), frame.subrange(0, count)) == frame.subrange(0, count),
        answers(Seq::empty(), frame.subrange(0, count)).len() == count,
        forall|k: int|
            0 <= k < count ==> answers(Seq::empty(), frame.subrange(0, count))[k]
                == Outcome::InProgress,
    decreases count,
{
    let fed = frame.subrange(0, count);
    if count > 0 {
        let before = frame.subrange(0, count - 1);
        lemma_feed_frame_prefix(frame, count - 1);
        assert(fed.drop_last() =~= before);
        assert(before.push(fed.last()) =~= fed);
        if fed.len() >= 4 {
            assert(declared_length(fed) == declared_length(frame));
        }
    }
}

/// Decoding a frame. A decoder at the start of a frame that is fed a frame
/// byte by byte answers `InProgress` to every byte but the last, answers the
/// last with the message that the frame carries, as `Success` when its
/// checksum is right and inside `ChecksumError` when it is not, and is then
/// at the start of a frame again.
pub proof fn lemma_feed_frame(frame: Seq<u8>)
    requires
        is_frame(frame),
    ensures
        received_after(Seq::empty(), frame) == Seq::<u8>::empty(),
        answers(Seq::empty(), frame).len() == frame.len(),
        forall|k: int|
            0 <= k < frame.len() - 1 ==> answers(Seq::empty(), frame)[k] == Outcome::InProgress,
        answers(Seq::empty(), frame).last() == answer_to_frame(frame),
{
    let count = frame.len() - 1;
    let before = frame.subrange(0, count);
    lemma_feed_frame_prefix(frame, count);
    assert(frame.drop_last() =~= before);
    assert(before.push(frame.last()) =~= frame);
}

/// Laying a message out and reading the bytes back gives the message.
pub proof fn lemma_wire_bytes_frame(message: Message)
    requires
        message.complete(),
    ensures
        is_frame(message.wire_bytes()),
        message_of(message.wire_bytes()) == message,
{
    let wire = message.wire_bytes();
    assert(wire.subrange(PREFIX_LEN as int, wire.len() - 2) =~= message.payload);
    assert(message_of(wire) =~= message);
}

/// Round trip. A message whose payload has the declared length and whose
/// checksum is the computed one, laid out on the wire and fed byte by byte to
/// a decoder at the start of a frame, is answered with `InProgress` for every
/// byte but the last and with `Success` of that same message for the last.
pub proof fn lemma_round_trip(message: Message)
    requires
        message.complete(),
        message.checksum_matches(),
    ensures
        received_after(Seq::empty(), message.wire_bytes()) == Seq::<u8>::empty(),
        answers(Seq::empty(), message.wire_bytes()) == Seq::new(
            (message.frame_len() - 1) as nat,
            |k: int| Outcome::InProgress,
        ).push(Outcome::Success(message)),
{
    let wire = message.wire_bytes();
    lemma_wire_bytes_frame(message);
    lemma_feed_frame(wire);
    assert(answers(Seq::empty(), wire) =~= Seq::new(
        (message.frame_len() - 1) as nat,
        |k: int| Outcome::InProgress,
    ).push(Outcome::Success(message)));
}

/// Two frames in a row are decoded each on its own: whatever the checksum of
/// the first, the decoder takes the second as a decoder at the start of a
/// stream would.
pub proof fn lemma_frames_decode_independently(frame: Seq<u8>, rest: Seq<u8>)
    requires
        is_frame(frame),
    ensures
        received_after(Seq::empty(), frame + rest) == received_after(Seq::empty(), rest),
        answers(Seq::empty(), frame + rest) == answers(Seq::empty(), frame) + answers(
            Seq::empty(),
            rest,
        ),
{
    lemma_feed_frame(frame);
    lemma_feed_concat(Seq::empty(), frame, rest);
}

/// A first byte that is not the first magic byte is refused and leaves the
/// decoder where it was: the first magic byte, fed next, is accepted.
pub proof fn lemma_wrong_first_byte(byte: u8)
    requires
        byte != MAGIC_FIRST,
    ensures
        outcome(Seq::empty(), byte) == Outcome::Error(Failure::InvalidStartByte),
        next_received(Seq::empty(), byte) == Seq::<u8>::empty(),
        outcome(next_received(Seq::empty(), byte), MAGIC_FIRST) == Outcome::InProgress,
        next_received(next_received(Seq::empty(), byte), MAGIC_FIRST) == seq![MAGIC_FIRST],
{
}

/// After the first magic byte, a byte that is not the second is refused and
/// sends the decoder back to the start: the second magic byte, fed next, is
/// refused as well.
pub proof fn lemma_wrong_second_byte(byte: u8)
    requires
        byte != MAGIC_SECOND,
    ensures
        outcome(seq![MAGIC_FIRST], byte) == Outcome::Error(Failure::InvalidStartByte),
        next_received(seq![MAGIC_FIRST], byte) == Seq::<u8>::empty(),
        outcome(next_received(seq![MAGIC_FIRST], byte), MAGIC_SECOND) == Outcome::Error(
            Failure::InvalidStartByte,
        ),
        next_received(next_received(seq![MAGIC_FIRST], byte), MAGIC_SECOND) == Seq::<u8>::empty(),
{
}

/// A header that declares an empty payload is followed by the checksum at
/// once: the byte that completes it takes the decoder to the checksum phase,
/// and the payload phase is never entered.
pub proof fn lemma_empty_payload_skips_payload_phase(received: Seq<u8>, byte: u8)
    requires
        is_partial_frame(received),
        received.len() == PREFIX_LEN - 1,
        declared_length(received) == 0,
    ensures
        phase_of(received) == Phase::ReadingHeader,
        outcome(received, byte) == Outcome::InProgress,
        next_received(received, byte) == received.push(byte),
        phase_of(next_received(received, byte)) == Phase::ReadingChecksum,
{
}

/// A payload byte changed in transit is always noticed, and what arrived is
/// handed over. Take a message with the right checksum and replace one byte
/// of its payload on the wire by another value. The decoder answers
/// `InProgress` to every byte but the last, answers the last with
/// `ChecksumError` holding the message with the payload as it arrived, and
/// is then at the start of a frame again: whatever follows is answered as a
/// decoder at the start of a stream would answer it.
pub proof fn lemma_corrupted_payload_reported(message: Message, index: int, byte: u8)
    requires
        message.complete(),
        message.checksum_matches(),
        0 <= index < message.payload.len(),
        byte != message.payload[index],
    ensures
        ({
            let arrived = Message { payload: message.payload.update(index, byte), ..message };
            let wire = message.wire_bytes().update(PREFIX_LEN + index, byte);
            &&& wire == arrived.wire_bytes()
            &&& received_after(Seq::empty(), wire) == Seq::<u8>::empty()
            &&& answers(Seq::empty(), wire) == Seq::new(
                (message.frame_len() - 1) as nat,
                |k: int| Outcome::InProgress,
            ).push(Outcome::Error(Failure::ChecksumError(arrived)))
            &&& forall|rest: Seq<u8>|
                #[trigger]
                answers(Seq::empty(), wire + rest) == answers(Seq::empty(), wire) + answers(
                    Seq::empty(),
                    rest,
                )
        }),
{
    let arrived = Message { payload: message.payload.update(index, byte), ..message };
    let wire = message.wire_bytes().update(PREFIX_LEN + index, byte);
    assert(wire =~= arrived.wire_bytes());
    assert(arrived.summed_bytes() =~= message.summed_bytes().update(PREFIX_LEN + index, byte));
    lemma_byte_sum_update(message.summed_bytes(), PREFIX_LEN + index, byte);
    lemma_byte_sum_nonnegative(message.summed_bytes());
    lemma_byte_sum_nonnegative(arrived.summed_bytes());
    assert(!arrived.checksum_matches());
    lemma_wire_bytes_frame(arrived);
    lemma_feed_frame(wire);
    assert(answers(Seq::empty(), wire) =~= Seq::new(
        (message.frame_len() - 1) as nat,
        |k: int| Outcome::InProgress,
    ).push(Outcome::Error(Failure::ChecksumError(arrived))));
    assert forall|rest: Seq<u8>|
        #[trigger]
        answers(Seq::empty(), wire + rest) == answers(Seq::empty(), wire) + answers(
            Seq::empty(),
            rest,
        ) by {
        lemma_frames_decode_independently(wire, rest);
    }
}

} // verus!
