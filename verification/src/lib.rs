//! A point-to-point framing protocol for short messages over a byte stream.
//!
//! A frame is two magic bytes, a little-endian header, the payload and a
//! 16-bit additive checksum. [`ProtocolMessage`] computes and checks the
//! checksum and lays a message out on the wire; [`decoder::Decoder`] takes a
//! stream apart again, one byte per call.
use vstd::prelude::*;

pub mod decoder;
pub mod frame;
pub mod payload;
pub mod stream;

use crate::frame::{
    additive_checksum, high_byte_of, lemma_checksum_push, lemma_checksum_unfolds, low_byte_of,
    wrapping_sum, Message, MAGIC_FIRST, MAGIC_SECOND,
};
use crate::payload::{clone_payload, empty_payload, payload_as_slice, PayloadBuffer};

verus! {

/// The two magic bytes that open every frame.
pub const HEADER: [u8; 2] = [MAGIC_FIRST, MAGIC_SECOND];

/// A message whose payload is borrowed. This is the form that checksums are
/// computed on and that is laid out for sending; nothing is copied to make one.
#[derive(Debug, Clone, PartialEq)]
pub struct ProtocolMessage<'a> {
    pub payload_length: u16,
    pub message_id: u16,
    pub src_device_id: u8,
    pub dst_device_id: u8,
    pub payload: &'a [u8],
    pub checksum: u16,
}

/// A message that owns its payload. The decoder builds and returns these.
#[derive(Debug, PartialEq)]
pub struct OwnedProtocolMessage {
    pub payload_length: u16,
    pub message_id: u16,
    pub src_device_id: u8,
    pub dst_device_id: u8,
    pub payload: PayloadBuffer,
    pub checksum: u16,
}

impl<'a> View for ProtocolMessage<'a> {
    type V = Message;

    open spec fn view(&self) -> Message {
        Message {
            payload_length: self.payload_length,
            message_id: self.message_id,
            src_device_id: self.src_device_id,
            dst_device_id: self.dst_device_id,
            payload: self.payload@,
            checksum: self.checksum,
        }
    }
}

impl View for OwnedProtocolMessage {
    type V = Message;

    open spec fn view(&self) -> Message {
        Message {
            payload_length: self.payload_length,
            message_id: self.message_id,
            src_device_id: self.src_device_id,
            dst_device_id: self.dst_device_id,
            payload: self.payload@,
            checksum: self.checksum,
        }
    }
}

impl<'a> Default for ProtocolMessage<'a> {
    fn default() -> (message: Self)
        ensures
            message@ == (Message {
                payload_length: 0,
                message_id: 0,
                src_device_id: 0,
                dst_device_id: 0,
                payload: Seq::empty(),
                checksum: 0,
            }),
    {
        Self {
            payload_length: 0,
            message_id: 0,
            src_device_id: 0,
            dst_device_id: 0,
            payload: &[],
            checksum: 0,
        }
    }
}

impl Default for OwnedProtocolMessage {
    fn default() -> (message: Self)
        ensures
            message@ == (Message {
                payload_length: 0,
                message_id: 0,
                src_device_id: 0,
                dst_device_id: 0,
                payload: Seq::empty(),
                checksum: 0,
            }),
    {
        OwnedProtocolMessage {
            payload_length: 0,
            message_id: 0,
            src_device_id: 0,
            dst_device_id: 0,
            payload: empty_payload(),
            checksum: 0,
        }
    }
}

impl Clone for OwnedProtocolMessage {
    fn clone(&self) -> (copy: Self)
        ensures
            copy@ == self@,
    {
        OwnedProtocolMessage {
            payload_length: self.payload_length,
            message_id: self.message_id,
            src_device_id: self.src_device_id,
            dst_device_id: self.dst_device_id,
            payload: clone_payload(&self.payload),
            checksum: self.checksum,
        }
    }
}

impl OwnedProtocolMessage {
    /// The same message with its payload borrowed instead of owned.
    pub fn as_protocol_message(&self) -> (message: ProtocolMessage<'_>)
        ensures
            message@ == self@,
    {
        ProtocolMessage {
            payload_length: self.payload_length,
            message_id: self.message_id,
            src_device_id: self.src_device_id,
            dst_device_id: self.dst_device_id,
            payload: payload_as_slice(&self.payload),
            checksum: self.checksum,
        }
    }
}

impl<'a> ProtocolMessage<'a> {
    /// The message laid out for sending: the two magic bytes, the header
    /// fields in little-endian order, the payload, and the stored checksum,
    /// low byte first. The checksum is written as it stands; set it from
    /// [`Self::calculate_crc`] beforehand for the frame to be accepted.
    pub fn serialize(&self) -> (bytes: Vec<u8>)
        ensures
            bytes@ == self@.wire_bytes(),
    {
        let mut bytes: Vec<u8> = Vec::new();
        bytes.push(HEADER[0]);
        bytes.push(HEADER[1]);
        bytes.push(low_byte_of(self.payload_length));
        bytes.push(high_byte_of(self.payload_length));
        bytes.push(low_byte_of(self.message_id));
        bytes.push(high_byte_of(self.message_id));
        bytes.push(self.src_device_id);
        bytes.push(self.dst_device_id);
        assert(bytes@ =~= self@.prefix_bytes());
        bytes.extend_from_slice(self.payload);
        assert(bytes@ =~= self@.summed_bytes());
        bytes.push(low_byte_of(self.checksum));
        bytes.push(high_byte_of(self.checksum));
        assert(bytes@ =~= self@.wire_bytes());
        bytes
    }

    /// The checksum that the header fields and the payload call for: the sum
    /// of the magic bytes, the six header bytes and every payload byte,
    /// modulo 65536. The stored checksum takes no part in it.
    pub fn calculate_crc(&self) -> (crc: u16)
        ensures
            crc == self@.computed_checksum(),
    {
        let ghost prefix = self@.prefix_bytes();
        let mut checksum: u16 = 0;
        checksum = checksum.wrapping_add(HEADER[0] as u16);
        checksum = checksum.wrapping_add(HEADER[1] as u16);
        checksum = checksum.wrapping_add(low_byte_of(self.payload_length) as u16);
        checksum = checksum.wrapping_add(high_byte_of(self.payload_length) as u16);
        checksum = checksum.wrapping_add(low_byte_of(self.message_id) as u16);
        checksum = checksum.wrapping_add(high_byte_of(self.message_id) as u16);
        checksum = checksum.wrapping_add(self.src_device_id as u16);
        checksum = checksum.wrapping_add(self.dst_device_id as u16);
        proof {
            reveal_with_fuel(wrapping_sum, 9);
            assert(checksum == wrapping_sum(prefix, 8));
            lemma_checksum_unfolds(prefix, 8);
            assert(prefix.subrange(0, 8) =~= prefix + self.payload@.subrange(0, 0));
        }
        let mut i: usize = 0;
        while i < self.payload.len()
            invariant
                i <= self.payload.len(),
                prefix == self@.prefix_bytes(),
                checksum == additive_checksum(prefix + self.payload@.subrange(0, i as int)),
            decreases self.payload.len() - i,
        {
            proof {
                let summed = prefix + self.payload@.subrange(0, i as int);
                lemma_checksum_push(summed, self.payload@[i as int]);
                assert(summed.push(self.payload@[i as int]) =~= prefix + self.payload@.subrange(
                    0,
                    i + 1,
                ));
            }
            checksum = checksum.wrapping_add(self.payload[i] as u16);
            i += 1;
        }
        assert(self.payload@.subrange(0, i as int) =~= self.payload@);
        checksum
    }

    /// Whether the stored checksum is the one [`Self::calculate_crc`] gives.
    pub fn has_valid_crc(&self) -> (valid: bool)
        ensures
            valid == self@.checksum_matches(),
    {
        self.checksum == self.calculate_crc()
    }

    /// Size in bytes of the frame that the header declares: two magic bytes,
    /// six header bytes, `payload_length` payload bytes and two checksum bytes.
    pub fn length(&self) -> (len: usize)
        ensures
            len == self@.frame_len(),
    {
        HEADER.len() + 2 + 2 + 1 + 1 + self.payload_length as usize + 2
    }
}

} // verus!
