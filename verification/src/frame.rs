//! The wire format as mathematics: byte order, the additive checksum, and the
//! layout of a frame. The executable code of the crate is verified against
//! these definitions. The three functions at the end split and join 16-bit
//! values at run time.
use vstd::prelude::*;

verus! {

/// First magic byte of every frame, ASCII `B`.
pub const MAGIC_FIRST: u8 = 0x42;

/// Second magic byte of every frame, ASCII `R`.
pub const MAGIC_SECOND: u8 = 0x52;

/// Bytes of a frame before the payload: magic, length, id, source, destination.
pub const PREFIX_LEN: usize = 8;

/// Bytes of a frame that are not payload: the prefix and the two checksum bytes.
pub const OVERHEAD_LEN: usize = 10;

/// Least significant byte of `x`, the one that travels first.
pub open spec fn low_byte(x: u16) -> u8 {
    (x % 256) as u8
}

/// Most significant byte of `x`, the one that travels second.
pub open spec fn high_byte(x: u16) -> u8 {
    (x / 256) as u8
}

/// The 16-bit value whose little-endian encoding is `lo`, `hi`.
pub open spec fn u16_le(lo: u8, hi: u8) -> u16 {
    (lo + 256 * hi) as u16
}

/// Sum of all bytes of `bytes`, without wrapping.
pub open spec fn byte_sum(bytes: Seq<u8>) -> int
    decreases bytes.len(),
{
    if bytes.len() == 0 {
        0
    } else {
        byte_sum(bytes.drop_last()) + bytes.last()
    }
}

/// The checksum of `bytes`: their sum modulo 65536.
pub open spec fn additive_checksum(bytes: Seq<u8>) -> u16 {
    (byte_sum(bytes) % 0x1_0000) as u16
}

/// A message as a mathematical value: the header fields, the payload as a
/// sequence, and the checksum that travelled or will travel with it. Both
/// executable representations of a message have this as their view.
#[verifier::ext_equal]
pub struct Message {
    pub payload_length: u16,
    pub message_id: u16,
    pub src_device_id: u8,
    pub dst_device_id: u8,
    pub payload: Seq<u8>,
    pub checksum: u16,
}

impl Message {
    /// The eight bytes that precede the payload on the wire.
    pub open spec fn prefix_bytes(self) -> Seq<u8> {
        seq![
            MAGIC_FIRST,
            MAGIC_SECOND,
            low_byte(self.payload_length),
            high_byte(self.payload_length),
            low_byte(self.message_id),
            high_byte(self.message_id),
            self.src_device_id,
            self.dst_device_id,
        ]
    }

    /// Every byte the checksum covers: the whole frame but the checksum itself.
    pub open spec fn summed_bytes(self) -> Seq<u8> {
        self.prefix_bytes() + self.payload
    }

    /// The checksum this message ought to carry.
    pub open spec fn computed_checksum(self) -> u16 {
        additive_checksum(self.summed_bytes())
    }

    /// The stored checksum is the one the contents call for.
    pub open spec fn checksum_matches(self) -> bool {
        self.checksum == self.computed_checksum()
    }

    /// The message as it appears on the wire.
    pub open spec fn wire_bytes(self) -> Seq<u8> {
        self.summed_bytes() + seq![low_byte(self.checksum), high_byte(self.checksum)]
    }

    /// The payload has exactly the declared length.
    pub open spec fn complete(self) -> bool {
        self.payload.len() == self.payload_length
    }

    /// Size of the frame that the header declares.
    pub open spec fn frame_len(self) -> nat {
        (OVERHEAD_LEN + self.payload_length) as nat
    }
}

/// Sums never go negative.
pub proof fn lemma_byte_sum_nonnegative(bytes: Seq<u8>)
    ensures
        byte_sum(bytes) >= 0,
    decreases bytes.len(),
{
    if bytes.len() > 0 {
        lemma_byte_sum_nonnegative(bytes.drop_last());
    }
}

/// Appending a byte adds it to the sum, and to the checksum with wraparound.
pub proof fn lemma_checksum_push(bytes: Seq<u8>, byte: u8)
    ensures
        byte_sum(bytes.push(byte)) == byte_sum(bytes) + byte,
        additive_checksum(bytes.push(byte)) == vstd::wrapping::u16_specs::wrapping_add(
            additive_checksum(bytes),
            byte as u16,
        ),
{
    assert(bytes.push(byte).drop_last() =~= bytes);
    lemma_byte_sum_nonnegative(bytes);
}

/// Replacing one byte changes the sum by the difference of the two.
pub proof fn lemma_byte_sum_update(bytes: Seq<u8>, index: int, byte: u8)
    requires
        0 <= index < bytes.len(),
    ensures
        byte_sum(bytes.update(index, byte)) == byte_sum(bytes) - bytes[index] + byte,
    decreases bytes.len(),
{
    let changed = bytes.update(index, byte);
    if index == bytes.len() - 1 {
        assert(changed.drop_last() =~= bytes.drop_last());
    } else {
        lemma_byte_sum_update(bytes.drop_last(), index, byte);
        assert(changed.drop_last() =~= bytes.drop_last().update(index, byte));
    }
}

/// The checksum of a sequence is reached by starting from zero and adding its
/// first `n` bytes one at a time with wraparound; `wrapping_sum` is that
/// running value.
pub open spec fn wrapping_sum(bytes: Seq<u8>, n: nat) -> u16
    decreases n,
{
    if n == 0 {
        0
    } else {
        vstd::wrapping::u16_specs::wrapping_add(
            wrapping_sum(bytes, (n - 1) as nat),
            bytes[n - 1] as u16,
        )
    }
}

/// Adding the bytes one at a time with wraparound gives the checksum.
pub proof fn lemma_checksum_unfolds(bytes: Seq<u8>, n: nat)
    requires
        n <= bytes.len(),
    ensures
        wrapping_sum(bytes, n) == additive_checksum(bytes.subrange(0, n as int)),
    decreases n,
{
    if n > 0 {
        let shorter = bytes.subrange(0, n - 1);
        lemma_checksum_unfolds(bytes, (n - 1) as nat);
        lemma_checksum_push(shorter, bytes[n - 1]);
        assert(shorter.push(bytes[n - 1]) =~= bytes.subrange(0, n as int));
    }
}

/// Executable counterpart of [`low_byte`].
pub fn low_byte_of(x: u16) -> (b: u8)
    ensures
        b == low_byte(x),
{
    (x % 256) as u8
}

/// Executable counterpart of [`high_byte`].
pub fn high_byte_of(x: u16) -> (b: u8)
    ensures
        b == high_byte(x),
{
    (x / 256) as u8
}

/// Executable counterpart of [`u16_le`].
pub fn u16_from_le(lo: u8, hi: u8) -> (x: u16)
    ensures
        x == u16_le(lo, hi),
        low_byte(x) == lo,
        high_byte(x) == hi,
{
    lo as u16 + 256 * (hi as u16)
}

} // verus!
