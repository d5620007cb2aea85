//! Big-endian encoding and decoding of 32-bit words.
//!
//! Every multi-byte operand of the bytecode format, and every word kept in the
//! machine's linear memory, is laid out as four bytes in big-endian order.

use vstd::prelude::*;

verus! {

/// The 32-bit word encoded by four bytes in big-endian order.
pub open spec fn word_of_bytes(b0: u8, b1: u8, b2: u8, b3: u8) -> u32 {
    (b0 * 0x100_0000 + b1 * 0x1_0000 + b2 * 0x100 + b3) as u32
}

/// Big-endian byte `k` (0 is the most significant) of a 32-bit word.
pub open spec fn byte_of_word(w: u32, k: int) -> u8 {
    if k == 0 {
        (w / 0x100_0000) as u8
    } else if k == 1 {
        ((w / 0x1_0000) % 0x100) as u8
    } else if k == 2 {
        ((w / 0x100) % 0x100) as u8
    } else {
        (w % 0x100) as u8
    }
}

/// Assembles a word from its four big-endian bytes.
pub fn word_from_be_bytes(b0: u8, b1: u8, b2: u8, b3: u8) -> (w: u32)
    ensures
        w == word_of_bytes(b0, b1, b2, b3),
{
    (b0 as u32) * 0x100_0000 + (b1 as u32) * 0x1_0000 + (b2 as u32) * 0x100 + (b3 as u32)
}

/// Splits a word into its four big-endian bytes.
pub fn word_to_be_bytes(w: u32) -> (bs: (u8, u8, u8, u8))
    ensures
        bs.0 == byte_of_word(w, 0),
        bs.1 == byte_of_word(w, 1),
        bs.2 == byte_of_word(w, 2),
        bs.3 == byte_of_word(w, 3),
{
    (
        (w / 0x100_0000) as u8,
        ((w / 0x1_0000) % 0x100) as u8,
        ((w / 0x100) % 0x100) as u8,
        (w % 0x100) as u8,
    )
}

/// A four-byte big-endian immediate equals its bytes shifted into place and
/// or-ed together.
pub proof fn lemma_word_of_bytes_shift_or(b0: u8, b1: u8, b2: u8, b3: u8)
    ensures
        word_of_bytes(b0, b1, b2, b3) == (((b0 as u32) << 24) | ((b1 as u32) << 16) | ((b2 as u32)
            << 8) | (b3 as u32)),
{
    assert(((b0 * 0x100_0000 + b1 * 0x1_0000 + b2 * 0x100 + b3) as u32) == (((b0 as u32) << 24) | (
    (b1 as u32) << 16) | ((b2 as u32) << 8) | (b3 as u32))) by (bit_vector);
}

} // verus!
