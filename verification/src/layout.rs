//! Sizes of the records that the trap and switch code share with this layer,
//! counted in machine words.

use vstd::prelude::*;

verus! {

/// Words of a trap frame: the general registers, then the status register,
/// the exception program counter, the trap value and the trap cause.
pub const FRAME_WORDS: usize = 36;

/// Words that a switch saves and restores: the return address, the
/// address-space root and the callee-saved registers.
pub const SWITCH_WORDS: usize = 14;

/// Words of a saved context: what a switch saves, then a trap frame.
pub const CONTENT_WORDS: usize = 50;

/// Bytes in a machine word.
pub open spec fn word_bytes() -> int {
    usize::BITS as int / 8
}

/// Bytes of a saved context.
pub open spec fn content_bytes() -> int {
    CONTENT_WORDS * word_bytes()
}

/// A sequence of `count` zero words.
pub open spec fn zeros(count: nat) -> Seq<usize> {
    Seq::new(count, |i: int| 0usize)
}

/// Bytes in a machine word.
pub fn word_size() -> (bytes: usize)
    ensures
        bytes == word_bytes(),
        bytes == 4 || bytes == 8,
{
    (usize::BITS / 8) as usize
}

/// Bytes of a saved context.
pub fn content_size() -> (bytes: usize)
    ensures
        bytes == content_bytes(),
        bytes == 200 || bytes == 400,
{
    CONTENT_WORDS * word_size()
}

} // verus!
