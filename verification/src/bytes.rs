//! Cursor-style primitives over an in-memory byte buffer.
//!
//! Every decoder in this crate consumes its input left to right through
//! these readers: each one takes the buffer and a position, and either
//! returns the value read together with the position just past it, or
//! fails with [`DecodeError::Truncated`] when fewer bytes remain than the
//! field needs.
use crate::DecodeError;
use vstd::prelude::*;
use vstd::slice::{slice_subrange, slice_to_vec};

verus! {

/// The little-endian 16-bit value stored at byte offset `i` of `s`.
pub open spec fn le16_at(s: Seq<u8>, i: int) -> int {
    s[i] + 0x100 * s[i + 1]
}

/// The little-endian 32-bit value stored at byte offset `i` of `s`.
pub open spec fn le32_at(s: Seq<u8>, i: int) -> int {
    s[i] + 0x100 * s[i + 1] + 0x1_0000 * s[i + 2] + 0x100_0000 * s[i + 3]
}

/// Read the byte at `pos`.
pub fn read_u8(input: &[u8], pos: usize) -> (r: Result<(u8, usize), DecodeError>)
    requires
        pos <= input@.len(),
    ensures
        match r {
            Ok((v, end)) => pos + 1 <= input@.len() && v == input@[pos as int] && end == pos + 1,
            Err(e) => pos + 1 > input@.len() && e == DecodeError::Truncated,
        },
{
    if input.len() - pos >= 1 {
        Ok((input[pos], pos + 1))
    } else {
        Err(DecodeError::Truncated)
    }
}

/// Read the little-endian 16-bit value at `pos`.
pub fn read_u16(input: &[u8], pos: usize) -> (r: Result<(u16, usize), DecodeError>)
    requires
        pos <= input@.len(),
    ensures
        match r {
            Ok((v, end)) => pos + 2 <= input@.len() && v == le16_at(input@, pos as int) && end
                == pos + 2,
            Err(e) => pos + 2 > input@.len() && e == DecodeError::Truncated,
        },
{
    if input.len() - pos >= 2 {
        let b0 = input[pos];
        let b1 = input[pos + 1];
        Ok(((b0 as u16) + (b1 as u16) * 0x100, pos + 2))
    } else {
        Err(DecodeError::Truncated)
    }
}

/// Read the little-endian 32-bit value at `pos`.
pub fn read_u32(input: &[u8], pos: usize) -> (r: Result<(u32, usize), DecodeError>)
    requires
        pos <= input@.len(),
    ensures
        match r {
            Ok((v, end)) => pos + 4 <= input@.len() && v == le32_at(input@, pos as int) && end
                == pos + 4,
            Err(e) => pos + 4 > input@.len() && e == DecodeError::Truncated,
        },
{
    if input.len() - pos >= 4 {
        let b0 = input[pos];
        let b1 = input[pos + 1];
        let b2 = input[pos + 2];
        let b3 = input[pos + 3];
        Ok(
            (
                (b0 as u32) + (b1 as u32) * 0x100 + (b2 as u32) * 0x1_0000 + (b3 as u32)
                    * 0x100_0000,
                pos + 4,
            ),
        )
    } else {
        Err(DecodeError::Truncated)
    }
}

/// Copy the `n` bytes starting at `pos` into an owned buffer.
pub fn read_bytes(input: &[u8], pos: usize, n: usize) -> (r: Result<(Vec<u8>, usize), DecodeError>)
    requires
        pos <= input@.len(),
    ensures
        match r {
            Ok((v, end)) => pos + n <= input@.len() && v@ == input@.subrange(
                pos as int,
                pos + n,
            ) && end == pos + n,
            Err(e) => pos + n > input@.len() && e == DecodeError::Truncated,
        },
{
    if input.len() - pos >= n {
        let part = slice_subrange(input, pos, pos + n);
        Ok((slice_to_vec(part), pos + n))
    } else {
        Err(DecodeError::Truncated)
    }
}

} // verus!
