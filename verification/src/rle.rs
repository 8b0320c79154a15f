//! The run-length codec shared by every compressed indexed bitmap.
//!
//! A byte whose top two bits are both set is a run marker: its low six bits
//! give a repeat count, and the next byte of the stream is the value to
//! repeat that many times. Any other byte is emitted literally. Decoding
//! consumes the input left to right in one pass and stops when the input is
//! exhausted; a run marker standing last, with no value byte after it, is a
//! truncated-input error.
use crate::DecodeError;
use vstd::prelude::*;

verus! {

/// True of a byte whose top two bits are both set: it marks a run.
pub open spec fn is_run_marker(b: u8) -> bool {
    b & 0xC0 == 0xC0
}

/// The repeat count held in the low six bits of a run marker.
pub open spec fn run_length(b: u8) -> nat {
    (b & 0x3F) as nat
}

/// What decoding `data` from offset `i` onward yields: `None` when a run
/// marker stands last with no value byte after it, otherwise the decoded
/// bytes.
pub open spec fn rle_from(data: Seq<u8>, i: int) -> Option<Seq<u8>>
    decreases data.len() - i,
{
    if i < 0 || i >= data.len() {
        Some(Seq::empty())
    } else if is_run_marker(data[i]) {
        if i + 1 >= data.len() {
            None
        } else {
            match rle_from(data, i + 2) {
                None => None,
                Some(rest) => Some(Seq::new(run_length(data[i]), |j: int| data[i + 1]) + rest),
            }
        }
    } else {
        match rle_from(data, i + 1) {
            None => None,
            Some(rest) => Some(seq![data[i]] + rest),
        }
    }
}

/// What decoding the whole of `data` yields.
pub open spec fn rle_spec(data: Seq<u8>) -> Option<Seq<u8>> {
    rle_from(data, 0)
}

/// Decompress one RLE byte stream.
pub fn rle_decode(data: &[u8]) -> (r: Result<Vec<u8>, DecodeError>)
    ensures
        match r {
            Ok(v) => rle_spec(data@) == Some(v@),
            Err(e) => rle_spec(data@) is None && e == DecodeError::Truncated,
        },
{
    let mut result: Vec<u8> = Vec::new();
    let mut index: usize = 0;
    while index < data.len()
        invariant
            index <= data@.len(),
            match rle_from(data@, index as int) {
                Some(rest) => rle_spec(data@) == Some(result@ + rest),
                None => rle_spec(data@) is None,
            },
        decreases data@.len() - index,
    {
        let ghost start = index as int;
        let byte1 = data[index];
        index += 1;
        if byte1 & 0xC0 == 0xC0 {
            if index >= data.len() {
                assert(rle_from(data@, start) is None);
                return Err(DecodeError::Truncated);
            }
            let byte2 = data[index];
            index += 1;
            let run = byte1 & 0x3F;
            let ghost before = result@;
            let mut k: u8 = 0;
            while k < run
                invariant
                    k <= run,
                    result@ == before + Seq::new(k as nat, |j: int| byte2),
                decreases run - k,
            {
                proof {
                    assert(before + Seq::new(k as nat, |j: int| byte2) + seq![byte2] =~= before
                        + Seq::new((k + 1) as nat, |j: int| byte2));
                }
                result.push(byte2);
                k += 1;
            }
            proof {
                assert(Seq::new(run as nat, |j: int| byte2) =~= Seq::new(
                    run_length(data@[start]),
                    |j: int| data@[start + 1],
                ));
                match rle_from(data@, index as int) {
                    Some(rest) => {
                        assert(before + (Seq::new(run_length(data@[start]), |j: int| data@[start
                            + 1]) + rest) =~= result@ + rest);
                    },
                    None => {},
                }
            }
        } else {
            proof {
                match rle_from(data@, index as int) {
                    Some(rest) => {
                        assert(result@ + (seq![byte1] + rest) =~= result@.push(byte1) + rest);
                    },
                    None => {},
                }
            }
            result.push(byte1);
        }
    }
    proof {
        assert(result@ + Seq::<u8>::empty() =~= result@);
    }
    Ok(result)
}

} // verus!
