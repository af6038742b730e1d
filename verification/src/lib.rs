//! Rewrites IRC inline color codes in a byte stream into ANSI SGR escape
//! sequences.
//!
//! [`color`] holds the color table and the escape sequences, [`machine`] the
//! state machine that recognises color codes byte by byte, [`filter`] the
//! buffering adapter that serves the rewritten bytes of one chunk at a time,
//! and [`laws`] what is proved of the state machine on every input.

use vstd::prelude::*;

use crate::filter::BufFilter;
use crate::machine::{initial_state, run, IRCatFilter, UnknownColor};

pub mod color;
pub mod filter;
pub mod laws;
pub mod machine;

verus! {

/// Rewrites the IRC color codes in `input` into ANSI ones and appends the
/// result to `output`.
///
/// On success returns the number of bytes appended. Where `input` holds a
/// color index outside the table, what was rewritten before that index is
/// appended and the index is returned as the error.
pub fn ircat(input: &[u8], output: &mut Vec<u8>) -> (written: Result<u64, UnknownColor>)
    ensures
        final(output)@ == old(output)@ + run(initial_state(), input@).output,
        written == match run(initial_state(), input@).error {
            Some(error) => Err::<u64, UnknownColor>(error),
            None => Ok::<u64, UnknownColor>(run(initial_state(), input@).output.len() as u64),
        },
{
    let mut source = BufFilter::<IRCatFilter>::new();
    let taken = source.fill_buf(input);
    let bytes = source.buffer();
    let count = bytes.len();
    output.extend_from_slice(bytes);
    match taken {
        Ok(_) => Ok(count as u64),
        Err(error) => Err(error),
    }
}

} // verus!
