//! Framing for the line-delimited text encoding.
//!
//! A snapshot's text encoding is the encoder's output followed by one
//! trailing newline byte, so consumers can read one snapshot per line.  The
//! binary encoding adds no framing.  The encoders themselves live outside
//! the verified library (they serialize through derived trait impls); the
//! framing of their output is specified and checked here.

use vstd::prelude::*;

verus! {

/// The newline byte that terminates one text-encoded snapshot.
pub const TEXT_FRAME_BYTE: u8 = 10;

/// Appends the single trailing newline byte to an encoder's output.
pub fn append_newline(buf: Vec<u8>) -> (r: Vec<u8>)
    ensures
        r@ == buf@.push(TEXT_FRAME_BYTE),
        r@.len() == buf@.len() + 1,
        r@.last() == TEXT_FRAME_BYTE,
{
    let mut out = buf;
    out.push(TEXT_FRAME_BYTE);
    out
}

} // verus!
