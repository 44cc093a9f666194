//! The response reader's accumulation step.  The caller reads from the
//! connection into a fixed-size buffer and hands each chunk here; reading
//! stops at the first chunk shorter than the buffer, the library's
//! end-of-transmission heuristic.

use vstd::prelude::*;

use crate::builder::push_all;

verus! {

/// The size of the read buffer; a chunk shorter than this signals the end of
/// the transmission.
pub const READ_CHUNK: usize = 1024;

/// Appends a freshly read chunk to the accumulated response bytes and
/// decides whether the read loop must go on: it must exactly when the chunk
/// filled the whole read buffer.
pub fn accumulate_chunk(data: &mut Vec<u8>, chunk: &[u8]) -> (more: bool)
    ensures
        final(data)@ == old(data)@ + chunk@,
        more == (chunk@.len() == READ_CHUNK),
{
    push_all(data, chunk);
    chunk.len() == READ_CHUNK
}

} // verus!
