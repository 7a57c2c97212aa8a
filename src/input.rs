//! The policy that picks how input is acquired.

use vstd::prelude::*;

verus! {

/// Regular files at least this large are memory-mapped.
pub const MMAP_THRESHOLD: u64 = 0x10000;

/// Size of the read buffer used when streaming.
pub const READ_BUFFER_SIZE: usize = 0x40000;

/// Size of the buffer in front of the output.
pub const WRITE_BUFFER_SIZE: usize = 0x10000;

/// How the bytes of an input are obtained.
#[derive(Clone, Copy, Debug, PartialEq, Eq, Structural)]
pub enum InputStrategy {
    /// The whole file is mapped and handed over as one view.
    Mapped,
    /// The input is read in successive chunks until a read returns nothing.
    Streamed,
}

/// Picks mapping for regular files at or above the threshold, streaming for
/// everything else.
pub fn choose_strategy(size: u64, is_regular_file: bool) -> (r: InputStrategy)
    ensures
        r == (if size >= MMAP_THRESHOLD && is_regular_file {
            InputStrategy::Mapped
        } else {
            InputStrategy::Streamed
        }),
{
    if size >= MMAP_THRESHOLD && is_regular_file {
        InputStrategy::Mapped
    } else {
        InputStrategy::Streamed
    }
}

} // verus!
