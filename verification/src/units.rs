//! Unit conversions used when a report is shaped.

use vstd::prelude::*;

verus! {

/// Number of bytes in one megabyte as reports count it.
pub const BYTES_PER_MEGABYTE: u64 = 1_048_576;

/// Whole megabytes contained in `bytes`; the remainder is dropped.
pub open spec fn megabytes(bytes: u64) -> u64 {
    (bytes / BYTES_PER_MEGABYTE) as u64
}

/// Converts a byte count to whole megabytes, truncating.
pub fn bytes_to_megabytes(bytes: u64) -> (mb: u64)
    ensures
        mb == megabytes(bytes),
        mb * BYTES_PER_MEGABYTE <= bytes < (mb + 1) * BYTES_PER_MEGABYTE,
{
    bytes / BYTES_PER_MEGABYTE
}

} // verus!
