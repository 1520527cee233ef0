//! The chunk boundary policy: a stateless decision on whether the chunk
//! being filled has reached the configured record maximum.

use vstd::prelude::*;

verus! {

/// A chunk is full once its record count reaches the configured maximum.
pub open spec fn is_full_spec(record_count: usize, max_records_per_chunk: usize) -> bool {
    record_count >= max_records_per_chunk
}

/// Decides whether the current chunk is full. The record that reaches the
/// threshold belongs to the closing chunk, so the boundary fires at the
/// threshold, not past it.
pub fn is_full(record_count: usize, max_records_per_chunk: usize) -> (r: bool)
    ensures
        r == is_full_spec(record_count, max_records_per_chunk),
{
    record_count >= max_records_per_chunk
}

} // verus!
