//! The directory sharding scheme: maps a chunk index to a subdirectory
//! so that each directory holds at most `files_per_dir` chunk files, and
//! a caller-supplied start offset lets independent runs land in disjoint
//! subdirectory ranges.

use vstd::prelude::*;

verus! {

/// The subdirectory a chunk lands in:
/// `start_offset + chunk_index / files_per_dir`.
pub open spec fn subdir_spec(chunk_index: u64, start_offset: u64, files_per_dir: u64) -> int {
    start_offset + chunk_index as int / files_per_dir as int
}

/// Maps a chunk index to its target subdirectory. The result is a pure
/// function of the three arguments, so the same inputs always give the
/// same placement. `None` exactly when the subdirectory id would not fit
/// in a `u64`.
pub fn subdir_for(chunk_index: u64, start_offset: u64, files_per_dir: u64) -> (r: Option<u64>)
    requires
        files_per_dir >= 1,
    ensures
        r matches Some(s) ==> s == subdir_spec(chunk_index, start_offset, files_per_dir),
        r is None <==> subdir_spec(chunk_index, start_offset, files_per_dir) > u64::MAX,
{
    let q = chunk_index / files_per_dir;
    if start_offset <= u64::MAX - q {
        Some(start_offset + q)
    } else {
        None
    }
}

/// Subdirectories of one run never collide with those of a re-run whose
/// start offset lies above every subdirectory the first run can reach:
/// if the first run uses chunk indices up to `bound` and the second run's
/// offset exceeds `subdir_spec(bound, start1, files_per_dir)`, the two
/// runs' placements are disjoint.
pub proof fn lemma_disjoint_runs(
    index1: u64,
    start1: u64,
    index2: u64,
    start2: u64,
    files_per_dir: u64,
    bound: u64,
)
    requires
        files_per_dir >= 1,
        index1 <= bound,
        start2 > subdir_spec(bound, start1, files_per_dir),
    ensures
        subdir_spec(index1, start1, files_per_dir) != subdir_spec(
            index2,
            start2,
            files_per_dir,
        ),
{
    vstd::arithmetic::div_mod::lemma_div_is_ordered(
        index1 as int,
        bound as int,
        files_per_dir as int,
    );
    vstd::arithmetic::div_mod::lemma_div_pos_is_pos(index2 as int, files_per_dir as int);
}

} // verus!
