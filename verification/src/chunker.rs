//! The chunk controller: drives enrich, buffer and flush. It owns the only
//! cross-record mutable state (current chunk index, current record count),
//! and the in-memory pipeline proves the run-wide guarantees: line order
//! is preserved, timestamps are strictly increasing in emission order, and
//! every chunk except possibly the last holds exactly the configured
//! maximum of records.

use vstd::prelude::*;
use crate::timestamp::{ts_lt, ts_le};
use crate::clock::{CausalClock, ClockError};
use crate::record::{EnrichedRecord, enrich_line};
use crate::policy::{is_full, is_full_spec};
use crate::shard::{subdir_for, subdir_spec};

verus! {

/// One closed chunk: its index within the run and its records in input
/// order.
pub struct Chunk {
    pub index: u64,
    pub records: Vec<EnrichedRecord>,
}

/// All records of a run of chunks, in chunk order.
pub open spec fn flat_records(chunks: Seq<Chunk>) -> Seq<EnrichedRecord>
    decreases chunks.len(),
{
    if chunks.len() == 0 {
        Seq::empty()
    } else {
        flat_records(chunks.drop_last()) + chunks.last().records@
    }
}

/// Appending one chunk appends exactly its records to the flattened run.
pub proof fn lemma_flat_records_push(chunks: Seq<Chunk>, c: Chunk)
    ensures
        flat_records(chunks.push(c)) == flat_records(chunks) + c.records@,
{
    assert(chunks.push(c).drop_last() =~= chunks);
    assert(chunks.push(c).last() == c);
}

/// Enriches every line in order. On success the records carry the lines
/// unchanged, in order, each with a timestamp strictly greater than the
/// previous one and than everything the clock issued before the call.
/// Fails only when the clock does, so an empty input always succeeds;
/// whatever happens, the clock never moves backwards.
pub fn enrich_all(clock: &mut CausalClock, lines: &Vec<String>) -> (r: Result<
    Vec<EnrichedRecord>,
    ClockError,
>)
    ensures
        r matches Ok(recs) ==> {
            &&& recs@.len() == lines@.len()
            &&& (forall|k: int| 0 <= k < recs@.len() ==> recs@[k].line@ == lines@[k]@)
            &&& (forall|k1: int, k2: int|
                0 <= k1 < k2 < recs@.len() ==> ts_lt(recs@[k1].ts, recs@[k2].ts))
            &&& (forall|k: int| 0 <= k < recs@.len() ==> ts_lt(old(clock).last, recs@[k].ts))
            &&& (forall|k: int| 0 <= k < recs@.len() ==> ts_le(recs@[k].ts, final(clock).last))
        },
        lines@.len() == 0 ==> r is Ok,
        ts_le(old(clock).last, final(clock).last),
{
    let mut recs: Vec<EnrichedRecord> = Vec::new();
    let mut idx: usize = 0;
    while idx < lines.len()
        invariant
            idx <= lines.len(),
            recs@.len() == idx,
            forall|k: int| 0 <= k < idx ==> recs@[k].line@ == lines@[k]@,
            forall|k1: int, k2: int| 0 <= k1 < k2 < idx ==> ts_lt(recs@[k1].ts, recs@[k2].ts),
            forall|k: int| 0 <= k < idx ==> ts_lt(old(clock).last, recs@[k].ts),
            forall|k: int| 0 <= k < idx ==> ts_le(recs@[k].ts, clock.last),
            ts_le(old(clock).last, clock.last),
        decreases lines.len() - idx,
    {
        match enrich_line(clock, lines[idx].as_str()) {
            Ok(rec) => {
                recs.push(rec);
            },
            Err(e) => {
                return Err(e);
            },
        }
        idx += 1;
    }
    Ok(recs)
}

/// Splits records into chunks of exactly `max_records_per_chunk` records
/// each, any remainder forming the final partial chunk; no empty chunk is
/// ever produced. Chunk indices count from zero, and the flattened run is
/// the input, unchanged.
pub fn chunk_records(records: Vec<EnrichedRecord>, max_records_per_chunk: usize) -> (r: Vec<
    Chunk,
>)
    requires
        max_records_per_chunk >= 1,
    ensures
        flat_records(r@) == records@,
        forall|i: int| 0 <= i < r@.len() ==> r@[i].index == i,
        forall|i: int|
            0 <= i < r@.len() - 1 ==> r@[i].records@.len() == max_records_per_chunk,
        r@.len() > 0 ==> 1 <= r@.last().records@.len() <= max_records_per_chunk,
        r@.len() == 0 <==> records@.len() == 0,
{
    let max = max_records_per_chunk;
    let n = records.len();
    let mut chunks: Vec<Chunk> = Vec::new();
    let mut current: Vec<EnrichedRecord> = Vec::new();
    let mut k: usize = 0;
    while k < n
        invariant
            max == max_records_per_chunk,
            max >= 1,
            n == records@.len(),
            k <= n,
            current@.len() < max,
            chunks@.len() <= k,
            flat_records(chunks@) + current@ == records@.subrange(0, k as int),
            forall|i: int| 0 <= i < chunks@.len() ==> chunks@[i].records@.len() == max,
            forall|i: int| 0 <= i < chunks@.len() ==> chunks@[i].index == i,
        decreases n - k,
    {
        let rec = EnrichedRecord { ts: records[k].ts, line: records[k].line.clone() };
        proof {
            assert(rec == records@[k as int]);
        }
        current.push(rec);
        k += 1;
        proof {
            assert(records@.subrange(0, k as int) =~= records@.subrange(0, k - 1).push(
                records@[k - 1],
            ));
        }
        if current.len() == max {
            let index: u64 = chunks.len() as u64;
            let ghost chunks_before = chunks@;
            let full = Chunk { index, records: current };
            chunks.push(full);
            current = Vec::new();
            proof {
                lemma_flat_records_push(chunks_before, chunks@.last());
                assert(flat_records(chunks@) + current@ =~= records@.subrange(0, k as int));
            }
        }
    }
    proof {
        assert(records@.subrange(0, n as int) =~= records@);
    }
    if current.len() > 0 {
        let index: u64 = chunks.len() as u64;
        let ghost chunks_before = chunks@;
        let tail = Chunk { index, records: current };
        chunks.push(tail);
        proof {
            lemma_flat_records_push(chunks_before, chunks@.last());
            assert(flat_records(chunks@) =~= records@);
        }
    } else {
        proof {
            assert(flat_records(chunks@) + current@ =~= flat_records(chunks@));
            assert(flat_records(chunks@) =~= records@);
        }
    }
    proof {
        if chunks@.len() == 0 {
            assert(records@.len() == 0);
        } else {
            assert(flat_records(chunks@.drop_last()) + chunks@.last().records@ == records@);
        }
    }
    chunks
}

/// The whole in-memory pipeline: enrich every line in order, then split
/// the records into bounded chunks. On success the flattened run carries
/// the input lines unchanged and in order, its timestamps are strictly
/// increasing in emission order, every chunk except possibly the last is
/// exactly full, the last is never empty, chunk indices are consecutive
/// from zero, and an empty input yields no chunk at all. Fails only when
/// the clock does, so an empty input always succeeds; whatever happens,
/// the clock never moves backwards.
pub fn enrich_and_chunk(
    clock: &mut CausalClock,
    lines: &Vec<String>,
    max_records_per_chunk: usize,
) -> (r: Result<Vec<Chunk>, ClockError>)
    requires
        max_records_per_chunk >= 1,
    ensures
        r matches Ok(chunks) ==> {
            let flat = flat_records(chunks@);
            &&& flat.len() == lines@.len()
            &&& (forall|k: int| 0 <= k < flat.len() ==> flat[k].line@ == lines@[k]@)
            &&& (forall|k1: int, k2: int|
                0 <= k1 < k2 < flat.len() ==> ts_lt(flat[k1].ts, flat[k2].ts))
            &&& (forall|k: int| 0 <= k < flat.len() ==> ts_lt(old(clock).last, flat[k].ts))
            &&& (forall|i: int| 0 <= i < chunks@.len() ==> chunks@[i].index == i)
            &&& (forall|i: int|
                0 <= i < chunks@.len() - 1 ==> chunks@[i].records@.len()
                    == max_records_per_chunk)
            &&& (chunks@.len() > 0 ==> 1 <= chunks@.last().records@.len()
                <= max_records_per_chunk)
            &&& (chunks@.len() == 0 <==> lines@.len() == 0)
        },
        lines@.len() == 0 ==> r is Ok,
        ts_le(old(clock).last, final(clock).last),
{
    let recs = match enrich_all(clock, lines) {
        Ok(r) => r,
        Err(e) => {
            return Err(e);
        },
    };
    Ok(chunk_records(recs, max_records_per_chunk))
}

/// No two records of one run carry the same timestamp: timestamps that
/// are strictly increasing in emission order, as `enrich_and_chunk`
/// guarantees, are pairwise distinct across the whole run.
pub proof fn lemma_run_timestamps_unique(chunks: Seq<Chunk>)
    requires
        forall|k1: int, k2: int|
            0 <= k1 < k2 < flat_records(chunks).len() ==> ts_lt(
                flat_records(chunks)[k1].ts,
                flat_records(chunks)[k2].ts,
            ),
    ensures
        forall|k1: int, k2: int|
            0 <= k1 < flat_records(chunks).len() && 0 <= k2 < flat_records(chunks).len() && k1
                != k2 ==> flat_records(chunks)[k1].ts != flat_records(chunks)[k2].ts,
{
    let flat = flat_records(chunks);
    let stamps = Seq::new(flat.len(), |k: int| flat[k].ts);
    assert forall|k1: int, k2: int| 0 <= k1 < k2 < stamps.len() implies ts_lt(
        stamps[k1],
        stamps[k2],
    ) by {
        assert(ts_lt(flat[k1].ts, flat[k2].ts));
    }
    crate::timestamp::lemma_strictly_increasing_all_distinct(stamps);
    assert forall|k1: int, k2: int|
        0 <= k1 < flat.len() && 0 <= k2 < flat.len() && k1 != k2 implies flat[k1].ts
        != flat[k2].ts by {
        assert(stamps[k1] != stamps[k2]);
    }
}

/// Fixed configuration of one run.
#[derive(Clone, Copy, PartialEq, Eq, Structural, Debug)]
pub struct ControllerConfig {
    pub max_records_per_chunk: usize,
    pub files_per_dir: u64,
    pub start_offset: u64,
}

impl ControllerConfig {
    /// A usable configuration: chunks hold at least one record and each
    /// directory holds at least one file.
    pub open spec fn wf(self) -> bool {
        self.max_records_per_chunk >= 1 && self.files_per_dir >= 1
    }
}

/// The chunk controller's cross-record state: the index of the chunk
/// being filled and how many records it holds so far.
pub struct ChunkController {
    pub config: ControllerConfig,
    pub chunk_index: u64,
    pub records_in_chunk: usize,
}

impl ChunkController {
    /// The controller never holds more records than one chunk may take.
    pub open spec fn wf(self) -> bool {
        self.config.wf() && self.records_in_chunk <= self.config.max_records_per_chunk
    }

    /// A controller at the start of a run: filling chunk zero, no record
    /// written yet.
    pub fn new(config: ControllerConfig) -> (r: ChunkController)
        requires
            config.wf(),
        ensures
            r.wf(),
            r.config == config,
            r.chunk_index == 0,
            r.records_in_chunk == 0,
    {
        ChunkController { config, chunk_index: 0, records_in_chunk: 0 }
    }

    /// Notes that one enriched record was written to the open chunk and
    /// returns whether the chunk is now full and must be closed.
    pub fn record_written(&mut self) -> (full: bool)
        requires
            old(self).wf(),
            old(self).records_in_chunk < old(self).config.max_records_per_chunk,
        ensures
            final(self).wf(),
            final(self).config == old(self).config,
            final(self).chunk_index == old(self).chunk_index,
            final(self).records_in_chunk == old(self).records_in_chunk + 1,
            full == is_full_spec(
                final(self).records_in_chunk,
                final(self).config.max_records_per_chunk,
            ),
    {
        self.records_in_chunk = self.records_in_chunk + 1;
        is_full(self.records_in_chunk, self.config.max_records_per_chunk)
    }

    /// Closes the open chunk (it must hold at least one record: no empty
    /// chunk is ever emitted) and moves on to the next chunk index.
    pub fn chunk_closed(&mut self)
        requires
            old(self).wf(),
            old(self).records_in_chunk >= 1,
            old(self).chunk_index < u64::MAX,
        ensures
            final(self).wf(),
            final(self).config == old(self).config,
            final(self).chunk_index == old(self).chunk_index + 1,
            final(self).records_in_chunk == 0,
    {
        self.chunk_index = self.chunk_index + 1;
        self.records_in_chunk = 0;
    }

    /// The subdirectory the chunk currently being filled belongs to;
    /// `None` exactly when the subdirectory id would not fit in a `u64`.
    pub fn current_subdir(&self) -> (r: Option<u64>)
        requires
            self.wf(),
        ensures
            r matches Some(s) ==> s == subdir_spec(
                self.chunk_index,
                self.config.start_offset,
                self.config.files_per_dir,
            ),
            r is None <==> subdir_spec(
                self.chunk_index,
                self.config.start_offset,
                self.config.files_per_dir,
            ) > u64::MAX,
    {
        subdir_for(self.chunk_index, self.config.start_offset, self.config.files_per_dir)
    }
}

} // verus!
