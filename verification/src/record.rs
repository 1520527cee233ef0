//! The record enricher: pairs each input line with one freshly issued
//! causal timestamp and serializes the pair to its wire form.

use vstd::prelude::*;
use crate::timestamp::{CausalTimestamp, first_pos, lemma_first_pos_of_concat, render_ts, ts_lt};
use crate::clock::{CausalClock, ClockError};

verus! {

/// The serialized wire form of one enriched record:
/// `<wall>.<count>,<line>` followed by a carriage return and a line feed.
pub open spec fn wire_form(t: CausalTimestamp, line: Seq<char>) -> Seq<char> {
    render_ts(t) + seq![','] + line + seq!['\r', '\n']
}

/// One input line paired with the causal timestamp it was enriched with.
pub struct EnrichedRecord {
    pub ts: CausalTimestamp,
    pub line: String,
}

impl EnrichedRecord {
    /// Serializes the record to its wire form.
    pub fn wire(&self) -> (r: String)
        ensures
            r@ == wire_form(self.ts, self.line@),
    {
        let mut s = self.ts.render();
        s.append(",");
        s.append(self.line.as_str());
        s.append("\r\n");
        proof {
            reveal_strlit(",");
            reveal_strlit("\r\n");
            assert(s@ =~= wire_form(self.ts, self.line@));
        }
        s
    }
}

/// The line a wire-form record carries: everything between the first
/// comma and the trailing carriage return and line feed.
pub open spec fn recover_line(w: Seq<char>) -> Seq<char> {
    w.subrange(first_pos(w, ',') + 1, w.len() - 2)
}

/// Serialization round trip: the original line is recovered, unmodified,
/// from the wire form of any record. The timestamp field holds no comma,
/// so the first comma of the record delimits it, and what follows up to
/// the trailing carriage return and line feed is exactly the line.
pub proof fn lemma_wire_form_round_trip(t: CausalTimestamp, line: Seq<char>)
    ensures
        first_pos(wire_form(t, line), ',') == render_ts(t).len(),
        recover_line(wire_form(t, line)) == line,
{
    let w = wire_form(t, line);
    crate::timestamp::lemma_render_ts_no_comma(t);
    assert(w =~= render_ts(t) + seq![','] + (line + seq!['\r', '\n']));
    lemma_first_pos_of_concat(render_ts(t), ',', line + seq!['\r', '\n']);
    assert(recover_line(w) =~= line);
}

/// Records with distinct timestamps serialize distinctly, whatever lines
/// they carry: the timestamp field alone already tells them apart.
pub proof fn lemma_wire_form_distinct(
    t1: CausalTimestamp,
    l1: Seq<char>,
    t2: CausalTimestamp,
    l2: Seq<char>,
)
    requires
        t1 != t2,
    ensures
        wire_form(t1, l1) != wire_form(t2, l2),
{
    if wire_form(t1, l1) == wire_form(t2, l2) {
        lemma_wire_form_round_trip(t1, l1);
        lemma_wire_form_round_trip(t2, l2);
        assert(render_ts(t1) =~= wire_form(t1, l1).subrange(0, render_ts(t1).len() as int));
        assert(render_ts(t2) =~= wire_form(t2, l2).subrange(0, render_ts(t2).len() as int));
        crate::timestamp::lemma_render_ts_injective(t1, t2);
    }
}

/// Enriches one line: pulls exactly one timestamp from the clock and
/// pairs it with the line, unchanged. Never rejects a line; fails only
/// when the clock does, and then leaves the clock as it was.
pub fn enrich_line(clock: &mut CausalClock, line: &str) -> (r: Result<EnrichedRecord, ClockError>)
    ensures
        r matches Ok(rec) ==> rec.line@ == line@ && rec.ts == final(clock).last && ts_lt(
            old(clock).last,
            rec.ts,
        ),
        r is Err ==> *final(clock) == *old(clock),
{
    match clock.now() {
        Ok(ts) => Ok(EnrichedRecord { ts, line: line.to_owned() }),
        Err(e) => Err(e),
    }
}

} // verus!
