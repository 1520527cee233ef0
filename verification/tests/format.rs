use hlc_enrich::clock::{CausalClock, ClockError};
use hlc_enrich::paths::{chunk_file_path, dir_path};
use hlc_enrich::record::{enrich_line, EnrichedRecord};
use hlc_enrich::timestamp::{u64_to_dec, CausalTimestamp};

#[test]
fn decimal_rendering() {
    assert_eq!(u64_to_dec(0), "0");
    assert_eq!(u64_to_dec(7), "7");
    assert_eq!(u64_to_dec(10), "10");
    assert_eq!(u64_to_dec(105), "105");
    assert_eq!(u64_to_dec(1234567890), "1234567890");
    assert_eq!(u64_to_dec(u64::MAX), "18446744073709551615");
}

#[test]
fn timestamp_rendering() {
    let t = CausalTimestamp { wall: 12, count: 3 };
    assert_eq!(t.render(), "12.3");
    let z = CausalTimestamp { wall: 0, count: 0 };
    assert_eq!(z.render(), "0.0");
}

#[test]
fn wire_form_of_a_record() {
    let rec = EnrichedRecord {
        ts: CausalTimestamp { wall: 12, count: 3 },
        line: String::from("abc"),
    };
    assert_eq!(rec.wire(), "12.3,abc\r\n");
    let empty = EnrichedRecord {
        ts: CausalTimestamp { wall: 5, count: 0 },
        line: String::new(),
    };
    assert_eq!(empty.wire(), "5.0,\r\n");
}

#[test]
fn enriched_line_is_kept_verbatim() {
    let mut clock = CausalClock::new();
    let rec = enrich_line(&mut clock, "payload,with,commas").expect("clock available");
    assert_eq!(rec.line, "payload,with,commas");
    let wire = rec.wire();
    let expected = format!("{}.{},{}\r\n", rec.ts.wall, rec.ts.count, rec.line);
    assert_eq!(wire, expected);
}

#[test]
fn clock_issues_strictly_increasing_tokens() {
    let mut clock = CausalClock::new();
    let mut prev = clock.now().expect("clock available");
    for _ in 0..1000 {
        let next = clock.now().expect("clock available");
        assert!(
            (prev.wall, prev.count) < (next.wall, next.count),
            "each token must be strictly greater than the one before"
        );
        prev = next;
    }
}

#[test]
fn line_is_recoverable_from_the_wire_form() {
    let lines = ["plain", "", "with,commas,inside", "trailing.dot."];
    let mut clock = CausalClock::new();
    for line in lines {
        let rec = enrich_line(&mut clock, line).expect("clock available");
        let wire = rec.wire();
        assert!(wire.ends_with("\r\n"));
        let body = &wire[..wire.len() - 2];
        let comma = body.find(',').expect("wire form holds a comma");
        assert_eq!(&body[comma + 1..], line);
        assert_eq!(&body[..comma], rec.ts.render());
    }
}

#[test]
fn clock_reports_exhaustion_only_at_the_last_token() {
    let mut clock = CausalClock::new();
    clock.last = CausalTimestamp {
        wall: u64::MAX,
        count: u32::MAX,
    };
    assert_eq!(clock.now(), Err(ClockError::Exhausted));
}

#[test]
fn output_paths() {
    assert_eq!(dir_path("out", 5), "out/5");
    assert_eq!(
        chunk_file_path("out", 5, "log", "host1", 42),
        "out/5/log.host1.42.gz"
    );
    assert_eq!(
        chunk_file_path("/var/spool", 0, "input.log", "node-a", 0),
        "/var/spool/0/input.log.node-a.0.gz"
    );
}
