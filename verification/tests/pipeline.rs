use hlc_enrich::chunker::enrich_and_chunk;
use hlc_enrich::clock::CausalClock;

fn run(lines: &[&str], max: usize) -> Vec<hlc_enrich::chunker::Chunk> {
    let mut clock = CausalClock::new();
    let owned: Vec<String> = lines.iter().map(|s| s.to_string()).collect();
    enrich_and_chunk(&mut clock, &owned, max).expect("clock available")
}

#[test]
fn three_lines_two_per_chunk() {
    let chunks = run(&["a", "b", "c"], 2);
    assert_eq!(chunks.len(), 2);
    assert_eq!(chunks[0].records.len(), 2);
    assert_eq!(chunks[1].records.len(), 1);
    assert_eq!(chunks[0].index, 0);
    assert_eq!(chunks[1].index, 1);
}

#[test]
fn exact_max_lines_single_chunk() {
    let chunks = run(&["a", "b", "c"], 3);
    assert_eq!(chunks.len(), 1);
    assert_eq!(chunks[0].records.len(), 3);
    assert_eq!(chunks[0].index, 0);
}

#[test]
fn empty_input_no_chunks() {
    let chunks = run(&[], 4);
    assert_eq!(chunks.len(), 0);
}

#[test]
fn chunk_sizing_five_lines_max_two() {
    let chunks = run(&["1", "2", "3", "4", "5"], 2);
    assert_eq!(chunks.len(), 3);
    assert_eq!(chunks[0].records.len(), 2);
    assert_eq!(chunks[1].records.len(), 2);
    assert_eq!(chunks[2].records.len(), 1);
    let total: usize = chunks.iter().map(|c| c.records.len()).sum();
    assert_eq!(total, 5);
}

#[test]
fn order_preserved_across_chunks() {
    let lines = ["alpha", "", "beta,with,commas", "gamma", "delta"];
    let chunks = run(&lines, 2);
    let recovered: Vec<String> = chunks
        .iter()
        .flat_map(|c| c.records.iter().map(|r| r.line.clone()))
        .collect();
    let expected: Vec<String> = lines.iter().map(|s| s.to_string()).collect();
    assert_eq!(recovered, expected);
}

#[test]
fn timestamps_strictly_increasing_and_unique() {
    let lines: Vec<&str> = vec!["x"; 50];
    let chunks = run(&lines, 7);
    let stamps: Vec<(u64, u32)> = chunks
        .iter()
        .flat_map(|c| c.records.iter().map(|r| (r.ts.wall, r.ts.count)))
        .collect();
    assert_eq!(stamps.len(), 50);
    for w in stamps.windows(2) {
        assert!(w[0] < w[1], "timestamps must strictly increase in emission order");
    }
    for i in 0..stamps.len() {
        for j in 0..stamps.len() {
            if i != j {
                assert_ne!(stamps[i], stamps[j]);
            }
        }
    }
}

#[test]
fn rerun_preserves_line_order_with_fresh_clock() {
    let lines = ["one", "two", "three", "four"];
    let first = run(&lines, 3);
    let second = run(&lines, 3);
    let recover = |chunks: &[hlc_enrich::chunker::Chunk]| -> Vec<String> {
        chunks
            .iter()
            .flat_map(|c| c.records.iter().map(|r| r.line.clone()))
            .collect()
    };
    assert_eq!(recover(&first), recover(&second));
}
