use hlc_enrich::chunker::{ChunkController, ControllerConfig};
use hlc_enrich::policy::is_full;

#[test]
fn boundary_fires_exactly_at_the_threshold() {
    assert!(!is_full(0, 2));
    assert!(!is_full(1, 2));
    assert!(is_full(2, 2));
    assert!(is_full(3, 2));
}

#[test]
fn controller_walk_over_five_records() {
    let config = ControllerConfig {
        max_records_per_chunk: 2,
        files_per_dir: 8,
        start_offset: 0,
    };
    let mut ctl = ChunkController::new(config);
    assert_eq!(ctl.chunk_index, 0);
    assert_eq!(ctl.records_in_chunk, 0);
    assert_eq!(ctl.current_subdir(), Some(0));

    let mut closed_sizes: Vec<usize> = Vec::new();
    for _ in 0..5 {
        let full = ctl.record_written();
        if full {
            closed_sizes.push(ctl.records_in_chunk);
            ctl.chunk_closed();
        }
    }
    // Input exhausted with a partial chunk still open.
    if ctl.records_in_chunk > 0 {
        closed_sizes.push(ctl.records_in_chunk);
        ctl.chunk_closed();
    }
    assert_eq!(closed_sizes, vec![2, 2, 1]);
    assert_eq!(ctl.chunk_index, 3);
}

#[test]
fn controller_subdir_follows_the_chunk_index() {
    let config = ControllerConfig {
        max_records_per_chunk: 1,
        files_per_dir: 2,
        start_offset: 10,
    };
    let mut ctl = ChunkController::new(config);
    let mut seen: Vec<u64> = Vec::new();
    for _ in 0..6 {
        seen.push(ctl.current_subdir().unwrap());
        let full = ctl.record_written();
        assert!(full);
        ctl.chunk_closed();
    }
    assert_eq!(seen, vec![10, 10, 11, 11, 12, 12]);
}
