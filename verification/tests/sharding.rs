use hlc_enrich::shard::subdir_for;

#[test]
fn first_sixteen_indices_map_to_two_subdirs() {
    for i in 0..8u64 {
        assert_eq!(subdir_for(i, 0, 8), Some(0));
    }
    for i in 8..16u64 {
        assert_eq!(subdir_for(i, 0, 8), Some(1));
    }
}

#[test]
fn start_offset_shifts_placement() {
    assert_eq!(subdir_for(0, 5, 8), Some(5));
    assert_eq!(subdir_for(7, 5, 8), Some(5));
    assert_eq!(subdir_for(8, 5, 8), Some(6));
    assert_eq!(subdir_for(17, 3, 8), Some(5));
}

#[test]
fn same_inputs_same_placement() {
    for i in 0..32u64 {
        assert_eq!(subdir_for(i, 4, 8), subdir_for(i, 4, 8));
    }
}

#[test]
fn overflowing_subdir_is_refused() {
    assert_eq!(subdir_for(8, u64::MAX, 8), None);
    assert_eq!(subdir_for(u64::MAX, u64::MAX, 1), None);
    assert_eq!(subdir_for(0, u64::MAX, 8), Some(u64::MAX));
}

#[test]
fn disjoint_runs_never_share_a_subdir() {
    // A first run writes chunks 0..=20 with start offset 0 and 8 files per
    // directory, reaching subdirectories 0..=2. A re-run that starts past
    // that range never lands in it.
    let files_per_dir = 8u64;
    let first: Vec<u64> = (0..=20u64)
        .map(|i| subdir_for(i, 0, files_per_dir).unwrap())
        .collect();
    let highest = *first.iter().max().unwrap();
    let restart_offset = highest + 1;
    for i in 0..=40u64 {
        let s = subdir_for(i, restart_offset, files_per_dir).unwrap();
        assert!(!first.contains(&s));
    }
}
