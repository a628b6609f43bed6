use deadlock_cli::candidates::{chunk_ids, dedup_filter, resolve_candidates, ResolveOutcome};

#[test]
fn dedup_residual_is_exact() {
    let candidates = vec![2i64, 3, 4, 5];
    let stored = vec![1i64, 2, 3];
    let residual = dedup_filter(&candidates, &stored);
    assert_eq!(residual, vec![4, 5]);
}

#[test]
fn dedup_preserves_order() {
    let candidates = vec![9i64, 4, 7, 4, 2];
    let stored = vec![4i64];
    let residual = dedup_filter(&candidates, &stored);
    assert_eq!(residual, vec![9, 7, 2]);
}

#[test]
fn chunking_splits_exactly() {
    let ids: Vec<i64> = (1..=250).collect();
    let chunks = chunk_ids(&ids, 100);
    assert_eq!(chunks.len(), 3);
    assert_eq!(chunks[0].len(), 100);
    assert_eq!(chunks[1].len(), 100);
    assert_eq!(chunks[2].len(), 50);
    assert_eq!(chunks[0][0], 1);
    assert_eq!(chunks[1][0], 101);
    assert_eq!(chunks[2][49], 250);
}

#[test]
fn chunking_exact_multiple() {
    let ids: Vec<i64> = (1..=200).collect();
    let chunks = chunk_ids(&ids, 100);
    assert_eq!(chunks.len(), 2);
    assert_eq!(chunks[1].len(), 100);
}

#[test]
fn fallback_window_continues_from_stored_max() {
    let out = resolve_candidates(&vec![], &vec![], None, None, 5, 1000);
    match out {
        ResolveOutcome::Candidates(c) => assert_eq!(c, vec![1001, 1002, 1003, 1004, 1005]),
        ResolveOutcome::NoCandidates => panic!("expected candidates"),
    }
}

#[test]
fn window_respects_until_bound() {
    let out = resolve_candidates(&vec![], &vec![], Some(10), Some(12), 50, 0);
    match out {
        ResolveOutcome::Candidates(c) => assert_eq!(c, vec![11, 12]),
        ResolveOutcome::NoCandidates => panic!("expected candidates"),
    }
}

#[test]
fn empty_window_signals_no_candidates() {
    let out = resolve_candidates(&vec![], &vec![], Some(20), Some(10), 50, 0);
    assert!(matches!(out, ResolveOutcome::NoCandidates));
}

#[test]
fn explicit_ids_are_sorted_deduplicated_truncated() {
    let explicit = vec![9i64, 3, 9, 1, 7, 5];
    let history = vec![3i64, 2];
    let out = resolve_candidates(&explicit, &history, None, None, 4, 0);
    match out {
        ResolveOutcome::Candidates(c) => assert_eq!(c, vec![1, 2, 3, 5]),
        ResolveOutcome::NoCandidates => panic!("expected candidates"),
    }
}

#[test]
fn explicit_ids_suppress_the_window() {
    let explicit = vec![42i64];
    let out = resolve_candidates(&explicit, &vec![], None, None, 10, 1000);
    match out {
        ResolveOutcome::Candidates(c) => assert_eq!(c, vec![42]),
        ResolveOutcome::NoCandidates => panic!("expected candidates"),
    }
}
