use deadlock_cli::models::MatchMeta;
use deadlock_cli::sync::{
    sync_step, SyncAction, SyncConfig, SyncEvent, SyncOutcome, SyncState,
};

fn config(ids: Vec<i64>, batch_size: usize, dry_run: bool) -> SyncConfig {
    SyncConfig {
        explicit_ids: ids,
        account_id: None,
        since_id: None,
        until_id: None,
        limit: 500,
        batch_size,
        include_info: true,
        include_players: true,
        dry_run,
    }
}

fn tiny_meta(match_id: i64) -> MatchMeta {
    MatchMeta {
        match_id,
        start_time: Some(1_700_000_000),
        duration_s: Some(900),
        winner_team: None,
        average_badge: None,
        region: None,
        patch_version: None,
        info: None,
        players: None,
    }
}

#[test]
fn skipped_chunk_does_not_stop_the_run() {
    let cfg = config(vec![1, 2, 3, 4], 2, false);
    let (st, act) = sync_step(&cfg, SyncState::Idle, SyncEvent::Start);
    assert!(matches!(&act, SyncAction::QueryExisting(q) if q == &vec![1, 2, 3, 4]));
    let (st, act) = sync_step(&cfg, st, SyncEvent::ExistingIds(vec![]));
    match &act {
        SyncAction::FetchChunk { ids, .. } => assert_eq!(ids, &vec![1, 2]),
        _ => panic!("expected the first chunk fetch"),
    }
    // the first chunk is unknown upstream: skipped, the run continues
    let (st, act) = sync_step(&cfg, st, SyncEvent::ChunkNotFound);
    match &act {
        SyncAction::FetchChunk { ids, .. } => assert_eq!(ids, &vec![3, 4]),
        _ => panic!("expected the second chunk fetch"),
    }
    // the second chunk ingests normally
    let (st, act) = sync_step(&cfg, st, SyncEvent::ChunkFetched(vec![tiny_meta(3), tiny_meta(4)]));
    assert!(matches!(&act, SyncAction::IngestChunk(ms) if ms.len() == 2));
    let (st, act) = sync_step(
        &cfg,
        st,
        SyncEvent::ChunkIngested { matches_upserted: 2, match_players_upserted: 0 },
    );
    match act {
        SyncAction::Finish(SyncOutcome::Completed(t)) => {
            assert_eq!(t.matches_upserted, 2);
            assert_eq!(t.match_players_upserted, 0);
        },
        _ => panic!("expected completion"),
    }
    assert!(matches!(st, SyncState::Done(SyncOutcome::Completed(_))));
}

#[test]
fn dry_run_fetches_without_ingesting() {
    let cfg = config(vec![7, 8], 10, true);
    let (st, _) = sync_step(&cfg, SyncState::Idle, SyncEvent::Start);
    let (st, act) = sync_step(&cfg, st, SyncEvent::ExistingIds(vec![]));
    assert!(matches!(&act, SyncAction::FetchChunk { .. }));
    let (st, act) = sync_step(&cfg, st, SyncEvent::ChunkFetched(vec![tiny_meta(7)]));
    match act {
        SyncAction::Finish(SyncOutcome::Completed(t)) => assert_eq!(t.matches_upserted, 0),
        _ => panic!("expected completion without ingest"),
    }
    assert!(matches!(st, SyncState::Done(_)));
}

#[test]
fn all_stored_ends_up_to_date() {
    let cfg = config(vec![5, 6], 10, false);
    let (st, _) = sync_step(&cfg, SyncState::Idle, SyncEvent::Start);
    let (st, act) = sync_step(&cfg, st, SyncEvent::ExistingIds(vec![5, 6]));
    assert!(matches!(act, SyncAction::Finish(SyncOutcome::AlreadyUpToDate)));
    assert!(matches!(st, SyncState::Done(SyncOutcome::AlreadyUpToDate)));
}

#[test]
fn empty_resolution_ends_no_candidates() {
    let mut cfg = config(vec![], 10, false);
    cfg.since_id = Some(20);
    cfg.until_id = Some(10);
    let (st, act) = sync_step(&cfg, SyncState::Idle, SyncEvent::Start);
    assert!(matches!(act, SyncAction::Finish(SyncOutcome::NoCandidates)));
    assert!(matches!(st, SyncState::Done(SyncOutcome::NoCandidates)));
}

#[test]
fn window_path_queries_stored_max_first() {
    let cfg = config(vec![], 10, false);
    let (st, act) = sync_step(&cfg, SyncState::Idle, SyncEvent::Start);
    assert!(matches!(act, SyncAction::QueryStoredMax));
    let (_, act) = sync_step(&cfg, st, SyncEvent::StoredMaxId(1000));
    match act {
        SyncAction::QueryExisting(q) => {
            assert_eq!(q.len(), 500);
            assert_eq!(q[0], 1001);
            assert_eq!(q[499], 1500);
        },
        _ => panic!("expected the dedup query"),
    }
}

#[test]
fn participant_key_fetches_history_first() {
    let mut cfg = config(vec![], 10, false);
    cfg.account_id = Some(388674065);
    let (st, act) = sync_step(&cfg, SyncState::Idle, SyncEvent::Start);
    assert!(matches!(act, SyncAction::FetchHistory(388674065)));
    let (_, act) = sync_step(&cfg, st, SyncEvent::HistoryIds(vec![12, 10, 12]));
    assert!(matches!(&act, SyncAction::QueryExisting(q) if q == &vec![10, 12]));
}

#[test]
fn chunk_failure_aborts_the_run() {
    let cfg = config(vec![1], 10, false);
    let (st, _) = sync_step(&cfg, SyncState::Idle, SyncEvent::Start);
    let (st, _) = sync_step(&cfg, st, SyncEvent::ExistingIds(vec![]));
    let (st, act) = sync_step(
        &cfg,
        st,
        SyncEvent::ChunkFailed(deadlock_cli::retry::DeadlockError::Http {
            status: 500,
            message: "boom".to_string(),
        }),
    );
    assert!(matches!(act, SyncAction::Abort));
    assert!(matches!(st, SyncState::Failed(_)));
}
