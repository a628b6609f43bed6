//! The synchronization orchestrator: one run of the engine as a state
//! machine from event to next state and action.
//!
//! The caller owns everything the machine cannot do itself — network
//! requests, storage queries, the commit of a chunk — performs the action
//! it is handed, and feeds the result back as the next event. Chunks are
//! processed strictly in sequence; a missing chunk is skipped; any other
//! failure aborts the run while already-committed chunks stay committed.

use vstd::prelude::*;

use vstd::math::min;

use crate::candidates::{
    candidate_base, chunk_ids, dedup_filter, not_stored, resolve_candidates, strictly_sorted,
    ResolveOutcome,
};
use crate::models::MatchMeta;
use crate::retry::DeadlockError;

verus! {

/// Everything one run needs, fixed up front.
pub struct SyncConfig {
    pub explicit_ids: Vec<i64>,
    pub account_id: Option<u32>,
    pub since_id: Option<i64>,
    pub until_id: Option<i64>,
    pub limit: usize,
    pub batch_size: usize,
    pub include_info: bool,
    pub include_players: bool,
    pub dry_run: bool,
}

/// Row counts aggregated across the committed chunks of one run.
#[derive(Clone, Copy)]
pub struct SyncTotals {
    pub matches_upserted: usize,
    pub match_players_upserted: usize,
}

/// How a run ends when it does not fail.
#[derive(Clone, Copy)]
pub enum SyncOutcome {
    /// All three resolution steps came up empty: a successful no-op.
    NoCandidates,
    /// Every candidate was already stored: a successful no-op.
    AlreadyUpToDate,
    Completed(SyncTotals),
}

/// Where one run stands.
pub enum SyncState {
    Idle,
    /// Waiting for the participant's history of record ids.
    AwaitingHistory,
    /// Waiting for the store's highest record id.
    AwaitingStoredMax { history: Vec<i64> },
    /// Waiting to hear which candidates are already stored.
    AwaitingExisting { candidates: Vec<i64> },
    /// Working through the chunks, currently on `idx`.
    Running { chunks: Vec<Vec<i64>>, idx: usize, totals: SyncTotals, ingesting: bool },
    Done(SyncOutcome),
    Failed(DeadlockError),
}

/// What the caller reports back to the machine.
pub enum SyncEvent {
    Start,
    /// The participant's record ids; empty when the lookup failed, which
    /// only forfeits that seeding step.
    HistoryIds(Vec<i64>),
    StoredMaxId(i64),
    ExistingIds(Vec<i64>),
    ChunkFetched(Vec<MatchMeta>),
    /// The upstream knows none of the chunk's ids.
    ChunkNotFound,
    ChunkFailed(DeadlockError),
    ChunkIngested { matches_upserted: usize, match_players_upserted: usize },
    IngestFailed(String),
}

/// What the caller must do next.
pub enum SyncAction {
    FetchHistory(u32),
    QueryStoredMax,
    QueryExisting(Vec<i64>),
    FetchChunk { ids: Vec<i64>, include_info: bool, include_players: bool },
    IngestChunk(Vec<MatchMeta>),
    Finish(SyncOutcome),
    Abort,
}

/// Addition that stops at the largest representable count.
pub open spec fn sat_add(a: int, b: int) -> int {
    if a + b > usize::MAX {
        usize::MAX as int
    } else {
        a + b
    }
}

/// The pair the resolution step must produce once the seed and the store's
/// high-water mark are settled.
pub open spec fn resolved_pair(
    config: SyncConfig,
    history: Seq<i64>,
    stored_max: i64,
    r: (SyncState, SyncAction),
) -> bool {
    let base = candidate_base(
        config.explicit_ids@,
        history,
        config.since_id,
        config.until_id,
        config.limit as int,
        stored_max,
    );
    &&& base.len() == 0 ==> r.0 == SyncState::Done(SyncOutcome::NoCandidates) && r.1
        == SyncAction::Finish(SyncOutcome::NoCandidates)
    &&& base.len() > 0 ==> {
        &&& r.0 matches SyncState::AwaitingExisting { candidates } && (r.1 matches
            SyncAction::QueryExisting(q) && q@ == candidates@) && strictly_sorted(candidates@)
            && candidates@.len() <= config.limit && (forall|i: int|
            0 <= i < candidates@.len() ==> base.contains(#[trigger] candidates@[i])) && (forall|
            x: i64,
        | #[trigger]
            base.contains(x) ==> candidates@.contains(x) || (candidates@.len() == config.limit && (
            config.limit == 0 || x > candidates@[config.limit as int - 1])))
    }
}

/// After the seed is known: resolve at once unless the fallback window
/// needs the store's high-water mark first.
pub open spec fn seed_continuation(
    config: SyncConfig,
    history: Seq<i64>,
    r: (SyncState, SyncAction),
) -> bool {
    if config.explicit_ids@.len() + history.len() == 0 && config.since_id is None {
        (r.0 matches SyncState::AwaitingStoredMax { history: h } && h@ == history) && r.1
            == SyncAction::QueryStoredMax
    } else {
        resolved_pair(config, history, 0, r)
    }
}

/// Move on past chunk `idx`: fetch the next chunk, or finish when none is
/// left.
pub open spec fn advance_ok(
    config: SyncConfig,
    chunks: Seq<Vec<i64>>,
    idx: int,
    totals: SyncTotals,
    r: (SyncState, SyncAction),
) -> bool {
    if idx + 1 < chunks.len() {
        &&& r.0 matches SyncState::Running { chunks: c2, idx: i2, totals: t2, ingesting: b2 } && c2@
            == chunks && i2 == idx + 1 && t2 == totals && !b2
        &&& r.1 matches SyncAction::FetchChunk { ids, include_info, include_players } && ids@
            == chunks[idx + 1]@ && include_info == config.include_info && include_players
            == config.include_players
    } else {
        r.0 == SyncState::Done(SyncOutcome::Completed(totals)) && r.1 == SyncAction::Finish(
            SyncOutcome::Completed(totals),
        )
    }
}

/// The dedup step: drop stored ids; an empty residual ends the run as
/// already up to date, otherwise the residual is chunked and the first
/// chunk fetched.
pub open spec fn dedup_continuation(
    config: SyncConfig,
    candidates: Seq<i64>,
    existing: Seq<i64>,
    r: (SyncState, SyncAction),
) -> bool {
    let residual = candidates.filter(not_stored(existing));
    let b = if config.batch_size >= 1 {
        config.batch_size as int
    } else {
        1
    };
    &&& residual.len() == 0 ==> r.0 == SyncState::Done(SyncOutcome::AlreadyUpToDate) && r.1
        == SyncAction::Finish(SyncOutcome::AlreadyUpToDate)
    &&& residual.len() > 0 ==> {
        &&& r.0 matches SyncState::Running { chunks, idx, totals, ingesting } && idx == 0
            && !ingesting && totals.matches_upserted == 0 && totals.match_players_upserted == 0
            && chunks@.len() == (residual.len() + b - 1) / b && (forall|i: int|
            0 <= i < chunks@.len() ==> (#[trigger] chunks@[i])@ == residual.subrange(
                i * b,
                min((i + 1) * b, residual.len() as int),
            ))
        &&& r.1 matches SyncAction::FetchChunk { ids, include_info, include_players } && ids@
            == residual.subrange(0, min(b, residual.len() as int)) && include_info
            == config.include_info && include_players == config.include_players
    }
}

/// Transitions while chunks are being worked through.
pub open spec fn running_transition(
    config: SyncConfig,
    chunks: Vec<Vec<i64>>,
    idx: int,
    totals: SyncTotals,
    ingesting: bool,
    event: SyncEvent,
    r: (SyncState, SyncAction),
) -> bool {
    match event {
        SyncEvent::ChunkFetched(metas) => if !ingesting && idx < chunks@.len() {
            if config.dry_run {
                advance_ok(config, chunks@, idx, totals, r)
            } else {
                (r.0 matches SyncState::Running { chunks: c2, idx: i2, totals: t2, ingesting: b2 }
                    && c2@ == chunks@ && i2 == idx && t2 == totals && b2) && (r.1 matches
                SyncAction::IngestChunk(ms) && ms@ == metas@)
            }
        } else {
            r.0 is Failed && r.1 is Abort
        },
        SyncEvent::ChunkNotFound => if !ingesting && idx < chunks@.len() {
            advance_ok(config, chunks@, idx, totals, r)
        } else {
            r.0 is Failed && r.1 is Abort
        },
        SyncEvent::ChunkIngested { matches_upserted, match_players_upserted } => if ingesting && idx
            < chunks@.len() {
            advance_ok(
                config,
                chunks@,
                idx,
                SyncTotals {
                    matches_upserted: sat_add(
                        totals.matches_upserted as int,
                        matches_upserted as int,
                    ) as usize,
                    match_players_upserted: sat_add(
                        totals.match_players_upserted as int,
                        match_players_upserted as int,
                    ) as usize,
                },
                r,
            )
        } else {
            r.0 is Failed && r.1 is Abort
        },
        SyncEvent::ChunkFailed(e) => r.0 == SyncState::Failed(e) && r.1 is Abort,
        SyncEvent::IngestFailed(msg) => (r.0 matches SyncState::Failed(e2) && e2 matches
            DeadlockError::Other(m2) && m2@ == msg@) && r.1 is Abort,
        _ => r.0 is Failed && r.1 is Abort,
    }
}

/// The whole transition relation of one run.
pub open spec fn sync_transition(
    config: SyncConfig,
    state: SyncState,
    event: SyncEvent,
    r: (SyncState, SyncAction),
) -> bool {
    match (state, event) {
        (SyncState::Idle, SyncEvent::Start) => match config.account_id {
            Some(a) => r.0 is AwaitingHistory && r.1 == SyncAction::FetchHistory(a),
            None => seed_continuation(config, Seq::empty(), r),
        },
        (SyncState::AwaitingHistory, SyncEvent::HistoryIds(ids)) => seed_continuation(
            config,
            ids@,
            r,
        ),
        (SyncState::AwaitingStoredMax { history }, SyncEvent::StoredMaxId(mx)) => resolved_pair(
            config,
            history@,
            mx,
            r,
        ),
        (SyncState::AwaitingExisting { candidates }, SyncEvent::ExistingIds(ex)) => {
            dedup_continuation(config, candidates@, ex@, r)
        },
        (SyncState::Running { chunks, idx, totals, ingesting }, ev) => running_transition(
            config,
            chunks,
            idx as int,
            totals,
            ingesting,
            ev,
            r,
        ),
        _ => r.0 is Failed && r.1 is Abort,
    }
}

/// Copy a plain id list.
#[verifier::loop_isolation(false)]
fn copy_ids(v: &Vec<i64>) -> (r: Vec<i64>)
    ensures
        r@ == v@,
{
    let mut r: Vec<i64> = Vec::new();
    let n = v.len();
    let mut i: usize = 0;
    while i < n
        invariant
            0 <= i <= n,
            r@ =~= v@.take(i as int),
        decreases n - i,
    {
        r.push(v[i]);
        proof {
            assert(r@ =~= v@.take(i + 1));
        }
        i += 1;
    }
    proof {
        assert(v@.take(n as int) =~= v@);
    }
    r
}

/// One step of the orchestrator: consume an event, yield the next state
/// and the action the caller must perform.
pub fn sync_step(config: &SyncConfig, state: SyncState, event: SyncEvent) -> (r: (
    SyncState,
    SyncAction,
))
    ensures
        sync_transition(*config, state, event, r),
{
    match (state, event) {
        (SyncState::Idle, SyncEvent::Start) => match config.account_id {
            Some(a) => (SyncState::AwaitingHistory, SyncAction::FetchHistory(a)),
            None => {
                let empty: Vec<i64> = Vec::new();
                seed_step(config, empty)
            },
        },
        (SyncState::AwaitingHistory, SyncEvent::HistoryIds(ids)) => seed_step(config, ids),
        (SyncState::AwaitingStoredMax { history }, SyncEvent::StoredMaxId(mx)) => {
            resolve_step(config, &history, mx)
        },
        (SyncState::AwaitingExisting { candidates }, SyncEvent::ExistingIds(ex)) => {
            dedup_step(config, &candidates, &ex)
        },
        (SyncState::Running { chunks, idx, totals, ingesting }, ev) => {
            running_step(config, chunks, idx, totals, ingesting, ev)
        },
        _ => {
            (
                SyncState::Failed(DeadlockError::Other("event does not fit this state".to_owned())),
                SyncAction::Abort,
            )
        },
    }
}

#[verifier::loop_isolation(false)]
fn seed_step(config: &SyncConfig, history: Vec<i64>) -> (r: (SyncState, SyncAction))
    ensures
        seed_continuation(*config, history@, r),
{
    if config.explicit_ids.len() == 0 && history.len() == 0 && config.since_id.is_none() {
        (SyncState::AwaitingStoredMax { history }, SyncAction::QueryStoredMax)
    } else {
        resolve_step(config, &history, 0)
    }
}

fn resolve_step(config: &SyncConfig, history: &Vec<i64>, stored_max: i64) -> (r: (
    SyncState,
    SyncAction,
))
    ensures
        resolved_pair(*config, history@, stored_max, r),
{
    match resolve_candidates(
        &config.explicit_ids,
        history,
        config.since_id,
        config.until_id,
        config.limit,
        stored_max,
    ) {
        ResolveOutcome::NoCandidates => {
            (
                SyncState::Done(SyncOutcome::NoCandidates),
                SyncAction::Finish(SyncOutcome::NoCandidates),
            )
        },
        ResolveOutcome::Candidates(c) => {
            let q = copy_ids(&c);
            (SyncState::AwaitingExisting { candidates: c }, SyncAction::QueryExisting(q))
        },
    }
}

fn dedup_step(config: &SyncConfig, candidates: &Vec<i64>, existing: &Vec<i64>) -> (r: (
    SyncState,
    SyncAction,
))
    ensures
        dedup_continuation(*config, candidates@, existing@, r),
{
    let residual = dedup_filter(candidates, existing);
    if residual.len() == 0 {
        return (
            SyncState::Done(SyncOutcome::AlreadyUpToDate),
            SyncAction::Finish(SyncOutcome::AlreadyUpToDate),
        );
    }
    let b = if config.batch_size >= 1 {
        config.batch_size
    } else {
        1
    };
    let chunks = chunk_ids(&residual, b);
    proof {
        assert(0 * (b as int) == 0) by (nonlinear_arith);
        assert(1 * (b as int) == b as int) by (nonlinear_arith);
        assert((residual@.len() + b - 1) / (b as int) >= 1) by (nonlinear_arith)
            requires
                residual@.len() >= 1,
                b >= 1,
        ;
        assert(chunks@.len() > 0);
    }
    let first = copy_ids(&chunks[0]);
    (
        SyncState::Running {
            chunks,
            idx: 0,
            totals: SyncTotals { matches_upserted: 0, match_players_upserted: 0 },
            ingesting: false,
        },
        SyncAction::FetchChunk {
            ids: first,
            include_info: config.include_info,
            include_players: config.include_players,
        },
    )
}

fn advance_step(config: &SyncConfig, chunks: Vec<Vec<i64>>, idx: usize, totals: SyncTotals) -> (r: (
    SyncState,
    SyncAction,
))
    requires
        idx < chunks@.len(),
    ensures
        advance_ok(*config, chunks@, idx as int, totals, r),
{
    let n = chunks.len();
    if idx + 1 < n {
        let ids = copy_ids(&chunks[idx + 1]);
        (
            SyncState::Running { chunks, idx: idx + 1, totals, ingesting: false },
            SyncAction::FetchChunk {
                ids,
                include_info: config.include_info,
                include_players: config.include_players,
            },
        )
    } else {
        (
            SyncState::Done(SyncOutcome::Completed(totals)),
            SyncAction::Finish(SyncOutcome::Completed(totals)),
        )
    }
}

fn running_step(
    config: &SyncConfig,
    chunks: Vec<Vec<i64>>,
    idx: usize,
    totals: SyncTotals,
    ingesting: bool,
    event: SyncEvent,
) -> (r: (SyncState, SyncAction))
    ensures
        running_transition(*config, chunks, idx as int, totals, ingesting, event, r),
{
    match event {
        SyncEvent::ChunkFetched(metas) => {
            if !ingesting && idx < chunks.len() {
                if config.dry_run {
                    advance_step(config, chunks, idx, totals)
                } else {
                    (
                        SyncState::Running { chunks, idx, totals, ingesting: true },
                        SyncAction::IngestChunk(metas),
                    )
                }
            } else {
                (
                    SyncState::Failed(
                        DeadlockError::Other("event does not fit this state".to_owned()),
                    ),
                    SyncAction::Abort,
                )
            }
        },
        SyncEvent::ChunkNotFound => {
            if !ingesting && idx < chunks.len() {
                advance_step(config, chunks, idx, totals)
            } else {
                (
                    SyncState::Failed(
                        DeadlockError::Other("event does not fit this state".to_owned()),
                    ),
                    SyncAction::Abort,
                )
            }
        },
        SyncEvent::ChunkIngested { matches_upserted, match_players_upserted } => {
            if ingesting && idx < chunks.len() {
                let new_totals = SyncTotals {
                    matches_upserted: totals.matches_upserted.saturating_add(matches_upserted),
                    match_players_upserted: totals.match_players_upserted.saturating_add(
                        match_players_upserted,
                    ),
                };
                advance_step(config, chunks, idx, new_totals)
            } else {
                (
                    SyncState::Failed(
                        DeadlockError::Other("event does not fit this state".to_owned()),
                    ),
                    SyncAction::Abort,
                )
            }
        },
        SyncEvent::ChunkFailed(e) => (SyncState::Failed(e), SyncAction::Abort),
        SyncEvent::IngestFailed(msg) => {
            (SyncState::Failed(DeadlockError::Other(msg)), SyncAction::Abort)
        },
        _ => {
            (
                SyncState::Failed(DeadlockError::Other("event does not fit this state".to_owned())),
                SyncAction::Abort,
            )
        },
    }
}

} // verus!
