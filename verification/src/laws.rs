//! The engine's laws: what holds of merging and of ingestion across calls,
//! proved over the store's spec-level transformations.

use vstd::prelude::*;

use crate::blob::lemma_union_idempotent;
use crate::ingest::{
    ingest_batch_spec, ingest_heroes_spec, ingest_match_spec, ingest_player_spec,
    ingest_sub_records_spec,
};
use crate::models::{CombinedPayloadV, MMRHistory, HeroStats, MatchMetaV, PlayerInMatchV};
use crate::store::{
    clamp_ts, ensure_stub_spec, find_idx, hero_key, hero_row_of, hero_snap_key,
    insert_hero_snapshot_spec, insert_mmr_history_spec, lemma_find_idx, lemma_find_idx_at,
    lemma_find_stable_push, lemma_find_stable_update, match_key,
    match_player_key, merge_match_player_row, merge_match_row, merge_player_row, mmr_history_key,
    mmr_key, mmr_row_of, new_match_player_row, new_match_row, new_player_row, player_key,
    profile_updated_at, upsert_hero_current_spec, upsert_latest_mmr_spec, upsert_match_player_spec,
    upsert_match_spec, upsert_player_spec, HeroSnapRow, MatchPlayerRowV, MatchRowV, MmrHistoryRowV,
    StoreV,
};

verus! {

/// Merge monotonicity: upserting a record with some fields absent never
/// erases previously stored values in those fields — an absent incoming
/// field keeps the stored value, and a stored value never becomes absent.
/// Payload keys from both sides survive the merge, and the incoming value
/// wins exactly on the keys the incoming payload carries.
pub proof fn lemma_merge_match_monotone(r: MatchRowV, m: MatchMetaV)
    ensures
        m.start_time is None ==> merge_match_row(r, m).start_time == r.start_time,
        m.duration_s is None ==> merge_match_row(r, m).duration_s == r.duration_s,
        m.winner_team is None ==> merge_match_row(r, m).winner_team == r.winner_team,
        m.average_badge is None ==> merge_match_row(r, m).average_badge == r.average_badge,
        m.region is None ==> merge_match_row(r, m).region == r.region,
        m.patch_version is None ==> merge_match_row(r, m).patch_version == r.patch_version,
        r.start_time is Some ==> merge_match_row(r, m).start_time is Some,
        r.duration_s is Some ==> merge_match_row(r, m).duration_s is Some,
        r.winner_team is Some ==> merge_match_row(r, m).winner_team is Some,
        r.average_badge is Some ==> merge_match_row(r, m).average_badge is Some,
        r.region is Some ==> merge_match_row(r, m).region is Some,
        r.patch_version is Some ==> merge_match_row(r, m).patch_version is Some,
        forall|k: Seq<char>|
            #[trigger] merge_match_row(r, m).info.contains_key(k) <==> r.info.contains_key(k)
                || m.info.contains_key(k),
        forall|k: Seq<char>|
            #[trigger] m.info.contains_key(k) ==> merge_match_row(r, m).info[k] == m.info[k],
        forall|k: Seq<char>|
            #[trigger] r.info.contains_key(k) && !m.info.contains_key(k) ==> merge_match_row(
                r,
                m,
            ).info[k] == r.info[k],
{
}

/// How many rows of a table satisfy a predicate.
pub open spec fn count_matching<T>(s: Seq<T>, p: spec_fn(T) -> bool) -> int
    decreases s.len(),
{
    if s.len() == 0 {
        0
    } else {
        count_matching(s.drop_last(), p) + if p(s.last()) {
            1int
        } else {
            0int
        }
    }
}

/// In a table where at most one row can satisfy the predicate, the count is
/// one exactly when a witness exists.
pub proof fn lemma_count_unique<T>(s: Seq<T>, p: spec_fn(T) -> bool)
    requires
        forall|i: int, j: int| 0 <= i < j < s.len() ==> !(p(#[trigger] s[i]) && p(#[trigger] s[j])),
    ensures
        (exists|i: int| 0 <= i < s.len() && p(#[trigger] s[i])) ==> count_matching(s, p) == 1,
        (forall|i: int| 0 <= i < s.len() ==> !p(#[trigger] s[i])) ==> count_matching(s, p) == 0,
    decreases s.len(),
{
    if s.len() > 0 {
        let t = s.drop_last();
        assert forall|i: int, j: int| 0 <= i < j < t.len() implies !(p(#[trigger] t[i]) && p(
            #[trigger] t[j],
        )) by {
            assert(t[i] == s[i] && t[j] == s[j]);
        }
        lemma_count_unique(t, p);
        if p(s.last()) {
            assert forall|i: int| 0 <= i < t.len() implies !p(#[trigger] t[i]) by {
                assert(t[i] == s[i]);
                assert(!(p(s[i]) && p(s[s.len() - 1])));
            }
            assert(count_matching(t, p) == 0);
        } else {
            if exists|i: int| 0 <= i < s.len() && p(#[trigger] s[i]) {
                let i = choose|i: int| 0 <= i < s.len() && p(#[trigger] s[i]);
                assert(i < t.len() && t[i] == s[i]);
                assert(count_matching(t, p) == 1);
            }
            if forall|i: int| 0 <= i < s.len() ==> !p(#[trigger] s[i]) {
                assert forall|i: int| 0 <= i < t.len() implies !p(#[trigger] t[i]) by {
                    assert(t[i] == s[i]);
                }
            }
        }
    }
}

/// Append-only uniqueness for score history: inserting the same
/// (participant, timestamp) key twice leaves exactly one stored row, and
/// the second insertion changes nothing at all.
pub proof fn lemma_mmr_history_append_once(rows: Seq<MmrHistoryRowV>, acc: i64, m: MMRHistory)
    requires
        forall|i: int, j: int|
            0 <= i < j < rows.len() ==> !((#[trigger] rows[i]).account_id == (
            #[trigger] rows[j]).account_id && rows[i].start_time == rows[j].start_time),
    ensures
        insert_mmr_history_spec(insert_mmr_history_spec(rows, acc, m), acc, m)
            == insert_mmr_history_spec(rows, acc, m),
        count_matching(
            insert_mmr_history_spec(rows, acc, m),
            mmr_history_key(acc, clamp_ts(m.start_time as i64)),
        ) == 1,
{
    let ts = clamp_ts(m.start_time as i64);
    let p = mmr_history_key(acc, ts);
    let once = insert_mmr_history_spec(rows, acc, m);
    lemma_find_idx(rows, p);
    assert forall|i: int, j: int| 0 <= i < j < once.len() implies !(p(#[trigger] once[i]) && p(
        #[trigger] once[j],
    )) by {
        if j < rows.len() {
            assert(!(rows[i].account_id == rows[j].account_id && rows[i].start_time
                == rows[j].start_time));
        } else if find_idx(rows, p) == -1 && i < rows.len() {
            assert(!p(rows[i]));
        }
    }
    if find_idx(rows, p) >= 0 {
        assert(once == rows);
        assert(p(rows[find_idx(rows, p)]));
        lemma_count_unique(rows, p);
    } else {
        assert(p(once[once.len() - 1]));
        lemma_count_unique(once, p);
        lemma_find_idx(once, p);
        if find_idx(once, p) == -1 {
            assert(!p(once[once.len() - 1]));
        }
        assert(insert_mmr_history_spec(once, acc, m) == once);
    }
}

/// Append-only uniqueness for per-category history snapshots, in the same
/// form.
pub proof fn lemma_hero_history_append_once(rows: Seq<HeroSnapRow>, acc: i64, h: HeroStats)
    requires
        h.last_played is Some,
        forall|i: int, j: int|
            0 <= i < j < rows.len() ==> !((#[trigger] rows[i]).account_id == (
            #[trigger] rows[j]).account_id && rows[i].hero_id == rows[j].hero_id
                && rows[i].last_played == rows[j].last_played),
    ensures
        insert_hero_snapshot_spec(insert_hero_snapshot_spec(rows, acc, h), acc, h)
            == insert_hero_snapshot_spec(rows, acc, h),
        count_matching(
            insert_hero_snapshot_spec(rows, acc, h),
            hero_snap_key(acc, h.hero_id, clamp_ts(h.last_played.unwrap())),
        ) == 1,
{
    let ts = clamp_ts(h.last_played.unwrap());
    let p = hero_snap_key(acc, h.hero_id, ts);
    let once = insert_hero_snapshot_spec(rows, acc, h);
    lemma_find_idx(rows, p);
    assert forall|i: int, j: int| 0 <= i < j < once.len() implies !(p(#[trigger] once[i]) && p(
        #[trigger] once[j],
    )) by {
        if j < rows.len() {
            assert(!(rows[i].account_id == rows[j].account_id && rows[i].hero_id == rows[j].hero_id
                && rows[i].last_played == rows[j].last_played));
        } else if find_idx(rows, p) == -1 && i < rows.len() {
            assert(!p(rows[i]));
        }
    }
    if find_idx(rows, p) >= 0 {
        assert(once == rows);
        assert(p(rows[find_idx(rows, p)]));
        lemma_count_unique(rows, p);
    } else {
        assert(p(once[once.len() - 1]));
        lemma_count_unique(once, p);
        lemma_find_idx(once, p);
        if find_idx(once, p) == -1 {
            assert(!p(once[once.len() - 1]));
        }
        assert(insert_hero_snapshot_spec(once, acc, h) == once);
    }
}

/// Merging the same record twice gives what merging it once gave.
proof fn lemma_merge_match_stable(r: MatchRowV, m: MatchMetaV)
    ensures
        merge_match_row(merge_match_row(r, m), m) == merge_match_row(r, m),
{
    lemma_union_idempotent(r.info, m.info);
    assert(merge_match_row(merge_match_row(r, m), m) =~= merge_match_row(r, m));
}

/// A freshly inserted record row already carries everything its record
/// says.
proof fn lemma_new_match_stable(m: MatchMetaV)
    ensures
        merge_match_row(new_match_row(m), m) == new_match_row(m),
{
    assert(m.info.union_prefer_right(m.info) =~= m.info);
    assert(merge_match_row(new_match_row(m), m) =~= new_match_row(m));
}

/// The same, for sub-record rows.
proof fn lemma_merge_mp_stable(r: MatchPlayerRowV, mid: i64, p: PlayerInMatchV)
    ensures
        merge_match_player_row(merge_match_player_row(r, mid, p), mid, p)
            == merge_match_player_row(r, mid, p),
{
    lemma_union_idempotent(r.extra, p.extra);
    assert(merge_match_player_row(merge_match_player_row(r, mid, p), mid, p)
        =~= merge_match_player_row(r, mid, p));
}

proof fn lemma_new_mp_stable(mid: i64, p: PlayerInMatchV)
    ensures
        merge_match_player_row(new_match_player_row(mid, p), mid, p) == new_match_player_row(
            mid,
            p,
        ),
{
    assert(p.extra.union_prefer_right(p.extra) =~= p.extra);
    assert(merge_match_player_row(new_match_player_row(mid, p), mid, p) =~= new_match_player_row(
        mid,
        p,
    ));
}

/// The record table already reflects this record: its row is present and
/// merging the record into it changes nothing.
pub open spec fn match_absorbed(ms: Seq<MatchRowV>, m: MatchMetaV) -> bool {
    let i = find_idx(ms, match_key(m.match_id));
    i >= 0 && merge_match_row(ms[i], m) == ms[i]
}

/// The store already reflects every one of the record's sub-records: each
/// participant stub exists and each sub-record row is present and stable.
pub open spec fn players_absorbed(v: StoreV, mid: i64, ps: Seq<PlayerInMatchV>) -> bool {
    forall|k: int|
        0 <= k < ps.len() ==> {
            let p = #[trigger] ps[k];
            &&& find_idx(v.players, player_key(p.account_id as i64)) >= 0
            &&& ({
                let i = find_idx(v.match_players, match_player_key(mid, p.account_id as i64));
                i >= 0 && merge_match_player_row(v.match_players[i], mid, p) == v.match_players[i]
            })
        }
}

/// The store already reflects this record entirely.
pub open spec fn meta_absorbed(v: StoreV, m: MatchMetaV) -> bool {
    match_absorbed(v.matches, m) && players_absorbed(v, m.match_id, m.players)
}

/// Ingesting sub-records the store has absorbed changes nothing.
proof fn lemma_sub_records_absorbed(v: StoreV, mid: i64, ps: Seq<PlayerInMatchV>)
    requires
        players_absorbed(v, mid, ps),
    ensures
        ingest_sub_records_spec(v, mid, ps) == v,
    decreases ps.len(),
{
    if ps.len() > 0 {
        assert forall|k: int| 0 <= k < ps.drop_last().len() implies {
            let p = #[trigger] ps.drop_last()[k];
            &&& find_idx(v.players, player_key(p.account_id as i64)) >= 0
            &&& ({
                let i = find_idx(v.match_players, match_player_key(mid, p.account_id as i64));
                i >= 0 && merge_match_player_row(v.match_players[i], mid, p) == v.match_players[i]
            })
        } by {
            assert(ps.drop_last()[k] == ps[k]);
        }
        lemma_sub_records_absorbed(v, mid, ps.drop_last());
        let p = ps.last();
        assert(ps[ps.len() - 1] == p);
        let i = find_idx(v.match_players, match_player_key(mid, p.account_id as i64));
        lemma_find_idx(v.match_players, match_player_key(mid, p.account_id as i64));
        assert(v.match_players.update(i, merge_match_player_row(v.match_players[i], mid, p))
            =~= v.match_players);
        assert((StoreV { players: ensure_stub_spec(v.players, p.account_id as i64), ..v }) =~= v);
        assert(ingest_sub_records_spec(v, mid, ps) =~= v);
    }
}

/// Ingesting a record the store has absorbed changes nothing.
pub proof fn lemma_absorbed_identity(v: StoreV, m: MatchMetaV)
    requires
        meta_absorbed(v, m),
    ensures
        ingest_match_spec(v, m) == v,
{
    let i = find_idx(v.matches, match_key(m.match_id));
    lemma_find_idx(v.matches, match_key(m.match_id));
    assert(v.matches.update(i, merge_match_row(v.matches[i], m)) =~= v.matches);
    assert((StoreV { matches: upsert_match_spec(v.matches, m), ..v }) =~= v);
    lemma_sub_records_absorbed(v, m.match_id, m.players);
}

/// The sub-record fold touches only the participant and sub-record tables.
proof fn lemma_sub_records_frame(v: StoreV, mid: i64, ps: Seq<PlayerInMatchV>)
    ensures
        ingest_sub_records_spec(v, mid, ps).matches == v.matches,
        ingest_sub_records_spec(v, mid, ps).latest_mmr == v.latest_mmr,
        ingest_sub_records_spec(v, mid, ps).mmr_history == v.mmr_history,
        ingest_sub_records_spec(v, mid, ps).hero_current == v.hero_current,
        ingest_sub_records_spec(v, mid, ps).hero_history == v.hero_history,
    decreases ps.len(),
{
    if ps.len() > 0 {
        lemma_sub_records_frame(v, mid, ps.drop_last());
    }
}

/// No two sub-records of one record name the same participant.
pub open spec fn distinct_accounts(ps: Seq<PlayerInMatchV>) -> bool {
    forall|i: int, j: int|
        0 <= i < j < ps.len() ==> (#[trigger] ps[i]).account_id != (#[trigger] ps[j]).account_id
}

/// After its sub-records are ingested, the store has absorbed all of them.
proof fn lemma_sub_records_absorb(v: StoreV, mid: i64, ps: Seq<PlayerInMatchV>)
    requires
        distinct_accounts(ps),
    ensures
        players_absorbed(ingest_sub_records_spec(v, mid, ps), mid, ps),
    decreases ps.len(),
{
    if ps.len() > 0 {
        let qs = ps.drop_last();
        let p = ps.last();
        assert forall|i: int, j: int| 0 <= i < j < qs.len() implies (#[trigger] qs[i]).account_id
            != (#[trigger] qs[j]).account_id by {
            assert(qs[i] == ps[i] && qs[j] == ps[j]);
        }
        lemma_sub_records_absorb(v, mid, qs);
        let w = ingest_sub_records_spec(v, mid, qs);
        let acc = p.account_id as i64;
        let sp = player_key(acc);
        let mp = match_player_key(mid, acc);
        let w1 = StoreV { players: ensure_stub_spec(w.players, acc), ..w };
        let w2 = StoreV { match_players: upsert_match_player_spec(w1.match_players, mid, p), ..w1 };
        assert(ingest_sub_records_spec(v, mid, ps) == w2);
        // the stub for the last participant now exists
        lemma_find_idx(w.players, sp);
        if find_idx(w.players, sp) < 0 {
            let st = crate::store::stub_player_row(acc);
            assert(sp(st));
            lemma_find_idx_at(w.players.push(st), sp, w.players.len() as int);
        }
        assert(find_idx(w1.players, sp) >= 0);
        // the last sub-record row is now present and stable
        lemma_find_idx(w1.match_players, mp);
        let fi = find_idx(w1.match_players, mp);
        if fi >= 0 {
            let merged = merge_match_player_row(w1.match_players[fi], mid, p);
            let t = w1.match_players.update(fi, merged);
            assert(mp(merged));
            assert forall|j: int| 0 <= j < fi implies !mp(#[trigger] t[j]) by {
                assert(t[j] == w1.match_players[j]);
            }
            lemma_find_idx_at(t, mp, fi);
            lemma_merge_mp_stable(w1.match_players[fi], mid, p);
        } else {
            let nr = new_match_player_row(mid, p);
            assert(mp(nr));
            lemma_find_idx_at(w1.match_players.push(nr), mp, w1.match_players.len() as int);
            lemma_new_mp_stable(mid, p);
        }
        // earlier participants keep their stubs and stable rows
        assert forall|k: int| 0 <= k < ps.len() implies {
            let q = #[trigger] ps[k];
            &&& find_idx(w2.players, player_key(q.account_id as i64)) >= 0
            &&& ({
                let i = find_idx(w2.match_players, match_player_key(mid, q.account_id as i64));
                i >= 0 && merge_match_player_row(w2.match_players[i], mid, q)
                    == w2.match_players[i]
            })
        } by {
            let q = ps[k];
            if k < ps.len() - 1 {
                assert(qs[k] == ps[k]);
                let qacc = q.account_id as i64;
                assert(qacc != acc);
                let sq = player_key(qacc);
                let mq = match_player_key(mid, qacc);
                // players: at most one stub was appended, for a different account
                if find_idx(w.players, sp) < 0 {
                    let st = crate::store::stub_player_row(acc);
                    assert(!sq(st));
                    lemma_find_stable_push(w.players, sq, st);
                }
                assert(find_idx(w1.players, sq) >= 0);
                // sub-records: the touched row keys the last participant
                let fq = find_idx(w1.match_players, mq);
                if fi >= 0 {
                    let merged = merge_match_player_row(w1.match_players[fi], mid, p);
                    assert(mp(w1.match_players[fi]));
                    assert(!mq(w1.match_players[fi]));
                    assert(!mq(merged));
                    lemma_find_stable_update(w1.match_players, mq, fi, merged);
                } else {
                    let nr = new_match_player_row(mid, p);
                    assert(!mq(nr));
                    lemma_find_stable_push(w1.match_players, mq, nr);
                }
            }
        }
    }
}

/// After a record is ingested, the store has absorbed it.
pub proof fn lemma_ingest_match_absorbs(v: StoreV, m: MatchMetaV)
    requires
        distinct_accounts(m.players),
    ensures
        meta_absorbed(ingest_match_spec(v, m), m),
{
    let pm = match_key(m.match_id);
    let i = find_idx(v.matches, pm);
    lemma_find_idx(v.matches, pm);
    let v1 = StoreV { matches: upsert_match_spec(v.matches, m), ..v };
    if i >= 0 {
        let merged = merge_match_row(v.matches[i], m);
        let t = v.matches.update(i, merged);
        assert(pm(merged));
        assert forall|j: int| 0 <= j < i implies !pm(#[trigger] t[j]) by {
            assert(t[j] == v.matches[j]);
        }
        lemma_find_idx_at(t, pm, i);
        lemma_merge_match_stable(v.matches[i], m);
    } else {
        let nr = new_match_row(m);
        assert(pm(nr));
        lemma_find_idx_at(v.matches.push(nr), pm, v.matches.len() as int);
        lemma_new_match_stable(m);
    }
    assert(match_absorbed(v1.matches, m));
    lemma_sub_records_frame(v1, m.match_id, m.players);
    lemma_sub_records_absorb(v1, m.match_id, m.players);
}

/// Ingesting another record leaves an absorbed record absorbed.
proof fn lemma_sub_records_preserve(v: StoreV, nid: i64, ps: Seq<PlayerInMatchV>, m: MatchMetaV)
    requires
        nid != m.match_id,
        players_absorbed(v, m.match_id, m.players),
    ensures
        players_absorbed(ingest_sub_records_spec(v, nid, ps), m.match_id, m.players),
    decreases ps.len(),
{
    if ps.len() > 0 {
        lemma_sub_records_preserve(v, nid, ps.drop_last(), m);
        let w = ingest_sub_records_spec(v, nid, ps.drop_last());
        let p = ps.last();
        let acc = p.account_id as i64;
        let sp = player_key(acc);
        let mp = match_player_key(nid, acc);
        let w1 = StoreV { players: ensure_stub_spec(w.players, acc), ..w };
        let w2 = StoreV { match_players: upsert_match_player_spec(w1.match_players, nid, p), ..w1 };
        assert(ingest_sub_records_spec(v, nid, ps) == w2);
        lemma_find_idx(w1.match_players, mp);
        let fi = find_idx(w1.match_players, mp);
        assert forall|k: int| 0 <= k < m.players.len() implies {
            let q = #[trigger] m.players[k];
            &&& find_idx(w2.players, player_key(q.account_id as i64)) >= 0
            &&& ({
                let i = find_idx(
                    w2.match_players,
                    match_player_key(m.match_id, q.account_id as i64),
                );
                i >= 0 && merge_match_player_row(w2.match_players[i], m.match_id, q)
                    == w2.match_players[i]
            })
        } by {
            let q = m.players[k];
            let qacc = q.account_id as i64;
            let sq = player_key(qacc);
            let mq = match_player_key(m.match_id, qacc);
            // the stub table only ever grows
            if find_idx(w.players, sp) < 0 {
                let st = crate::store::stub_player_row(acc);
                assert(find_idx(w.players, sq) >= 0);
                lemma_find_idx(w.players, sq);
                assert(sq(w.players[find_idx(w.players, sq)]));
                assert(qacc != acc);
                assert(!sq(st));
                lemma_find_stable_push(w.players, sq, st);
            }
            assert(find_idx(w1.players, sq) >= 0);
            // sub-record rows of the other record have a different record id
            if fi >= 0 {
                let merged = merge_match_player_row(w1.match_players[fi], nid, p);
                assert(mp(w1.match_players[fi]));
                assert(!mq(w1.match_players[fi]));
                assert(!mq(merged));
                lemma_find_stable_update(w1.match_players, mq, fi, merged);
            } else {
                let nr = new_match_player_row(nid, p);
                assert(!mq(nr));
                lemma_find_stable_push(w1.match_players, mq, nr);
            }
        }
    }
}

/// One more record with a different id leaves an absorbed record absorbed.
pub proof fn lemma_ingest_match_preserves(w: StoreV, n: MatchMetaV, m: MatchMetaV)
    requires
        meta_absorbed(w, m),
        n.match_id != m.match_id,
    ensures
        meta_absorbed(ingest_match_spec(w, n), m),
{
    let pm = match_key(m.match_id);
    let pn = match_key(n.match_id);
    let i_n = find_idx(w.matches, pn);
    lemma_find_idx(w.matches, pn);
    let w1 = StoreV { matches: upsert_match_spec(w.matches, n), ..w };
    if i_n >= 0 {
        let merged = merge_match_row(w.matches[i_n], n);
        assert(pn(w.matches[i_n]));
        assert(!pm(w.matches[i_n]));
        assert(!pm(merged));
        lemma_find_stable_update(w.matches, pm, i_n, merged);
    } else {
        let nr = new_match_row(n);
        assert(!pm(nr));
        lemma_find_stable_push(w.matches, pm, nr);
    }
    assert(match_absorbed(w1.matches, m));
    assert(players_absorbed(w1, m.match_id, m.players));
    lemma_sub_records_frame(w1, n.match_id, n.players);
    lemma_sub_records_preserve(w1, n.match_id, n.players, m);
}

/// A chunk whose record ids all differ from an absorbed record's id leaves
/// it absorbed.
proof fn lemma_batch_preserves(w: StoreV, ms: Seq<MatchMetaV>, m: MatchMetaV)
    requires
        meta_absorbed(w, m),
        forall|k: int| 0 <= k < ms.len() ==> (#[trigger] ms[k]).match_id != m.match_id,
    ensures
        meta_absorbed(ingest_batch_spec(w, ms), m),
    decreases ms.len(),
{
    if ms.len() > 0 {
        assert forall|k: int| 0 <= k < ms.drop_last().len() implies (
        #[trigger] ms.drop_last()[k]).match_id != m.match_id by {
            assert(ms.drop_last()[k] == ms[k]);
        }
        lemma_batch_preserves(w, ms.drop_last(), m);
        assert(ms[ms.len() - 1] == ms.last());
        lemma_ingest_match_preserves(ingest_batch_spec(w, ms.drop_last()), ms.last(), m);
    }
}

/// Folding a chunk is the same as ingesting its first record and folding
/// the rest.
proof fn lemma_batch_cons(v: StoreV, ms: Seq<MatchMetaV>)
    requires
        ms.len() > 0,
    ensures
        ingest_batch_spec(v, ms) == ingest_batch_spec(ingest_match_spec(v, ms[0]), ms.skip(1)),
    decreases ms.len(),
{
    let v1 = ingest_match_spec(v, ms[0]);
    if ms.len() == 1 {
        assert(ms.drop_last() =~= Seq::<MatchMetaV>::empty());
        assert(ms.last() == ms[0]);
        assert(ingest_batch_spec(v, Seq::<MatchMetaV>::empty()) == v);
        assert(ingest_batch_spec(v, ms) == ingest_match_spec(v, ms[0]));
        assert(ms.skip(1) =~= Seq::<MatchMetaV>::empty());
        assert(ingest_batch_spec(v1, Seq::<MatchMetaV>::empty()) == v1);
    } else {
        let dl = ms.drop_last();
        lemma_batch_cons(v, dl);
        assert(dl[0] == ms[0]);
        assert(ingest_batch_spec(v, ms) == ingest_match_spec(ingest_batch_spec(v, dl), ms.last()));
        assert(ingest_batch_spec(v, dl) == ingest_batch_spec(v1, dl.skip(1)));
        assert(ms.skip(1).len() > 0);
        assert(ingest_batch_spec(v1, ms.skip(1)) == ingest_match_spec(
            ingest_batch_spec(v1, ms.skip(1).drop_last()),
            ms.skip(1).last(),
        ));
        assert(ms.skip(1).drop_last() =~= dl.skip(1));
        assert(ms.skip(1).last() == ms.last());
    }
}

/// No two records of a chunk share an id, and no record repeats a
/// participant.
pub open spec fn batch_well_keyed(ms: Seq<MatchMetaV>) -> bool {
    &&& forall|i: int, j: int|
        0 <= i < j < ms.len() ==> (#[trigger] ms[i]).match_id != (#[trigger] ms[j]).match_id
    &&& forall|i: int| 0 <= i < ms.len() ==> distinct_accounts((#[trigger] ms[i]).players)
}

/// Idempotence: ingesting the same well-keyed chunk a second time changes
/// nothing at all — every table, every row, every merged payload is
/// exactly what the first ingestion left.
pub proof fn lemma_ingest_batch_idempotent(v: StoreV, ms: Seq<MatchMetaV>)
    requires
        batch_well_keyed(ms),
    ensures
        ingest_batch_spec(ingest_batch_spec(v, ms), ms) == ingest_batch_spec(v, ms),
    decreases ms.len(),
{
    if ms.len() > 0 {
        let m = ms[0];
        let rest = ms.skip(1);
        assert forall|i: int, j: int| 0 <= i < j < rest.len() implies (
        #[trigger] rest[i]).match_id != (#[trigger] rest[j]).match_id by {
            assert(rest[i] == ms[i + 1] && rest[j] == ms[j + 1]);
        }
        assert forall|i: int| 0 <= i < rest.len() implies distinct_accounts(
            (#[trigger] rest[i]).players,
        ) by {
            assert(rest[i] == ms[i + 1]);
        }
        assert forall|k: int| 0 <= k < rest.len() implies (#[trigger] rest[k]).match_id
            != m.match_id by {
            assert(rest[k] == ms[k + 1]);
        }
        let v1 = ingest_match_spec(v, m);
        lemma_batch_cons(v, ms);
        let w = ingest_batch_spec(v, ms);
        assert(w == ingest_batch_spec(v1, rest));
        assert(distinct_accounts(m.players));
        lemma_ingest_match_absorbs(v, m);
        lemma_batch_preserves(v1, rest, m);
        lemma_batch_cons(w, ms);
        lemma_absorbed_identity(w, m);
        lemma_ingest_batch_idempotent(v1, rest);
    }
}

/// The store already reflects each per-category record: the current row is
/// exactly what re-ingesting would write, and the dated snapshot exists.
pub open spec fn heroes_absorbed(v: StoreV, acc: i64, hs: Seq<HeroStats>) -> bool {
    forall|k: int|
        0 <= k < hs.len() ==> {
            let h = #[trigger] hs[k];
            &&& ({
                let i = find_idx(v.hero_current, hero_key(acc, h.hero_id));
                i >= 0 && hero_row_of(
                    acc,
                    h,
                    v.hero_current[i].extra.union_prefer_right(Map::empty()),
                ) == v.hero_current[i]
            })
            &&& (h.last_played matches Some(lp) ==> find_idx(
                v.hero_history,
                hero_snap_key(acc, h.hero_id, clamp_ts(lp)),
            ) >= 0)
        }
}

/// The per-category fold touches only the two per-category tables.
proof fn lemma_heroes_frame(v: StoreV, acc: i64, hs: Seq<HeroStats>)
    ensures
        ingest_heroes_spec(v, acc, hs).matches == v.matches,
        ingest_heroes_spec(v, acc, hs).match_players == v.match_players,
        ingest_heroes_spec(v, acc, hs).players == v.players,
        ingest_heroes_spec(v, acc, hs).latest_mmr == v.latest_mmr,
        ingest_heroes_spec(v, acc, hs).mmr_history == v.mmr_history,
    decreases hs.len(),
{
    if hs.len() > 0 {
        lemma_heroes_frame(v, acc, hs.drop_last());
    }
}

/// Ingesting per-category records the store has absorbed changes nothing.
proof fn lemma_heroes_absorbed_identity(v: StoreV, acc: i64, hs: Seq<HeroStats>)
    requires
        heroes_absorbed(v, acc, hs),
    ensures
        ingest_heroes_spec(v, acc, hs) == v,
    decreases hs.len(),
{
    if hs.len() > 0 {
        assert forall|k: int| 0 <= k < hs.drop_last().len() implies {
            let h = #[trigger] hs.drop_last()[k];
            &&& ({
                let i = find_idx(v.hero_current, hero_key(acc, h.hero_id));
                i >= 0 && hero_row_of(
                    acc,
                    h,
                    v.hero_current[i].extra.union_prefer_right(Map::empty()),
                ) == v.hero_current[i]
            })
            &&& (h.last_played matches Some(lp) ==> find_idx(
                v.hero_history,
                hero_snap_key(acc, h.hero_id, clamp_ts(lp)),
            ) >= 0)
        } by {
            assert(hs.drop_last()[k] == hs[k]);
        }
        lemma_heroes_absorbed_identity(v, acc, hs.drop_last());
        let h = hs.last();
        assert(hs[hs.len() - 1] == h);
        let i = find_idx(v.hero_current, hero_key(acc, h.hero_id));
        lemma_find_idx(v.hero_current, hero_key(acc, h.hero_id));
        assert(v.hero_current.update(
            i,
            hero_row_of(acc, h, v.hero_current[i].extra.union_prefer_right(Map::empty())),
        ) =~= v.hero_current);
        assert((StoreV { hero_current: upsert_hero_current_spec(v.hero_current, acc, h), ..v })
            =~= v);
        assert(ingest_heroes_spec(v, acc, hs) =~= v);
    }
}

/// No two per-category records name the same category.
pub open spec fn distinct_heroes(hs: Seq<HeroStats>) -> bool {
    forall|i: int, j: int|
        0 <= i < j < hs.len() ==> (#[trigger] hs[i]).hero_id != (#[trigger] hs[j]).hero_id
}

/// After the per-category records are ingested, the store has absorbed
/// every one of them.
proof fn lemma_heroes_absorb(v: StoreV, acc: i64, hs: Seq<HeroStats>)
    requires
        distinct_heroes(hs),
    ensures
        heroes_absorbed(ingest_heroes_spec(v, acc, hs), acc, hs),
    decreases hs.len(),
{
    if hs.len() > 0 {
        let qs = hs.drop_last();
        let h = hs.last();
        assert forall|i: int, j: int| 0 <= i < j < qs.len() implies (#[trigger] qs[i]).hero_id != (
        #[trigger] qs[j]).hero_id by {
            assert(qs[i] == hs[i] && qs[j] == hs[j]);
        }
        lemma_heroes_absorb(v, acc, qs);
        let w = ingest_heroes_spec(v, acc, qs);
        let hk = hero_key(acc, h.hero_id);
        let w1 = StoreV { hero_current: upsert_hero_current_spec(w.hero_current, acc, h), ..w };
        let w2 = StoreV { hero_history: insert_hero_snapshot_spec(w1.hero_history, acc, h), ..w1 };
        assert(ingest_heroes_spec(v, acc, hs) == w2);
        lemma_find_idx(w.hero_current, hk);
        let fi = find_idx(w.hero_current, hk);
        if fi >= 0 {
            let merged = hero_row_of(acc, h, w.hero_current[fi].extra.union_prefer_right(
                Map::empty(),
            ));
            let t = w.hero_current.update(fi, merged);
            assert(hk(merged));
            assert forall|j: int| 0 <= j < fi implies !hk(#[trigger] t[j]) by {
                assert(t[j] == w.hero_current[j]);
            }
            lemma_find_idx_at(t, hk, fi);
            assert(merged.extra =~= w.hero_current[fi].extra.union_prefer_right(Map::empty()));
            lemma_union_idempotent(w.hero_current[fi].extra, Map::empty());
            assert(hero_row_of(acc, h, merged.extra.union_prefer_right(Map::empty())) =~= merged);
        } else {
            let nr = hero_row_of(acc, h, Map::empty());
            assert(hk(nr));
            lemma_find_idx_at(w.hero_current.push(nr), hk, w.hero_current.len() as int);
            assert(nr.extra.union_prefer_right(Map::empty()) =~= Map::<Seq<char>, Seq<char>>::empty());
            assert(hero_row_of(acc, h, nr.extra.union_prefer_right(Map::empty())) =~= nr);
        }
        if h.last_played is Some {
            let sk = hero_snap_key(acc, h.hero_id, clamp_ts(h.last_played.unwrap()));
            lemma_find_idx(w1.hero_history, sk);
            let si = find_idx(w1.hero_history, sk);
            if si < 0 {
                let sr = crate::store::HeroSnapRow {
                    account_id: acc,
                    hero_id: h.hero_id,
                    last_played: clamp_ts(h.last_played.unwrap()),
                    snapshot: h,
                };
                assert(sk(sr));
                lemma_find_idx_at(w1.hero_history.push(sr), sk, w1.hero_history.len() as int);
            }
        }
        assert forall|k: int| 0 <= k < hs.len() implies {
            let h2 = #[trigger] hs[k];
            &&& ({
                let i = find_idx(w2.hero_current, hero_key(acc, h2.hero_id));
                i >= 0 && hero_row_of(
                    acc,
                    h2,
                    w2.hero_current[i].extra.union_prefer_right(Map::empty()),
                ) == w2.hero_current[i]
            })
            &&& (h2.last_played matches Some(lp) ==> find_idx(
                w2.hero_history,
                hero_snap_key(acc, h2.hero_id, clamp_ts(lp)),
            ) >= 0)
        } by {
            let h2 = hs[k];
            if k < hs.len() - 1 {
                assert(qs[k] == hs[k]);
                assert(h2.hero_id != h.hero_id);
                let hq = hero_key(acc, h2.hero_id);
                if fi >= 0 {
                    let merged = hero_row_of(acc, h, w.hero_current[fi].extra.union_prefer_right(
                        Map::empty(),
                    ));
                    assert(hk(w.hero_current[fi]));
                    assert(!hq(w.hero_current[fi]));
                    assert(!hq(merged));
                    lemma_find_stable_update(w.hero_current, hq, fi, merged);
                } else {
                    let nr = hero_row_of(acc, h, Map::empty());
                    assert(!hq(nr));
                    lemma_find_stable_push(w.hero_current, hq, nr);
                }
                if h2.last_played is Some {
                    let sq = hero_snap_key(acc, h2.hero_id, clamp_ts(h2.last_played.unwrap()));
                    if h.last_played is Some {
                        let si = find_idx(
                            w1.hero_history,
                            hero_snap_key(acc, h.hero_id, clamp_ts(h.last_played.unwrap())),
                        );
                        if si < 0 {
                            let sr = crate::store::HeroSnapRow {
                                account_id: acc,
                                hero_id: h.hero_id,
                                last_played: clamp_ts(h.last_played.unwrap()),
                                snapshot: h,
                            };
                            assert(!sq(sr));
                            lemma_find_stable_push(w1.hero_history, sq, sr);
                        }
                    }
                }
            }
        }
    }
}

/// Idempotence of the player-bundle transaction: committing the same
/// combined lookup a second time changes nothing at all.
pub proof fn lemma_ingest_player_idempotent(v: StoreV, c: CombinedPayloadV)
    requires
        distinct_heroes(c.hero_stats),
    ensures
        ingest_player_spec(ingest_player_spec(v, c), c) == ingest_player_spec(v, c),
{
    let acc = c.account_id as i64;
    let up = profile_updated_at(c.profile);
    let pk = player_key(acc);
    // first run
    let v1 = StoreV { players: upsert_player_spec(v.players, acc, c.steamid64, c.profile), ..v };
    let v2 = match c.latest_mmr {
        Some(m) => {
            let a = StoreV { latest_mmr: upsert_latest_mmr_spec(v1.latest_mmr, acc, m), ..v1 };
            StoreV { mmr_history: insert_mmr_history_spec(a.mmr_history, acc, m), ..a }
        },
        None => v1,
    };
    let w = ingest_heroes_spec(v2, acc, c.hero_stats);
    assert(ingest_player_spec(v, c) == w);
    lemma_heroes_frame(v2, acc, c.hero_stats);
    // the profile row in w is present and re-merging it changes nothing
    lemma_find_idx(v.players, pk);
    let i0 = find_idx(v.players, pk);
    if i0 >= 0 {
        let merged = merge_player_row(v.players[i0], c.steamid64, c.profile, up);
        let t = v.players.update(i0, merged);
        assert(pk(merged));
        assert forall|j: int| 0 <= j < i0 implies !pk(#[trigger] t[j]) by {
            assert(t[j] == v.players[j]);
        }
        lemma_find_idx_at(t, pk, i0);
        lemma_union_idempotent(v.players[i0].profile_extra, Map::empty());
        assert(merge_player_row(merged, c.steamid64, c.profile, up) =~= merged);
    } else {
        let nr = new_player_row(acc, c.steamid64, c.profile, up);
        assert(pk(nr));
        lemma_find_idx_at(v.players.push(nr), pk, v.players.len() as int);
        assert(nr.profile_extra.union_prefer_right(Map::empty()) =~= Map::<
            Seq<char>,
            Seq<char>,
        >::empty());
        assert(merge_player_row(nr, c.steamid64, c.profile, up) =~= nr);
    }
    let iw = find_idx(w.players, pk);
    assert(w.players == v1.players);
    assert(v2.players == v1.players);
    assert(iw >= 0 && merge_player_row(w.players[iw], c.steamid64, c.profile, up) == w.players[iw]);
    // the score snapshot and its history row, when one came
    if c.latest_mmr is Some {
        let m = c.latest_mmr.unwrap();
        let mk = mmr_key(acc);
        lemma_find_idx(v1.latest_mmr, mk);
        let j0 = find_idx(v1.latest_mmr, mk);
        if j0 >= 0 {
            let merged = mmr_row_of(acc, m, v1.latest_mmr[j0].extra.union_prefer_right(
                Map::empty(),
            ));
            let t = v1.latest_mmr.update(j0, merged);
            assert(mk(merged));
            assert forall|j: int| 0 <= j < j0 implies !mk(#[trigger] t[j]) by {
                assert(t[j] == v1.latest_mmr[j]);
            }
            lemma_find_idx_at(t, mk, j0);
            lemma_union_idempotent(v1.latest_mmr[j0].extra, Map::empty());
            assert(mmr_row_of(acc, m, merged.extra.union_prefer_right(Map::empty())) =~= merged);
        } else {
            let nr = mmr_row_of(acc, m, Map::empty());
            assert(mk(nr));
            lemma_find_idx_at(v1.latest_mmr.push(nr), mk, v1.latest_mmr.len() as int);
            assert(nr.extra.union_prefer_right(Map::empty()) =~= Map::<
                Seq<char>,
                Seq<char>,
            >::empty());
            assert(mmr_row_of(acc, m, nr.extra.union_prefer_right(Map::empty())) =~= nr);
        }
        let hk2 = mmr_history_key(acc, clamp_ts(m.start_time as i64));
        lemma_find_idx(v2.mmr_history, hk2);
        let a_hist = insert_mmr_history_spec(
            (StoreV { latest_mmr: upsert_latest_mmr_spec(v1.latest_mmr, acc, m), ..v1 }).mmr_history,
            acc,
            m,
        );
        lemma_find_idx(v1.mmr_history, hk2);
        let h0 = find_idx(v1.mmr_history, hk2);
        if h0 < 0 {
            let hr = MmrHistoryRowV {
                account_id: acc,
                start_time: clamp_ts(m.start_time as i64),
                match_id: m.match_id,
                player_score: m.player_score,
                rank: m.rank,
                division: m.division,
                division_tier: m.division_tier,
                extra: Map::empty(),
            };
            assert(hk2(hr));
            lemma_find_idx_at(v1.mmr_history.push(hr), hk2, v1.mmr_history.len() as int);
        }
        assert(find_idx(v2.mmr_history, hk2) >= 0);
        assert(w.mmr_history == v2.mmr_history);
        assert(w.latest_mmr == v2.latest_mmr);
    }
    // the per-category records
    lemma_heroes_absorb(v2, acc, c.hero_stats);
    // second run: every step is now an identity
    let iw2 = find_idx(w.players, pk);
    lemma_find_idx(w.players, pk);
    assert(w.players.update(iw2, merge_player_row(w.players[iw2], c.steamid64, c.profile, up))
        =~= w.players);
    let u1 = StoreV { players: upsert_player_spec(w.players, acc, c.steamid64, c.profile), ..w };
    assert(u1 =~= w);
    let u2 = match c.latest_mmr {
        Some(m) => {
            let a = StoreV { latest_mmr: upsert_latest_mmr_spec(u1.latest_mmr, acc, m), ..u1 };
            StoreV { mmr_history: insert_mmr_history_spec(a.mmr_history, acc, m), ..a }
        },
        None => u1,
    };
    if c.latest_mmr is Some {
        let m = c.latest_mmr.unwrap();
        let mk = mmr_key(acc);
        lemma_find_idx(w.latest_mmr, mk);
        let jw = find_idx(w.latest_mmr, mk);
        assert(jw >= 0 && mmr_row_of(acc, m, w.latest_mmr[jw].extra.union_prefer_right(
            Map::empty(),
        )) == w.latest_mmr[jw]);
        assert(w.latest_mmr.update(
            jw,
            mmr_row_of(acc, m, w.latest_mmr[jw].extra.union_prefer_right(Map::empty())),
        ) =~= w.latest_mmr);
        let hk2 = mmr_history_key(acc, clamp_ts(m.start_time as i64));
        lemma_find_idx(w.mmr_history, hk2);
        assert(find_idx(w.mmr_history, hk2) >= 0);
        assert(u2 =~= w);
    } else {
        assert(u2 =~= w);
    }
    lemma_heroes_absorbed_identity(u2, acc, c.hero_stats);
    assert(heroes_absorbed(u2, acc, c.hero_stats));
    assert(ingest_player_spec(w, c) == ingest_heroes_spec(u2, acc, c.hero_stats));
    assert(ingest_player_spec(w, c) == w);
}

} // verus!
