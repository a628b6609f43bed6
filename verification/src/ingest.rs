//! Ingestion transactions: committing one fetched chunk of records with
//! their nested sub-records, and committing one player's combined lookup.
//!
//! Each transaction is an in-memory state transformation of the store,
//! stated as a spec-level fold that the executable code is proved to
//! implement exactly.

use vstd::prelude::*;

use crate::models::{CombinedPayload, CombinedPayloadV, HeroStats, MatchMeta, MatchMetaV, PlayerInMatchV};
use crate::store::{
    ensure_stub_spec, insert_hero_snapshot_spec, insert_mmr_history_spec, upsert_hero_current_spec,
    upsert_latest_mmr_spec, upsert_match_player_spec, upsert_match_spec, upsert_player_spec, Store,
    StoreV,
};

verus! {

/// Counts reported by one player-bundle transaction.
pub struct IngestResult {
    pub heroes_upserted: usize,
    pub hero_history_added: usize,
    pub mmr_updated: bool,
}

/// Counts reported by one record-batch transaction.
pub struct MatchesIngestResult {
    pub matches_upserted: usize,
    pub match_players_upserted: usize,
    /// Distinct participants referenced by the chunk's sub-records.
    pub players_upserted: usize,
}

/// Ingest the sub-records of one record, in order: each participant's stub
/// first, then the sub-record row itself.
pub open spec fn ingest_sub_records_spec(v: StoreV, mid: i64, ps: Seq<PlayerInMatchV>) -> StoreV
    decreases ps.len(),
{
    if ps.len() == 0 {
        v
    } else {
        let w = ingest_sub_records_spec(v, mid, ps.drop_last());
        let p = ps.last();
        let w1 = StoreV { players: ensure_stub_spec(w.players, p.account_id as i64), ..w };
        StoreV { match_players: upsert_match_player_spec(w1.match_players, mid, p), ..w1 }
    }
}

/// Ingest one record and everything nested in it.
pub open spec fn ingest_match_spec(v: StoreV, m: MatchMetaV) -> StoreV {
    let v1 = StoreV { matches: upsert_match_spec(v.matches, m), ..v };
    ingest_sub_records_spec(v1, m.match_id, m.players)
}

/// Ingest a whole chunk of records, in order.
pub open spec fn ingest_batch_spec(v: StoreV, ms: Seq<MatchMetaV>) -> StoreV
    decreases ms.len(),
{
    if ms.len() == 0 {
        v
    } else {
        ingest_match_spec(ingest_batch_spec(v, ms.drop_last()), ms.last())
    }
}

/// The views of a list of fetched records.
pub open spec fn metas_view(metas: Seq<MatchMeta>) -> Seq<MatchMetaV> {
    metas.map_values(|m: MatchMeta| m@)
}

/// Total number of sub-records in a chunk.
pub open spec fn players_count(ms: Seq<MatchMetaV>) -> int
    decreases ms.len(),
{
    if ms.len() == 0 {
        0
    } else {
        players_count(ms.drop_last()) + ms.last().players.len()
    }
}

/// The participants a record's sub-records reference, joined onto `s`.
pub open spec fn accounts_of_players(s: Set<i64>, ps: Seq<PlayerInMatchV>) -> Set<i64>
    decreases ps.len(),
{
    if ps.len() == 0 {
        s
    } else {
        accounts_of_players(s, ps.drop_last()).insert(ps.last().account_id as i64)
    }
}

/// The participants a whole chunk references, joined onto `s`.
pub open spec fn accounts_of_batch(s: Set<i64>, ms: Seq<MatchMetaV>) -> Set<i64>
    decreases ms.len(),
{
    if ms.len() == 0 {
        s
    } else {
        accounts_of_players(accounts_of_batch(s, ms.drop_last()), ms.last().players)
    }
}

pub proof fn lemma_accounts_of_players_finite(s: Set<i64>, ps: Seq<PlayerInMatchV>)
    requires
        s.finite(),
    ensures
        accounts_of_players(s, ps).finite(),
    decreases ps.len(),
{
    if ps.len() > 0 {
        lemma_accounts_of_players_finite(s, ps.drop_last());
    }
}

pub proof fn lemma_accounts_of_batch_finite(s: Set<i64>, ms: Seq<MatchMetaV>)
    requires
        s.finite(),
    ensures
        accounts_of_batch(s, ms).finite(),
    decreases ms.len(),
{
    if ms.len() > 0 {
        lemma_accounts_of_batch_finite(s, ms.drop_last());
        lemma_accounts_of_players_finite(accounts_of_batch(s, ms.drop_last()), ms.last().players);
    }
}

/// The count over a prefix never exceeds the count over the whole chunk.
pub proof fn lemma_players_count_prefix(ms: Seq<MatchMetaV>, i: int)
    requires
        0 <= i <= ms.len(),
    ensures
        players_count(ms.take(i)) <= players_count(ms),
        players_count(ms.take(i)) >= 0,
    decreases ms.len() - i,
{
    lemma_players_count_nonneg(ms.take(i));
    if i == ms.len() {
        assert(ms.take(i) =~= ms);
    } else {
        lemma_players_count_prefix(ms, i + 1);
        assert(ms.take(i + 1).drop_last() =~= ms.take(i));
        assert(ms.take(i + 1).last() == ms[i]);
    }
}

pub proof fn lemma_players_count_nonneg(ms: Seq<MatchMetaV>)
    ensures
        players_count(ms) >= 0,
    decreases ms.len(),
{
    if ms.len() > 0 {
        lemma_players_count_nonneg(ms.drop_last());
    }
}

/// Commit one chunk of fetched records: every record row is upserted with
/// null-coalescing merge, every nested sub-record ensures its participant
/// stub and is upserted with full overwrite, all in order.
#[verifier::loop_isolation(false)]
pub fn ingest_matches_batch(store: &mut Store, metas: &Vec<MatchMeta>) -> (r: MatchesIngestResult)
    requires
        old(store).inv(),
        forall|i: int| 0 <= i < metas@.len() ==> (#[trigger] metas@[i]).wf(),
        players_count(metas_view(metas@)) <= usize::MAX,
    ensures
        final(store).inv(),
        final(store)@ == ingest_batch_spec(old(store)@, metas_view(metas@)),
        r.matches_upserted == metas@.len(),
        r.match_players_upserted == players_count(metas_view(metas@)),
        r.players_upserted == accounts_of_batch(Set::empty(), metas_view(metas@)).len(),
{
    let ghost mv = metas_view(metas@);
    let mut matches_upserted: usize = 0;
    let mut match_players_upserted: usize = 0;
    let mut players_upserted: usize = 0;
    let mut seen: Vec<i64> = Vec::new();
    let n = metas.len();
    let mut i: usize = 0;
    while i < n
        invariant
            0 <= i <= n,
            store.inv(),
            store@ == ingest_batch_spec(old(store)@, mv.take(i as int)),
            matches_upserted == i,
            match_players_upserted == players_count(mv.take(i as int)),
            crate::candidates::strictly_sorted(seen@),
            accounts_of_batch(Set::empty(), mv.take(i as int)).finite(),
            forall|x: i64|
                seen@.contains(x) <==> accounts_of_batch(Set::empty(), mv.take(i as int)).contains(
                    x,
                ),
            players_upserted == accounts_of_batch(Set::empty(), mv.take(i as int)).len(),
            players_upserted <= match_players_upserted,
        decreases n - i,
    {
        let m = &metas[i];
        let ghost pre = store@;
        store.upsert_match(m);
        let ghost v1 = store@;
        proof {
            lemma_players_count_prefix(mv, i as int);
            lemma_players_count_prefix(mv, i + 1);
            assert(mv.take(i + 1).drop_last() =~= mv.take(i as int));
            assert(mv.take(i + 1).last() == m@);
        }
        let ghost s0 = accounts_of_batch(Set::empty(), mv.take(i as int));
        if let Some(players) = &m.players {
            let np = players.len();
            let mut j: usize = 0;
            while j < np
                invariant
                    0 <= j <= np,
                    store.inv(),
                    store@ == ingest_sub_records_spec(v1, m.match_id, m@.players.take(j as int)),
                    match_players_upserted == players_count(mv.take(i as int)) + j,
                    crate::candidates::strictly_sorted(seen@),
                    accounts_of_players(s0, m@.players.take(j as int)).finite(),
                    forall|x: i64|
                        seen@.contains(x) <==> accounts_of_players(
                            s0,
                            m@.players.take(j as int),
                        ).contains(x),
                    players_upserted == accounts_of_players(s0, m@.players.take(j as int)).len(),
                    players_upserted <= match_players_upserted,
                decreases np - j,
            {
                let p = &players[j];
                proof {
                    assert(m@.players.take(j + 1).drop_last() =~= m@.players.take(j as int));
                    assert(m@.players.take(j + 1).last() == p@);
                    assert(p.wf());
                }
                store.ensure_player_stub(p.account_id as i64);
                store.upsert_match_player(m.match_id, p);
                match_players_upserted += 1;
                let acc = p.account_id as i64;
                let ghost sj = accounts_of_players(s0, m@.players.take(j as int));
                proof {
                    vstd::set::axiom_set_insert_len(sj, acc);
                    vstd::set::axiom_set_insert_finite(sj, acc);
                }
                if !crate::candidates::contains_id(&seen, acc) {
                    crate::candidates::sorted_insert(&mut seen, acc);
                    players_upserted += 1;
                }
                proof {
                    assert forall|x: i64| seen@.contains(x) implies accounts_of_players(
                        s0,
                        m@.players.take(j + 1),
                    ).contains(x) by {}
                    assert forall|x: i64|
                        accounts_of_players(s0, m@.players.take(j + 1)).contains(
                            x,
                        ) implies seen@.contains(x) by {}
                }
                j += 1;
            }
            proof {
                assert(m@.players.take(np as int) =~= m@.players);
            }
        } else {
            proof {
                assert(m@.players =~= Seq::<PlayerInMatchV>::empty());
                assert(store@ == ingest_sub_records_spec(v1, m.match_id, m@.players));
                assert(accounts_of_players(s0, m@.players) == s0);
            }
        }
        matches_upserted += 1;
        i += 1;
    }
    proof {
        assert(mv.take(n as int) =~= mv);
    }
    MatchesIngestResult { matches_upserted, match_players_upserted, players_upserted }
}

/// Ingest one player's per-category records, in order: the current snapshot
/// is overwritten; a history snapshot is appended when the record carries
/// its timestamp.
pub open spec fn ingest_heroes_spec(v: StoreV, acc: i64, hs: Seq<HeroStats>) -> StoreV
    decreases hs.len(),
{
    if hs.len() == 0 {
        v
    } else {
        let w = ingest_heroes_spec(v, acc, hs.drop_last());
        let h = hs.last();
        let w1 = StoreV { hero_current: upsert_hero_current_spec(w.hero_current, acc, h), ..w };
        StoreV { hero_history: insert_hero_snapshot_spec(w1.hero_history, acc, h), ..w1 }
    }
}

/// Ingest one player's combined lookup: full profile, then the score
/// observation if one came, then every per-category record.
pub open spec fn ingest_player_spec(v: StoreV, c: CombinedPayloadV) -> StoreV {
    let acc = c.account_id as i64;
    let v1 = StoreV { players: upsert_player_spec(v.players, acc, c.steamid64, c.profile), ..v };
    let v2 = match c.latest_mmr {
        Some(m) => {
            let a = StoreV { latest_mmr: upsert_latest_mmr_spec(v1.latest_mmr, acc, m), ..v1 };
            StoreV { mmr_history: insert_mmr_history_spec(a.mmr_history, acc, m), ..a }
        },
        None => v1,
    };
    ingest_heroes_spec(v2, acc, c.hero_stats)
}

/// How many per-category records carry a timestamp, and so add a history
/// snapshot.
pub open spec fn hero_history_count(hs: Seq<HeroStats>) -> int
    decreases hs.len(),
{
    if hs.len() == 0 {
        0
    } else {
        hero_history_count(hs.drop_last()) + if hs.last().last_played is Some {
            1int
        } else {
            0int
        }
    }
}

pub proof fn lemma_hero_history_count_prefix(hs: Seq<HeroStats>, i: int)
    requires
        0 <= i <= hs.len(),
    ensures
        0 <= hero_history_count(hs.take(i)) <= i,
    decreases i,
{
    if i > 0 {
        lemma_hero_history_count_prefix(hs, i - 1);
        assert(hs.take(i).drop_last() =~= hs.take(i - 1));
        assert(hs.take(i).last() == hs[i - 1]);
    }
}

/// Commit one player's combined lookup as a single transaction and report
/// what it changed.
#[verifier::loop_isolation(false)]
pub fn ingest_player(store: &mut Store, payload: &CombinedPayload) -> (r: IngestResult)
    requires
        old(store).inv(),
    ensures
        final(store).inv(),
        final(store)@ == ingest_player_spec(old(store)@, payload@),
        r.heroes_upserted == payload.hero_stats@.len(),
        r.hero_history_added == hero_history_count(payload.hero_stats@),
        r.mmr_updated == (payload.latest_mmr is Some),
{
    let acc = payload.account_id as i64;
    store.upsert_player(acc, payload.steamid64.as_str(), &payload.profile);
    let mut mmr_updated = false;
    if let Some(m) = &payload.latest_mmr {
        store.upsert_latest_mmr(acc, m);
        store.insert_mmr_history(acc, m);
        mmr_updated = true;
    }
    let ghost v2 = store@;
    let mut heroes_upserted: usize = 0;
    let mut hero_history_added: usize = 0;
    let nh = payload.hero_stats.len();
    let mut k: usize = 0;
    while k < nh
        invariant
            0 <= k <= nh,
            store.inv(),
            store@ == ingest_heroes_spec(v2, acc, payload.hero_stats@.take(k as int)),
            heroes_upserted == k,
            hero_history_added == hero_history_count(payload.hero_stats@.take(k as int)),
        decreases nh - k,
    {
        let h = &payload.hero_stats[k];
        proof {
            lemma_hero_history_count_prefix(payload.hero_stats@, k + 1);
            assert(payload.hero_stats@.take(k + 1).drop_last() =~= payload.hero_stats@.take(
                k as int,
            ));
            assert(payload.hero_stats@.take(k + 1).last() == payload.hero_stats@[k as int]);
        }
        store.upsert_hero_current(acc, h);
        heroes_upserted += 1;
        if h.last_played.is_some() {
            store.insert_hero_snapshot(acc, h);
            hero_history_added += 1;
        } else {
            proof {
                assert(store@ == (StoreV {
                    hero_history: insert_hero_snapshot_spec(store@.hero_history, acc, *h),
                    ..store@
                }));
            }
        }
        k += 1;
    }
    proof {
        assert(payload.hero_stats@.take(nh as int) =~= payload.hero_stats@);
    }
    IngestResult { heroes_upserted, hero_history_added, mmr_updated }
}

} // verus!
