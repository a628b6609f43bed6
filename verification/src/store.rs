//! The durable store, modelled row for row: every table the ingestion
//! engine writes, each with its key and its merge rule.
//!
//! Record metadata merges by null-coalescing, current snapshots overwrite,
//! history tables are append-only, and every free-form payload merges by
//! shallow union. The executable operations are proved against spec-level
//! transformations of the store's view, which the engine's laws build on.

use vstd::prelude::*;

use crate::blob::{blob_union, Blob};
use crate::digits::{dec_str, parse_i64, parse_i64_spec};
use crate::models::{
    HeroStats, MMRHistory, MatchMeta, MatchMetaV, PlayerInMatch, PlayerInMatchV, SteamProfile,
    SteamProfileV,
};
use crate::steam::{account_id_to_steamid64, STEAMID64_MIN};

verus! {

/// Clamp an epoch-seconds value to the range the store accepts: negative
/// timestamps fold to the epoch itself.
pub open spec fn clamp_ts(secs: i64) -> i64 {
    if secs < 0 {
        0
    } else {
        secs
    }
}

/// Clamp an epoch-seconds value before storing it.
pub fn ts_from_epoch_secs(secs: i64) -> (r: i64)
    ensures
        r == clamp_ts(secs),
{
    if secs < 0 {
        0
    } else {
        secs
    }
}

/// First index satisfying `p`, or minus one.
pub open spec fn find_idx<T>(s: Seq<T>, p: spec_fn(T) -> bool) -> int
    decreases s.len(),
{
    if s.len() == 0 {
        -1
    } else if p(s[0]) {
        0
    } else {
        let r = find_idx(s.skip(1), p);
        if r == -1 {
            -1
        } else {
            r + 1
        }
    }
}

pub proof fn lemma_find_idx<T>(s: Seq<T>, p: spec_fn(T) -> bool)
    ensures
        find_idx(s, p) == -1 ==> forall|j: int| 0 <= j < s.len() ==> !p(#[trigger] s[j]),
        find_idx(s, p) != -1 ==> 0 <= find_idx(s, p) < s.len() && p(s[find_idx(s, p)]) && forall|
            j: int,
        | 0 <= j < find_idx(s, p) ==> !p(#[trigger] s[j]),
    decreases s.len(),
{
    if s.len() == 0 {
    } else if p(s[0]) {
    } else {
        lemma_find_idx(s.skip(1), p);
        let r = find_idx(s.skip(1), p);
        if r == -1 {
            assert(find_idx(s, p) == -1);
            assert forall|j: int| 0 <= j < s.len() implies !p(#[trigger] s[j]) by {
                if j > 0 {
                    assert(s.skip(1)[j - 1] == s[j]);
                    assert(!p(s.skip(1)[j - 1]));
                }
            }
        } else {
            assert(find_idx(s, p) == r + 1);
            assert(s.skip(1)[r] == s[r + 1]);
            assert(p(s[r + 1]));
            assert forall|j: int| 0 <= j < r + 1 implies !p(#[trigger] s[j]) by {
                if j > 0 {
                    assert(s.skip(1)[j - 1] == s[j]);
                    assert(!p(s.skip(1)[j - 1]));
                }
            }
        }
    }
}

/// A position that holds the first satisfying row is the found index.
pub proof fn lemma_find_idx_at<T>(s: Seq<T>, p: spec_fn(T) -> bool, i: int)
    requires
        0 <= i < s.len(),
        p(s[i]),
        forall|j: int| 0 <= j < i ==> !p(#[trigger] s[j]),
    ensures
        find_idx(s, p) == i,
{
    lemma_find_idx(s, p);
    let fi = find_idx(s, p);
    if fi == -1 {
        assert(!p(s[i]));
    } else if fi < i {
        assert(!p(s[fi]));
    } else if fi > i {
        assert(!p(s[i]));
    }
}

/// A table without a satisfying row finds nothing.
pub proof fn lemma_find_idx_none<T>(s: Seq<T>, p: spec_fn(T) -> bool)
    requires
        forall|j: int| 0 <= j < s.len() ==> !p(#[trigger] s[j]),
    ensures
        find_idx(s, p) == -1,
{
    lemma_find_idx(s, p);
    let fi = find_idx(s, p);
    if fi != -1 {
        assert(!p(s[fi]));
    }
}

/// Replacing a non-satisfying row with a non-satisfying row moves nothing.
pub proof fn lemma_find_stable_update<T>(s: Seq<T>, p: spec_fn(T) -> bool, i: int, x: T)
    requires
        0 <= i < s.len(),
        !p(s[i]),
        !p(x),
    ensures
        find_idx(s.update(i, x), p) == find_idx(s, p),
        find_idx(s, p) >= 0 ==> s.update(i, x)[find_idx(s, p)] == s[find_idx(s, p)],
{
    lemma_find_idx(s, p);
    let fi = find_idx(s, p);
    let t = s.update(i, x);
    if fi == -1 {
        assert forall|j: int| 0 <= j < t.len() implies !p(#[trigger] t[j]) by {
            if j != i {
                assert(t[j] == s[j]);
            }
        }
        lemma_find_idx_none(t, p);
    } else {
        assert(fi != i);
        assert(t[fi] == s[fi]);
        assert forall|j: int| 0 <= j < fi implies !p(#[trigger] t[j]) by {
            if j != i {
                assert(t[j] == s[j]);
            }
        }
        lemma_find_idx_at(t, p, fi);
    }
}

/// Appending a non-satisfying row moves nothing.
pub proof fn lemma_find_stable_push<T>(s: Seq<T>, p: spec_fn(T) -> bool, x: T)
    requires
        !p(x),
    ensures
        find_idx(s.push(x), p) == find_idx(s, p),
        find_idx(s, p) >= 0 ==> s.push(x)[find_idx(s, p)] == s[find_idx(s, p)],
{
    lemma_find_idx(s, p);
    let fi = find_idx(s, p);
    let t = s.push(x);
    if fi == -1 {
        assert forall|j: int| 0 <= j < t.len() implies !p(#[trigger] t[j]) by {
            if j < s.len() {
                assert(t[j] == s[j]);
            } else {
                assert(t[j] == x);
            }
        }
        lemma_find_idx_none(t, p);
    } else {
        assert(t[fi] == s[fi]);
        assert forall|j: int| 0 <= j < fi implies !p(#[trigger] t[j]) by {
            assert(t[j] == s[j]);
        }
        lemma_find_idx_at(t, p, fi);
    }
}

/// A stored record (match) row.
pub struct MatchRow {
    pub match_id: i64,
    pub start_time: Option<i64>,
    pub duration_s: Option<i32>,
    pub winner_team: Option<String>,
    pub average_badge: Option<i32>,
    pub region: Option<String>,
    pub patch_version: Option<String>,
    pub info: Blob,
}

#[verifier::ext_equal]
pub struct MatchRowV {
    pub match_id: i64,
    pub start_time: Option<i64>,
    pub duration_s: Option<i32>,
    pub winner_team: Option<Seq<char>>,
    pub average_badge: Option<i32>,
    pub region: Option<Seq<char>>,
    pub patch_version: Option<Seq<char>>,
    pub info: Map<Seq<char>, Seq<char>>,
}

impl View for MatchRow {
    type V = MatchRowV;

    open spec fn view(&self) -> MatchRowV {
        MatchRowV {
            match_id: self.match_id,
            start_time: self.start_time,
            duration_s: self.duration_s,
            winner_team: self.winner_team.deep_view(),
            average_badge: self.average_badge,
            region: self.region.deep_view(),
            patch_version: self.patch_version.deep_view(),
            info: self.info@,
        }
    }
}

/// A stored sub-record (match participant) row.
pub struct MatchPlayerRow {
    pub match_id: i64,
    pub account_id: i64,
    pub hero_id: Option<i32>,
    pub team: Option<String>,
    pub party_id: Option<i64>,
    pub lane: Option<String>,
    pub is_victory: Option<bool>,
    pub kills: Option<i32>,
    pub deaths: Option<i32>,
    pub assists: Option<i32>,
    pub networth: Option<i64>,
    pub damage: Option<i64>,
    pub damage_taken: Option<i64>,
    pub obj_damage: Option<i64>,
    pub last_hits: Option<i32>,
    pub accuracy: Option<u64>,
    pub crit_shot_rate: Option<u64>,
    pub extra: Blob,
}

#[verifier::ext_equal]
pub struct MatchPlayerRowV {
    pub match_id: i64,
    pub account_id: i64,
    pub hero_id: Option<i32>,
    pub team: Option<Seq<char>>,
    pub party_id: Option<i64>,
    pub lane: Option<Seq<char>>,
    pub is_victory: Option<bool>,
    pub kills: Option<i32>,
    pub deaths: Option<i32>,
    pub assists: Option<i32>,
    pub networth: Option<i64>,
    pub damage: Option<i64>,
    pub damage_taken: Option<i64>,
    pub obj_damage: Option<i64>,
    pub last_hits: Option<i32>,
    pub accuracy: Option<u64>,
    pub crit_shot_rate: Option<u64>,
    pub extra: Map<Seq<char>, Seq<char>>,
}

impl View for MatchPlayerRow {
    type V = MatchPlayerRowV;

    open spec fn view(&self) -> MatchPlayerRowV {
        MatchPlayerRowV {
            match_id: self.match_id,
            account_id: self.account_id,
            hero_id: self.hero_id,
            team: self.team.deep_view(),
            party_id: self.party_id,
            lane: self.lane.deep_view(),
            is_victory: self.is_victory,
            kills: self.kills,
            deaths: self.deaths,
            assists: self.assists,
            networth: self.networth,
            damage: self.damage,
            damage_taken: self.damage_taken,
            obj_damage: self.obj_damage,
            last_hits: self.last_hits,
            accuracy: self.accuracy,
            crit_shot_rate: self.crit_shot_rate,
            extra: self.extra@,
        }
    }
}

/// A stored participant (player) row; a stub holds only the two identity
/// fields.
pub struct PlayerRow {
    pub account_id: i64,
    pub steamid64: String,
    pub personaname: Option<String>,
    pub profileurl: Option<String>,
    pub avatar: Option<String>,
    pub avatarmedium: Option<String>,
    pub avatarfull: Option<String>,
    pub countrycode: Option<String>,
    pub realname: Option<String>,
    pub profile_extra: Blob,
    pub profile_updated_at: Option<i64>,
}

#[verifier::ext_equal]
pub struct PlayerRowV {
    pub account_id: i64,
    pub steamid64: Seq<char>,
    pub personaname: Option<Seq<char>>,
    pub profileurl: Option<Seq<char>>,
    pub avatar: Option<Seq<char>>,
    pub avatarmedium: Option<Seq<char>>,
    pub avatarfull: Option<Seq<char>>,
    pub countrycode: Option<Seq<char>>,
    pub realname: Option<Seq<char>>,
    pub profile_extra: Map<Seq<char>, Seq<char>>,
    pub profile_updated_at: Option<i64>,
}

impl View for PlayerRow {
    type V = PlayerRowV;

    open spec fn view(&self) -> PlayerRowV {
        PlayerRowV {
            account_id: self.account_id,
            steamid64: self.steamid64@,
            personaname: self.personaname.deep_view(),
            profileurl: self.profileurl.deep_view(),
            avatar: self.avatar.deep_view(),
            avatarmedium: self.avatarmedium.deep_view(),
            avatarfull: self.avatarfull.deep_view(),
            countrycode: self.countrycode.deep_view(),
            realname: self.realname.deep_view(),
            profile_extra: self.profile_extra@,
            profile_updated_at: self.profile_updated_at,
        }
    }
}

/// The current score/rank snapshot for one participant.
pub struct MmrRow {
    pub account_id: i64,
    pub match_id: i64,
    pub start_time: i64,
    pub player_score: u64,
    pub rank: i32,
    pub division: i32,
    pub division_tier: i32,
    pub extra: Blob,
}

#[verifier::ext_equal]
pub struct MmrRowV {
    pub account_id: i64,
    pub match_id: i64,
    pub start_time: i64,
    pub player_score: u64,
    pub rank: i32,
    pub division: i32,
    pub division_tier: i32,
    pub extra: Map<Seq<char>, Seq<char>>,
}

impl View for MmrRow {
    type V = MmrRowV;

    open spec fn view(&self) -> MmrRowV {
        MmrRowV {
            account_id: self.account_id,
            match_id: self.match_id,
            start_time: self.start_time,
            player_score: self.player_score,
            rank: self.rank,
            division: self.division,
            division_tier: self.division_tier,
            extra: self.extra@,
        }
    }
}

/// One appended score/rank history row.
pub struct MmrHistoryRow {
    pub account_id: i64,
    pub start_time: i64,
    pub match_id: i64,
    pub player_score: u64,
    pub rank: i32,
    pub division: i32,
    pub division_tier: i32,
    pub extra: Blob,
}

#[verifier::ext_equal]
pub struct MmrHistoryRowV {
    pub account_id: i64,
    pub start_time: i64,
    pub match_id: i64,
    pub player_score: u64,
    pub rank: i32,
    pub division: i32,
    pub division_tier: i32,
    pub extra: Map<Seq<char>, Seq<char>>,
}

impl View for MmrHistoryRow {
    type V = MmrHistoryRowV;

    open spec fn view(&self) -> MmrHistoryRowV {
        MmrHistoryRowV {
            account_id: self.account_id,
            start_time: self.start_time,
            match_id: self.match_id,
            player_score: self.player_score,
            rank: self.rank,
            division: self.division,
            division_tier: self.division_tier,
            extra: self.extra@,
        }
    }
}

/// The current per-category (hero) statistics snapshot.
pub struct HeroRow {
    pub account_id: i64,
    pub hero_id: i32,
    pub matches_played: Option<i32>,
    pub wins: Option<i32>,
    pub last_played: Option<i64>,
    pub time_played: Option<i32>,
    pub ending_level: Option<u64>,
    pub kills: Option<i32>,
    pub deaths: Option<i32>,
    pub assists: Option<i32>,
    pub kills_per_min: Option<u64>,
    pub deaths_per_min: Option<u64>,
    pub assists_per_min: Option<u64>,
    pub networth_per_min: Option<u64>,
    pub last_hits_per_min: Option<u64>,
    pub damage_per_min: Option<u64>,
    pub damage_taken_per_min: Option<u64>,
    pub obj_damage_per_min: Option<u64>,
    pub accuracy: Option<u64>,
    pub crit_shot_rate: Option<u64>,
    pub extra: Blob,
}

#[verifier::ext_equal]
pub struct HeroRowV {
    pub account_id: i64,
    pub hero_id: i32,
    pub matches_played: Option<i32>,
    pub wins: Option<i32>,
    pub last_played: Option<i64>,
    pub time_played: Option<i32>,
    pub ending_level: Option<u64>,
    pub kills: Option<i32>,
    pub deaths: Option<i32>,
    pub assists: Option<i32>,
    pub kills_per_min: Option<u64>,
    pub deaths_per_min: Option<u64>,
    pub assists_per_min: Option<u64>,
    pub networth_per_min: Option<u64>,
    pub last_hits_per_min: Option<u64>,
    pub damage_per_min: Option<u64>,
    pub damage_taken_per_min: Option<u64>,
    pub obj_damage_per_min: Option<u64>,
    pub accuracy: Option<u64>,
    pub crit_shot_rate: Option<u64>,
    pub extra: Map<Seq<char>, Seq<char>>,
}

impl View for HeroRow {
    type V = HeroRowV;

    open spec fn view(&self) -> HeroRowV {
        HeroRowV {
            account_id: self.account_id,
            hero_id: self.hero_id,
            matches_played: self.matches_played,
            wins: self.wins,
            last_played: self.last_played,
            time_played: self.time_played,
            ending_level: self.ending_level,
            kills: self.kills,
            deaths: self.deaths,
            assists: self.assists,
            kills_per_min: self.kills_per_min,
            deaths_per_min: self.deaths_per_min,
            assists_per_min: self.assists_per_min,
            networth_per_min: self.networth_per_min,
            last_hits_per_min: self.last_hits_per_min,
            damage_per_min: self.damage_per_min,
            damage_taken_per_min: self.damage_taken_per_min,
            obj_damage_per_min: self.obj_damage_per_min,
            accuracy: self.accuracy,
            crit_shot_rate: self.crit_shot_rate,
            extra: self.extra@,
        }
    }
}

/// One appended per-category statistics snapshot; the full fetched record
/// is kept as the snapshot payload.
pub struct HeroSnapRow {
    pub account_id: i64,
    pub hero_id: i32,
    pub last_played: i64,
    pub snapshot: HeroStats,
}

/// The whole store.
pub struct Store {
    pub matches: Vec<MatchRow>,
    pub match_players: Vec<MatchPlayerRow>,
    pub players: Vec<PlayerRow>,
    pub latest_mmr: Vec<MmrRow>,
    pub mmr_history: Vec<MmrHistoryRow>,
    pub hero_current: Vec<HeroRow>,
    pub hero_history: Vec<HeroSnapRow>,
}

#[verifier::ext_equal]
pub struct StoreV {
    pub matches: Seq<MatchRowV>,
    pub match_players: Seq<MatchPlayerRowV>,
    pub players: Seq<PlayerRowV>,
    pub latest_mmr: Seq<MmrRowV>,
    pub mmr_history: Seq<MmrHistoryRowV>,
    pub hero_current: Seq<HeroRowV>,
    pub hero_history: Seq<HeroSnapRow>,
}

impl View for Store {
    type V = StoreV;

    open spec fn view(&self) -> StoreV {
        StoreV {
            matches: self.matches@.map_values(|r: MatchRow| r@),
            match_players: self.match_players@.map_values(|r: MatchPlayerRow| r@),
            players: self.players@.map_values(|r: PlayerRow| r@),
            latest_mmr: self.latest_mmr@.map_values(|r: MmrRow| r@),
            mmr_history: self.mmr_history@.map_values(|r: MmrHistoryRow| r@),
            hero_current: self.hero_current@.map_values(|r: HeroRow| r@),
            hero_history: self.hero_history@,
        }
    }
}

pub open spec fn match_key(id: i64) -> spec_fn(MatchRowV) -> bool {
    |r: MatchRowV| r.match_id == id
}

pub open spec fn match_player_key(mid: i64, acc: i64) -> spec_fn(MatchPlayerRowV) -> bool {
    |r: MatchPlayerRowV| r.match_id == mid && r.account_id == acc
}

pub open spec fn player_key(acc: i64) -> spec_fn(PlayerRowV) -> bool {
    |r: PlayerRowV| r.account_id == acc
}

pub open spec fn mmr_key(acc: i64) -> spec_fn(MmrRowV) -> bool {
    |r: MmrRowV| r.account_id == acc
}

pub open spec fn mmr_history_key(acc: i64, ts: i64) -> spec_fn(MmrHistoryRowV) -> bool {
    |r: MmrHistoryRowV| r.account_id == acc && r.start_time == ts
}

pub open spec fn hero_key(acc: i64, hero: i32) -> spec_fn(HeroRowV) -> bool {
    |r: HeroRowV| r.account_id == acc && r.hero_id == hero
}

pub open spec fn hero_snap_key(acc: i64, hero: i32, ts: i64) -> spec_fn(HeroSnapRow) -> bool {
    |r: HeroSnapRow| r.account_id == acc && r.hero_id == hero && r.last_played == ts
}

impl StoreV {
    /// Every table's key is unique.
    pub open spec fn wf(self) -> bool {
        &&& forall|i: int, j: int|
            0 <= i < j < self.matches.len() ==> (#[trigger] self.matches[i]).match_id != (
            #[trigger] self.matches[j]).match_id
        &&& forall|i: int, j: int|
            0 <= i < j < self.match_players.len() ==> !((#[trigger] self.match_players[i]).match_id
                == (#[trigger] self.match_players[j]).match_id && self.match_players[i].account_id
                == self.match_players[j].account_id)
        &&& forall|i: int, j: int|
            0 <= i < j < self.players.len() ==> (#[trigger] self.players[i]).account_id != (
            #[trigger] self.players[j]).account_id
        &&& forall|i: int, j: int|
            0 <= i < j < self.latest_mmr.len() ==> (#[trigger] self.latest_mmr[i]).account_id != (
            #[trigger] self.latest_mmr[j]).account_id
        &&& forall|i: int, j: int|
            0 <= i < j < self.mmr_history.len() ==> !((#[trigger] self.mmr_history[i]).account_id
                == (#[trigger] self.mmr_history[j]).account_id && self.mmr_history[i].start_time
                == self.mmr_history[j].start_time)
        &&& forall|i: int, j: int|
            0 <= i < j < self.hero_current.len() ==> !((#[trigger] self.hero_current[i]).account_id
                == (#[trigger] self.hero_current[j]).account_id && self.hero_current[i].hero_id
                == self.hero_current[j].hero_id)
        &&& forall|i: int, j: int|
            0 <= i < j < self.hero_history.len() ==> !((#[trigger] self.hero_history[i]).account_id
                == (#[trigger] self.hero_history[j]).account_id && self.hero_history[i].hero_id
                == self.hero_history[j].hero_id && self.hero_history[i].last_played
                == self.hero_history[j].last_played)
    }
}

/// Null-coalescing merge of one record row: an absent incoming field keeps
/// the stored value; the payload map merges by shallow union.
pub open spec fn merge_match_row(r: MatchRowV, m: MatchMetaV) -> MatchRowV {
    MatchRowV {
        match_id: r.match_id,
        start_time: if m.start_time is Some {
            Some(clamp_ts(m.start_time.unwrap()))
        } else {
            r.start_time
        },
        duration_s: if m.duration_s is Some {
            m.duration_s
        } else {
            r.duration_s
        },
        winner_team: if m.winner_team is Some {
            m.winner_team
        } else {
            r.winner_team
        },
        average_badge: if m.average_badge is Some {
            m.average_badge
        } else {
            r.average_badge
        },
        region: if m.region is Some {
            m.region
        } else {
            r.region
        },
        patch_version: if m.patch_version is Some {
            m.patch_version
        } else {
            r.patch_version
        },
        info: r.info.union_prefer_right(m.info),
    }
}

/// The row a first-seen record inserts.
pub open spec fn new_match_row(m: MatchMetaV) -> MatchRowV {
    MatchRowV {
        match_id: m.match_id,
        start_time: if m.start_time is Some {
            Some(clamp_ts(m.start_time.unwrap()))
        } else {
            None
        },
        duration_s: m.duration_s,
        winner_team: m.winner_team,
        average_badge: m.average_badge,
        region: m.region,
        patch_version: m.patch_version,
        info: m.info,
    }
}

/// Upsert one record row.
pub open spec fn upsert_match_spec(ms: Seq<MatchRowV>, m: MatchMetaV) -> Seq<MatchRowV> {
    let i = find_idx(ms, match_key(m.match_id));
    if i >= 0 {
        ms.update(i, merge_match_row(ms[i], m))
    } else {
        ms.push(new_match_row(m))
    }
}

/// Full-overwrite merge of one sub-record row: the latest fetch wins on
/// every scalar; the payload map merges by shallow union.
pub open spec fn merge_match_player_row(
    r: MatchPlayerRowV,
    mid: i64,
    p: PlayerInMatchV,
) -> MatchPlayerRowV {
    MatchPlayerRowV {
        match_id: mid,
        account_id: p.account_id as i64,
        hero_id: p.hero_id,
        team: p.team,
        party_id: p.party_id,
        lane: p.lane,
        is_victory: p.is_victory,
        kills: p.kills,
        deaths: p.deaths,
        assists: p.assists,
        networth: p.networth,
        damage: p.damage,
        damage_taken: p.damage_taken,
        obj_damage: p.obj_damage,
        last_hits: p.last_hits,
        accuracy: p.accuracy,
        crit_shot_rate: p.crit_shot_rate,
        extra: r.extra.union_prefer_right(p.extra),
    }
}

/// The row a first-seen sub-record inserts.
pub open spec fn new_match_player_row(mid: i64, p: PlayerInMatchV) -> MatchPlayerRowV {
    MatchPlayerRowV {
        match_id: mid,
        account_id: p.account_id as i64,
        hero_id: p.hero_id,
        team: p.team,
        party_id: p.party_id,
        lane: p.lane,
        is_victory: p.is_victory,
        kills: p.kills,
        deaths: p.deaths,
        assists: p.assists,
        networth: p.networth,
        damage: p.damage,
        damage_taken: p.damage_taken,
        obj_damage: p.obj_damage,
        last_hits: p.last_hits,
        accuracy: p.accuracy,
        crit_shot_rate: p.crit_shot_rate,
        extra: p.extra,
    }
}

/// Upsert one sub-record row.
pub open spec fn upsert_match_player_spec(
    mps: Seq<MatchPlayerRowV>,
    mid: i64,
    p: PlayerInMatchV,
) -> Seq<MatchPlayerRowV> {
    let i = find_idx(mps, match_player_key(mid, p.account_id as i64));
    if i >= 0 {
        mps.update(i, merge_match_player_row(mps[i], mid, p))
    } else {
        mps.push(new_match_player_row(mid, p))
    }
}

/// The stub row created the first time a participant is referenced: only
/// the identity fields, the text form derived from the numeric id.
pub open spec fn stub_player_row(acc: i64) -> PlayerRowV {
    PlayerRowV {
        account_id: acc,
        steamid64: dec_str((STEAMID64_MIN + (acc as u32)) as nat),
        personaname: None,
        profileurl: None,
        avatar: None,
        avatarmedium: None,
        avatarfull: None,
        countrycode: None,
        realname: None,
        profile_extra: Map::empty(),
        profile_updated_at: None,
    }
}

/// Insert a participant stub if the participant is absent; never overwrite.
pub open spec fn ensure_stub_spec(ps: Seq<PlayerRowV>, acc: i64) -> Seq<PlayerRowV> {
    let i = find_idx(ps, player_key(acc));
    if i >= 0 {
        ps
    } else {
        ps.push(stub_player_row(acc))
    }
}

/// The greater of two optional timestamps, ignoring absent values.
pub open spec fn greatest_opt(a: Option<i64>, b: Option<i64>) -> Option<i64> {
    match (a, b) {
        (Some(x), Some(y)) => if x >= y {
            Some(x)
        } else {
            Some(y)
        },
        (Some(x), None) => Some(x),
        (None, Some(y)) => Some(y),
        (None, None) => None,
    }
}

/// Full profile ingestion: overwrite the profile scalars, keep the union of
/// payload keys, and never move the profile timestamp backward.
pub open spec fn merge_player_row(
    r: PlayerRowV,
    sid: Seq<char>,
    prof: SteamProfileV,
    updated_at: Option<i64>,
) -> PlayerRowV {
    PlayerRowV {
        account_id: r.account_id,
        steamid64: sid,
        personaname: Some(prof.personaname),
        profileurl: Some(prof.profileurl),
        avatar: Some(prof.avatar),
        avatarmedium: Some(prof.avatarmedium),
        avatarfull: Some(prof.avatarfull),
        countrycode: prof.countrycode,
        realname: prof.realname,
        profile_extra: r.profile_extra.union_prefer_right(Map::empty()),
        profile_updated_at: greatest_opt(r.profile_updated_at, updated_at),
    }
}

/// The row a first-seen full profile inserts.
pub open spec fn new_player_row(
    acc: i64,
    sid: Seq<char>,
    prof: SteamProfileV,
    updated_at: Option<i64>,
) -> PlayerRowV {
    PlayerRowV {
        account_id: acc,
        steamid64: sid,
        personaname: Some(prof.personaname),
        profileurl: Some(prof.profileurl),
        avatar: Some(prof.avatar),
        avatarmedium: Some(prof.avatarmedium),
        avatarfull: Some(prof.avatarfull),
        countrycode: prof.countrycode,
        realname: prof.realname,
        profile_extra: Map::empty(),
        profile_updated_at: updated_at,
    }
}

/// The profile timestamp a profile payload carries, if its text parses.
pub open spec fn profile_updated_at(prof: SteamProfileV) -> Option<i64> {
    match prof.last_updated {
        Some(s) => match parse_i64_spec(s) {
            Some(v) => Some(clamp_ts(v)),
            None => None,
        },
        None => None,
    }
}

/// Upsert one full profile row.
pub open spec fn upsert_player_spec(
    ps: Seq<PlayerRowV>,
    acc: i64,
    sid: Seq<char>,
    prof: SteamProfileV,
) -> Seq<PlayerRowV> {
    let updated_at = profile_updated_at(prof);
    let i = find_idx(ps, player_key(acc));
    if i >= 0 {
        ps.update(i, merge_player_row(ps[i], sid, prof, updated_at))
    } else {
        ps.push(new_player_row(acc, sid, prof, updated_at))
    }
}

/// The current-score row a score observation denotes.
pub open spec fn mmr_row_of(acc: i64, m: MMRHistory, extra: Map<Seq<char>, Seq<char>>) -> MmrRowV {
    MmrRowV {
        account_id: acc,
        match_id: m.match_id,
        start_time: clamp_ts(m.start_time as i64),
        player_score: m.player_score,
        rank: m.rank,
        division: m.division,
        division_tier: m.division_tier,
        extra,
    }
}

/// Upsert the current score snapshot: full overwrite, payload keys kept.
pub open spec fn upsert_latest_mmr_spec(rows: Seq<MmrRowV>, acc: i64, m: MMRHistory) -> Seq<
    MmrRowV,
> {
    let i = find_idx(rows, mmr_key(acc));
    if i >= 0 {
        rows.update(i, mmr_row_of(acc, m, rows[i].extra.union_prefer_right(Map::empty())))
    } else {
        rows.push(mmr_row_of(acc, m, Map::empty()))
    }
}

/// Append one score history row; a duplicate key is a silent no-op.
pub open spec fn insert_mmr_history_spec(rows: Seq<MmrHistoryRowV>, acc: i64, m: MMRHistory) -> Seq<
    MmrHistoryRowV,
> {
    let ts = clamp_ts(m.start_time as i64);
    let i = find_idx(rows, mmr_history_key(acc, ts));
    if i >= 0 {
        rows
    } else {
        rows.push(
            MmrHistoryRowV {
                account_id: acc,
                start_time: ts,
                match_id: m.match_id,
                player_score: m.player_score,
                rank: m.rank,
                division: m.division,
                division_tier: m.division_tier,
                extra: Map::empty(),
            },
        )
    }
}

/// The current per-category row a statistics record denotes. Wide counters
/// are narrowed exactly as the store's columns hold them.
pub open spec fn hero_row_of(acc: i64, h: HeroStats, extra: Map<Seq<char>, Seq<char>>) -> HeroRowV {
    HeroRowV {
        account_id: acc,
        hero_id: h.hero_id,
        matches_played: match h.matches_played {
            Some(v) => Some(v as i32),
            None => None,
        },
        wins: match h.wins {
            Some(v) => Some(v as i32),
            None => None,
        },
        last_played: match h.last_played {
            Some(v) => Some(clamp_ts(v)),
            None => None,
        },
        time_played: match h.time_played {
            Some(v) => Some(v as i32),
            None => None,
        },
        ending_level: h.ending_level,
        kills: match h.kills {
            Some(v) => Some(v as i32),
            None => None,
        },
        deaths: match h.deaths {
            Some(v) => Some(v as i32),
            None => None,
        },
        assists: match h.assists {
            Some(v) => Some(v as i32),
            None => None,
        },
        kills_per_min: h.kills_per_min,
        deaths_per_min: h.deaths_per_min,
        assists_per_min: h.assists_per_min,
        networth_per_min: h.networth_per_min,
        last_hits_per_min: h.last_hits_per_min,
        damage_per_min: h.damage_per_min,
        damage_taken_per_min: h.damage_taken_per_min,
        obj_damage_per_min: h.obj_damage_per_min,
        accuracy: h.accuracy,
        crit_shot_rate: h.crit_shot_rate,
        extra,
    }
}

/// Upsert the current per-category snapshot: full overwrite, payload keys
/// kept.
pub open spec fn upsert_hero_current_spec(rows: Seq<HeroRowV>, acc: i64, h: HeroStats) -> Seq<
    HeroRowV,
> {
    let i = find_idx(rows, hero_key(acc, h.hero_id));
    if i >= 0 {
        rows.update(i, hero_row_of(acc, h, rows[i].extra.union_prefer_right(Map::empty())))
    } else {
        rows.push(hero_row_of(acc, h, Map::empty()))
    }
}

/// Append one per-category history snapshot when the record carries its
/// timestamp; a duplicate key is a silent no-op.
pub open spec fn insert_hero_snapshot_spec(rows: Seq<HeroSnapRow>, acc: i64, h: HeroStats) -> Seq<
    HeroSnapRow,
> {
    match h.last_played {
        Some(lp) => {
            let ts = clamp_ts(lp);
            let i = find_idx(rows, hero_snap_key(acc, h.hero_id, ts));
            if i >= 0 {
                rows
            } else {
                rows.push(
                    HeroSnapRow { account_id: acc, hero_id: h.hero_id, last_played: ts, snapshot: h },
                )
            }
        },
        None => rows,
    }
}

impl Store {
    /// Every stored free-form payload keeps its keys unique.
    pub open spec fn blobs_wf(self) -> bool {
        &&& forall|i: int|
            0 <= i < self.matches@.len() ==> (#[trigger] self.matches@[i]).info.wf()
        &&& forall|i: int|
            0 <= i < self.match_players@.len() ==> (#[trigger] self.match_players@[i]).extra.wf()
        &&& forall|i: int|
            0 <= i < self.players@.len() ==> (#[trigger] self.players@[i]).profile_extra.wf()
        &&& forall|i: int|
            0 <= i < self.latest_mmr@.len() ==> (#[trigger] self.latest_mmr@[i]).extra.wf()
        &&& forall|i: int|
            0 <= i < self.mmr_history@.len() ==> (#[trigger] self.mmr_history@[i]).extra.wf()
        &&& forall|i: int|
            0 <= i < self.hero_current@.len() ==> (#[trigger] self.hero_current@[i]).extra.wf()
    }

    /// Well-formedness: unique keys in every table, unique keys in every
    /// stored payload.
    pub open spec fn inv(self) -> bool {
        self.blobs_wf() && self@.wf()
    }

    /// An empty store.
    pub fn new() -> (r: Store)
        ensures
            r.inv(),
            r@.matches.len() == 0,
            r@.match_players.len() == 0,
            r@.players.len() == 0,
            r@.latest_mmr.len() == 0,
            r@.mmr_history.len() == 0,
            r@.hero_current.len() == 0,
            r@.hero_history.len() == 0,
    {
        Store {
            matches: Vec::new(),
            match_players: Vec::new(),
            players: Vec::new(),
            latest_mmr: Vec::new(),
            mmr_history: Vec::new(),
            hero_current: Vec::new(),
            hero_history: Vec::new(),
        }
    }

    fn find_match(&self, id: i64) -> (r: Option<usize>)
        ensures
            r matches Some(i) ==> 0 <= i < self@.matches.len() && find_idx(
                self@.matches,
                match_key(id),
            ) == i,
            r is None ==> find_idx(self@.matches, match_key(id)) == -1,
    {
        let ghost s = self@.matches;
        let ghost p = match_key(id);
        proof {
            lemma_find_idx(s, p);
        }
        let n = self.matches.len();
        let mut k: usize = 0;
        #[verifier::loop_isolation(false)]
        while k < n
            invariant
                0 <= k <= n,
                forall|j: int| 0 <= j < k ==> !p(#[trigger] s[j]),
            decreases n - k,
        {
            if self.matches[k].match_id == id {
                proof {
                    assert(p(s[k as int]));
                    let fi = find_idx(s, p);
                    if fi < k {
                        assert(!p(s[fi]));
                    }
                }
                return Some(k);
            }
            proof {
                assert(!p(s[k as int]));
            }
            k += 1;
        }
        proof {
            let fi = find_idx(s, p);
            if fi != -1 {
                assert(!p(s[fi]));
            }
        }
        None
    }

    /// Upsert one record's metadata row: null-coalescing scalars, payload
    /// keys merged by shallow union.
    pub fn upsert_match(&mut self, m: &MatchMeta)
        requires
            old(self).inv(),
            m.wf(),
        ensures
            final(self).inv(),
            final(self)@ == (StoreV {
                matches: upsert_match_spec(old(self)@.matches, m@),
                ..old(self)@
            }),
    {
        let idx = self.find_match(m.match_id);
        let empty = Blob::new();
        match idx {
            Some(i) => {
                let row = &self.matches[i];
                let new_info = match &m.info {
                    Some(b) => blob_union(&row.info, b),
                    None => blob_union(&row.info, &empty),
                };
                let merged = MatchRow {
                    match_id: row.match_id,
                    start_time: match m.start_time {
                        Some(s) => Some(ts_from_epoch_secs(s)),
                        None => row.start_time,
                    },
                    duration_s: match m.duration_s {
                        Some(d) => Some(d),
                        None => row.duration_s,
                    },
                    winner_team: match &m.winner_team {
                        Some(w) => Some(w.clone()),
                        None => row.winner_team.clone(),
                    },
                    average_badge: match m.average_badge {
                        Some(a) => Some(a),
                        None => row.average_badge,
                    },
                    region: match &m.region {
                        Some(x) => Some(x.clone()),
                        None => row.region.clone(),
                    },
                    patch_version: match &m.patch_version {
                        Some(x) => Some(x.clone()),
                        None => row.patch_version.clone(),
                    },
                    info: new_info,
                };
                proof {
                    assert(merged@ =~= merge_match_row(old(self)@.matches[i as int], m@));
                }
                self.matches.set(i, merged);
                proof {
                    assert(self@.matches =~= old(self)@.matches.update(
                        i as int,
                        merge_match_row(old(self)@.matches[i as int], m@),
                    ));
                    assert(self@ =~= (StoreV {
                        matches: upsert_match_spec(old(self)@.matches, m@),
                        ..old(self)@
                    }));
                }
            },
            None => {
                let new_info = match &m.info {
                    Some(b) => b.clone(),
                    None => Blob::new(),
                };
                let row = MatchRow {
                    match_id: m.match_id,
                    start_time: match m.start_time {
                        Some(s) => Some(ts_from_epoch_secs(s)),
                        None => None,
                    },
                    duration_s: m.duration_s,
                    winner_team: m.winner_team.clone(),
                    average_badge: m.average_badge,
                    region: m.region.clone(),
                    patch_version: m.patch_version.clone(),
                    info: new_info,
                };
                proof {
                    assert(row@ =~= new_match_row(m@));
                }
                self.matches.push(row);
                proof {
                    assert(self@.matches =~= old(self)@.matches.push(new_match_row(m@)));
                    assert(self@ =~= (StoreV {
                        matches: upsert_match_spec(old(self)@.matches, m@),
                        ..old(self)@
                    }));
                }
            },
        }
        proof {
            lemma_find_idx(old(self)@.matches, match_key(m.match_id));
            let n = self@.matches.len() as int;
            assert forall|a: int, b: int| 0 <= a < b < n implies (
            #[trigger] self@.matches[a]).match_id != (#[trigger] self@.matches[b]).match_id by {
                if b < old(self)@.matches.len() {
                    assert(old(self)@.matches[a].match_id != old(self)@.matches[b].match_id);
                } else {
                    assert(!match_key(m.match_id)(old(self)@.matches[a]));
                }
            }
            assert forall|j: int| 0 <= j < self.matches@.len() implies (
            #[trigger] self.matches@[j]).info.wf() by {
                if j < old(self).matches@.len() && self.matches@[j] == old(self).matches@[j] {
                    assert(old(self).matches@[j].info.wf());
                }
            }
        }
    }

    /// Upsert one sub-record row: full scalar overwrite, payload keys merged
    /// by shallow union.
    pub fn upsert_match_player(&mut self, mid: i64, p: &PlayerInMatch)
        requires
            old(self).inv(),
            p.wf(),
        ensures
            final(self).inv(),
            final(self)@ == (StoreV {
                match_players: upsert_match_player_spec(old(self)@.match_players, mid, p@),
                ..old(self)@
            }),
    {
        let idx = self.find_match_player(mid, p.account_id as i64);
        let empty = Blob::new();
        match idx {
            Some(i) => {
                let row = &self.match_players[i];
                let new_extra = match &p.extra {
                    Some(b) => blob_union(&row.extra, b),
                    None => blob_union(&row.extra, &empty),
                };
                let merged = MatchPlayerRow {
                    match_id: mid,
                    account_id: p.account_id as i64,
                    hero_id: p.hero_id,
                    team: p.team.clone(),
                    party_id: p.party_id,
                    lane: p.lane.clone(),
                    is_victory: p.is_victory,
                    kills: p.kills,
                    deaths: p.deaths,
                    assists: p.assists,
                    networth: p.networth,
                    damage: p.damage,
                    damage_taken: p.damage_taken,
                    obj_damage: p.obj_damage,
                    last_hits: p.last_hits,
                    accuracy: p.accuracy,
                    crit_shot_rate: p.crit_shot_rate,
                    extra: new_extra,
                };
                proof {
                    assert(merged@ =~= merge_match_player_row(
                        old(self)@.match_players[i as int],
                        mid,
                        p@,
                    ));
                }
                self.match_players.set(i, merged);
                proof {
                    assert(self@.match_players =~= old(self)@.match_players.update(
                        i as int,
                        merge_match_player_row(old(self)@.match_players[i as int], mid, p@),
                    ));
                    assert(self@ =~= (StoreV {
                        match_players: upsert_match_player_spec(old(self)@.match_players, mid, p@),
                        ..old(self)@
                    }));
                }
            },
            None => {
                let new_extra = match &p.extra {
                    Some(b) => b.clone(),
                    None => Blob::new(),
                };
                let row = MatchPlayerRow {
                    match_id: mid,
                    account_id: p.account_id as i64,
                    hero_id: p.hero_id,
                    team: p.team.clone(),
                    party_id: p.party_id,
                    lane: p.lane.clone(),
                    is_victory: p.is_victory,
                    kills: p.kills,
                    deaths: p.deaths,
                    assists: p.assists,
                    networth: p.networth,
                    damage: p.damage,
                    damage_taken: p.damage_taken,
                    obj_damage: p.obj_damage,
                    last_hits: p.last_hits,
                    accuracy: p.accuracy,
                    crit_shot_rate: p.crit_shot_rate,
                    extra: new_extra,
                };
                proof {
                    assert(row@ =~= new_match_player_row(mid, p@));
                }
                self.match_players.push(row);
                proof {
                    assert(self@.match_players =~= old(self)@.match_players.push(
                        new_match_player_row(mid, p@),
                    ));
                    assert(self@ =~= (StoreV {
                        match_players: upsert_match_player_spec(old(self)@.match_players, mid, p@),
                        ..old(self)@
                    }));
                }
            },
        }
        proof {
            lemma_find_idx(old(self)@.match_players, match_player_key(mid, p.account_id as i64));
            let n = self@.match_players.len() as int;
            assert forall|a: int, b: int| 0 <= a < b < n implies !((
            #[trigger] self@.match_players[a]).match_id == (
            #[trigger] self@.match_players[b]).match_id && self@.match_players[a].account_id
                == self@.match_players[b].account_id) by {
                if b < old(self)@.match_players.len() {
                    assert(!(old(self)@.match_players[a].match_id
                        == old(self)@.match_players[b].match_id
                        && old(self)@.match_players[a].account_id
                        == old(self)@.match_players[b].account_id));
                } else {
                    assert(!match_player_key(mid, p.account_id as i64)(
                        old(self)@.match_players[a],
                    ));
                }
            }
            assert forall|j: int| 0 <= j < self.match_players@.len() implies (
            #[trigger] self.match_players@[j]).extra.wf() by {
                if j < old(self).match_players@.len() && self.match_players@[j] == old(
                    self,
                ).match_players@[j] {
                    assert(old(self).match_players@[j].extra.wf());
                }
            }
        }
    }

    /// Create the participant stub the first time a participant is
    /// referenced; an existing row is never touched.
    pub fn ensure_player_stub(&mut self, account_id: i64)
        requires
            old(self).inv(),
        ensures
            final(self).inv(),
            final(self)@ == (StoreV {
                players: ensure_stub_spec(old(self)@.players, account_id),
                ..old(self)@
            }),
    {
        let idx = self.find_player(account_id);
        match idx {
            Some(_) => {
                proof {
                    assert(self@ =~= (StoreV {
                        players: ensure_stub_spec(old(self)@.players, account_id),
                        ..old(self)@
                    }));
                }
            },
            None => {
                let sid = account_id_to_steamid64(#[verifier::truncate] (account_id as u32));
                let row = PlayerRow {
                    account_id,
                    steamid64: sid,
                    personaname: None,
                    profileurl: None,
                    avatar: None,
                    avatarmedium: None,
                    avatarfull: None,
                    countrycode: None,
                    realname: None,
                    profile_extra: Blob::new(),
                    profile_updated_at: None,
                };
                proof {
                    assert(row@ =~= stub_player_row(account_id));
                }
                self.players.push(row);
                proof {
                    assert(self@.players =~= old(self)@.players.push(stub_player_row(account_id)));
                    assert(self@ =~= (StoreV {
                        players: ensure_stub_spec(old(self)@.players, account_id),
                        ..old(self)@
                    }));
                    lemma_find_idx(old(self)@.players, player_key(account_id));
            let n = self@.players.len() as int;
                    assert forall|a: int, b: int| 0 <= a < b < n implies (
                    #[trigger] self@.players[a]).account_id != (
                    #[trigger] self@.players[b]).account_id by {
                        if b < old(self)@.players.len() {
                            assert(old(self)@.players[a].account_id
                                != old(self)@.players[b].account_id);
                        } else {
                            assert(!player_key(account_id)(old(self)@.players[a]));
                        }
                    }
                    assert forall|j: int| 0 <= j < self.players@.len() implies (
                    #[trigger] self.players@[j]).profile_extra.wf() by {
                        if j < old(self).players@.len() {
                            assert(old(self).players@[j].profile_extra.wf());
                        }
                    }
                }
            },
        }
    }

    /// Upsert one full profile row: scalar overwrite, payload keys kept,
    /// the profile timestamp never moved backward.
    pub fn upsert_player(&mut self, account_id: i64, steamid64: &str, profile: &SteamProfile)
        requires
            old(self).inv(),
        ensures
            final(self).inv(),
            final(self)@ == (StoreV {
                players: upsert_player_spec(old(self)@.players, account_id, steamid64@, profile@),
                ..old(self)@
            }),
    {
        let updated_at: Option<i64> = match &profile.last_updated {
            Some(s) => match parse_i64(s.as_str()) {
                Some(v) => Some(ts_from_epoch_secs(v)),
                None => None,
            },
            None => None,
        };
        proof {
            assert(updated_at == profile_updated_at(profile@));
        }
        let empty = Blob::new();
        let idx = self.find_player(account_id);
        match idx {
            Some(i) => {
                let row = &self.players[i];
                let new_extra = blob_union(&row.profile_extra, &empty);
                let new_updated = match (row.profile_updated_at, updated_at) {
                    (Some(x), Some(y)) => if x >= y {
                        Some(x)
                    } else {
                        Some(y)
                    },
                    (Some(x), None) => Some(x),
                    (None, Some(y)) => Some(y),
                    (None, None) => None,
                };
                let merged = PlayerRow {
                    account_id: row.account_id,
                    steamid64: steamid64.to_owned(),
                    personaname: Some(profile.personaname.clone()),
                    profileurl: Some(profile.profileurl.clone()),
                    avatar: Some(profile.avatar.clone()),
                    avatarmedium: Some(profile.avatarmedium.clone()),
                    avatarfull: Some(profile.avatarfull.clone()),
                    countrycode: profile.countrycode.clone(),
                    realname: profile.realname.clone(),
                    profile_extra: new_extra,
                    profile_updated_at: new_updated,
                };
                proof {
                    assert(merged@ =~= merge_player_row(
                        old(self)@.players[i as int],
                        steamid64@,
                        profile@,
                        profile_updated_at(profile@),
                    ));
                }
                self.players.set(i, merged);
                proof {
                    assert(self@.players =~= old(self)@.players.update(
                        i as int,
                        merge_player_row(
                            old(self)@.players[i as int],
                            steamid64@,
                            profile@,
                            profile_updated_at(profile@),
                        ),
                    ));
                    assert(self@ =~= (StoreV {
                        players: upsert_player_spec(
                            old(self)@.players,
                            account_id,
                            steamid64@,
                            profile@,
                        ),
                        ..old(self)@
                    }));
                }
            },
            None => {
                let row = PlayerRow {
                    account_id,
                    steamid64: steamid64.to_owned(),
                    personaname: Some(profile.personaname.clone()),
                    profileurl: Some(profile.profileurl.clone()),
                    avatar: Some(profile.avatar.clone()),
                    avatarmedium: Some(profile.avatarmedium.clone()),
                    avatarfull: Some(profile.avatarfull.clone()),
                    countrycode: profile.countrycode.clone(),
                    realname: profile.realname.clone(),
                    profile_extra: Blob::new(),
                    profile_updated_at: updated_at,
                };
                proof {
                    assert(row@ =~= new_player_row(
                        account_id,
                        steamid64@,
                        profile@,
                        profile_updated_at(profile@),
                    ));
                }
                self.players.push(row);
                proof {
                    assert(self@.players =~= old(self)@.players.push(
                        new_player_row(
                            account_id,
                            steamid64@,
                            profile@,
                            profile_updated_at(profile@),
                        ),
                    ));
                    assert(self@ =~= (StoreV {
                        players: upsert_player_spec(
                            old(self)@.players,
                            account_id,
                            steamid64@,
                            profile@,
                        ),
                        ..old(self)@
                    }));
                }
            },
        }
        proof {
            lemma_find_idx(old(self)@.players, player_key(account_id));
            let n = self@.players.len() as int;
            assert forall|a: int, b: int| 0 <= a < b < n implies (
            #[trigger] self@.players[a]).account_id != (#[trigger] self@.players[b]).account_id by {
                if b < old(self)@.players.len() {
                    assert(old(self)@.players[a].account_id != old(self)@.players[b].account_id);
                } else {
                    assert(!player_key(account_id)(old(self)@.players[a]));
                }
            }
            assert forall|j: int| 0 <= j < self.players@.len() implies (
            #[trigger] self.players@[j]).profile_extra.wf() by {
                if j < old(self).players@.len() && self.players@[j] == old(self).players@[j] {
                    assert(old(self).players@[j].profile_extra.wf());
                }
            }
        }
    }

    /// Overwrite the current score snapshot for a participant.
    pub fn upsert_latest_mmr(&mut self, account_id: i64, m: &MMRHistory)
        requires
            old(self).inv(),
        ensures
            final(self).inv(),
            final(self)@ == (StoreV {
                latest_mmr: upsert_latest_mmr_spec(old(self)@.latest_mmr, account_id, *m),
                ..old(self)@
            }),
    {
        let empty = Blob::new();
        let idx = self.find_latest_mmr(account_id);
        match idx {
            Some(i) => {
                let row = &self.latest_mmr[i];
                let new_extra = blob_union(&row.extra, &empty);
                let merged = MmrRow {
                    account_id,
                    match_id: m.match_id,
                    start_time: ts_from_epoch_secs(m.start_time as i64),
                    player_score: m.player_score,
                    rank: m.rank,
                    division: m.division,
                    division_tier: m.division_tier,
                    extra: new_extra,
                };
                proof {
                    assert(merged@ =~= mmr_row_of(
                        account_id,
                        *m,
                        old(self)@.latest_mmr[i as int].extra.union_prefer_right(Map::empty()),
                    ));
                }
                self.latest_mmr.set(i, merged);
                proof {
                    assert(self@.latest_mmr =~= upsert_latest_mmr_spec(
                        old(self)@.latest_mmr,
                        account_id,
                        *m,
                    ));
                    assert(self@ =~= (StoreV {
                        latest_mmr: upsert_latest_mmr_spec(old(self)@.latest_mmr, account_id, *m),
                        ..old(self)@
                    }));
                }
            },
            None => {
                let row = MmrRow {
                    account_id,
                    match_id: m.match_id,
                    start_time: ts_from_epoch_secs(m.start_time as i64),
                    player_score: m.player_score,
                    rank: m.rank,
                    division: m.division,
                    division_tier: m.division_tier,
                    extra: Blob::new(),
                };
                proof {
                    assert(row@ =~= mmr_row_of(account_id, *m, Map::empty()));
                }
                self.latest_mmr.push(row);
                proof {
                    assert(self@.latest_mmr =~= upsert_latest_mmr_spec(
                        old(self)@.latest_mmr,
                        account_id,
                        *m,
                    ));
                    assert(self@ =~= (StoreV {
                        latest_mmr: upsert_latest_mmr_spec(old(self)@.latest_mmr, account_id, *m),
                        ..old(self)@
                    }));
                }
            },
        }
        proof {
            lemma_find_idx(old(self)@.latest_mmr, mmr_key(account_id));
            let n = self@.latest_mmr.len() as int;
            assert forall|a: int, b: int| 0 <= a < b < n implies (
            #[trigger] self@.latest_mmr[a]).account_id != (
            #[trigger] self@.latest_mmr[b]).account_id by {
                if b < old(self)@.latest_mmr.len() {
                    assert(old(self)@.latest_mmr[a].account_id
                        != old(self)@.latest_mmr[b].account_id);
                } else {
                    assert(!mmr_key(account_id)(old(self)@.latest_mmr[a]));
                }
            }
            assert forall|j: int| 0 <= j < self.latest_mmr@.len() implies (
            #[trigger] self.latest_mmr@[j]).extra.wf() by {
                if j < old(self).latest_mmr@.len() && self.latest_mmr@[j] == old(
                    self,
                ).latest_mmr@[j] {
                    assert(old(self).latest_mmr@[j].extra.wf());
                }
            }
        }
    }

    /// Append one score history row; a duplicate key leaves the store
    /// unchanged.
    pub fn insert_mmr_history(&mut self, account_id: i64, m: &MMRHistory)
        requires
            old(self).inv(),
        ensures
            final(self).inv(),
            final(self)@ == (StoreV {
                mmr_history: insert_mmr_history_spec(old(self)@.mmr_history, account_id, *m),
                ..old(self)@
            }),
    {
        let ts = ts_from_epoch_secs(m.start_time as i64);
        let idx = self.find_mmr_history(account_id, ts);
        match idx {
            Some(_) => {
                proof {
                    assert(self@ =~= (StoreV {
                        mmr_history: insert_mmr_history_spec(
                            old(self)@.mmr_history,
                            account_id,
                            *m,
                        ),
                        ..old(self)@
                    }));
                }
            },
            None => {
                let row = MmrHistoryRow {
                    account_id,
                    start_time: ts,
                    match_id: m.match_id,
                    player_score: m.player_score,
                    rank: m.rank,
                    division: m.division,
                    division_tier: m.division_tier,
                    extra: Blob::new(),
                };
                self.mmr_history.push(row);
                proof {
                    assert(self@.mmr_history =~= insert_mmr_history_spec(
                        old(self)@.mmr_history,
                        account_id,
                        *m,
                    ));
                    assert(self@ =~= (StoreV {
                        mmr_history: insert_mmr_history_spec(
                            old(self)@.mmr_history,
                            account_id,
                            *m,
                        ),
                        ..old(self)@
                    }));
                    lemma_find_idx(old(self)@.mmr_history, mmr_history_key(account_id, ts));
                    let n = self@.mmr_history.len() as int;
                    assert forall|a: int, b: int| 0 <= a < b < n implies !((
                    #[trigger] self@.mmr_history[a]).account_id == (
                    #[trigger] self@.mmr_history[b]).account_id
                        && self@.mmr_history[a].start_time == self@.mmr_history[b].start_time) by {
                        if b < old(self)@.mmr_history.len() {
                            assert(!(old(self)@.mmr_history[a].account_id
                                == old(self)@.mmr_history[b].account_id
                                && old(self)@.mmr_history[a].start_time
                                == old(self)@.mmr_history[b].start_time));
                        } else {
                            assert(!mmr_history_key(account_id, ts)(old(self)@.mmr_history[a]));
                        }
                    }
                    assert forall|j: int| 0 <= j < self.mmr_history@.len() implies (
                    #[trigger] self.mmr_history@[j]).extra.wf() by {
                        if j < old(self).mmr_history@.len() {
                            assert(old(self).mmr_history@[j].extra.wf());
                        }
                    }
                }
            },
        }
    }

    /// Overwrite the current per-category statistics snapshot.
    pub fn upsert_hero_current(&mut self, account_id: i64, h: &HeroStats)
        requires
            old(self).inv(),
        ensures
            final(self).inv(),
            final(self)@ == (StoreV {
                hero_current: upsert_hero_current_spec(old(self)@.hero_current, account_id, *h),
                ..old(self)@
            }),
    {
        let empty = Blob::new();
        let idx = self.find_hero_current(account_id, h.hero_id);
        let last_played = match h.last_played {
            Some(v) => Some(ts_from_epoch_secs(v)),
            None => None,
        };
        match idx {
            Some(i) => {
                let row = &self.hero_current[i];
                let new_extra = blob_union(&row.extra, &empty);
                let merged = HeroRow {
                    account_id,
                    hero_id: h.hero_id,
                    matches_played: match h.matches_played {
                        Some(v) => Some(#[verifier::truncate] (v as i32)),
                        None => None,
                    },
                    wins: match h.wins {
                        Some(v) => Some(#[verifier::truncate] (v as i32)),
                        None => None,
                    },
                    last_played,
                    time_played: match h.time_played {
                        Some(v) => Some(#[verifier::truncate] (v as i32)),
                        None => None,
                    },
                    ending_level: h.ending_level,
                    kills: match h.kills {
                        Some(v) => Some(#[verifier::truncate] (v as i32)),
                        None => None,
                    },
                    deaths: match h.deaths {
                        Some(v) => Some(#[verifier::truncate] (v as i32)),
                        None => None,
                    },
                    assists: match h.assists {
                        Some(v) => Some(#[verifier::truncate] (v as i32)),
                        None => None,
                    },
                    kills_per_min: h.kills_per_min,
                    deaths_per_min: h.deaths_per_min,
                    assists_per_min: h.assists_per_min,
                    networth_per_min: h.networth_per_min,
                    last_hits_per_min: h.last_hits_per_min,
                    damage_per_min: h.damage_per_min,
                    damage_taken_per_min: h.damage_taken_per_min,
                    obj_damage_per_min: h.obj_damage_per_min,
                    accuracy: h.accuracy,
                    crit_shot_rate: h.crit_shot_rate,
                    extra: new_extra,
                };
                proof {
                    assert(merged@ =~= hero_row_of(
                        account_id,
                        *h,
                        old(self)@.hero_current[i as int].extra.union_prefer_right(Map::empty()),
                    ));
                }
                self.hero_current.set(i, merged);
                proof {
                    assert(self@.hero_current =~= upsert_hero_current_spec(
                        old(self)@.hero_current,
                        account_id,
                        *h,
                    ));
                    assert(self@ =~= (StoreV {
                        hero_current: upsert_hero_current_spec(
                            old(self)@.hero_current,
                            account_id,
                            *h,
                        ),
                        ..old(self)@
                    }));
                }
            },
            None => {
                let row = HeroRow {
                    account_id,
                    hero_id: h.hero_id,
                    matches_played: match h.matches_played {
                        Some(v) => Some(#[verifier::truncate] (v as i32)),
                        None => None,
                    },
                    wins: match h.wins {
                        Some(v) => Some(#[verifier::truncate] (v as i32)),
                        None => None,
                    },
                    last_played,
                    time_played: match h.time_played {
                        Some(v) => Some(#[verifier::truncate] (v as i32)),
                        None => None,
                    },
                    ending_level: h.ending_level,
                    kills: match h.kills {
                        Some(v) => Some(#[verifier::truncate] (v as i32)),
                        None => None,
                    },
                    deaths: match h.deaths {
                        Some(v) => Some(#[verifier::truncate] (v as i32)),
                        None => None,
                    },
                    assists: match h.assists {
                        Some(v) => Some(#[verifier::truncate] (v as i32)),
                        None => None,
                    },
                    kills_per_min: h.kills_per_min,
                    deaths_per_min: h.deaths_per_min,
                    assists_per_min: h.assists_per_min,
                    networth_per_min: h.networth_per_min,
                    last_hits_per_min: h.last_hits_per_min,
                    damage_per_min: h.damage_per_min,
                    damage_taken_per_min: h.damage_taken_per_min,
                    obj_damage_per_min: h.obj_damage_per_min,
                    accuracy: h.accuracy,
                    crit_shot_rate: h.crit_shot_rate,
                    extra: Blob::new(),
                };
                proof {
                    assert(row@ =~= hero_row_of(account_id, *h, Map::empty()));
                }
                self.hero_current.push(row);
                proof {
                    assert(self@.hero_current =~= upsert_hero_current_spec(
                        old(self)@.hero_current,
                        account_id,
                        *h,
                    ));
                    assert(self@ =~= (StoreV {
                        hero_current: upsert_hero_current_spec(
                            old(self)@.hero_current,
                            account_id,
                            *h,
                        ),
                        ..old(self)@
                    }));
                }
            },
        }
        proof {
            lemma_find_idx(old(self)@.hero_current, hero_key(account_id, h.hero_id));
            let n = self@.hero_current.len() as int;
            assert forall|a: int, b: int| 0 <= a < b < n implies !((
            #[trigger] self@.hero_current[a]).account_id == (
            #[trigger] self@.hero_current[b]).account_id && self@.hero_current[a].hero_id
                == self@.hero_current[b].hero_id) by {
                if b < old(self)@.hero_current.len() {
                    assert(!(old(self)@.hero_current[a].account_id
                        == old(self)@.hero_current[b].account_id
                        && old(self)@.hero_current[a].hero_id
                        == old(self)@.hero_current[b].hero_id));
                } else {
                    assert(!hero_key(account_id, h.hero_id)(old(self)@.hero_current[a]));
                }
            }
            assert forall|j: int| 0 <= j < self.hero_current@.len() implies (
            #[trigger] self.hero_current@[j]).extra.wf() by {
                if j < old(self).hero_current@.len() && self.hero_current@[j] == old(
                    self,
                ).hero_current@[j] {
                    assert(old(self).hero_current@[j].extra.wf());
                }
            }
        }
    }

    /// Append one per-category snapshot when the record carries a
    /// timestamp; a duplicate key leaves the store unchanged.
    pub fn insert_hero_snapshot(&mut self, account_id: i64, h: &HeroStats)
        requires
            old(self).inv(),
        ensures
            final(self).inv(),
            final(self)@ == (StoreV {
                hero_history: insert_hero_snapshot_spec(old(self)@.hero_history, account_id, *h),
                ..old(self)@
            }),
    {
        let lp = match h.last_played {
            Some(v) => v,
            None => {
                proof {
                    assert(self@ =~= (StoreV {
                        hero_history: insert_hero_snapshot_spec(
                            old(self)@.hero_history,
                            account_id,
                            *h,
                        ),
                        ..old(self)@
                    }));
                }
                return ;
            },
        };
        let ts = ts_from_epoch_secs(lp);
        let idx = self.find_hero_snapshot(account_id, h.hero_id, ts);
        match idx {
            Some(_) => {
                proof {
                    assert(self@ =~= (StoreV {
                        hero_history: insert_hero_snapshot_spec(
                            old(self)@.hero_history,
                            account_id,
                            *h,
                        ),
                        ..old(self)@
                    }));
                }
            },
            None => {
                let row = HeroSnapRow {
                    account_id,
                    hero_id: h.hero_id,
                    last_played: ts,
                    snapshot: *h,
                };
                self.hero_history.push(row);
                proof {
                    assert(self@.hero_history =~= insert_hero_snapshot_spec(
                        old(self)@.hero_history,
                        account_id,
                        *h,
                    ));
                    assert(self@ =~= (StoreV {
                        hero_history: insert_hero_snapshot_spec(
                            old(self)@.hero_history,
                            account_id,
                            *h,
                        ),
                        ..old(self)@
                    }));
                    lemma_find_idx(old(self)@.hero_history, hero_snap_key(account_id, h.hero_id, ts));
                    let n = self@.hero_history.len() as int;
                    assert forall|a: int, b: int| 0 <= a < b < n implies !((
                    #[trigger] self@.hero_history[a]).account_id == (
                    #[trigger] self@.hero_history[b]).account_id && self@.hero_history[a].hero_id
                        == self@.hero_history[b].hero_id && self@.hero_history[a].last_played
                        == self@.hero_history[b].last_played) by {
                        if b < old(self)@.hero_history.len() {
                            assert(!(old(self)@.hero_history[a].account_id
                                == old(self)@.hero_history[b].account_id
                                && old(self)@.hero_history[a].hero_id
                                == old(self)@.hero_history[b].hero_id
                                && old(self)@.hero_history[a].last_played
                                == old(self)@.hero_history[b].last_played));
                        } else {
                            assert(!hero_snap_key(account_id, h.hero_id, ts)(
                                old(self)@.hero_history[a],
                            ));
                        }
                    }
                }
            },
        }
    }

    fn find_match_player(&self, mid: i64, acc: i64) -> (r: Option<usize>)
        ensures
            r matches Some(i) ==> 0 <= i < self@.match_players.len() && find_idx(
                self@.match_players,
                match_player_key(mid, acc),
            ) == i,
            r is None ==> find_idx(self@.match_players, match_player_key(mid, acc)) == -1,
    {
        let ghost s = self@.match_players;
        let ghost p = match_player_key(mid, acc);
        proof {
            lemma_find_idx(s, p);
        }
        let n = self.match_players.len();
        let mut k: usize = 0;
        #[verifier::loop_isolation(false)]
        while k < n
            invariant
                0 <= k <= n,
                forall|j: int| 0 <= j < k ==> !p(#[trigger] s[j]),
            decreases n - k,
        {
            let row = &self.match_players[k];
            if row.match_id == mid && row.account_id == acc {
                proof {
                    assert(p(s[k as int]));
                    let fi = find_idx(s, p);
                    if fi < k {
                        assert(!p(s[fi]));
                    }
                }
                return Some(k);
            }
            proof {
                assert(!p(s[k as int]));
            }
            k += 1;
        }
        proof {
            let fi = find_idx(s, p);
            if fi != -1 {
                assert(!p(s[fi]));
            }
        }
        None
    }

    fn find_player(&self, acc: i64) -> (r: Option<usize>)
        ensures
            r matches Some(i) ==> 0 <= i < self@.players.len() && find_idx(
                self@.players,
                player_key(acc),
            ) == i,
            r is None ==> find_idx(self@.players, player_key(acc)) == -1,
    {
        let ghost s = self@.players;
        let ghost p = player_key(acc);
        proof {
            lemma_find_idx(s, p);
        }
        let n = self.players.len();
        let mut k: usize = 0;
        #[verifier::loop_isolation(false)]
        while k < n
            invariant
                0 <= k <= n,
                forall|j: int| 0 <= j < k ==> !p(#[trigger] s[j]),
            decreases n - k,
        {
            if self.players[k].account_id == acc {
                proof {
                    assert(p(s[k as int]));
                    let fi = find_idx(s, p);
                    if fi < k {
                        assert(!p(s[fi]));
                    }
                }
                return Some(k);
            }
            proof {
                assert(!p(s[k as int]));
            }
            k += 1;
        }
        proof {
            let fi = find_idx(s, p);
            if fi != -1 {
                assert(!p(s[fi]));
            }
        }
        None
    }

    fn find_latest_mmr(&self, acc: i64) -> (r: Option<usize>)
        ensures
            r matches Some(i) ==> 0 <= i < self@.latest_mmr.len() && find_idx(
                self@.latest_mmr,
                mmr_key(acc),
            ) == i,
            r is None ==> find_idx(self@.latest_mmr, mmr_key(acc)) == -1,
    {
        let ghost s = self@.latest_mmr;
        let ghost p = mmr_key(acc);
        proof {
            lemma_find_idx(s, p);
        }
        let n = self.latest_mmr.len();
        let mut k: usize = 0;
        #[verifier::loop_isolation(false)]
        while k < n
            invariant
                0 <= k <= n,
                forall|j: int| 0 <= j < k ==> !p(#[trigger] s[j]),
            decreases n - k,
        {
            if self.latest_mmr[k].account_id == acc {
                proof {
                    assert(p(s[k as int]));
                    let fi = find_idx(s, p);
                    if fi < k {
                        assert(!p(s[fi]));
                    }
                }
                return Some(k);
            }
            proof {
                assert(!p(s[k as int]));
            }
            k += 1;
        }
        proof {
            let fi = find_idx(s, p);
            if fi != -1 {
                assert(!p(s[fi]));
            }
        }
        None
    }

    fn find_mmr_history(&self, acc: i64, ts: i64) -> (r: Option<usize>)
        ensures
            r matches Some(i) ==> 0 <= i < self@.mmr_history.len() && find_idx(
                self@.mmr_history,
                mmr_history_key(acc, ts),
            ) == i,
            r is None ==> find_idx(self@.mmr_history, mmr_history_key(acc, ts)) == -1,
    {
        let ghost s = self@.mmr_history;
        let ghost p = mmr_history_key(acc, ts);
        proof {
            lemma_find_idx(s, p);
        }
        let n = self.mmr_history.len();
        let mut k: usize = 0;
        #[verifier::loop_isolation(false)]
        while k < n
            invariant
                0 <= k <= n,
                forall|j: int| 0 <= j < k ==> !p(#[trigger] s[j]),
            decreases n - k,
        {
            let row = &self.mmr_history[k];
            if row.account_id == acc && row.start_time == ts {
                proof {
                    assert(p(s[k as int]));
                    let fi = find_idx(s, p);
                    if fi < k {
                        assert(!p(s[fi]));
                    }
                }
                return Some(k);
            }
            proof {
                assert(!p(s[k as int]));
            }
            k += 1;
        }
        proof {
            let fi = find_idx(s, p);
            if fi != -1 {
                assert(!p(s[fi]));
            }
        }
        None
    }

    fn find_hero_current(&self, acc: i64, hero: i32) -> (r: Option<usize>)
        ensures
            r matches Some(i) ==> 0 <= i < self@.hero_current.len() && find_idx(
                self@.hero_current,
                hero_key(acc, hero),
            ) == i,
            r is None ==> find_idx(self@.hero_current, hero_key(acc, hero)) == -1,
    {
        let ghost s = self@.hero_current;
        let ghost p = hero_key(acc, hero);
        proof {
            lemma_find_idx(s, p);
        }
        let n = self.hero_current.len();
        let mut k: usize = 0;
        #[verifier::loop_isolation(false)]
        while k < n
            invariant
                0 <= k <= n,
                forall|j: int| 0 <= j < k ==> !p(#[trigger] s[j]),
            decreases n - k,
        {
            let row = &self.hero_current[k];
            if row.account_id == acc && row.hero_id == hero {
                proof {
                    assert(p(s[k as int]));
                    let fi = find_idx(s, p);
                    if fi < k {
                        assert(!p(s[fi]));
                    }
                }
                return Some(k);
            }
            proof {
                assert(!p(s[k as int]));
            }
            k += 1;
        }
        proof {
            let fi = find_idx(s, p);
            if fi != -1 {
                assert(!p(s[fi]));
            }
        }
        None
    }

    fn find_hero_snapshot(&self, acc: i64, hero: i32, ts: i64) -> (r: Option<usize>)
        ensures
            r matches Some(i) ==> 0 <= i < self@.hero_history.len() && find_idx(
                self@.hero_history,
                hero_snap_key(acc, hero, ts),
            ) == i,
            r is None ==> find_idx(self@.hero_history, hero_snap_key(acc, hero, ts)) == -1,
    {
        let ghost s = self@.hero_history;
        let ghost p = hero_snap_key(acc, hero, ts);
        proof {
            lemma_find_idx(s, p);
        }
        let n = self.hero_history.len();
        let mut k: usize = 0;
        #[verifier::loop_isolation(false)]
        while k < n
            invariant
                0 <= k <= n,
                forall|j: int| 0 <= j < k ==> !p(#[trigger] s[j]),
            decreases n - k,
        {
            let row = &self.hero_history[k];
            if row.account_id == acc && row.hero_id == hero && row.last_played == ts {
                proof {
                    assert(p(s[k as int]));
                    let fi = find_idx(s, p);
                    if fi < k {
                        assert(!p(s[fi]));
                    }
                }
                return Some(k);
            }
            proof {
                assert(!p(s[k as int]));
            }
            k += 1;
        }
        proof {
            let fi = find_idx(s, p);
            if fi != -1 {
                assert(!p(s[fi]));
            }
        }
        None
    }
}

} // verus!
