//! Payload types fetched from the upstream telemetry API, and their
//! spec-level views.
//!
//! Fractional scalar statistics are carried as raw IEEE-754 bit patterns in
//! unsigned fields: the engine never computes on them, it only stores and
//! merges them, so an opaque bit-for-bit representation is exact.

use vstd::prelude::*;

use crate::blob::Blob;

verus! {

/// A player's public profile.
pub struct SteamProfile {
    pub account_id: i32,
    pub personaname: String,
    pub profileurl: String,
    pub avatar: String,
    pub avatarmedium: String,
    pub avatarfull: String,
    pub countrycode: Option<String>,
    pub realname: Option<String>,
    /// Epoch seconds in text form, when the upstream reports it.
    pub last_updated: Option<String>,
}

#[verifier::ext_equal]
pub struct SteamProfileV {
    pub account_id: i32,
    pub personaname: Seq<char>,
    pub profileurl: Seq<char>,
    pub avatar: Seq<char>,
    pub avatarmedium: Seq<char>,
    pub avatarfull: Seq<char>,
    pub countrycode: Option<Seq<char>>,
    pub realname: Option<Seq<char>>,
    pub last_updated: Option<Seq<char>>,
}

impl View for SteamProfile {
    type V = SteamProfileV;

    open spec fn view(&self) -> SteamProfileV {
        SteamProfileV {
            account_id: self.account_id,
            personaname: self.personaname@,
            profileurl: self.profileurl@,
            avatar: self.avatar@,
            avatarmedium: self.avatarmedium@,
            avatarfull: self.avatarfull@,
            countrycode: self.countrycode.deep_view(),
            realname: self.realname.deep_view(),
            last_updated: self.last_updated.deep_view(),
        }
    }
}

/// One score/rank observation, keyed by its match and start time.
#[derive(Clone, Copy)]
pub struct MMRHistory {
    pub account_id: i32,
    pub match_id: i64,
    pub start_time: i32,
    /// Bit pattern of the fractional score.
    pub player_score: u64,
    pub rank: i32,
    pub division: i32,
    pub division_tier: i32,
}

/// Per-category (hero) statistics for one player.
#[derive(Clone, Copy)]
pub struct HeroStats {
    pub account_id: i32,
    pub hero_id: i32,
    pub matches_played: Option<i64>,
    pub wins: Option<i64>,
    pub last_played: Option<i64>,
    pub time_played: Option<i64>,
    /// Bit patterns of fractional statistics.
    pub ending_level: Option<u64>,
    pub kills: Option<i64>,
    pub deaths: Option<i64>,
    pub assists: Option<i64>,
    pub kills_per_min: Option<u64>,
    pub deaths_per_min: Option<u64>,
    pub assists_per_min: Option<u64>,
    pub networth_per_min: Option<u64>,
    pub last_hits_per_min: Option<u64>,
    pub damage_per_min: Option<u64>,
    pub damage_taken_per_min: Option<u64>,
    pub obj_damage_per_min: Option<u64>,
    pub accuracy: Option<u64>,
    pub crit_shot_rate: Option<u64>,
}

/// One row of a player's match history listing.
#[derive(Clone, Copy)]
pub struct PlayerMatchHistoryEntry {
    pub account_id: i32,
    pub match_id: i64,
    pub hero_id: i32,
    pub hero_level: i32,
    pub start_time: i32,
    pub game_mode: i32,
    pub match_mode: i32,
    pub player_team: i32,
    pub player_kills: i32,
    pub player_deaths: i32,
    pub player_assists: i32,
    pub denies: i32,
    pub net_worth: i32,
    pub last_hits: i32,
    pub match_duration_s: i32,
    pub match_result: i32,
    pub objectives_mask_team0: i32,
    pub objectives_mask_team1: i32,
}

/// One player's line inside a match.
pub struct PlayerInMatch {
    pub account_id: i32,
    pub hero_id: Option<i32>,
    pub team: Option<String>,
    pub party_id: Option<i64>,
    pub lane: Option<String>,
    pub is_victory: Option<bool>,
    pub kills: Option<i32>,
    pub deaths: Option<i32>,
    pub assists: Option<i32>,
    pub networth: Option<i64>,
    pub damage: Option<i64>,
    pub damage_taken: Option<i64>,
    pub obj_damage: Option<i64>,
    pub last_hits: Option<i32>,
    /// Bit patterns of fractional statistics.
    pub accuracy: Option<u64>,
    pub crit_shot_rate: Option<u64>,
    pub extra: Option<Blob>,
}

#[verifier::ext_equal]
pub struct PlayerInMatchV {
    pub account_id: i32,
    pub hero_id: Option<i32>,
    pub team: Option<Seq<char>>,
    pub party_id: Option<i64>,
    pub lane: Option<Seq<char>>,
    pub is_victory: Option<bool>,
    pub kills: Option<i32>,
    pub deaths: Option<i32>,
    pub assists: Option<i32>,
    pub networth: Option<i64>,
    pub damage: Option<i64>,
    pub damage_taken: Option<i64>,
    pub obj_damage: Option<i64>,
    pub last_hits: Option<i32>,
    pub accuracy: Option<u64>,
    pub crit_shot_rate: Option<u64>,
    /// An absent payload reads as the empty map, as the store treats it.
    pub extra: Map<Seq<char>, Seq<char>>,
}

impl View for PlayerInMatch {
    type V = PlayerInMatchV;

    open spec fn view(&self) -> PlayerInMatchV {
        PlayerInMatchV {
            account_id: self.account_id,
            hero_id: self.hero_id,
            team: self.team.deep_view(),
            party_id: self.party_id,
            lane: self.lane.deep_view(),
            is_victory: self.is_victory,
            kills: self.kills,
            deaths: self.deaths,
            assists: self.assists,
            networth: self.networth,
            damage: self.damage,
            damage_taken: self.damage_taken,
            obj_damage: self.obj_damage,
            last_hits: self.last_hits,
            accuracy: self.accuracy,
            crit_shot_rate: self.crit_shot_rate,
            extra: match self.extra {
                Some(b) => b@,
                None => Map::empty(),
            },
        }
    }
}

impl PlayerInMatch {
    /// The optional payload, when present, keeps its keys unique.
    pub open spec fn wf(self) -> bool {
        self.extra matches Some(b) ==> b.wf()
    }
}

/// Metadata for one match, optionally carrying its player lines.
pub struct MatchMeta {
    pub match_id: i64,
    /// Epoch seconds.
    pub start_time: Option<i64>,
    pub duration_s: Option<i32>,
    pub winner_team: Option<String>,
    pub average_badge: Option<i32>,
    pub region: Option<String>,
    pub patch_version: Option<String>,
    pub info: Option<Blob>,
    pub players: Option<Vec<PlayerInMatch>>,
}

#[verifier::ext_equal]
pub struct MatchMetaV {
    pub match_id: i64,
    pub start_time: Option<i64>,
    pub duration_s: Option<i32>,
    pub winner_team: Option<Seq<char>>,
    pub average_badge: Option<i32>,
    pub region: Option<Seq<char>>,
    pub patch_version: Option<Seq<char>>,
    /// An absent payload reads as the empty map.
    pub info: Map<Seq<char>, Seq<char>>,
    /// An absent player list reads as no players.
    pub players: Seq<PlayerInMatchV>,
}

impl View for MatchMeta {
    type V = MatchMetaV;

    open spec fn view(&self) -> MatchMetaV {
        MatchMetaV {
            match_id: self.match_id,
            start_time: self.start_time,
            duration_s: self.duration_s,
            winner_team: self.winner_team.deep_view(),
            average_badge: self.average_badge,
            region: self.region.deep_view(),
            patch_version: self.patch_version.deep_view(),
            info: match self.info {
                Some(b) => b@,
                None => Map::empty(),
            },
            players: match self.players {
                Some(ps) => ps@.map_values(|p: PlayerInMatch| p@),
                None => Seq::empty(),
            },
        }
    }
}

impl MatchMeta {
    /// Every payload carried by the record or its players keeps its keys
    /// unique.
    pub open spec fn wf(self) -> bool {
        &&& (self.info matches Some(b) ==> b.wf())
        &&& (self.players matches Some(ps) ==> forall|i: int|
            0 <= i < ps@.len() ==> (#[trigger] ps@[i]).wf())
    }
}

/// Everything fetched for one player in one lookup.
pub struct CombinedPayload {
    pub steamid64: String,
    pub account_id: u32,
    pub profile: SteamProfile,
    pub latest_mmr: Option<MMRHistory>,
    pub hero_stats: Vec<HeroStats>,
}

#[verifier::ext_equal]
pub struct CombinedPayloadV {
    pub steamid64: Seq<char>,
    pub account_id: u32,
    pub profile: SteamProfileV,
    pub latest_mmr: Option<MMRHistory>,
    pub hero_stats: Seq<HeroStats>,
}

impl View for CombinedPayload {
    type V = CombinedPayloadV;

    open spec fn view(&self) -> CombinedPayloadV {
        CombinedPayloadV {
            steamid64: self.steamid64@,
            account_id: self.account_id,
            profile: self.profile@,
            latest_mmr: self.latest_mmr,
            hero_stats: self.hero_stats@,
        }
    }
}

} // verus!
