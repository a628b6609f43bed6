use deadlock_cli::blob::{Blob, BlobEntry};
use deadlock_cli::ingest::{ingest_matches_batch, ingest_player};
use deadlock_cli::models::{
    CombinedPayload, HeroStats, MMRHistory, MatchMeta, PlayerInMatch, SteamProfile,
};
use deadlock_cli::store::Store;

fn blob_of(pairs: &[(&str, &str)]) -> Blob {
    let mut b = Blob::new();
    for (k, v) in pairs {
        b.insert((*k).to_string(), (*v).to_string());
    }
    b
}

fn hero(hero_id: i32, last_played: Option<i64>) -> HeroStats {
    HeroStats {
        account_id: 388674065,
        hero_id,
        matches_played: Some(10),
        wins: Some(6),
        last_played,
        time_played: Some(1000),
        ending_level: Some((29.5f64).to_bits()),
        kills: Some(20),
        deaths: Some(15),
        assists: Some(25),
        kills_per_min: Some((0.2f64).to_bits()),
        deaths_per_min: Some((0.15f64).to_bits()),
        assists_per_min: Some((0.25f64).to_bits()),
        networth_per_min: Some((1000.0f64).to_bits()),
        last_hits_per_min: Some((4.0f64).to_bits()),
        damage_per_min: Some((700.0f64).to_bits()),
        damage_taken_per_min: Some((800.0f64).to_bits()),
        obj_damage_per_min: Some((100.0f64).to_bits()),
        accuracy: Some((0.5f64).to_bits()),
        crit_shot_rate: Some((0.1f64).to_bits()),
    }
}

fn payload() -> CombinedPayload {
    CombinedPayload {
        steamid64: "76561198348939793".to_string(),
        account_id: 388674065,
        profile: SteamProfile {
            account_id: 388674065,
            personaname: "tester".to_string(),
            profileurl: "https://steamcommunity.com/profiles/76561198348939793/".to_string(),
            avatar: String::new(),
            avatarmedium: String::new(),
            avatarfull: String::new(),
            countrycode: None,
            realname: None,
            last_updated: Some("1700000000".to_string()),
        },
        latest_mmr: Some(MMRHistory {
            account_id: 388674065,
            match_id: 123456,
            start_time: 1700000000,
            player_score: (42.0f64).to_bits(),
            rank: 40,
            division: 4,
            division_tier: 2,
        }),
        hero_stats: vec![hero(1, Some(1700000000))],
    }
}

fn meta(match_id: i64, players: Option<Vec<PlayerInMatch>>) -> MatchMeta {
    MatchMeta {
        match_id,
        start_time: Some(1_700_000_000),
        duration_s: Some(1200),
        winner_team: Some("team2".to_string()),
        average_badge: Some(35),
        region: Some("na".to_string()),
        patch_version: Some("1.2".to_string()),
        info: None,
        players,
    }
}

fn one_player() -> PlayerInMatch {
    PlayerInMatch {
        account_id: 388674065,
        hero_id: Some(1),
        team: Some("team2".to_string()),
        party_id: Some(1),
        lane: Some("mid".to_string()),
        is_victory: Some(false),
        kills: Some(5),
        deaths: Some(7),
        assists: Some(9),
        networth: Some(22222),
        damage: Some(10000),
        damage_taken: Some(15000),
        obj_damage: Some(3000),
        last_hits: Some(100),
        accuracy: Some((0.3f64).to_bits()),
        crit_shot_rate: Some((0.05f64).to_bits()),
        extra: None,
    }
}

#[test]
fn persist_one_match_counts() {
    let mut store = Store::new();
    let metas = vec![meta(9876543210, Some(vec![one_player()]))];
    let res = ingest_matches_batch(&mut store, &metas);
    assert_eq!(res.matches_upserted, 1);
    assert_eq!(res.match_players_upserted, 1);
    assert_eq!(res.players_upserted, 1);
    assert_eq!(store.matches.len(), 1);
    assert_eq!(store.match_players.len(), 1);
    assert_eq!(store.players.len(), 1);
    // the participant stub derives its identity text from the numeric id
    assert_eq!(store.players[0].steamid64, "76561198348939793");
    assert!(store.players[0].personaname.is_none());
}

#[test]
fn reingesting_identical_batch_changes_nothing() {
    let mut store = Store::new();
    let metas = vec![
        meta(1, Some(vec![one_player()])),
        meta(2, None),
    ];
    ingest_matches_batch(&mut store, &metas);
    let matches_before = store.matches.len();
    let players_before = store.players.len();
    let match_players_before = store.match_players.len();
    let winner_before = store.matches[0].winner_team.clone();
    let res2 = ingest_matches_batch(&mut store, &metas);
    assert_eq!(res2.matches_upserted, 2);
    assert_eq!(store.matches.len(), matches_before);
    assert_eq!(store.players.len(), players_before);
    assert_eq!(store.match_players.len(), match_players_before);
    assert_eq!(store.matches[0].winner_team, winner_before);
}

#[test]
fn absent_fields_never_erase_stored_values() {
    let mut store = Store::new();
    let full = vec![meta(7, None)];
    ingest_matches_batch(&mut store, &full);
    // a later fetch of the same record with most fields missing
    let partial = vec![MatchMeta {
        match_id: 7,
        start_time: None,
        duration_s: Some(1500),
        winner_team: None,
        average_badge: None,
        region: None,
        patch_version: None,
        info: None,
        players: None,
    }];
    ingest_matches_batch(&mut store, &partial);
    assert_eq!(store.matches.len(), 1);
    let row = &store.matches[0];
    assert_eq!(row.start_time, Some(1_700_000_000));
    assert_eq!(row.duration_s, Some(1500));
    assert_eq!(row.winner_team.as_deref(), Some("team2"));
    assert_eq!(row.region.as_deref(), Some("na"));
}

#[test]
fn payload_merge_is_shallow_union_incoming_wins() {
    let mut store = Store::new();
    let mut first = meta(9, None);
    first.info = Some(blob_of(&[("foo", "bar"), ("keep", "old")]));
    ingest_matches_batch(&mut store, &vec![first]);
    let mut second = meta(9, None);
    second.info = Some(blob_of(&[("foo", "new"), ("added", "yes")]));
    ingest_matches_batch(&mut store, &vec![second]);
    let info = &store.matches[0].info;
    assert_eq!(info.get("foo").unwrap().as_str(), "new");
    assert_eq!(info.get("keep").unwrap().as_str(), "old");
    assert_eq!(info.get("added").unwrap().as_str(), "yes");
    assert_eq!(info.len(), 3);
}

#[test]
fn ingest_player_counts_and_idempotence() {
    let mut store = Store::new();
    let p = payload();
    let res1 = ingest_player(&mut store, &p);
    assert!(res1.mmr_updated);
    assert_eq!(res1.heroes_upserted, 1);
    assert_eq!(res1.hero_history_added, 1);
    let res2 = ingest_player(&mut store, &p);
    assert!(res2.mmr_updated);
    assert_eq!(res2.heroes_upserted, 1);
    assert_eq!(res2.hero_history_added, 1);
    // history tables kept exactly one row each
    assert_eq!(store.mmr_history.len(), 1);
    assert_eq!(store.hero_history.len(), 1);
    assert_eq!(store.hero_current.len(), 1);
    assert_eq!(store.players.len(), 1);
    assert_eq!(store.players[0].personaname.as_deref(), Some("tester"));
    assert_eq!(store.players[0].profile_updated_at, Some(1700000000));
}

#[test]
fn history_insert_is_append_only() {
    let mut store = Store::new();
    let p = payload();
    ingest_player(&mut store, &p);
    assert_eq!(store.mmr_history.len(), 1);
    // same (participant, timestamp) key again: silent no-op
    let m = MMRHistory {
        account_id: 388674065,
        match_id: 999999,
        player_score: (50.0f64).to_bits(),
        start_time: 1700000000,
        rank: 41,
        division: 4,
        division_tier: 3,
    };
    store.insert_mmr_history(388674065, &m);
    assert_eq!(store.mmr_history.len(), 1);
    // the stored row is the first insertion's row
    assert_eq!(store.mmr_history[0].match_id, 123456);
    // a new timestamp appends
    let m2 = MMRHistory { start_time: 1700000600, ..m };
    store.insert_mmr_history(388674065, &m2);
    assert_eq!(store.mmr_history.len(), 2);
}

#[test]
fn stub_never_overwrites_full_profile() {
    let mut store = Store::new();
    let p = payload();
    ingest_player(&mut store, &p);
    // a sub-record referencing the same participant leaves the profile alone
    let metas = vec![meta(55, Some(vec![one_player()]))];
    ingest_matches_batch(&mut store, &metas);
    assert_eq!(store.players.len(), 1);
    assert_eq!(store.players[0].personaname.as_deref(), Some("tester"));
}

#[test]
fn players_counted_once_across_chunk() {
    let mut store = Store::new();
    // the same participant appears in two different records of one chunk
    let metas = vec![
        meta(1, Some(vec![one_player()])),
        meta(2, Some(vec![one_player()])),
    ];
    let res = ingest_matches_batch(&mut store, &metas);
    assert_eq!(res.matches_upserted, 2);
    assert_eq!(res.match_players_upserted, 2);
    assert_eq!(res.players_upserted, 1);
    assert_eq!(store.players.len(), 1);
}

#[test]
fn blob_entries_have_unique_keys() {
    let mut b = Blob::new();
    b.insert("a".to_string(), "1".to_string());
    b.insert("a".to_string(), "2".to_string());
    assert_eq!(b.len(), 1);
    assert_eq!(b.get("a").unwrap().as_str(), "2");
    assert!(b.get("missing").is_none());
    let entry = BlobEntry { key: "k".to_string(), value: "v".to_string() };
    assert_eq!(entry.key, "k");
}
