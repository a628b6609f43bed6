use deadlock_cli::history::group_history;
use deadlock_cli::models::{MMRHistory, PlayerMatchHistoryEntry};
use deadlock_cli::report::latest_mmr_for;
use deadlock_cli::requests::{
    join_ids, join_match_ids, match_history_request, matches_metadata_request,
    steam_profiles_request,
};

fn entry(match_id: i64, account_id: i32, start_time: i32) -> PlayerMatchHistoryEntry {
    PlayerMatchHistoryEntry {
        account_id,
        match_id,
        hero_id: 7,
        hero_level: 12,
        start_time,
        game_mode: 1,
        match_mode: 4,
        player_team: 1,
        player_kills: 3,
        player_deaths: 2,
        player_assists: 5,
        denies: 20,
        net_worth: 30000,
        last_hits: 111,
        match_duration_s: 1800,
        match_result: 1,
        objectives_mask_team0: 0,
        objectives_mask_team1: 3,
    }
}

#[test]
fn groups_history_by_record_ascending() {
    let entries = vec![
        entry(20, 1, 5000),
        entry(10, 2, 4000),
        entry(20, 3, 5001),
    ];
    let metas = group_history(&entries);
    assert_eq!(metas.len(), 2);
    assert_eq!(metas[0].match_id, 10);
    assert_eq!(metas[1].match_id, 20);
    let players = metas[1].players.as_ref().unwrap();
    assert_eq!(players.len(), 2);
    // sub-records keep their original order within the record
    assert_eq!(players[0].account_id, 1);
    assert_eq!(players[1].account_id, 3);
    // the record's times come from its first entry
    assert_eq!(metas[1].start_time, Some(5000));
    assert_eq!(metas[1].duration_s, Some(1800));
    // the derived sub-record fields
    assert_eq!(players[0].team.as_deref(), Some("team1"));
    assert_eq!(players[0].hero_id, Some(7));
    assert_eq!(players[0].networth, Some(30000));
    let extra = players[0].extra.as_ref().unwrap();
    assert_eq!(extra.get("denies").unwrap().as_str(), "20");
    assert_eq!(extra.get("hero_level").unwrap().as_str(), "12");
    assert_eq!(extra.get("objectives_mask_team1").unwrap().as_str(), "3");
}

fn mmr(account_id: i32, match_id: i64, start_time: i32) -> MMRHistory {
    MMRHistory {
        account_id,
        match_id,
        start_time,
        player_score: 0,
        rank: 1,
        division: 1,
        division_tier: 1,
    }
}

#[test]
fn latest_mmr_picks_newest_observation() {
    let all = vec![
        mmr(5, 100, 1000),
        mmr(5, 90, 2000),
        mmr(6, 999, 9999),
        mmr(5, 95, 2000),
    ];
    let best = latest_mmr_for(&all, 5).unwrap();
    // later start time wins; on a tie the higher record id wins
    assert_eq!(best.match_id, 95);
    assert!(latest_mmr_for(&all, 7).is_none());
}

#[test]
fn joins_ids_with_commas() {
    assert_eq!(join_ids(&vec![1, 22, 333]), "1,22,333");
    assert_eq!(join_ids(&vec![42]), "42");
    assert_eq!(join_ids(&vec![]), "");
    assert_eq!(join_match_ids(&vec![-5, 7]), "-5,7");
}

#[test]
fn request_builders_shape_requests() {
    let r = steam_profiles_request(&vec![1, 2]);
    assert_eq!(r.path, "/v1/players/steam");
    assert_eq!(r.query.len(), 1);
    assert_eq!(r.query[0].0, "account_ids");
    assert_eq!(r.query[0].1, "1,2");

    let r = matches_metadata_request(&vec![10, 11], true, false);
    assert_eq!(r.path, "/v1/matches/metadata");
    assert_eq!(r.query.len(), 2);
    assert_eq!(r.query[0].1, "10,11");
    assert_eq!(r.query[1].0, "include_info");

    let r = match_history_request(388674065, false, true);
    assert_eq!(r.path, "/v1/players/388674065/match-history");
    assert_eq!(r.query.len(), 1);
    assert_eq!(r.query[0].0, "only_stored_history");
    assert_eq!(r.query[0].1, "true");
}
