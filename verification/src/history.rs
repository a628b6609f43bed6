//! Turning a participant's flat match-history listing into records with
//! nested sub-records, grouped by record id.

use vstd::prelude::*;

use crate::blob::Blob;
use crate::digits::{i32_to_dec_string, signed_dec_str};
use crate::models::{MatchMeta, PlayerInMatch, PlayerInMatchV, PlayerMatchHistoryEntry};

verus! {

/// The free-form payload one history entry contributes to its sub-record.
pub open spec fn extra_of_entry(e: PlayerMatchHistoryEntry) -> Map<Seq<char>, Seq<char>> {
    Map::empty().insert("denies"@, signed_dec_str(e.denies as int)).insert(
        "game_mode"@,
        signed_dec_str(e.game_mode as int),
    ).insert("match_mode"@, signed_dec_str(e.match_mode as int)).insert(
        "match_result"@,
        signed_dec_str(e.match_result as int),
    ).insert("objectives_mask_team0"@, signed_dec_str(e.objectives_mask_team0 as int)).insert(
        "objectives_mask_team1"@,
        signed_dec_str(e.objectives_mask_team1 as int),
    ).insert("hero_level"@, signed_dec_str(e.hero_level as int))
}

/// The sub-record one history entry denotes.
pub open spec fn player_of_entry(e: PlayerMatchHistoryEntry) -> PlayerInMatchV {
    PlayerInMatchV {
        account_id: e.account_id,
        hero_id: Some(e.hero_id),
        team: Some("team"@ + signed_dec_str(e.player_team as int)),
        party_id: None,
        lane: None,
        is_victory: None,
        kills: Some(e.player_kills),
        deaths: Some(e.player_deaths),
        assists: Some(e.player_assists),
        networth: Some(e.net_worth as i64),
        damage: None,
        damage_taken: None,
        obj_damage: None,
        last_hits: Some(e.last_hits),
        accuracy: None,
        crit_shot_rate: None,
        extra: extra_of_entry(e),
    }
}

/// Entries belonging to one record.
pub open spec fn entry_has_id(mid: i64) -> spec_fn(PlayerMatchHistoryEntry) -> bool {
    |e: PlayerMatchHistoryEntry| e.match_id == mid
}

/// The entry-to-sub-record mapping as a function value.
pub open spec fn player_of_entry_fn() -> spec_fn(PlayerMatchHistoryEntry) -> PlayerInMatchV {
    |e: PlayerMatchHistoryEntry| player_of_entry(e)
}

/// Whether some entry carries this record id.
pub open spec fn contains_entry_id(s: Seq<PlayerMatchHistoryEntry>, x: i64) -> bool {
    exists|j: int| 0 <= j < s.len() && (#[trigger] s[j]).match_id == x
}

/// Whether some grouped record carries this id.
pub open spec fn contains_meta_id(s: Seq<MatchMeta>, x: i64) -> bool {
    exists|i: int| 0 <= i < s.len() && (#[trigger] s[i]).match_id == x
}

/// Build the executable sub-record for one history entry.
fn entry_to_player(e: &PlayerMatchHistoryEntry) -> (r: PlayerInMatch)
    ensures
        r@ == player_of_entry(*e),
        r.wf(),
{
    let mut team = "team".to_owned();
    let digits = i32_to_dec_string(e.player_team);
    team.append(digits.as_str());
    let mut extra = Blob::new();
    extra.insert("denies".to_owned(), i32_to_dec_string(e.denies));
    extra.insert("game_mode".to_owned(), i32_to_dec_string(e.game_mode));
    extra.insert("match_mode".to_owned(), i32_to_dec_string(e.match_mode));
    extra.insert("match_result".to_owned(), i32_to_dec_string(e.match_result));
    extra.insert("objectives_mask_team0".to_owned(), i32_to_dec_string(e.objectives_mask_team0));
    extra.insert("objectives_mask_team1".to_owned(), i32_to_dec_string(e.objectives_mask_team1));
    extra.insert("hero_level".to_owned(), i32_to_dec_string(e.hero_level));
    let r = PlayerInMatch {
        account_id: e.account_id,
        hero_id: Some(e.hero_id),
        team: Some(team),
        party_id: None,
        lane: None,
        is_victory: None,
        kills: Some(e.player_kills),
        deaths: Some(e.player_deaths),
        assists: Some(e.player_assists),
        networth: Some(e.net_worth as i64),
        damage: None,
        damage_taken: None,
        obj_damage: None,
        last_hits: Some(e.last_hits),
        accuracy: None,
        crit_shot_rate: None,
        extra: Some(extra),
    };
    proof {
        assert(r@.extra =~= extra_of_entry(*e));
        assert(r@ =~= player_of_entry(*e));
    }
    r
}

/// Group a flat history listing into one record per id, ascending by id;
/// each record carries its entries as sub-records in their original order,
/// and takes its start time and duration from the first of them.
#[verifier::loop_isolation(false)]
pub fn group_history(entries: &Vec<PlayerMatchHistoryEntry>) -> (r: Vec<MatchMeta>)
    ensures
        forall|i: int, j: int|
            0 <= i < j < r@.len() ==> (#[trigger] r@[i]).match_id < (#[trigger] r@[j]).match_id,
        forall|k: int|
            0 <= k < entries@.len() ==> contains_meta_id(r@, (#[trigger] entries@[k]).match_id),
        forall|i: int|
            0 <= i < r@.len() ==> {
                let f = entries@.filter(entry_has_id((#[trigger] r@[i]).match_id));
                &&& f.len() > 0
                &&& r@[i].wf()
                &&& r@[i]@.players == f.map_values(player_of_entry_fn())
                &&& r@[i]@.start_time == Some(f[0].start_time as i64)
                &&& r@[i]@.duration_s == Some(f[0].match_duration_s)
                &&& r@[i]@.winner_team is None
                &&& r@[i]@.average_badge is None
                &&& r@[i]@.region is None
                &&& r@[i]@.patch_version is None
                &&& r@[i]@.info == Map::<Seq<char>, Seq<char>>::empty()
            },
{
    let ne = entries.len();
    let mut ids: Vec<i64> = Vec::new();
    let mut k: usize = 0;
    while k < ne
        invariant
            0 <= k <= ne,
            crate::candidates::strictly_sorted(ids@),
            forall|x: i64| ids@.contains(x) <==> contains_entry_id(entries@.take(k as int), x),
        decreases ne - k,
    {
        let ghost pre = ids@;
        crate::candidates::sorted_insert(&mut ids, entries[k].match_id);
        proof {
            assert forall|x: i64| ids@.contains(x) implies contains_entry_id(
                entries@.take(k + 1),
                x,
            ) by {
                if pre.contains(x) {
                    let j = choose|j: int|
                        0 <= j < k && (#[trigger] entries@.take(k as int)[j]).match_id == x;
                    assert(entries@.take(k + 1)[j].match_id == x);
                } else {
                    assert(entries@.take(k + 1)[k as int].match_id == x);
                }
            }
            assert forall|x: i64| contains_entry_id(entries@.take(k + 1), x) implies ids@.contains(
                x,
            ) by {
                let j = choose|j: int|
                    0 <= j <= k as int && (#[trigger] entries@.take(k + 1)[j]).match_id == x;
                if j < k {
                    assert(entries@.take(k as int)[j].match_id == x);
                } else {
                    assert(x == entries@[k as int].match_id);
                }
            }
        }
        k += 1;
    }
    proof {
        assert(entries@.take(ne as int) =~= entries@);
    }
    let nids = ids.len();
    let mut r: Vec<MatchMeta> = Vec::new();
    let mut i: usize = 0;
    while i < nids
        invariant
            0 <= i <= nids,
            r@.len() == i,
            forall|a: int| 0 <= a < i ==> (#[trigger] r@[a]).match_id == ids@[a],
            forall|a: int|
                0 <= a < i ==> {
                    let f = entries@.filter(entry_has_id((#[trigger] r@[a]).match_id));
                    &&& f.len() > 0
                    &&& r@[a].wf()
                    &&& r@[a]@.players == f.map_values(player_of_entry_fn())
                    &&& r@[a]@.start_time == Some(f[0].start_time as i64)
                    &&& r@[a]@.duration_s == Some(f[0].match_duration_s)
                    &&& r@[a]@.winner_team is None
                    &&& r@[a]@.average_badge is None
                    &&& r@[a]@.region is None
                    &&& r@[a]@.patch_version is None
                    &&& r@[a]@.info == Map::<Seq<char>, Seq<char>>::empty()
                },
        decreases nids - i,
    {
        let mid = ids[i];
        let ghost p = entry_has_id(mid);
        let mut players: Vec<PlayerInMatch> = Vec::new();
        let mut start_time: Option<i64> = None;
        let mut duration_s: Option<i32> = None;
        let mut k2: usize = 0;
        proof {
            reveal(Seq::filter);
        }
        while k2 < ne
            invariant
                0 <= k2 <= ne,
                players@.len() == entries@.take(k2 as int).filter(p).len(),
                forall|a: int|
                    0 <= a < players@.len() ==> (#[trigger] players@[a])@ == player_of_entry(
                        entries@.take(k2 as int).filter(p)[a],
                    ),
                forall|a: int| 0 <= a < players@.len() ==> (#[trigger] players@[a]).wf(),
                players@.len() == 0 <==> start_time is None,
                players@.len() == 0 <==> duration_s is None,
                players@.len() > 0 ==> start_time == Some(
                    entries@.take(k2 as int).filter(p)[0].start_time as i64,
                ) && duration_s == Some(entries@.take(k2 as int).filter(p)[0].match_duration_s),
            decreases ne - k2,
        {
            let ghost pref = entries@.take(k2 as int);
            let ghost prex = entries@.take(k2 + 1);
            proof {
                reveal(Seq::filter);
                assert(prex.drop_last() =~= pref);
                assert(prex.last() == entries@[k2 as int]);
            }
            let e = &entries[k2];
            if e.match_id == mid {
                if players.len() == 0 {
                    start_time = Some(e.start_time as i64);
                    duration_s = Some(e.match_duration_s);
                }
                let np = entry_to_player(e);
                players.push(np);
                proof {
                    reveal(Seq::filter);
                    assert(prex.filter(p) == pref.filter(p).push(entries@[k2 as int]));
                    assert forall|a: int| 0 <= a < players@.len() implies (
                    #[trigger] players@[a])@ == player_of_entry(prex.filter(p)[a]) by {
                        if a == players@.len() - 1 {
                            assert(players@[a] == np);
                        }
                    }
                    if prex.filter(p).len() > 1 {
                        assert(prex.filter(p)[0] == pref.filter(p)[0]);
                    }
                }
            } else {
                proof {
                    reveal(Seq::filter);
                    assert(prex.filter(p) == pref.filter(p));
                }
            }
            k2 += 1;
        }
        proof {
            reveal(Seq::filter);
            assert(entries@.take(ne as int) =~= entries@);
            assert(ids@.contains(mid));
            assert(contains_entry_id(entries@, mid));
            let j = choose|j: int| 0 <= j < entries@.len() && (#[trigger] entries@[j]).match_id == mid;
            lemma_filter_witness(entries@, p, j);
        }
        let meta = MatchMeta {
            match_id: mid,
            start_time,
            duration_s,
            winner_team: None,
            average_badge: None,
            region: None,
            patch_version: None,
            info: None,
            players: Some(players),
        };
        proof {
            reveal(Seq::filter);
            assert(meta@.players =~= entries@.filter(entry_has_id(mid)).map_values(
                player_of_entry_fn(),
            ));
        }
        r.push(meta);
        i += 1;
    }
    proof {
        assert forall|k3: int| 0 <= k3 < entries@.len() implies contains_meta_id(
            r@,
            (#[trigger] entries@[k3]).match_id,
        ) by {
            assert(contains_entry_id(entries@, entries@[k3].match_id));
            assert(ids@.contains(entries@[k3].match_id));
            let a = choose|a: int| 0 <= a < ids@.len() && ids@[a] == entries@[k3].match_id;
            assert(0 <= a < r@.len() && r@[a].match_id == entries@[k3].match_id);
        }
    }
    r
}

/// A sequence with a witness for `p` filters to something non-empty.
pub proof fn lemma_filter_witness<T>(s: Seq<T>, p: spec_fn(T) -> bool, j: int)
    requires
        0 <= j < s.len(),
        p(s[j]),
    ensures
        s.filter(p).len() > 0,
    decreases s.len(),
{
    reveal(Seq::filter);
    if j == s.len() - 1 {
    } else {
        lemma_filter_witness(s.drop_last(), p, j);
    }
}

} // verus!
