//! Building the upstream API's batched requests: joined id lists, endpoint
//! paths and query parameters, as plain values the transport layer sends.

use vstd::prelude::*;

use crate::digits::{dec_str, i64_to_dec_string, signed_dec_str, u64_to_dec_string};

verus! {

/// Comma-joined decimal ids.
pub open spec fn join_ids_spec(ids: Seq<u32>) -> Seq<char>
    decreases ids.len(),
{
    if ids.len() == 0 {
        Seq::empty()
    } else if ids.len() == 1 {
        dec_str(ids[0] as nat)
    } else {
        join_ids_spec(ids.drop_last()) + seq![','] + dec_str(ids.last() as nat)
    }
}

/// Join account ids with commas.
#[verifier::loop_isolation(false)]
pub fn join_ids(ids: &Vec<u32>) -> (r: String)
    ensures
        r@ == join_ids_spec(ids@),
{
    let mut s = String::new();
    let n = ids.len();
    let mut i: usize = 0;
    while i < n
        invariant
            0 <= i <= n,
            s@ == join_ids_spec(ids@.take(i as int)),
        decreases n - i,
    {
        proof {
            reveal_strlit(",");
            assert(ids@.take(i + 1).drop_last() =~= ids@.take(i as int));
            assert(ids@.take(i + 1).last() == ids@[i as int]);
        }
        if i > 0 {
            s.append(",");
        }
        let d = u64_to_dec_string(ids[i] as u64);
        s.append(d.as_str());
        proof {
            if i == 0 {
                assert(s@ =~= join_ids_spec(ids@.take(1)));
            } else {
                assert(s@ =~= join_ids_spec(ids@.take(i + 1)));
            }
        }
        i += 1;
    }
    proof {
        assert(ids@.take(n as int) =~= ids@);
    }
    s
}

/// Comma-joined decimal record ids.
pub open spec fn join_match_ids_spec(ids: Seq<i64>) -> Seq<char>
    decreases ids.len(),
{
    if ids.len() == 0 {
        Seq::empty()
    } else if ids.len() == 1 {
        signed_dec_str(ids[0] as int)
    } else {
        join_match_ids_spec(ids.drop_last()) + seq![','] + signed_dec_str(ids.last() as int)
    }
}

/// Join record ids with commas.
#[verifier::loop_isolation(false)]
pub fn join_match_ids(ids: &Vec<i64>) -> (r: String)
    ensures
        r@ == join_match_ids_spec(ids@),
{
    let mut s = String::new();
    let n = ids.len();
    let mut i: usize = 0;
    while i < n
        invariant
            0 <= i <= n,
            s@ == join_match_ids_spec(ids@.take(i as int)),
        decreases n - i,
    {
        proof {
            reveal_strlit(",");
            assert(ids@.take(i + 1).drop_last() =~= ids@.take(i as int));
            assert(ids@.take(i + 1).last() == ids@[i as int]);
        }
        if i > 0 {
            s.append(",");
        }
        let d = i64_to_dec_string(ids[i]);
        s.append(d.as_str());
        proof {
            if i == 0 {
                assert(s@ =~= join_match_ids_spec(ids@.take(1)));
            } else {
                assert(s@ =~= join_match_ids_spec(ids@.take(i + 1)));
            }
        }
        i += 1;
    }
    proof {
        assert(ids@.take(n as int) =~= ids@);
    }
    s
}

/// One upstream request, as the transport layer receives it: a path under
/// the API base, and query parameters.
pub struct ApiRequest {
    pub path: String,
    pub query: Vec<(String, String)>,
}

/// The batched profile lookup.
pub fn steam_profiles_request(ids: &Vec<u32>) -> (r: ApiRequest)
    ensures
        r.path@ == "/v1/players/steam"@,
        r.query@.len() == 1,
        r.query@[0].0@ == "account_ids"@,
        r.query@[0].1@ == join_ids_spec(ids@),
{
    let mut query: Vec<(String, String)> = Vec::new();
    query.push(("account_ids".to_owned(), join_ids(ids)));
    ApiRequest { path: "/v1/players/steam".to_owned(), query }
}

/// The batched current-score lookup.
pub fn mmr_request(ids: &Vec<u32>) -> (r: ApiRequest)
    ensures
        r.path@ == "/v1/players/mmr"@,
        r.query@.len() == 1,
        r.query@[0].0@ == "account_ids"@,
        r.query@[0].1@ == join_ids_spec(ids@),
{
    let mut query: Vec<(String, String)> = Vec::new();
    query.push(("account_ids".to_owned(), join_ids(ids)));
    ApiRequest { path: "/v1/players/mmr".to_owned(), query }
}

/// The batched per-category statistics lookup.
pub fn hero_stats_request(ids: &Vec<u32>) -> (r: ApiRequest)
    ensures
        r.path@ == "/v1/players/hero-stats"@,
        r.query@.len() == 1,
        r.query@[0].0@ == "account_ids"@,
        r.query@[0].1@ == join_ids_spec(ids@),
{
    let mut query: Vec<(String, String)> = Vec::new();
    query.push(("account_ids".to_owned(), join_ids(ids)));
    ApiRequest { path: "/v1/players/hero-stats".to_owned(), query }
}

/// The batched record-metadata fetch, with its inclusion flags.
pub fn matches_metadata_request(ids: &Vec<i64>, include_info: bool, include_players: bool) -> (r:
    ApiRequest)
    ensures
        r.path@ == "/v1/matches/metadata"@,
        r.query@.len() == 1 + (if include_info {
            1int
        } else {
            0int
        }) + (if include_players {
            1int
        } else {
            0int
        }),
        r.query@[0].0@ == "match_ids"@,
        r.query@[0].1@ == join_match_ids_spec(ids@),
        include_info ==> r.query@[1].0@ == "include_info"@ && r.query@[1].1@ == "true"@,
        !include_info && include_players ==> r.query@[1].0@ == "include_players"@ && r.query@[1].1@
            == "true"@,
        include_info && include_players ==> r.query@[2].0@ == "include_players"@ && r.query@[2].1@
            == "true"@,
{
    let mut query: Vec<(String, String)> = Vec::new();
    query.push(("match_ids".to_owned(), join_match_ids(ids)));
    if include_info {
        query.push(("include_info".to_owned(), "true".to_owned()));
    }
    if include_players {
        query.push(("include_players".to_owned(), "true".to_owned()));
    }
    ApiRequest { path: "/v1/matches/metadata".to_owned(), query }
}

/// The per-participant history fetch, with its flags.
pub fn match_history_request(account_id: u32, force_refetch: bool, only_stored_history: bool) -> (r:
    ApiRequest)
    ensures
        r.path@ == "/v1/players/"@ + dec_str(account_id as nat) + "/match-history"@,
        r.query@.len() == (if force_refetch {
            1int
        } else {
            0int
        }) + (if only_stored_history {
            1int
        } else {
            0int
        }),
        force_refetch ==> r.query@[0].0@ == "force_refetch"@ && r.query@[0].1@ == "true"@,
        !force_refetch && only_stored_history ==> r.query@[0].0@ == "only_stored_history"@
            && r.query@[0].1@ == "true"@,
        force_refetch && only_stored_history ==> r.query@[1].0@ == "only_stored_history"@
            && r.query@[1].1@ == "true"@,
{
    let mut path = "/v1/players/".to_owned();
    let acc = u64_to_dec_string(account_id as u64);
    path.append(acc.as_str());
    path.append("/match-history");
    let mut query: Vec<(String, String)> = Vec::new();
    if force_refetch {
        query.push(("force_refetch".to_owned(), "true".to_owned()));
    }
    if only_stored_history {
        query.push(("only_stored_history".to_owned(), "true".to_owned()));
    }
    ApiRequest { path, query }
}

} // verus!
