//! Reading fetched data for presentation, and mapping failures to the
//! process's exit statuses.

use vstd::prelude::*;

use crate::models::MMRHistory;
use crate::retry::DeadlockError;

verus! {

/// Whether an observation belongs to the account, compared exactly as the
/// store keys it.
pub open spec fn mmr_matches(m: MMRHistory, account_id: u32) -> bool {
    m.account_id as u32 == account_id
}

/// Ordering of observations by start time, then by record id.
pub open spec fn mmr_key_le(a: MMRHistory, b: MMRHistory) -> bool {
    a.start_time < b.start_time || (a.start_time == b.start_time && a.match_id <= b.match_id)
}

/// Position `i` holds the account's latest observation: no other matching
/// observation has a greater key, and on a key tie the later position wins.
pub open spec fn is_latest_for(all: Seq<MMRHistory>, account_id: u32, i: int) -> bool {
    &&& 0 <= i < all.len()
    &&& mmr_matches(all[i], account_id)
    &&& forall|j: int|
        0 <= j < all.len() && mmr_matches(#[trigger] all[j], account_id) ==> mmr_key_le(
            all[j],
            all[i],
        )
    &&& forall|j: int|
        0 <= j < all.len() && mmr_matches(#[trigger] all[j], account_id) && mmr_key_le(
            all[i],
            all[j],
        ) ==> j <= i
}

/// The account's most recent score observation, if any came back.
#[verifier::loop_isolation(false)]
pub fn latest_mmr_for(all: &Vec<MMRHistory>, account_id: u32) -> (r: Option<MMRHistory>)
    ensures
        r is None <==> forall|j: int|
            0 <= j < all@.len() ==> !mmr_matches(#[trigger] all@[j], account_id),
        r matches Some(m) ==> exists|i: int| #[trigger]
            is_latest_for(all@, account_id, i) && all@[i] == m,
{
    let n = all.len();
    let mut best: Option<usize> = None;
    let mut i: usize = 0;
    while i < n
        invariant
            0 <= i <= n,
            best matches Some(b) ==> b < i && mmr_matches(all@[b as int], account_id) && (forall|
                j: int,
            |
                0 <= j < i && mmr_matches(#[trigger] all@[j], account_id) ==> mmr_key_le(
                    all@[j],
                    all@[b as int],
                )) && (forall|j: int|
                0 <= j < i && mmr_matches(#[trigger] all@[j], account_id) && mmr_key_le(
                    all@[b as int],
                    all@[j],
                ) ==> j <= b),
            best is None ==> forall|j: int|
                0 <= j < i ==> !mmr_matches(#[trigger] all@[j], account_id),
        decreases n - i,
    {
        let m = &all[i];
        let acc = #[verifier::truncate] (m.account_id as u32);
        if acc == account_id {
            let take_it = match best {
                Some(b) => {
                    let cur = &all[b];
                    m.start_time > cur.start_time || (m.start_time == cur.start_time && m.match_id
                        >= cur.match_id)
                },
                None => true,
            };
            if take_it {
                best = Some(i);
            }
        }
        i += 1;
    }
    match best {
        Some(b) => {
            proof {
                assert(is_latest_for(all@, account_id, b as int));
            }
            Some(all[b])
        },
        None => None,
    }
}

/// The process status a failed run exits with: one status for an exhausted
/// rate-limit budget, another for every other failure.
pub fn exit_status_for(err: &DeadlockError) -> (r: i32)
    ensures
        err is RateLimited ==> r == 29,
        !(err is RateLimited) ==> r == 1,
{
    match err {
        DeadlockError::RateLimited(_) => 29,
        _ => 1,
    }
}

} // verus!
