//! Deriving the records to synchronize: seeding candidates, the sequential
//! fallback window, deduplication against the store, and chunking.

use vstd::prelude::*;

use vstd::math::min;

verus! {

/// Strictly increasing: no duplicates, ascending order.
pub open spec fn strictly_sorted(s: Seq<i64>) -> bool {
    forall|i: int, j: int| 0 <= i < j < s.len() ==> s[i] < s[j]
}

/// Insert a value into its place in a strictly sorted list; a value already
/// present is left alone.
#[verifier::loop_isolation(false)]
pub fn sorted_insert(out: &mut Vec<i64>, v: i64)
    requires
        strictly_sorted(old(out)@),
    ensures
        strictly_sorted(final(out)@),
        forall|x: i64| final(out)@.contains(x) <==> old(out)@.contains(x) || x == v,
        final(out)@.len() <= old(out)@.len() + 1,
        old(out)@.contains(v) ==> final(out)@ == old(out)@,
        !old(out)@.contains(v) ==> final(out)@.len() == old(out)@.len() + 1,
{
    let n = out.len();
    let mut pos: usize = 0;
    while pos < n && out[pos] < v
        invariant
            0 <= pos <= n,
            forall|j: int| 0 <= j < pos ==> out@[j] < v,
        decreases n - pos,
    {
        pos += 1;
    }
    if pos < n && out[pos] == v {
        proof {
            assert(out@.contains(v));
        }
        return ;
    }
    proof {
        assert(pos < out@.len() ==> out@[pos as int] > v);
        assert(!out@.contains(v)) by {
            if out@.contains(v) {
                let k = choose|k: int| 0 <= k < out@.len() && out@[k] == v;
                if k > pos {
                    assert(out@[pos as int] < out@[k]);
                }
            }
        }
    }
    out.insert(pos, v);
    proof {
        let s = old(out)@;
        let t = out@;
        assert(t =~= s.insert(pos as int, v));
        assert forall|i: int, j: int| 0 <= i < j < t.len() implies t[i] < t[j] by {
            if i < pos && j < pos {
                assert(t[i] == s[i] && t[j] == s[j]);
            } else if i < pos && j == pos {
                assert(t[i] == s[i]);
            } else if i < pos && j > pos {
                assert(t[i] == s[i] && t[j] == s[j - 1]);
                assert(s[i] < v);
                assert(s[j - 1] >= v);
                assert(s[j - 1] > v || s[j - 1] == v);
            } else if i == pos && j > pos {
                assert(t[j] == s[j - 1]);
            } else {
                assert(t[i] == s[i - 1] && t[j] == s[j - 1]);
            }
        }
        assert forall|x: i64| t.contains(x) implies s.contains(x) || x == v by {
            let k = choose|k: int| 0 <= k < t.len() && t[k] == x;
            if k < pos {
                assert(s[k] == x);
            } else if k > pos {
                assert(s[k - 1] == x);
            }
        }
        assert forall|x: i64| s.contains(x) || x == v implies t.contains(x) by {
            if s.contains(x) {
                let k = choose|k: int| 0 <= k < s.len() && s[k] == x;
                if k < pos {
                    assert(t[k] == x);
                } else {
                    assert(t[k + 1] == x);
                }
            } else {
                assert(t[pos as int] == v);
            }
        }
    }
}

/// Sort, deduplicate and keep the first `limit` values of a candidate list.
#[verifier::loop_isolation(false)]
pub fn sort_dedup_truncate(base: &Vec<i64>, limit: usize) -> (r: Vec<i64>)
    ensures
        strictly_sorted(r@),
        r@.len() <= limit,
        forall|i: int| 0 <= i < r@.len() ==> base@.contains(#[trigger] r@[i]),
        forall|x: i64| #[trigger]
            base@.contains(x) ==> r@.contains(x) || (r@.len() == limit && (limit == 0 || x > r@[
            limit as int - 1])),
{
    let mut out: Vec<i64> = Vec::new();
    let n = base.len();
    let mut i: usize = 0;
    while i < n
        invariant
            0 <= i <= n,
            strictly_sorted(out@),
            out@.len() <= i,
            forall|x: i64| out@.contains(x) <==> base@.take(i as int).contains(x),
        decreases n - i,
    {
        let ghost pre = out@;
        sorted_insert(&mut out, base[i]);
        proof {
            assert forall|x: i64| out@.contains(x) implies base@.take(i + 1).contains(x) by {
                if pre.contains(x) {
                    let k = choose|k: int| 0 <= k < i && base@.take(i as int)[k] == x;
                    assert(base@.take(i + 1)[k] == x);
                } else {
                    assert(x == base@[i as int]);
                    assert(base@.take(i + 1)[i as int] == x);
                }
            }
            assert forall|x: i64| base@.take(i + 1).contains(x) implies out@.contains(x) by {
                let k = choose|k: int| 0 <= k <= i as int && #[trigger] base@.take(i + 1)[k] == x;
                if k < i {
                    assert(base@.take(i as int)[k] == x);
                } else {
                    assert(x == base@[i as int]);
                }
            }
        }
        i += 1;
    }
    proof {
        assert(base@.take(n as int) =~= base@);
    }
    let ghost full = out@;
    if out.len() > limit {
        out.truncate(limit);
    }
    proof {
        if full.len() > limit {
            assert(out@ =~= full.subrange(0, limit as int));
        } else {
            assert(out@ == full);
        }
        assert forall|i2: int| 0 <= i2 < out@.len() implies base@.contains(#[trigger] out@[i2]) by {
            assert(out@[i2] == full[i2]);
            assert(full.contains(full[i2]));
        }
        assert forall|x: i64| #[trigger] base@.contains(x) implies out@.contains(x) || (out@.len()
            == limit && (limit == 0 || x > out@[limit as int - 1])) by {
            assert(full.contains(x));
            let k = choose|k: int| 0 <= k < full.len() && full[k] == x;
            if full.len() <= limit {
                assert(out@[k] == x);
            } else if k < limit {
                assert(out@[k] == x);
            } else if limit > 0 {
                assert(full[limit as int - 1] < full[k]);
                assert(out@[limit as int - 1] == full[limit as int - 1]);
            }
        }
    }
    out
}

/// How many ids the sequential fallback window holds: up to `limit`, one
/// past `start`, never beyond `cap`.
pub open spec fn window_len(start: i64, cap: i64, limit: int) -> int {
    let avail = if cap > start {
        cap - start
    } else {
        0
    };
    if limit <= avail {
        limit
    } else {
        avail
    }
}

/// The sequential fallback window itself.
pub open spec fn window_spec(start: i64, cap: i64, limit: int) -> Seq<i64> {
    Seq::new(window_len(start, cap, limit) as nat, |k: int| (start + 1 + k) as i64)
}

/// Fill an empty list with the sequential fallback window.
#[verifier::loop_isolation(false)]
fn build_window(out: &mut Vec<i64>, start: i64, cap: i64, limit: usize)
    requires
        old(out)@.len() == 0,
    ensures
        final(out)@ == window_spec(start, cap, limit as int),
{
    let ghost wl = window_len(start, cap, limit as int);
    if start >= cap {
        proof {
            assert(out@ =~= window_spec(start, cap, limit as int));
        }
        return ;
    }
    let avail: i128 = cap as i128 - start as i128;
    let wlen: usize = if (limit as i128) <= avail {
        limit
    } else {
        avail as usize
    };
    proof {
        assert(wlen as int == wl);
    }
    let mut cur: i64 = start;
    let mut k: usize = 0;
    while k < wlen
        invariant
            0 <= k <= wlen,
            wlen as int == wl,
            wl <= cap - start,
            cur == start + k,
            out@.len() == k,
            forall|j: int| 0 <= j < k ==> out@[j] == start + 1 + j,
        decreases wlen - k,
    {
        cur += 1;
        out.push(cur);
        k += 1;
    }
    proof {
        assert(out@ =~= window_spec(start, cap, limit as int));
    }
}

/// The list the resolution order produces before it is normalized:
/// explicit ids and the participant's history ids seed the set; only when
/// both are absent does the sequential window from the store's high-water
/// mark (or `since`) apply, bounded by `until`.
pub open spec fn candidate_base(
    explicit: Seq<i64>,
    history: Seq<i64>,
    since: Option<i64>,
    until: Option<i64>,
    limit: int,
    stored_max: i64,
) -> Seq<i64> {
    let seed = explicit + history;
    if seed.len() > 0 {
        seed
    } else {
        let start = if since is Some {
            since.unwrap()
        } else {
            stored_max
        };
        let cap = if until is Some {
            until.unwrap()
        } else {
            i64::MAX
        };
        window_spec(start, cap, limit)
    }
}

/// What resolution yields: either the set of record ids to synchronize,
/// deduplicated, numerically sorted and truncated to the limit, or the
/// successful no-op when all three resolution steps come up empty.
pub enum ResolveOutcome {
    NoCandidates,
    Candidates(Vec<i64>),
}

/// Derive the candidate set.
pub fn resolve_candidates(
    explicit: &Vec<i64>,
    history: &Vec<i64>,
    since: Option<i64>,
    until: Option<i64>,
    limit: usize,
    stored_max: i64,
) -> (r: ResolveOutcome)
    ensures
        ({
            let base = candidate_base(explicit@, history@, since, until, limit as int, stored_max);
            &&& (r is NoCandidates <==> base.len() == 0)
            &&& (r matches ResolveOutcome::Candidates(c) ==> {
                &&& strictly_sorted(c@)
                &&& c@.len() <= limit
                &&& forall|i: int| 0 <= i < c@.len() ==> base.contains(#[trigger] c@[i])
                &&& forall|x: i64| #[trigger]
                    base.contains(x) ==> c@.contains(x) || (c@.len() == limit && (limit == 0 || x
                        > c@[limit as int - 1]))
            })
        }),
{
    let ghost base = candidate_base(explicit@, history@, since, until, limit as int, stored_max);
    let mut seed: Vec<i64> = Vec::new();
    let ne = explicit.len();
    let mut i: usize = 0;
    #[verifier::loop_isolation(false)]
    while i < ne
        invariant
            0 <= i <= ne,
            seed@ =~= explicit@.take(i as int),
        decreases ne - i,
    {
        seed.push(explicit[i]);
        proof {
            assert(seed@ =~= explicit@.take(i + 1));
        }
        i += 1;
    }
    let nh = history.len();
    let mut j: usize = 0;
    #[verifier::loop_isolation(false)]
    while j < nh
        invariant
            0 <= j <= nh,
            seed@ =~= explicit@ + history@.take(j as int),
        decreases nh - j,
    {
        seed.push(history[j]);
        proof {
            assert(seed@ =~= explicit@ + history@.take(j + 1));
        }
        j += 1;
    }
    proof {
        assert(seed@ =~= explicit@ + history@);
    }
    if seed.is_empty() {
        let start = match since {
            Some(s) => s,
            None => stored_max,
        };
        let cap = match until {
            Some(u) => u,
            None => i64::MAX,
        };
        build_window(&mut seed, start, cap, limit);
    }
    proof {
        assert(seed@ == base);
    }
    if seed.is_empty() {
        return ResolveOutcome::NoCandidates;
    }
    ResolveOutcome::Candidates(sort_dedup_truncate(&seed, limit))
}

/// Membership test on a plain id list.
#[verifier::loop_isolation(false)]
pub fn contains_id(v: &Vec<i64>, x: i64) -> (r: bool)
    ensures
        r == v@.contains(x),
{
    let n = v.len();
    let mut i: usize = 0;
    while i < n
        invariant
            0 <= i <= n,
            forall|j: int| 0 <= j < i ==> v@[j] != x,
        decreases n - i,
    {
        if v[i] == x {
            return true;
        }
        i += 1;
    }
    proof {
        if v@.contains(x) {
            let j = choose|j: int| 0 <= j < v@.len() && v@[j] == x;
            assert(v@[j] != x);
        }
    }
    false
}

/// Ids not yet present in storage.
pub open spec fn not_stored(existing: Seq<i64>) -> spec_fn(i64) -> bool {
    |id: i64| !existing.contains(id)
}

/// Remove already-stored ids from the candidate list, keeping the order.
/// An empty residual signals that the store is already up to date.
#[verifier::loop_isolation(false)]
pub fn dedup_filter(candidates: &Vec<i64>, existing: &Vec<i64>) -> (r: Vec<i64>)
    ensures
        r@ == candidates@.filter(not_stored(existing@)),
{
    proof {
        reveal(Seq::filter);
    }
    let ghost p = not_stored(existing@);
    let mut r: Vec<i64> = Vec::new();
    let n = candidates.len();
    let mut i: usize = 0;
    while i < n
        invariant
            0 <= i <= n,
            r@ == candidates@.take(i as int).filter(p),
        decreases n - i,
    {
        proof {
            reveal(Seq::filter);
            assert(candidates@.take(i + 1).drop_last() =~= candidates@.take(i as int));
            assert(candidates@.take(i + 1).last() == candidates@[i as int]);
        }
        if !contains_id(existing, candidates[i]) {
            r.push(candidates[i]);
        }
        i += 1;
    }
    proof {
        assert(candidates@.take(n as int) =~= candidates@);
    }
    r
}

/// Split the residual ids into consecutive chunks of `batch_size`; every
/// chunk is full except possibly the last, and together they are exactly
/// the input in order.
#[verifier::loop_isolation(false)]
pub fn chunk_ids(ids: &Vec<i64>, batch_size: usize) -> (r: Vec<Vec<i64>>)
    requires
        batch_size >= 1,
    ensures
        r@.len() == (ids@.len() + batch_size - 1) / (batch_size as int),
        forall|i: int|
            0 <= i < r@.len() ==> (#[trigger] r@[i])@ == ids@.subrange(
                i * (batch_size as int),
                min((i + 1) * (batch_size as int), ids@.len() as int),
            ),
{
    let ghost b = batch_size as int;
    let n = ids.len();
    let mut r: Vec<Vec<i64>> = Vec::new();
    let mut cur: Vec<i64> = Vec::new();
    let mut k: usize = 0;
    proof {
        assert((0 as int) * b == 0) by (nonlinear_arith);
        assert(cur@ =~= ids@.subrange(0, 0));
    }
    while k < n
        invariant
            0 <= k <= n,
            k == r@.len() * b + cur@.len(),
            cur@.len() < batch_size,
            cur@ =~= ids@.subrange(r@.len() * b, k as int),
            forall|i: int|
                0 <= i < r@.len() ==> (#[trigger] r@[i])@ =~= ids@.subrange(i * b, i * b + b),
            forall|i: int| 0 <= i < r@.len() ==> #[trigger] ((i + 1) * b) <= k,
        decreases n - k,
    {
        let ghost m = r@.len() as int;
        cur.push(ids[k]);
        proof {
            assert(cur@ =~= ids@.subrange(m * b, k + 1));
        }
        if cur.len() == batch_size {
            r.push(cur);
            cur = Vec::new();
            proof {
                assert((m + 1) * b == m * b + b) by (nonlinear_arith);
                assert(r@[m]@ =~= ids@.subrange(m * b, m * b + b));
                assert(cur@ =~= ids@.subrange((m + 1) * b, k + 1));
            }
        }
        k += 1;
    }
    let ghost m = r@.len() as int;
    let ghost rem = cur@.len() as int;
    if cur.len() > 0 {
        r.push(cur);
        proof {
            assert(r@[m]@ =~= ids@.subrange(m * b, n as int));
        }
    }
    proof {
        assert(n as int == m * b + rem);
        assert((m + 1) * b == m * b + b) by (nonlinear_arith);
        vstd::arithmetic::div_mod::lemma_fundamental_div_mod_converse(
            n + b - 1,
            b,
            if rem == 0 {
                m
            } else {
                m + 1
            },
            if rem == 0 {
                b - 1
            } else {
                rem - 1
            },
        );
        assert forall|i: int| 0 <= i < r@.len() implies (#[trigger] r@[i])@ == ids@.subrange(
            i * b,
            min((i + 1) * b, n as int),
        ) by {
            assert((i + 1) * b == i * b + b) by (nonlinear_arith);
            if i < m {
                assert((i + 1) * b <= n);
                assert(min((i + 1) * b, n as int) == i * b + b);
            } else {
                assert(min((i + 1) * b, n as int) == n as int);
            }
        }
    }
    r
}

} // verus!
