//! Shrines and world progress — the core loop.
//!
//! A shrine starts dormant and is rekindled once; rekindling is idempotent.
//! [`Progress`] counts the lit shrines out of the total, and is what the HUD,
//! sky and save system read. The ids of the lit shrines are what a save
//! remembers; loading relights exactly those shrines in a freshly spawned
//! world.

use std::collections::HashSet;
use vstd::prelude::*;

verus! {

broadcast use vstd::std_specs::hash::group_hash_axioms;

/// A shrine landmark: dormant until rekindled. `index` is its spawn index,
/// stable across runs because placement is deterministic, and is the id a
/// save persists.
#[derive(Clone, Copy, Debug, PartialEq, Eq, Structural)]
pub struct Shrine {
    pub lit: bool,
    pub index: u32,
}

/// Shared world progress: how many shrines have been rekindled out of the
/// total.
#[derive(Clone, Copy, Debug, PartialEq, Eq, Structural)]
pub struct Progress {
    pub lit: u32,
    pub total: u32,
}

/// Number of lit shrines in `shrines`.
pub open spec fn lit_count(shrines: Seq<Shrine>) -> nat
    decreases shrines.len(),
{
    if shrines.len() == 0 {
        0
    } else {
        lit_count(shrines.drop_last()) + if shrines.last().lit {
            1nat
        } else {
            0nat
        }
    }
}

/// `progress` describes `shrines`: it counts the lit ones out of all of them.
pub open spec fn progress_matches(shrines: Seq<Shrine>, progress: Progress) -> bool {
    &&& progress.lit == lit_count(shrines)
    &&& progress.total as int == shrines.len()
}

/// The world as spawned with `count` shrines: all dormant, the one at
/// position `i` carrying id `i`.
pub open spec fn spawned(count: nat) -> Seq<Shrine> {
    Seq::new(count, |i: int| Shrine { lit: false, index: i as u32 })
}

/// Request `j` of `requests` is the first one naming an existing, dormant
/// shrine.
pub open spec fn is_fresh_request(shrines: Seq<Shrine>, requests: Seq<usize>, j: int) -> bool {
    let r = requests[j];
    &&& r < shrines.len()
    &&& !shrines[r as int].lit
    &&& !requests.take(j).contains(r)
}

/// The requests that rekindle a shrine, in order: each existing dormant shrine
/// named by `requests`, at its first mention.
pub open spec fn fresh_requests(shrines: Seq<Shrine>, requests: Seq<usize>) -> Seq<usize>
    decreases requests.len(),
{
    if requests.len() == 0 {
        Seq::empty()
    } else {
        let before = fresh_requests(shrines, requests.drop_last());
        if is_fresh_request(shrines, requests, requests.len() - 1) {
            before.push(requests.last())
        } else {
            before
        }
    }
}

/// The ids of the lit shrines, in world order — what a save records.
pub open spec fn saved_ids(shrines: Seq<Shrine>) -> Seq<u32>
    decreases shrines.len(),
{
    if shrines.len() == 0 {
        Seq::empty()
    } else {
        let before = saved_ids(shrines.drop_last());
        if shrines.last().lit {
            before.push(shrines.last().index)
        } else {
            before
        }
    }
}

/// Positions of the dormant shrines whose id is in `ids`, in world order —
/// the shrines a load relights.
pub open spec fn relit_positions(shrines: Seq<Shrine>, ids: Set<u32>) -> Seq<usize>
    decreases shrines.len(),
{
    if shrines.len() == 0 {
        Seq::empty()
    } else {
        let before = relit_positions(shrines.drop_last(), ids);
        let last = shrines.last();
        if !last.lit && ids.contains(last.index) {
            before.push((shrines.len() - 1) as usize)
        } else {
            before
        }
    }
}

/// The shrines after every request in `requests` naming an existing shrine
/// has lit it.
pub open spec fn requests_applied(shrines: Seq<Shrine>, requests: Seq<usize>) -> Seq<Shrine> {
    Seq::new(
        shrines.len(),
        |i: int| Shrine { lit: shrines[i].lit || requests.contains(i as usize), index: shrines[i].index },
    )
}

/// The shrines after every shrine whose id is in `ids` has been lit.
pub open spec fn ids_applied(shrines: Seq<Shrine>, ids: Set<u32>) -> Seq<Shrine> {
    Seq::new(
        shrines.len(),
        |i: int| Shrine { lit: shrines[i].lit || ids.contains(shrines[i].index), index: shrines[i].index },
    )
}

/// Changing one shrine changes the lit count by the change in its flag.
proof fn lemma_lit_count_update(shrines: Seq<Shrine>, i: int, s: Shrine)
    requires
        0 <= i < shrines.len(),
    ensures
        lit_count(shrines.update(i, s)) + (if shrines[i].lit {
            1int
        } else {
            0int
        }) == lit_count(shrines) + (if s.lit {
            1int
        } else {
            0int
        }),
    decreases shrines.len(),
{
    let u = shrines.update(i, s);
    if i == shrines.len() - 1 {
        assert(u.drop_last() =~= shrines.drop_last());
    } else {
        assert(u.drop_last() =~= shrines.drop_last().update(i, s));
        lemma_lit_count_update(shrines.drop_last(), i, s);
    }
}

/// The lit count never exceeds the number of shrines.
proof fn lemma_lit_count_bounded(shrines: Seq<Shrine>)
    ensures
        lit_count(shrines) <= shrines.len(),
    decreases shrines.len(),
{
    if shrines.len() > 0 {
        lemma_lit_count_bounded(shrines.drop_last());
    }
}

/// A freshly spawned world has nothing lit.
proof fn lemma_spawned_unlit(count: nat)
    ensures
        lit_count(spawned(count)) == 0,
    decreases count,
{
    if count > 0 {
        assert(spawned(count).drop_last() =~= spawned((count - 1) as nat));
        lemma_spawned_unlit((count - 1) as nat);
    }
}

/// Appending `a` adds exactly `a` to what a sequence contains.
proof fn lemma_push_contains<A>(s: Seq<A>, a: A, x: A)
    ensures
        s.push(a).contains(x) <==> (s.contains(x) || x == a),
{
    let p = s.push(a);
    if s.contains(x) {
        let k = choose|k: int| 0 <= k < s.len() && s[k] == x;
        assert(p[k] == x);
    }
    if x == a {
        assert(p[s.len() as int] == x);
    }
    if p.contains(x) {
        let k = choose|k: int| 0 <= k < p.len() && p[k] == x;
        if k < s.len() {
            assert(s[k] == x);
        }
    }
}

/// A request is among the fresh ones exactly when it names an existing,
/// dormant shrine: a batch of requests rekindles precisely the dormant shrines
/// it names, and no others.
pub proof fn lemma_fresh_contains(shrines: Seq<Shrine>, requests: Seq<usize>, x: usize)
    ensures
        fresh_requests(shrines, requests).contains(x) <==> (x < shrines.len() && !shrines[x as int].lit
            && requests.contains(x)),
    decreases requests.len(),
{
    if requests.len() > 0 {
        let d = requests.drop_last();
        let r = requests.last();
        lemma_fresh_contains(shrines, d, x);
        assert(requests.take(requests.len() - 1) =~= d);
        assert(requests =~= d.push(r));
        lemma_push_contains(d, r, x);
        if is_fresh_request(shrines, requests, requests.len() - 1) {
            lemma_push_contains(fresh_requests(shrines, d), r, x);
        }
    }
}

/// The fresh requests of a prefix are no more than those of the whole.
proof fn lemma_fresh_prefix_len(shrines: Seq<Shrine>, requests: Seq<usize>, k: int)
    requires
        0 <= k <= requests.len(),
    ensures
        fresh_requests(shrines, requests.take(k)).len() <= fresh_requests(shrines, requests).len(),
    decreases requests.len(),
{
    if k == requests.len() {
        assert(requests.take(k) =~= requests);
    } else {
        let d = requests.drop_last();
        assert(d.take(k) =~= requests.take(k));
        lemma_fresh_prefix_len(shrines, d, k);
    }
}

/// The saved ids are exactly the ids of the lit shrines.
pub proof fn lemma_saved_ids_contains(shrines: Seq<Shrine>, x: u32)
    ensures
        saved_ids(shrines).contains(x) <==> exists|i: int|
            0 <= i < shrines.len() && shrines[i].lit && shrines[i].index == x,
    decreases shrines.len(),
{
    if shrines.len() > 0 {
        let d = shrines.drop_last();
        let last = shrines.last();
        lemma_saved_ids_contains(d, x);
        if last.lit {
            lemma_push_contains(saved_ids(d), last.index, x);
        }
        if exists|i: int| 0 <= i < shrines.len() && shrines[i].lit && shrines[i].index == x {
            let i = choose|i: int| 0 <= i < shrines.len() && shrines[i].lit && shrines[i].index == x;
            if i < shrines.len() - 1 {
                assert(d[i] == shrines[i]);
            }
        }
        if exists|i: int| 0 <= i < d.len() && d[i].lit && d[i].index == x {
            let i = choose|i: int| 0 <= i < d.len() && d[i].lit && d[i].index == x;
            assert(shrines[i] == d[i]);
        }
    }
}

/// Each shrine a batch of requests rekindles is reported once, however often
/// it is named.
pub proof fn lemma_fresh_no_duplicates(shrines: Seq<Shrine>, requests: Seq<usize>)
    ensures
        fresh_requests(shrines, requests).no_duplicates(),
    decreases requests.len(),
{
    if requests.len() > 0 {
        let d = requests.drop_last();
        let r = requests.last();
        lemma_fresh_no_duplicates(shrines, d);
        assert(requests.take(requests.len() - 1) =~= d);
        if is_fresh_request(shrines, requests, requests.len() - 1) {
            let before = fresh_requests(shrines, d);
            lemma_fresh_contains(shrines, d, r);
            let p = before.push(r);
            assert forall|a: int, b: int| 0 <= a < p.len() && 0 <= b < p.len() && a != b implies p[a]
                != p[b] by {
                if a == before.len() {
                    assert(before.contains(p[b]));
                } else if b == before.len() {
                    assert(before.contains(p[a]));
                }
            }
        }
    }
}

/// A load relights a position exactly when it holds a dormant shrine whose
/// id was saved.
pub proof fn lemma_relit_contains(shrines: Seq<Shrine>, ids: Set<u32>, p: usize)
    requires
        shrines.len() <= usize::MAX,
    ensures
        relit_positions(shrines, ids).contains(p) <==> (p < shrines.len() && !shrines[p as int].lit
            && ids.contains(shrines[p as int].index)),
    decreases shrines.len(),
{
    if shrines.len() > 0 {
        let d = shrines.drop_last();
        let last = shrines.last();
        lemma_relit_contains(d, ids, p);
        let before = relit_positions(d, ids);
        if !last.lit && ids.contains(last.index) {
            lemma_push_contains(before, (shrines.len() - 1) as usize, p);
        }
        lemma_relit_below(d, ids, p);
        if p < d.len() {
            assert(d[p as int] == shrines[p as int]);
        } else if p == d.len() {
            assert(last == shrines[p as int]);
        }
    }
}

/// Every relit position lies inside the world.
proof fn lemma_relit_below(shrines: Seq<Shrine>, ids: Set<u32>, p: usize)
    requires
        shrines.len() <= usize::MAX,
    ensures
        relit_positions(shrines, ids).contains(p) ==> p < shrines.len(),
    decreases shrines.len(),
{
    if shrines.len() > 0 {
        let d = shrines.drop_last();
        let last = shrines.last();
        lemma_relit_below(d, ids, p);
        if !last.lit && ids.contains(last.index) {
            lemma_push_contains(relit_positions(d, ids), (shrines.len() - 1) as usize, p);
        }
    }
}

/// A load reports each relit position once, in increasing order.
pub proof fn lemma_relit_increasing(shrines: Seq<Shrine>, ids: Set<u32>)
    requires
        shrines.len() <= usize::MAX,
    ensures
        forall|a: int, b: int|
            0 <= a < b < relit_positions(shrines, ids).len() ==> relit_positions(shrines, ids)[a]
                < relit_positions(shrines, ids)[b],
    decreases shrines.len(),
{
    if shrines.len() > 0 {
        let d = shrines.drop_last();
        let last = shrines.last();
        lemma_relit_increasing(d, ids);
        let before = relit_positions(d, ids);
        if !last.lit && ids.contains(last.index) {
            assert forall|a: int| 0 <= a < before.len() implies before[a] < shrines.len() - 1 by {
                assert(before.contains(before[a]));
                lemma_relit_below(d, ids, before[a]);
            }
            let after = before.push((shrines.len() - 1) as usize);
            assert(relit_positions(shrines, ids) == after);
            assert forall|a: int, b: int| 0 <= a < b < after.len() implies after[a] < after[b] by {
                if b == before.len() {
                    assert(after[b] == shrines.len() - 1);
                    assert(after[a] == before[a]);
                } else {
                    assert(after[a] == before[a]);
                    assert(after[b] == before[b]);
                }
            }
        }
    }
}

/// Spawn the bookkeeping for `count` shrines placed in order: all dormant,
/// ids `0, 1, 2, …`, and a [`Progress`] of `0` lit out of `count`.
pub fn spawn_shrines(count: usize) -> (res: (Vec<Shrine>, Progress))
    ensures
        res.0@.len() == count,
        forall|i: int| 0 <= i < count ==> res.0@[i] == (Shrine { lit: false, index: i as u32 }),
        res.1 == (Progress { lit: 0, total: count as u32 }),
        res.0@ == spawned(count as nat),
        count <= u32::MAX ==> progress_matches(res.0@, res.1),
{
    let mut shrines: Vec<Shrine> = Vec::with_capacity(count);
    let mut i: usize = 0;
    while i < count
        invariant
            i <= count,
            shrines@.len() == i,
            forall|j: int| 0 <= j < i ==> shrines@[j] == (Shrine { lit: false, index: j as u32 }),
        decreases count - i,
    {
        shrines.push(Shrine { lit: false, index: #[verifier::truncate] (i as u32) });
        i = i + 1;
    }
    proof {
        assert(shrines@ =~= spawned(count as nat));
        lemma_spawned_unlit(count as nat);
    }
    (shrines, Progress { lit: 0, total: #[verifier::truncate] (count as u32) })
}

/// Mark a shrine lit, bumping [`Progress`]. Returns `true` if the shrine was
/// newly lit, `false` if it was already lit (then nothing changes).
pub fn light_shrine(shrine: &mut Shrine, progress: &mut Progress) -> (newly: bool)
    requires
        !old(shrine).lit ==> old(progress).lit < u32::MAX,
    ensures
        newly == !old(shrine).lit,
        *final(shrine) == (Shrine { lit: true, index: old(shrine).index }),
        final(progress).total == old(progress).total,
        final(progress).lit == old(progress).lit + if newly {
            1int
        } else {
            0int
        },
{
    if shrine.lit {
        return false;
    }
    shrine.lit = true;
    progress.lit = progress.lit + 1;
    true
}

/// Apply rekindle requests, each naming a shrine by its position in
/// `shrines`: a request for a missing position is skipped, one for a dormant
/// shrine lights it. Returns the positions newly lit, in order — one
/// "shrine lit" event each.
pub fn rekindle_shrines(shrines: &mut Vec<Shrine>, progress: &mut Progress, requests: &[usize]) -> (lit_now: Vec<usize>)
    requires
        old(progress).lit + fresh_requests(old(shrines)@, requests@).len() <= u32::MAX,
    ensures
        lit_now@ == fresh_requests(old(shrines)@, requests@),
        final(shrines)@.len() == old(shrines)@.len(),
        final(shrines)@ == requests_applied(old(shrines)@, requests@),
        forall|i: int|
            0 <= i < old(shrines)@.len() ==> #[trigger] final(shrines)@[i] == (Shrine {
                lit: old(shrines)@[i].lit || requests@.contains(i as usize),
                index: old(shrines)@[i].index,
            }),
        forall|x: usize|
            #[trigger] lit_now@.contains(x) <==> (x < old(shrines)@.len() && !old(shrines)@[x as int].lit
                && requests@.contains(x)),
        lit_now@.no_duplicates(),
        final(progress).total == old(progress).total,
        final(progress).lit == old(progress).lit + lit_now@.len(),
        progress_matches(old(shrines)@, *old(progress)) ==> progress_matches(
            final(shrines)@,
            *final(progress),
        ),
{
    let ghost s0 = shrines@;
    let ghost p0 = *progress;
    let mut lit_now: Vec<usize> = Vec::new();
    let mut k: usize = 0;
    while k < requests.len()
        invariant
            k <= requests@.len(),
            shrines@.len() == s0.len(),
            forall|i: int|
                0 <= i < s0.len() ==> shrines@[i] == (Shrine {
                    lit: s0[i].lit || requests@.take(k as int).contains(i as usize),
                    index: s0[i].index,
                }),
            lit_now@ == fresh_requests(s0, requests@.take(k as int)),
            progress.total == p0.total,
            progress.lit == p0.lit + lit_now@.len(),
            p0.lit + fresh_requests(s0, requests@).len() <= u32::MAX,
            progress_matches(s0, p0) ==> progress_matches(shrines@, *progress),
        decreases requests@.len() - k,
    {
        let r = requests[k];
        let ghost before = requests@.take(k as int);
        let ghost after = requests@.take(k + 1);
        assert(after.drop_last() =~= before);
        assert(after.take(k as int) =~= before);
        assert(after.last() == r);
        proof {
            lemma_fresh_prefix_len(s0, requests@, k + 1);
            lemma_fresh_contains(s0, before, r);
        }
        assert(after =~= before.push(r));
        assert forall|x: usize| #[trigger] after.contains(x) <==> (before.contains(x) || x == r) by {
            lemma_push_contains(before, r, x);
        }
        if r < shrines.len() {
            let mut s = shrines[r];
            let ghost cur = shrines@;
            let newly = light_shrine(&mut s, progress);
            shrines.set(r, s);
            proof {
                lemma_lit_count_update(cur, r as int, s);
            }
            if newly {
                lit_now.push(r);
            }
        }
        k = k + 1;
    }
    assert(requests@.take(requests@.len() as int) =~= requests@);
    assert(shrines@ =~= requests_applied(s0, requests@));
    proof {
        lemma_fresh_no_duplicates(s0, requests@);
        assert forall|x: usize| #[trigger] lit_now@.contains(x) <==> (x < s0.len() && !s0[x as int].lit
            && requests@.contains(x)) by {
            lemma_fresh_contains(s0, requests@, x);
        }
    }
    lit_now
}

/// Apply a loaded save to the spawned shrines: every dormant shrine whose id
/// is in `ids` is lit (silently — the caller emits no "shrine lit" event).
/// Returns the positions newly lit, in world order.
pub fn apply_loaded_progress(ids: &HashSet<u32>, shrines: &mut Vec<Shrine>, progress: &mut Progress) -> (relit: Vec<usize>)
    requires
        old(progress).lit + relit_positions(old(shrines)@, ids@).len() <= u32::MAX,
    ensures
        relit@ == relit_positions(old(shrines)@, ids@),
        final(shrines)@.len() == old(shrines)@.len(),
        final(shrines)@ == ids_applied(old(shrines)@, ids@),
        forall|i: int|
            0 <= i < old(shrines)@.len() ==> #[trigger] final(shrines)@[i] == (Shrine {
                lit: old(shrines)@[i].lit || ids@.contains(old(shrines)@[i].index),
                index: old(shrines)@[i].index,
            }),
        forall|p: usize|
            #[trigger] relit@.contains(p) <==> (p < old(shrines)@.len() && !old(shrines)@[p as int].lit
                && ids@.contains(old(shrines)@[p as int].index)),
        forall|a: int, b: int| 0 <= a < b < relit@.len() ==> relit@[a] < relit@[b],
        final(progress).total == old(progress).total,
        final(progress).lit == old(progress).lit + relit@.len(),
        progress_matches(old(shrines)@, *old(progress)) ==> progress_matches(
            final(shrines)@,
            *final(progress),
        ),
{
    let ghost s0 = shrines@;
    let ghost p0 = *progress;
    let mut relit: Vec<usize> = Vec::new();
    let mut i: usize = 0;
    while i < shrines.len()
        invariant
            i <= s0.len(),
            shrines@.len() == s0.len(),
            forall|j: int|
                0 <= j < s0.len() ==> shrines@[j] == (if j < i {
                    Shrine { lit: s0[j].lit || ids@.contains(s0[j].index), index: s0[j].index }
                } else {
                    s0[j]
                }),
            relit@ == relit_positions(s0.take(i as int), ids@),
            progress.total == p0.total,
            progress.lit == p0.lit + relit@.len(),
            p0.lit + relit_positions(s0, ids@).len() <= u32::MAX,
            progress_matches(s0, p0) ==> progress_matches(shrines@, *progress),
        decreases s0.len() - i,
    {
        let ghost before = s0.take(i as int);
        let ghost after = s0.take(i + 1);
        assert(after.drop_last() =~= before);
        proof {
            lemma_relit_prefix_len(s0, ids@, i + 1);
        }
        let mut s = shrines[i];
        if ids.contains(&s.index) {
            let ghost cur = shrines@;
            let newly = light_shrine(&mut s, progress);
            shrines.set(i, s);
            proof {
                lemma_lit_count_update(cur, i as int, s);
            }
            if newly {
                relit.push(i);
            }
        }
        i = i + 1;
    }
    assert(s0.take(s0.len() as int) =~= s0);
    assert(shrines@ =~= ids_applied(s0, ids@));
    proof {
        lemma_relit_increasing(s0, ids@);
        assert forall|p: usize| #[trigger] relit@.contains(p) <==> (p < s0.len() && !s0[p as int].lit
            && ids@.contains(s0[p as int].index)) by {
            lemma_relit_contains(s0, ids@, p);
        }
    }
    relit
}

/// The relit positions of a prefix are no more than those of the whole.
proof fn lemma_relit_prefix_len(shrines: Seq<Shrine>, ids: Set<u32>, k: int)
    requires
        0 <= k <= shrines.len(),
    ensures
        relit_positions(shrines.take(k), ids).len() <= relit_positions(shrines, ids).len(),
    decreases shrines.len(),
{
    if k == shrines.len() {
        assert(shrines.take(k) =~= shrines);
    } else {
        let d = shrines.drop_last();
        assert(d.take(k) =~= shrines.take(k));
        lemma_relit_prefix_len(d, ids, k);
    }
}

/// How many shrines a batch of rekindle requests would newly light: the
/// amount it adds to the lit count.
pub fn fresh_request_count(shrines: &[Shrine], requests: &[usize]) -> (count: usize)
    ensures
        count == fresh_requests(shrines@, requests@).len(),
{
    let mut count: usize = 0;
    let mut k: usize = 0;
    while k < requests.len()
        invariant
            k <= requests@.len(),
            count == fresh_requests(shrines@, requests@.take(k as int)).len(),
        decreases requests@.len() - k,
    {
        let r = requests[k];
        let ghost before = requests@.take(k as int);
        let ghost after = requests@.take(k + 1);
        assert(after.drop_last() =~= before);
        assert(after.take(k as int) =~= before);
        proof {
            lemma_fresh_prefix_len(shrines@, requests@, k + 1);
            lemma_fresh_count_bounded(shrines@, requests@);
        }
        if r < shrines.len() && !shrines[r].lit {
            let mut seen = false;
            let mut j: usize = 0;
            while j < k
                invariant
                    j <= k,
                    k < requests@.len(),
                    seen <==> requests@.take(j as int).contains(r),
                decreases k - j,
            {
                proof {
                    lemma_push_contains(requests@.take(j as int), requests@[j as int], r);
                    assert(requests@.take(j + 1) =~= requests@.take(j as int).push(requests@[j as int]));
                }
                if requests[j] == r {
                    seen = true;
                }
                j = j + 1;
            }
            if !seen {
                count = count + 1;
            }
        }
        k = k + 1;
    }
    assert(requests@.take(requests@.len() as int) =~= requests@);
    count
}

/// A batch never newly lights more shrines than it holds requests.
proof fn lemma_fresh_count_bounded(shrines: Seq<Shrine>, requests: Seq<usize>)
    ensures
        fresh_requests(shrines, requests).len() <= requests.len(),
    decreases requests.len(),
{
    if requests.len() > 0 {
        lemma_fresh_count_bounded(shrines, requests.drop_last());
    }
}

/// How many shrines a loaded save would relight: the amount it adds to the
/// lit count.
pub fn relit_count(ids: &HashSet<u32>, shrines: &[Shrine]) -> (count: usize)
    ensures
        count == relit_positions(shrines@, ids@).len(),
{
    let mut count: usize = 0;
    let mut i: usize = 0;
    while i < shrines.len()
        invariant
            i <= shrines@.len(),
            count == relit_positions(shrines@.take(i as int), ids@).len(),
            count <= i,
        decreases shrines@.len() - i,
    {
        assert(shrines@.take(i + 1).drop_last() =~= shrines@.take(i as int));
        if !shrines[i].lit && ids.contains(&shrines[i].index) {
            count = count + 1;
        }
        i = i + 1;
    }
    assert(shrines@.take(shrines@.len() as int) =~= shrines@);
    count
}

/// The ids of the lit shrines, in world order — the progress a save records.
pub fn lit_shrine_ids(shrines: &[Shrine]) -> (ids: Vec<u32>)
    ensures
        ids@ == saved_ids(shrines@),
        forall|x: u32|
            #[trigger] ids@.contains(x) <==> exists|i: int|
                0 <= i < shrines@.len() && shrines@[i].lit && shrines@[i].index == x,
{
    let mut ids: Vec<u32> = Vec::new();
    let mut i: usize = 0;
    while i < shrines.len()
        invariant
            i <= shrines@.len(),
            ids@ == saved_ids(shrines@.take(i as int)),
        decreases shrines@.len() - i,
    {
        assert(shrines@.take(i + 1).drop_last() =~= shrines@.take(i as int));
        if shrines[i].lit {
            ids.push(shrines[i].index);
        }
        i = i + 1;
    }
    assert(shrines@.take(shrines@.len() as int) =~= shrines@);
    proof {
        assert forall|x: u32| #[trigger] ids@.contains(x) <==> exists|i: int|
            0 <= i < shrines@.len() && shrines@[i].lit && shrines@[i].index == x by {
            lemma_saved_ids_contains(shrines@, x);
        }
    }
    ids
}

/// The lit-shrine ids loaded from a save, held until the shrines exist.
pub struct LoadedProgress {
    pub lit_shrines: HashSet<u32>,
}

impl LoadedProgress {
    /// Collect the saved ids into a set (duplicates collapse).
    pub fn from_saved(ids: Vec<u32>) -> (loaded: LoadedProgress)
        ensures
            loaded.lit_shrines@ == ids@.to_set(),
    {
        let mut set: HashSet<u32> = HashSet::new();
        let mut i: usize = 0;
        while i < ids.len()
            invariant
                i <= ids@.len(),
                set@ == ids@.take(i as int).to_set(),
            decreases ids@.len() - i,
        {
            let ghost before = ids@.take(i as int);
            let ghost after = ids@.take(i + 1);
            assert(after =~= before.push(ids@[i as int]));
            proof {
                before.lemma_push_to_set_commute(ids@[i as int]);
            }
            set.insert(ids[i]);
            i = i + 1;
        }
        assert(ids@.take(ids@.len() as int) =~= ids@);
        LoadedProgress { lit_shrines: set }
    }
}

/// Saving then loading restores the world: recording the lit shrines' ids,
/// spawning the shrines afresh and relighting those ids gives back exactly
/// the same shrines, and a progress that counts them.
pub proof fn lemma_save_load_round_trip(world: Seq<Shrine>)
    requires
        world.len() <= u32::MAX as nat + 1,
        forall|i: int| 0 <= i < world.len() ==> #[trigger] world[i].index == i as u32,
    ensures
        ({
            let fresh = spawned(world.len());
            let ids = saved_ids(world).to_set();
            &&& ids_applied(fresh, ids) == world
            &&& relit_positions(fresh, ids).len() == lit_count(world)
        }),
{
    let fresh = spawned(world.len());
    let ids = saved_ids(world).to_set();
    let restored = ids_applied(fresh, ids);
    assert forall|i: int| 0 <= i < world.len() implies restored[i] == world[i] by {
        assert(fresh[i].index == i as u32);
        assert(world[i].index == i as u32);
        assert((i as u32) as int == i);
        assert(ids.contains(i as u32) == saved_ids(world).contains(i as u32));
        lemma_saved_ids_contains(world, i as u32);
        if world[i].lit {
            assert(saved_ids(world).contains(i as u32));
        }
        if saved_ids(world).contains(i as u32) {
            let j = choose|j: int| 0 <= j < world.len() && world[j].lit && world[j].index == i as u32;
            assert(world[j].index == j as u32);
            assert(j == i);
        }
    }
    assert(restored =~= world);
    lemma_spawned_unlit(world.len());
    lemma_relit_count(fresh, ids, world);
}

/// Relighting a dormant world lights as many shrines as end up lit.
proof fn lemma_relit_count(fresh: Seq<Shrine>, ids: Set<u32>, world: Seq<Shrine>)
    requires
        lit_count(fresh) == 0,
        world.len() == fresh.len(),
        forall|i: int|
            0 <= i < fresh.len() ==> world[i].lit == (fresh[i].lit || ids.contains(fresh[i].index)),
    ensures
        relit_positions(fresh, ids).len() == lit_count(world),
    decreases fresh.len(),
{
    if fresh.len() > 0 {
        if fresh.last().lit {
            lemma_lit_count_bounded(fresh.drop_last());
        }
        lemma_relit_count(fresh.drop_last(), ids, world.drop_last());
    }
}

/// Each fresh request lights exactly one more shrine.
proof fn lemma_fresh_count(shrines: Seq<Shrine>, requests: Seq<usize>)
    requires
        shrines.len() <= usize::MAX,
    ensures
        lit_count(requests_applied(shrines, requests)) == lit_count(shrines) + fresh_requests(
            shrines,
            requests,
        ).len(),
    decreases requests.len(),
{
    if requests.len() == 0 {
        assert(requests_applied(shrines, requests) =~= shrines);
    } else {
        let d = requests.drop_last();
        let r = requests.last();
        lemma_fresh_count(shrines, d);
        assert(requests.take(requests.len() - 1) =~= d);
        assert(requests =~= d.push(r));
        let before = requests_applied(shrines, d);
        let after = requests_applied(shrines, requests);
        assert forall|x: usize| #[trigger] requests.contains(x) <==> (d.contains(x) || x == r) by {
            lemma_push_contains(d, r, x);
        }
        assert forall|i: int| 0 <= i < shrines.len() implies #[trigger] after[i] == (if i == r {
            Shrine { lit: true, index: shrines[i].index }
        } else {
            before[i]
        }) by {
            assert((i as usize) as int == i);
            assert(requests.contains(i as usize) <==> (d.contains(i as usize) || i as usize == r));
        }
        if r < shrines.len() && !before[r as int].lit {
            assert(after =~= before.update(r as int, Shrine { lit: true, index: shrines[r as int].index }));
            lemma_lit_count_update(before, r as int, Shrine { lit: true, index: shrines[r as int].index });
        } else {
            assert(after =~= before);
        }
    }
}

/// Consistent progress never exceeds its total.
pub proof fn lemma_progress_within_total(shrines: Seq<Shrine>, progress: Progress)
    requires
        progress_matches(shrines, progress),
    ensures
        progress.lit <= progress.total,
{
    lemma_lit_count_bounded(shrines);
}

/// In a world whose progress counts its lit shrines, any batch of rekindle
/// requests can be applied: the lit count stays within the total.
pub proof fn lemma_rekindle_fits(shrines: Seq<Shrine>, progress: Progress, requests: Seq<usize>)
    requires
        progress_matches(shrines, progress),
        shrines.len() <= usize::MAX,
    ensures
        progress.lit + fresh_requests(shrines, requests).len() <= progress.total,
{
    lemma_fresh_count(shrines, requests);
    lemma_lit_count_bounded(requests_applied(shrines, requests));
}

/// In a world whose progress counts its lit shrines, any loaded save can be
/// applied: the lit count stays within the total.
pub proof fn lemma_load_fits(shrines: Seq<Shrine>, progress: Progress, ids: Set<u32>)
    requires
        progress_matches(shrines, progress),
    ensures
        progress.lit + relit_positions(shrines, ids).len() <= progress.total,
{
    lemma_relit_bounded(shrines, ids);
}

proof fn lemma_relit_bounded(shrines: Seq<Shrine>, ids: Set<u32>)
    ensures
        lit_count(shrines) + relit_positions(shrines, ids).len() <= shrines.len(),
    decreases shrines.len(),
{
    if shrines.len() > 0 {
        lemma_relit_bounded(shrines.drop_last(), ids);
    }
}

/// Rekindling is idempotent: sending the same requests again to the world
/// they produced lights nothing more.
pub proof fn lemma_rekindle_idempotent(shrines: Seq<Shrine>, requests: Seq<usize>)
    requires
        shrines.len() <= usize::MAX,
    ensures
        fresh_requests(requests_applied(shrines, requests), requests).len() == 0,
{
    let after = requests_applied(shrines, requests);
    let again = fresh_requests(after, requests);
    if again.len() > 0 {
        let x = again[0];
        assert(again.contains(x));
        lemma_fresh_contains(after, requests, x);
        assert(((x as int) as usize) == x);
    }
}

/// Loading is idempotent: applying the same saved ids to the world they
/// produced relights nothing more.
pub proof fn lemma_load_idempotent(shrines: Seq<Shrine>, ids: Set<u32>)
    ensures
        relit_positions(ids_applied(shrines, ids), ids).len() == 0,
    decreases shrines.len(),
{
    if shrines.len() > 0 {
        let d = shrines.drop_last();
        lemma_load_idempotent(d, ids);
        assert(ids_applied(shrines, ids).drop_last() =~= ids_applied(d, ids));
    }
}

} // verus!
