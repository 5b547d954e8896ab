//! The "press E to rekindle" target: the nearest dormant shrine within reach.
//!
//! Each candidate shrine is `(id, distance key, lit)`. The distance key orders
//! shrines by their horizontal distance to the player: a smaller key is a
//! nearer shrine, equal keys are equally near, and a shrine is within reach
//! when its key is below the reach key.

use vstd::prelude::*;

verus! {

/// Entry `j` is a dormant shrine within reach.
pub open spec fn is_candidate<T>(shrines: Seq<(T, u32, bool)>, radius: u32, j: int) -> bool {
    &&& 0 <= j < shrines.len()
    &&& !shrines[j].2
    &&& shrines[j].1 < radius
}

/// Entry `j` is the first, among the first `n` entries, of the nearest
/// dormant shrines within reach: no candidate is nearer, and every earlier
/// candidate is strictly farther.
pub open spec fn is_first_nearest_upto<T>(
    shrines: Seq<(T, u32, bool)>,
    radius: u32,
    j: int,
    n: int,
) -> bool {
    &&& 0 <= j < n
    &&& is_candidate(shrines, radius, j)
    &&& forall|k: int|
        0 <= k < n && is_candidate(shrines, radius, k) ==> shrines[j].1 <= #[trigger] shrines[k].1
    &&& forall|k: int|
        0 <= k < j && is_candidate(shrines, radius, k) ==> shrines[j].1 < #[trigger] shrines[k].1
}

/// Entry `j` is the first of the nearest dormant shrines within reach.
pub open spec fn is_first_nearest<T>(shrines: Seq<(T, u32, bool)>, radius: u32, j: int) -> bool {
    is_first_nearest_upto(shrines, radius, j, shrines.len() as int)
}

/// The id of the nearest dormant shrine whose distance key is below
/// `radius`, or `None` if there is none. Lit shrines are ignored, and of
/// several equally near shrines the first is chosen.
pub fn nearest_dormant_in_range<T: Copy>(shrines: &[(T, u32, bool)], radius: u32) -> (nearest:
    Option<T>)
    ensures
        nearest is None <==> !exists|j: int| is_candidate(shrines@, radius, j),
        nearest is Some ==> exists|j: int|
            is_first_nearest(shrines@, radius, j) && nearest == Some(shrines@[j].0),
        nearest is None <==> forall|j: int|
            0 <= j < shrines@.len() ==> #[trigger] shrines@[j].2 || shrines@[j].1 >= radius,
        nearest is Some ==> exists|j: int|
            #![trigger shrines@[j]]
            {
                &&& 0 <= j < shrines@.len()
                &&& !shrines@[j].2
                &&& shrines@[j].1 < radius
                &&& nearest == Some(shrines@[j].0)
                &&& forall|k: int|
                    0 <= k < shrines@.len() && !shrines@[k].2 && shrines@[k].1 < radius
                        ==> shrines@[j].1 <= #[trigger] shrines@[k].1
                &&& forall|k: int|
                    0 <= k < j && !shrines@[k].2 && shrines@[k].1 < radius ==> shrines@[j].1
                        < #[trigger] shrines@[k].1
            },
{
    let n = shrines.len();
    let mut best: Option<usize> = None;
    let mut best_key: u32 = 0;
    let mut i: usize = 0;
    while i < n
        invariant
            n == shrines@.len(),
            i <= n,
            best is None <==> !exists|j: int| 0 <= j < i && is_candidate(shrines@, radius, j),
            best matches Some(b) ==> is_first_nearest_upto(shrines@, radius, b as int, i as int)
                && best_key == shrines@[b as int].1,
        decreases n - i,
    {
        let (_, key, lit) = shrines[i];
        if !lit && key < radius {
            assert(is_candidate(shrines@, radius, i as int));
            match best {
                None => {
                    best = Some(i);
                    best_key = key;
                },
                Some(_) => {
                    if key < best_key {
                        best = Some(i);
                        best_key = key;
                    }
                },
            }
        } else {
            assert(!is_candidate(shrines@, radius, i as int));
        }
        i = i + 1;
    }
    assert(best is None <==> forall|j: int|
        0 <= j < shrines@.len() ==> #[trigger] shrines@[j].2 || shrines@[j].1 >= radius) by {
        if best is None {
            assert forall|j: int| 0 <= j < shrines@.len() implies #[trigger] shrines@[j].2
                || shrines@[j].1 >= radius by {
                assert(!is_candidate(shrines@, radius, j));
            }
        } else {
            let j = choose|j: int| 0 <= j < n && is_candidate(shrines@, radius, j);
            assert(!(shrines@[j].2 || shrines@[j].1 >= radius));
        }
    }
    match best {
        None => None,
        Some(b) => {
            assert(is_first_nearest(shrines@, radius, b as int));
            assert(shrines@[b as int] == shrines@[b as int]);
            Some(shrines[b].0)
        },
    }
}

/// There is at most one first-nearest dormant shrine, so the contract of
/// [`nearest_dormant_in_range`] determines its answer.
pub proof fn lemma_first_nearest_unique<T>(shrines: Seq<(T, u32, bool)>, radius: u32, a: int, b: int)
    requires
        is_first_nearest(shrines, radius, a),
        is_first_nearest(shrines, radius, b),
    ensures
        a == b,
{
    assert(shrines[a].1 <= shrines[b].1);
    assert(shrines[b].1 <= shrines[a].1);
    if a < b {
        assert(shrines[b].1 < shrines[a].1);
    } else if b < a {
        assert(shrines[a].1 < shrines[b].1);
    }
}

} // verus!
