//! Selection of the visible hit among a ray's intersections.
//!
//! A ray may cross many surfaces; the one that is seen is the nearest hit
//! strictly in front of the ray's origin. The choice depends only on the
//! ordering and sign of the hit distances, so it is made here over order
//! surrogates: integer keys whose ordering and sign match the distances.

use vstd::prelude::*;

verus! {

/// Whether `perm` lists positions of `keys` in ascending key order.
pub open spec fn sorts_ascending(keys: Seq<i64>, perm: Seq<usize>) -> bool {
    forall|a: int, b: int|
        0 <= a < b < perm.len() ==> keys[perm[a] as int] <= keys[perm[b] as int]
}

/// Whether `perm` holds `perm.len()` distinct positions of `keys`: together
/// with the length this makes it a permutation of the positions.
pub open spec fn is_position_permutation(keys: Seq<i64>, perm: Seq<usize>) -> bool {
    &&& forall|a: int| 0 <= a < perm.len() ==> (#[trigger] perm[a]) < keys.len()
    &&& forall|a: int, b: int| 0 <= a < b < perm.len() ==> perm[a] != perm[b]
}

/// Whether `perm` keeps the original order of equal keys.
pub open spec fn is_stable(keys: Seq<i64>, perm: Seq<usize>) -> bool {
    forall|a: int, b: int|
        0 <= a < b < perm.len() && keys[perm[a] as int] == keys[perm[b] as int] ==> perm[a]
            < perm[b]
}

/// The order in which a ray's intersections are walked: the positions of
/// `keys` sorted ascending by key, equal keys in their original order.
/// Sortedness, distinctness and stability together pin the result — it is
/// the unique stable sorting permutation.
pub fn sort_order(keys: &Vec<i64>) -> (perm: Vec<usize>)
    ensures
        perm@.len() == keys@.len(),
        is_position_permutation(keys@, perm@),
        sorts_ascending(keys@, perm@),
        is_stable(keys@, perm@),
{
    let mut perm: Vec<usize> = Vec::new();
    let mut i: usize = 0;
    while i < keys.len()
        invariant
            i <= keys.len(),
            perm@.len() == i,
            forall|a: int| 0 <= a < i ==> perm@[a] == a,
        decreases keys.len() - i,
    {
        perm.push(i);
        i = i + 1;
    }
    let mut i: usize = 1;
    while i < perm.len()
        invariant
            1 <= i,
            perm@.len() == keys@.len(),
            is_position_permutation(keys@, perm@),
            is_stable(keys@, perm@),
            forall|a: int, b: int|
                0 <= a < b < i ==> keys@[perm@[a] as int] <= keys@[perm@[b] as int],
        decreases perm.len() - i,
    {
        let mut j: usize = i;
        while j > 0 && keys[perm[j - 1]] > keys[perm[j]]
            invariant
                0 < i < perm@.len(),
                j <= i,
                perm@.len() == keys@.len(),
                is_position_permutation(keys@, perm@),
                is_stable(keys@, perm@),
                forall|a: int, b: int|
                    0 <= a < b <= i && b != j ==> keys@[perm@[a] as int] <= keys@[perm@[b] as int],
                forall|b: int| j < b <= i ==> keys@[perm@[j as int] as int] <= keys@[perm@[b] as int],
            decreases j,
        {
            let ghost before = perm@;
            let shifted = perm[j - 1];
            let moved = perm[j];
            perm.set(j - 1, moved);
            perm.set(j, shifted);
            proof {
                assert(perm@ =~= before.update(j - 1, before[j as int]).update(
                    j as int,
                    before[j - 1],
                ));
            }
            j = j - 1;
        }
        i = i + 1;
    }
    perm
}

/// On a list sorted ascending by distance, the visible hit found by
/// `hit_index` is simply the first entry in front of the ray origin: every
/// earlier entry lies at or behind it. The requirements are what
/// `hit_index` ensures of a returned position.
pub proof fn lemma_hit_on_sorted_is_first_positive(keys: Seq<i64>, i: int)
    requires
        forall|a: int, b: int| 0 <= a < b < keys.len() ==> keys[a] <= keys[b],
        0 <= i < keys.len(),
        keys[i] > 0,
        forall|j: int| 0 <= j < i ==> !(keys[j] > 0) || keys[i] < keys[j],
    ensures
        forall|j: int| 0 <= j < i ==> keys[j] <= 0,
{
    assert forall|j: int| 0 <= j < i implies keys[j] <= 0 by {
        if keys[j] > 0 {
            assert(keys[i] < keys[j]);
            assert(keys[j] <= keys[i]);
        }
    }
}

/// The position of the visible hit.
///
/// `keys` are a ray's hit distances as order surrogates, one per
/// intersection, in list order. Returns the first position holding the
/// smallest positive key, or `None` when no key is positive.
pub fn hit_index(keys: &Vec<i64>) -> (r: Option<usize>)
    ensures
        match r {
            Some(i) => {
                &&& i < keys.len()
                &&& keys@[i as int] > 0
                &&& forall|j: int| 0 <= j < keys@.len() && keys@[j] > 0 ==> keys@[i as int] <= keys@[j]
                &&& forall|j: int| 0 <= j < i ==> !(keys@[j] > 0) || keys@[i as int] < keys@[j]
            },
            None => forall|j: int| 0 <= j < keys@.len() ==> !(keys@[j] > 0),
        },
{
    let mut best: Option<usize> = None;
    let mut i: usize = 0;
    while i < keys.len()
        invariant
            i <= keys.len(),
            match best {
                Some(b) => {
                    &&& b < i
                    &&& keys@[b as int] > 0
                    &&& forall|j: int| 0 <= j < i && keys@[j] > 0 ==> keys@[b as int] <= keys@[j]
                    &&& forall|j: int| 0 <= j < b ==> !(keys@[j] > 0) || keys@[b as int] < keys@[j]
                },
                None => forall|j: int| 0 <= j < i ==> !(keys@[j] > 0),
            },
        decreases keys.len() - i,
    {
        if keys[i] > 0 {
            match best {
                Some(b) => {
                    if keys[i] < keys[b] {
                        best = Some(i);
                    }
                },
                None => {
                    best = Some(i);
                },
            }
        }
        i = i + 1;
    }
    best
}

} // verus!
