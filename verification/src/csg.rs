//! Constructive solid geometry: boolean combination of two solids.
//!
//! A CSG node intersects a ray against its left and right child
//! independently, sorts each hit list by distance, and then keeps exactly
//! those boundary crossings at which the combined solid is entered or left.
//! The decision needs nothing of the geometry but the side each hit came
//! from and the order of the hits, so it is made here, over order surrogates:
//! each hit is an integer key whose ordering matches the hit distances.

use vstd::prelude::*;

verus! {

/// The boolean operation a CSG node applies to its two children.
#[derive(Debug, Clone, Copy, PartialEq, Eq, Structural)]
pub enum Operation {
    Union,
    Intersect,
    Difference,
}

/// Whether a boundary crossing belongs to the combined solid.
///
/// `left_hit` says which child's surface was crossed; `in_left` and
/// `in_right` say whether the ray is currently inside each child.
pub open spec fn spec_intersection_allowed(
    operation: Operation,
    left_hit: bool,
    in_left: bool,
    in_right: bool,
) -> bool {
    match operation {
        Operation::Union => (left_hit && !in_right) || (!left_hit && !in_left),
        Operation::Intersect => (left_hit && in_right) || (!left_hit && in_left),
        Operation::Difference => (left_hit && !in_right) || (!left_hit && in_left),
    }
}

/// Whether the ray is inside the combined solid, given membership in the
/// two children.
pub open spec fn spec_inside(operation: Operation, in_left: bool, in_right: bool) -> bool {
    match operation {
        Operation::Union => in_left || in_right,
        Operation::Intersect => in_left && in_right,
        Operation::Difference => in_left && !in_right,
    }
}

/// A boundary survives exactly when crossing it changes membership in the
/// combined solid: `spec_intersection_allowed` keeps a hit if and only if
/// toggling the crossed side's membership flips `spec_inside`.
pub proof fn lemma_allowed_is_membership_change(
    operation: Operation,
    left_hit: bool,
    in_left: bool,
    in_right: bool,
)
    ensures
        spec_intersection_allowed(operation, left_hit, in_left, in_right) == (spec_inside(
            operation,
            if left_hit {
                !in_left
            } else {
                in_left
            },
            if left_hit {
                in_right
            } else {
                !in_right
            },
        ) != spec_inside(operation, in_left, in_right)),
{
}

/// How many keys in `s` are at or before `t` along the ray.
pub open spec fn count_at_or_before(s: Seq<i64>, t: i64) -> nat
    decreases s.len(),
{
    if s.len() == 0 {
        0
    } else {
        count_at_or_before(s.drop_last(), t) + if s.last() <= t {
            1nat
        } else {
            0nat
        }
    }
}

/// Whether a count of boundary crossings leaves the ray inside: membership
/// toggles at every crossing, so an odd count means inside.
pub open spec fn odd(n: nat) -> bool {
    n % 2 == 1
}

/// Which hits of the left child's sorted list the CSG operation keeps.
///
/// The hit at position `i` is kept if crossing it changes membership in the
/// combined solid, where the ray is inside the left child after an odd
/// number of earlier left crossings and inside the right child after an odd
/// number of right crossings at or before it.
pub open spec fn spec_keep_left(operation: Operation, left: Seq<i64>, right: Seq<i64>, i: int) -> bool {
    spec_intersection_allowed(
        operation,
        true,
        odd(i as nat),
        odd(count_at_or_before(right, left[i])),
    )
}

/// Which hits of the right child's sorted list the CSG operation keeps.
pub open spec fn spec_keep_right(operation: Operation, left: Seq<i64>, right: Seq<i64>, j: int) -> bool {
    spec_intersection_allowed(
        operation,
        false,
        odd(count_at_or_before(left, right[j])),
        odd(j as nat),
    )
}

/// When a ray misses the right child entirely, the ray is never inside it:
/// a union keeps every left boundary and an intersection keeps none, while
/// a difference keeps them all — the left solid is untouched.
pub proof fn lemma_right_child_missed(operation: Operation, left: Seq<i64>, i: int)
    requires
        0 <= i < left.len(),
    ensures
        spec_keep_left(operation, left, Seq::empty(), i) == match operation {
            Operation::Union => true,
            Operation::Intersect => false,
            Operation::Difference => true,
        },
{
    assert(count_at_or_before(Seq::empty(), left[i]) == 0);
}

proof fn lemma_count_at_or_before_step(s: Seq<i64>, t: i64, i: int)
    requires
        0 <= i < s.len(),
    ensures
        count_at_or_before(s.subrange(0, i + 1), t) == count_at_or_before(s.subrange(0, i), t)
            + if s[i] <= t {
            1nat
        } else {
            0nat
        },
{
    let pre = s.subrange(0, i + 1);
    assert(pre.drop_last() =~= s.subrange(0, i));
    assert(pre.last() == s[i]);
}

fn count_at_or_before_exec(s: &Vec<i64>, t: i64) -> (n: usize)
    ensures
        n == count_at_or_before(s@, t),
{
    let mut n: usize = 0;
    let mut i: usize = 0;
    while i < s.len()
        invariant
            i <= s.len(),
            n <= i,
            n == count_at_or_before(s@.subrange(0, i as int), t),
        decreases s.len() - i,
    {
        proof {
            lemma_count_at_or_before_step(s@, t, i as int);
        }
        if s[i] <= t {
            n = n + 1;
        }
        i = i + 1;
    }
    proof {
        assert(s@.subrange(0, s@.len() as int) =~= s@);
    }
    n
}

/// Marks the hits of the left child that the CSG operation keeps.
///
/// `left` and `right` are the two children's hit lists as order surrogates:
/// integer keys whose ordering (and ties) match the hit distances along the
/// ray. Both lists are expected sorted ascending; the result is well defined
/// either way.
pub fn keep_left_hits(operation: &Operation, left: &Vec<i64>, right: &Vec<i64>) -> (keep: Vec<
    bool,
>)
    ensures
        keep.len() == left.len(),
        forall|i: int|
            0 <= i < left@.len() ==> keep@[i] == spec_keep_left(*operation, left@, right@, i),
{
    let mut keep: Vec<bool> = Vec::new();
    let mut i: usize = 0;
    while i < left.len()
        invariant
            i <= left.len(),
            keep.len() == i,
            forall|k: int|
                0 <= k < i ==> keep@[k] == spec_keep_left(*operation, left@, right@, k),
        decreases left.len() - i,
    {
        let in_left = i % 2 == 1;
        let in_right = count_at_or_before_exec(right, left[i]) % 2 == 1;
        keep.push(intersection_allowed(operation, true, in_left, in_right));
        i = i + 1;
    }
    keep
}

/// Marks the hits of the right child that the CSG operation keeps.
pub fn keep_right_hits(operation: &Operation, left: &Vec<i64>, right: &Vec<i64>) -> (keep: Vec<
    bool,
>)
    ensures
        keep.len() == right.len(),
        forall|j: int|
            0 <= j < right@.len() ==> keep@[j] == spec_keep_right(*operation, left@, right@, j),
{
    let mut keep: Vec<bool> = Vec::new();
    let mut j: usize = 0;
    while j < right.len()
        invariant
            j <= right.len(),
            keep.len() == j,
            forall|k: int|
                0 <= k < j ==> keep@[k] == spec_keep_right(*operation, left@, right@, k),
        decreases right.len() - j,
    {
        let in_left = count_at_or_before_exec(left, right[j]) % 2 == 1;
        let in_right = j % 2 == 1;
        keep.push(intersection_allowed(operation, false, in_left, in_right));
        j = j + 1;
    }
    keep
}

/// Decides whether one boundary crossing is kept by a CSG operation.
pub fn intersection_allowed(
    operation: &Operation,
    left_hit: bool,
    in_left: bool,
    in_right: bool,
) -> (r: bool)
    ensures
        r == spec_intersection_allowed(*operation, left_hit, in_left, in_right),
{
    match operation {
        Operation::Union => (left_hit && !in_right) || (!left_hit && !in_left),
        Operation::Intersect => (left_hit && in_right) || (!left_hit && in_left),
        Operation::Difference => (left_hit && !in_right) || (!left_hit && in_left),
    }
}

} // verus!
