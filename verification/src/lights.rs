//! Light sampling and the recursion cut-off of the color pipeline.
//!
//! An area light is sampled on a `usteps` by `vsteps` grid of cells; its
//! intensity at a point is the fraction of samples whose shadow ray reaches
//! the light. Whether each sample is shadowed is a geometric question
//! answered elsewhere; the enumeration order of the cells (which decides
//! which jitter value each sample draws) and the counting are fixed here.

use vstd::prelude::*;

verus! {

/// How many entries of `s` are `false`.
pub open spec fn count_false(s: Seq<bool>) -> nat
    decreases s.len(),
{
    if s.len() == 0 {
        0
    } else {
        count_false(s.drop_last()) + if s.last() {
            0nat
        } else {
            1nat
        }
    }
}

/// The sample cell visited at step `k`: rows of `usteps` cells, row by row.
pub open spec fn spec_sample_cell(usteps: int, k: int) -> (int, int) {
    (k % usteps, k / usteps)
}

/// The cells of a `usteps` by `vsteps` sample grid, in sampling order.
///
/// The order is the one the light walks when drawing jitter values, so it
/// decides which value each sample gets: cell `(u, v)` is visited at step
/// `v * usteps + u`.
pub fn sample_cells(usteps: usize, vsteps: usize) -> (r: Vec<(usize, usize)>)
    requires
        usteps * vsteps <= usize::MAX,
    ensures
        r@.len() == usteps * vsteps,
        forall|k: int|
            0 <= k < r@.len() ==> (#[trigger] r@[k]).0 == spec_sample_cell(usteps as int, k).0
                && r@[k].1 == spec_sample_cell(usteps as int, k).1,
{
    let mut r: Vec<(usize, usize)> = Vec::new();
    let mut v: usize = 0;
    while v < vsteps
        invariant
            v <= vsteps,
            usteps * vsteps <= usize::MAX,
            r@.len() == v * usteps,
            forall|k: int|
                0 <= k < r@.len() ==> (#[trigger] r@[k]).0 == spec_sample_cell(usteps as int, k).0
                    && r@[k].1 == spec_sample_cell(usteps as int, k).1,
        decreases vsteps - v,
    {
        let mut u: usize = 0;
        proof {
            assert((v + 1) * usteps <= vsteps * usteps) by (nonlinear_arith)
                requires
                    v < vsteps,
                    0 <= usteps,
            ;
        }
        while u < usteps
            invariant
                u <= usteps,
                v < vsteps,
                usteps * vsteps <= usize::MAX,
                (v + 1) * usteps <= vsteps * usteps,
                r@.len() == v * usteps + u,
                forall|k: int|
                    0 <= k < r@.len() ==> (#[trigger] r@[k]).0 == spec_sample_cell(
                        usteps as int,
                        k,
                    ).0 && r@[k].1 == spec_sample_cell(usteps as int, k).1,
            decreases usteps - u,
        {
            proof {
                assert(v * usteps + u < (v + 1) * usteps) by (nonlinear_arith)
                    requires
                        u < usteps,
                        0 <= v,
                ;
                assert(vsteps * usteps == usteps * vsteps) by (nonlinear_arith);
                assert((v * usteps + u) % (usteps as int) == u && (v * usteps + u) / (
                usteps as int) == v) by (nonlinear_arith)
                    requires
                        0 <= u < usteps,
                        0 <= v,
                ;
            }
            r.push((u, v));
            u = u + 1;
        }
        v = v + 1;
        proof {
            assert(v * usteps == (v - 1) * usteps + usteps) by (nonlinear_arith);
        }
    }
    proof {
        assert(vsteps * usteps == usteps * vsteps) by (nonlinear_arith);
    }
    r
}

/// How many of a light's samples reach the lit point.
///
/// `shadowed` holds one entry per sample, in sampling order, saying whether
/// the sample's shadow ray was blocked. The light's intensity is the count
/// divided by the sample total, so it lies in `[0, 1]` in steps of one over
/// the total.
pub fn count_unshadowed(shadowed: &Vec<bool>) -> (n: usize)
    ensures
        n == count_false(shadowed@),
        n <= shadowed@.len(),
{
    let mut n: usize = 0;
    let mut i: usize = 0;
    while i < shadowed.len()
        invariant
            i <= shadowed.len(),
            n <= i,
            n == count_false(shadowed@.subrange(0, i as int)),
        decreases shadowed.len() - i,
    {
        proof {
            assert(shadowed@.subrange(0, i as int + 1).drop_last() =~= shadowed@.subrange(
                0,
                i as int,
            ));
        }
        if !shadowed[i] {
            n = n + 1;
        }
        i = i + 1;
    }
    proof {
        assert(shadowed@.subrange(0, shadowed@.len() as int) =~= shadowed@);
    }
    n
}

/// Whether the color pipeline may spawn a secondary (reflected or
/// refracted) ray: never once the depth budget is spent, and never for a
/// material whose reflectivity or transparency is zero. With the budget
/// spent the answer is `false` whatever the material, and the caller
/// contributes black.
pub fn scatter_allowed(remaining: i32, coefficient_is_zero: bool) -> (r: bool)
    ensures
        r == (remaining > 0 && !coefficient_is_zero),
        remaining <= 0 ==> !r,
{
    remaining > 0 && !coefficient_is_zero
}

} // verus!
