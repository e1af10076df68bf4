//! Refractive-index bookkeeping for a ray crossing transparent volumes.
//!
//! When a ray's hits are walked in order of distance, each hit either enters
//! the hit object (its identity is not on the containment stack yet) or
//! leaves it (it is, and is removed). At the shaded hit, the refractive
//! index the ray comes from belongs to the object on top of the stack just
//! before the hit is processed, and the one it passes into belongs to the
//! top just after; an empty stack stands for the surrounding medium. Objects
//! are identified here by integer keys; mapping a key to its material's
//! refractive index is the caller's step.

use vstd::prelude::*;

verus! {

/// `s` with every occurrence of `x` removed, order kept.
pub open spec fn remove_all(s: Seq<u64>, x: u64) -> Seq<u64>
    decreases s.len(),
{
    if s.len() == 0 {
        Seq::empty()
    } else if s.last() == x {
        remove_all(s.drop_last(), x)
    } else {
        remove_all(s.drop_last(), x).push(s.last())
    }
}

/// One step of the containment walk: leave `x` if the stack holds it,
/// else enter it.
pub open spec fn toggle(stack: Seq<u64>, x: u64) -> Seq<u64> {
    if stack.contains(x) {
        remove_all(stack, x)
    } else {
        stack.push(x)
    }
}

/// The containment stack after the first `k` hits of `hits` are processed.
pub open spec fn containers_after(hits: Seq<u64>, k: int) -> Seq<u64>
    decreases k,
{
    if k <= 0 {
        Seq::empty()
    } else {
        toggle(containers_after(hits, k - 1), hits[k - 1])
    }
}

/// The object whose medium the ray is in: the innermost still-open
/// container, `None` for the surrounding medium.
pub open spec fn innermost(stack: Seq<u64>) -> Option<u64> {
    if stack.len() == 0 {
        None
    } else {
        Some(stack.last())
    }
}

proof fn lemma_remove_all_absent(s: Seq<u64>, x: u64)
    requires
        !s.contains(x),
    ensures
        remove_all(s, x) =~= s,
    decreases s.len(),
{
    if s.len() > 0 {
        assert(forall|i: int| 0 <= i < s.len() - 1 ==> s.drop_last()[i] == s[i]);
        lemma_remove_all_absent(s.drop_last(), x);
    }
}

/// Leaving undoes entering: processing the same object twice from a stack
/// that does not hold it leaves the stack as it was. This is why the media
/// of a ray passing straight through a solid are symmetric — the index
/// entered at the near surface is the one left at the far surface.
pub proof fn lemma_toggle_involution(stack: Seq<u64>, x: u64)
    requires
        !stack.contains(x),
    ensures
        toggle(toggle(stack, x), x) == stack,
{
    let entered = stack.push(x);
    assert(entered.contains(x)) by {
        assert(entered.last() == x);
    }
    assert(entered.drop_last() =~= stack);
    lemma_remove_all_absent(stack, x);
}

fn toggle_exec(stack: Vec<u64>, x: u64) -> (r: Vec<u64>)
    ensures
        r@ == toggle(stack@, x),
{
    let ghost orig = stack@;
    let mut kept: Vec<u64> = Vec::new();
    let mut found = false;
    let mut i: usize = 0;
    while i < stack.len()
        invariant
            i <= stack.len(),
            stack@ == orig,
            kept@ =~= remove_all(orig.subrange(0, i as int), x),
            found == orig.subrange(0, i as int).contains(x),
        decreases stack.len() - i,
    {
        let ghost pre = orig.subrange(0, i as int);
        let ghost post = orig.subrange(0, i as int + 1);
        proof {
            assert(post.drop_last() =~= pre);
            assert(post.last() == orig[i as int]);
        }
        if stack[i] == x {
            found = true;
            proof {
                assert(post[i as int] == x);
            }
        } else {
            kept.push(stack[i]);
            proof {
                assert(forall|k: int|
                    0 <= k < post.len() && post[k] == x ==> 0 <= k < pre.len() && pre[k] == x);
            }
        }
        i = i + 1;
    }
    proof {
        assert(orig.subrange(0, orig.len() as int) =~= orig);
    }
    if found {
        kept
    } else {
        proof {
            lemma_remove_all_absent(orig, x);
        }
        let mut kept = kept;
        kept.push(x);
        kept
    }
}

/// The media on either side of one hit.
///
/// `hits` lists the identity keys of the objects a ray's sorted
/// intersections belong to, nearest first; `target` is the position of the
/// hit being shaded. Returns the key of the object whose medium the ray
/// comes from and the key of the one it passes into, `None` standing for
/// the surrounding medium.
pub fn refraction_boundary(hits: &Vec<u64>, target: usize) -> (r: (Option<u64>, Option<u64>))
    requires
        target < hits.len(),
    ensures
        r.0 == innermost(containers_after(hits@, target as int)),
        r.1 == innermost(containers_after(hits@, target as int + 1)),
{
    let mut stack: Vec<u64> = Vec::new();
    let mut k: usize = 0;
    while k < target
        invariant
            k <= target,
            target < hits.len(),
            stack@ == containers_after(hits@, k as int),
        decreases target - k,
    {
        stack = toggle_exec(stack, hits[k]);
        k = k + 1;
    }
    let from_key = if stack.len() == 0 {
        None
    } else {
        Some(stack[stack.len() - 1])
    };
    stack = toggle_exec(stack, hits[target]);
    let into_key = if stack.len() == 0 {
        None
    } else {
        Some(stack[stack.len() - 1])
    };
    (from_key, into_key)
}

} // verus!
