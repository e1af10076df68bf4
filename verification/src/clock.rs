//! The clock-face exercise: twelve points around a circle.
//!
//! A point one unit above the center is stepped around the circle in twelve
//! turns of thirty degrees, and each position is mapped to a pixel of a
//! 100 by 100 canvas: the unit coordinates are scaled by 35, offset to the
//! canvas center and rounded to the nearest pixel. The trigonometry of a
//! thirty-degree step is fixed, so the positions are computed here in
//! thousandths of a unit; painting the pixels is the caller's step.

use vstd::prelude::*;

verus! {

/// The sine of `k` turns of thirty degrees, in thousandths, rounded.
pub open spec fn clock_sin_milli(k: int) -> int {
    if k == 0 {
        0
    } else if k == 1 {
        500
    } else if k == 2 {
        866
    } else if k == 3 {
        1000
    } else if k == 4 {
        866
    } else if k == 5 {
        500
    } else if k == 6 {
        0
    } else if k == 7 {
        -500
    } else if k == 8 {
        -866
    } else if k == 9 {
        -1000
    } else if k == 10 {
        -866
    } else {
        -500
    }
}

/// The cosine of `k` turns of thirty degrees, in thousandths, rounded.
pub open spec fn clock_cos_milli(k: int) -> int {
    if k == 0 {
        1000
    } else if k == 1 {
        866
    } else if k == 2 {
        500
    } else if k == 3 {
        0
    } else if k == 4 {
        -500
    } else if k == 5 {
        -866
    } else if k == 6 {
        -1000
    } else if k == 7 {
        -866
    } else if k == 8 {
        -500
    } else if k == 9 {
        0
    } else if k == 10 {
        500
    } else {
        866
    }
}

/// Thousandths scaled down to whole pixels, rounding halves away from zero.
pub open spec fn nearest_pixel(n: int) -> int {
    if n >= 0 {
        (n + 500) / 1000
    } else {
        -((-n + 500) / 1000)
    }
}

/// The canvas pixel of the `k`-th hour mark: the point starts at the top
/// and steps counter-clockwise, so its unit position is
/// `(-sin, cos)` of `k` turns, scaled by 35 around the canvas center.
pub open spec fn clock_pixel(k: int) -> (int, int) {
    (
        50 + nearest_pixel(35 * -clock_sin_milli(k)),
        50 + nearest_pixel(35 * clock_cos_milli(k)),
    )
}

fn nearest_pixel_exec(n: i64) -> (r: i64)
    requires
        -1000000 <= n <= 1000000,
    ensures
        r == nearest_pixel(n as int),
{
    if n >= 0 {
        (n + 500) / 1000
    } else {
        -((-n + 500) / 1000)
    }
}

/// The pixels of the twelve hour marks of a clock face on a 100 by 100
/// canvas, in drawing order, each within the canvas bounds.
pub fn draw() -> (pixels: Vec<(i64, i64)>)
    ensures
        pixels@.len() == 12,
        forall|k: int|
            0 <= k < 12 ==> (#[trigger] pixels@[k]).0 == clock_pixel(k).0 && pixels@[k].1
                == clock_pixel(k).1,
        forall|k: int|
            0 <= k < 12 ==> 0 <= (#[trigger] pixels@[k]).0 < 100 && 0 <= pixels@[k].1 < 100,
{
    let mut pixels: Vec<(i64, i64)> = Vec::new();
    let mut k: usize = 0;
    while k < 12
        invariant
            k <= 12,
            pixels@.len() == k,
            forall|j: int|
                0 <= j < k ==> (#[trigger] pixels@[j]).0 == clock_pixel(j).0 && pixels@[j].1
                    == clock_pixel(j).1,
            forall|j: int|
                0 <= j < k ==> 0 <= (#[trigger] pixels@[j]).0 < 100 && 0 <= pixels@[j].1 < 100,
        decreases 12 - k,
    {
        let s = clock_sin_milli_exec(k);
        let c = clock_cos_milli_exec(k);
        let x = 50 + nearest_pixel_exec(35 * -s);
        let y = 50 + nearest_pixel_exec(35 * c);
        pixels.push((x, y));
        k = k + 1;
    }
    pixels
}

fn clock_sin_milli_exec(k: usize) -> (r: i64)
    requires
        k < 12,
    ensures
        r == clock_sin_milli(k as int),
        -1000 <= r <= 1000,
{
    match k {
        0 => 0,
        1 => 500,
        2 => 866,
        3 => 1000,
        4 => 866,
        5 => 500,
        6 => 0,
        7 => -500,
        8 => -866,
        9 => -1000,
        10 => -866,
        _ => -500,
    }
}

fn clock_cos_milli_exec(k: usize) -> (r: i64)
    requires
        k < 12,
    ensures
        r == clock_cos_milli(k as int),
        -1000 <= r <= 1000,
{
    match k {
        0 => 1000,
        1 => 866,
        2 => 500,
        3 => 0,
        4 => -500,
        5 => -866,
        6 => -1000,
        7 => -866,
        8 => -500,
        9 => 0,
        10 => 500,
        _ => 866,
    }
}

} // verus!
