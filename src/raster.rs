//! Integer Bresenham stepping for the line rasterizer.
//!
//! A segment is walked along its major axis, one sample per integer
//! coordinate from the start to the end, while the minor coordinate follows
//! the ideal line rounded half up. Steep segments are walked with the axes
//! swapped and swapped back when a sample is emitted.

use vstd::prelude::*;
use vstd::arithmetic::div_mod::lemma_fundamental_div_mod_converse_div;

verus! {

/// Largest magnitude of a pixel coordinate that the walk accepts; it keeps
/// the error term well inside `i64`.
pub const COORD_LIMIT: i64 = 536_870_912;

pub open spec fn abs(v: int) -> int {
    if v < 0 {
        -v
    } else {
        v
    }
}

pub open spec fn sign(v: int) -> int {
    if v > 0 {
        1
    } else if v < 0 {
        -1
    } else {
        0
    }
}

/// Number of minor-axis steps taken before the `k`-th sample of a walk whose
/// major span is `dx` and whose minor span has magnitude `ady`. When the
/// minor span is the shorter one, this is `k * ady / dx` rounded half up;
/// otherwise the walk steps on every sample.
pub open spec fn minor_steps(dx: int, ady: int, k: int) -> int {
    if ady > dx {
        k
    } else if dx == 0 {
        0
    } else {
        (2 * k * ady + dx) / (2 * dx)
    }
}

/// The `k`-th pixel of the walk from `start` to `end`, both given in walk
/// order (major coordinate first); for a steep walk the pixel is reported
/// with its coordinates swapped back.
pub open spec fn walk_pixel(start: (i64, i64), end: (i64, i64), steep: bool, k: int) -> (int, int) {
    let dx = end.0 - start.0;
    let dy = end.1 - start.1;
    let major = start.0 + k;
    let minor = start.1 + sign(dy) * minor_steps(dx, abs(dy), k);
    if steep {
        (minor, major)
    } else {
        (major, minor)
    }
}

pub open spec fn in_coord_limit(p: (i64, i64)) -> bool {
    -COORD_LIMIT <= p.0 <= COORD_LIMIT && -COORD_LIMIT <= p.1 <= COORD_LIMIT
}

proof fn lemma_rounded_steps(dx: int, ady: int, k: int, m: int)
    requires
        dx > 0,
        0 <= ady <= dx,
        -dx <= 2 * (k * ady - m * dx) < dx,
    ensures
        minor_steps(dx, ady, k) == m,
{
    let r = 2 * k * ady + dx - m * (2 * dx);
    assert(0 <= r < 2 * dx) by (nonlinear_arith)
        requires
            -dx <= 2 * (k * ady - m * dx) < dx,
            r == 2 * k * ady + dx - m * (2 * dx),
    ;
    lemma_fundamental_div_mod_converse_div(2 * k * ady + dx, 2 * dx, m, r);
}

/// The pixels of the integer Bresenham walk from `start` to `end`, given in
/// walk order: the major coordinate first, `start.0 <= end.0`. One sample is
/// produced for each major coordinate from `start.0` to `end.0`; the `k`-th
/// is `walk_pixel(start, end, steep, k)`, so the first is `start` and, for a
/// walk whose minor span is no longer than its major span, the last is
/// `end`.
pub fn bresenham_pixels(start: (i64, i64), end: (i64, i64), steep: bool) -> (r: Vec<(i64, i64)>)
    requires
        start.0 <= end.0,
        in_coord_limit(start),
        in_coord_limit(end),
    ensures
        r@.len() == end.0 - start.0 + 1,
        forall|k: int|
            0 <= k < r@.len() ==> (r@[k].0 as int, r@[k].1 as int) == walk_pixel(
                start,
                end,
                steep,
                k,
            ),
        r@[0] == (if steep {
            (start.1, start.0)
        } else {
            start
        }),
        abs(end.1 - start.1) <= end.0 - start.0 ==> r@.last() == (if steep {
            (end.1, end.0)
        } else {
            end
        }),
{
    let dx: i64 = end.0 - start.0;
    let dy: i64 = end.1 - start.1;
    let ady: i64 = if dy < 0 {
        -dy
    } else {
        dy
    };
    let step: i64 = if dy > 0 {
        1
    } else if dy < 0 {
        -1
    } else {
        0
    };
    let mut out: Vec<(i64, i64)> = Vec::new();
    let mut err: i64 = 0;
    let mut y: i64 = start.1;
    let mut x: i64 = start.0;
    assert(0 * (ady as int) == 0 && 0 * (dx as int) == 0) by (nonlinear_arith);
    assert(minor_steps(dx as int, ady as int, 0) == 0) by {
        if ady <= dx && dx > 0 {
            lemma_rounded_steps(dx as int, ady as int, 0, 0);
        }
    }
    while x <= end.0
        invariant
            start.0 <= x <= end.0 + 1,
            dx == end.0 - start.0,
            dy == end.1 - start.1,
            ady == abs(dy as int),
            step == sign(dy as int),
            in_coord_limit(start),
            in_coord_limit(end),
            out@.len() == x - start.0,
            forall|k: int|
                0 <= k < out@.len() ==> (out@[k].0 as int, out@[k].1 as int) == walk_pixel(
                    start,
                    end,
                    steep,
                    k,
                ),
            y == start.1 + step * minor_steps(dx as int, ady as int, x - start.0),
            0 <= minor_steps(dx as int, ady as int, x - start.0) <= x - start.0,
            ady > dx ==> err == (x - start.0) * (ady - dx),
            ady <= dx && dx > 0 ==> -dx <= 2 * err < dx && err == (x - start.0) * ady
                - minor_steps(dx as int, ady as int, x - start.0) * dx,
            dx == 0 && ady == 0 ==> err == 0,
        decreases end.0 + 1 - x,
    {
        let ghost k: int = x - start.0;
        if steep {
            out.push((y, x));
        } else {
            out.push((x, y));
        }
        assert(ady > dx ==> err <= k * ady && k * ady <= 1_073_741_824 * 1_073_741_824)
            by (nonlinear_arith)
            requires
                ady > dx ==> err == k * (ady - dx),
                0 <= k <= dx,
                0 <= dx,
                0 <= ady <= 1_073_741_824,
                dx <= 1_073_741_824,
        ;
        assert(-k <= step * minor_steps(dx as int, ady as int, k) <= k) by (nonlinear_arith)
            requires
                0 <= minor_steps(dx as int, ady as int, k) <= k,
                -1 <= step <= 1,
        ;
        err = err + ady;
        let ghost mut stepped = false;
        if 2 * err >= dx {
            y = y + step;
            err = err - dx;
            proof {
                stepped = true;
            }
        }
        proof {
            let k1 = k + 1;
            if ady > dx {
                assert(err == k1 * (ady - dx)) by (nonlinear_arith)
                    requires
                        err == k * (ady - dx) + ady - dx,
                        k1 == k + 1,
                ;
                assert(step * k1 == step * k + step) by (nonlinear_arith)
                    requires
                        k1 == k + 1,
                ;
            } else if dx > 0 {
                let m = minor_steps(dx as int, ady as int, k);
                let m1 = if stepped {
                    m + 1
                } else {
                    m
                };
                assert(err == k1 * ady - m1 * dx) by (nonlinear_arith)
                    requires
                        k1 == k + 1,
                        m1 == m + 1 ==> err == k * ady - m * dx + ady - dx,
                        m1 == m ==> err == k * ady - m * dx + ady,
                        m1 == m || m1 == m + 1,
                ;
                lemma_rounded_steps(dx as int, ady as int, k1, m1);
                assert(step * m1 == step * m + (if stepped {
                    step
                } else {
                    0
                })) by (nonlinear_arith)
                    requires
                        m1 == (if stepped {
                            m + 1
                        } else {
                            m
                        }),
                ;
            }
        }
        x = x + 1;
    }
    proof {
        lemma_walk_ends(start, end, steep);
        let last = end.0 - start.0;
        assert(out@[0].0 as int == walk_pixel(start, end, steep, 0).0);
        assert(out@[0].1 as int == walk_pixel(start, end, steep, 0).1);
        assert(out@[last].0 as int == walk_pixel(start, end, steep, last).0);
        assert(out@[last].1 as int == walk_pixel(start, end, steep, last).1);
    }
    out
}

/// A walk starts at its start pixel, and one whose minor span is no longer
/// than its major span ends at its end pixel.
pub proof fn lemma_walk_ends(start: (i64, i64), end: (i64, i64), steep: bool)
    requires
        start.0 <= end.0,
    ensures
        walk_pixel(start, end, steep, 0) == (if steep {
            (start.1 as int, start.0 as int)
        } else {
            (start.0 as int, start.1 as int)
        }),
        abs(end.1 - start.1) <= end.0 - start.0 ==> walk_pixel(start, end, steep, end.0 - start.0)
            == (if steep {
            (end.1 as int, end.0 as int)
        } else {
            (end.0 as int, end.1 as int)
        }),
{
    let dx = end.0 - start.0;
    let ady = abs(end.1 - start.1);
    if ady <= dx && dx > 0 {
        assert(0 * ady == 0 && 0 * dx == 0) by (nonlinear_arith);
        lemma_rounded_steps(dx, ady, 0, 0);
        assert(dx * ady - ady * dx == 0) by (nonlinear_arith);
        lemma_rounded_steps(dx, ady, dx, ady);
    }
    let dy = end.1 - start.1;
    assert(sign(dy) * abs(dy) == dy) by (nonlinear_arith)
        requires
            sign(dy) == (if dy > 0 {
                1int
            } else if dy < 0 {
                -1int
            } else {
                0int
            }),
            abs(dy) == (if dy < 0 {
                -dy
            } else {
                dy
            }),
    ;
}

} // verus!
