use vstd::prelude::*;

verus! {

/// Distance between two coordinates.
pub open spec fn span(a: int, b: int) -> int {
    if a < b {
        b - a
    } else {
        a - b
    }
}

/// Direction of travel from `a` to `b`: one step up, or one step down when
/// `b` is not above `a`.
pub open spec fn heading(a: int, b: int) -> int {
    if a < b {
        1
    } else {
        -1
    }
}

/// Number of steps of the line from `(x0, y0)` to `(x1, y1)`: the longer
/// of its two spans.
pub open spec fn line_steps(x0: int, y0: int, x1: int, y1: int) -> int {
    if span(x0, x1) >= span(y0, y1) {
        span(x0, x1)
    } else {
        span(y0, y1)
    }
}

/// Number of steps of the line from `(x0, y0)` to `(x1, y1)`, which is one
/// less than the number of its pixels.
pub fn line_length(x0: i32, y0: i32, x1: i32, y1: i32) -> (steps: u64)
    ensures
        steps == line_steps(x0 as int, y0 as int, x1 as int, y1 as int),
{
    let dx: i64 = if x0 < x1 {
        x1 as i64 - x0 as i64
    } else {
        x0 as i64 - x1 as i64
    };
    let dy: i64 = if y0 < y1 {
        y1 as i64 - y0 as i64
    } else {
        y0 as i64 - y1 as i64
    };
    if dx >= dy {
        dx as u64
    } else {
        dy as u64
    }
}

/// Whether `p` is the `k`-th pixel of the line from `(x0, y0)` to
/// `(x1, y1)`: along the longer span it lies `k` steps from the start, and
/// along the shorter span `j` steps, where `j` is the whole number nearest
/// to the ideal `k * shorter / longer`, the upper one when two are equally
/// near. The pixel is never more than half a pixel off the line.
pub open spec fn on_line(x0: int, y0: int, x1: int, y1: int, k: int, p: (int, int)) -> bool {
    let dx = span(x0, x1);
    let dy = span(y0, y1);
    let i = (p.0 - x0) * heading(x0, x1);
    let j = (p.1 - y0) * heading(y0, y1);
    if dx >= dy {
        &&& i == k
        &&& 0 <= j <= dy
        &&& -dx <= 2 * (j * dx - k * dy) <= dx
        &&& dx > 0 ==> -dx < 2 * (j * dx - k * dy)
    } else {
        &&& j == k
        &&& 0 <= i <= dx
        &&& -dy < 2 * (i * dy - k * dx) <= dy
    }
}

/// With `0 <= i <= d` steps taken along a span of `d`, and the steps across
/// within half a pixel of the ideal line, the steps across are within their
/// span `a`, and the line ends exactly at its end point.
proof fn lemma_across_in_span(i: int, j: int, d: int, a: int)
    requires
        0 <= i <= d,
        0 <= a <= d,
        0 < d,
        -d <= 2 * (j * d - i * a) <= d,
    ensures
        0 <= j <= a,
        i == d ==> j == a,
        i == 0 ==> j == 0,
{
    assert(i * a <= d * a) by (nonlinear_arith)
        requires
            0 <= i <= d,
            0 <= a,
    ;
    assert(0 <= i * a) by (nonlinear_arith)
        requires
            0 <= i,
            0 <= a,
    ;
    assert(j <= a) by (nonlinear_arith)
        requires
            0 < d,
            2 * (j * d) <= d + 2 * (d * a),
    ;
    assert(0 <= j) by (nonlinear_arith)
        requires
            0 < d,
            -d <= 2 * (j * d),
    ;
    if i == d {
        assert(i * a == d * a);
        assert(j >= a) by (nonlinear_arith)
            requires
                0 < d,
                -d <= 2 * (j * d) - 2 * (d * a),
        ;
    }
    if i == 0 {
        assert(i * a == 0);
        assert(j <= 0) by (nonlinear_arith)
            requires
                0 < d,
                2 * (j * d) <= d,
        ;
    }
}

/// The pixels of the line from `(x0, y0)` to `(x1, y1)`, in drawing order
/// and both end points included: one pixel per step along the longer span,
/// each the nearest to the ideal line across it.
#[verifier::rlimit(50)]
pub fn line_pixels(x0: i32, y0: i32, x1: i32, y1: i32) -> (pixels: Vec<(i32, i32)>)
    requires
        line_steps(x0 as int, y0 as int, x1 as int, y1 as int) < usize::MAX,
    ensures
        pixels@.len() == line_steps(x0 as int, y0 as int, x1 as int, y1 as int) + 1,
        pixels@[0] == (x0, y0),
        pixels@[pixels@.len() - 1] == (x1, y1),
        forall|k: int|
            0 <= k < pixels@.len() ==> on_line(
                x0 as int,
                y0 as int,
                x1 as int,
                y1 as int,
                k,
                (#[trigger] pixels@[k].0 as int, pixels@[k].1 as int),
            ),
{
    let dx: i64 = if x0 < x1 {
        x1 as i64 - x0 as i64
    } else {
        x0 as i64 - x1 as i64
    };
    let ady: i64 = if y0 < y1 {
        y1 as i64 - y0 as i64
    } else {
        y0 as i64 - y1 as i64
    };
    let dy: i64 = -ady;
    let sx: i64 = if x0 < x1 {
        1
    } else {
        -1
    };
    let sy: i64 = if y0 < y1 {
        1
    } else {
        -1
    };
    let mut err: i64 = dx + dy;
    let mut x: i64 = x0 as i64;
    let mut y: i64 = y0 as i64;
    let mut pixels: Vec<(i32, i32)> = Vec::new();
    let ghost steps = line_steps(x0 as int, y0 as int, x1 as int, y1 as int);
    let ghost mut i: int = 0;
    let ghost mut j: int = 0;
    let ghost mut across: int = 0;
    let ghost mut along: int = 0;
    loop
        invariant_except_break
            pixels@.len() == (if dx >= ady {
                i
            } else {
                j
            }),
        invariant
            dx == span(x0 as int, x1 as int),
            ady == span(y0 as int, y1 as int),
            dy == -ady,
            sx == heading(x0 as int, x1 as int),
            sy == heading(y0 as int, y1 as int),
            steps == line_steps(x0 as int, y0 as int, x1 as int, y1 as int),
            steps < usize::MAX,
            0 <= i <= dx,
            0 <= j <= ady,
            x == x0 + sx * i,
            y == y0 + sy * j,
            across == j * dx,
            along == i * ady,
            err == dx - ady - along + across,
            dx >= ady ==> dx - 2 * ady <= 2 * err <= 3 * dx - 2 * ady,
            dx >= ady && dx > 0 ==> dx - 2 * ady < 2 * err,
            dx < ady ==> 2 * dx - 3 * ady <= 2 * err < 2 * dx - ady,
            pixels@.len() <= steps + 1,
            pixels@.len() > 0 ==> pixels@[0] == (x0, y0),
            forall|k: int|
                0 <= k < pixels@.len() ==> on_line(
                    x0 as int,
                    y0 as int,
                    x1 as int,
                    y1 as int,
                    k,
                    (#[trigger] pixels@[k].0 as int, pixels@[k].1 as int),
                ),
        ensures
            pixels@.len() == steps + 1,
            pixels@[pixels@.len() - 1] == (x1, y1),
        decreases steps + 1 - pixels@.len(),
    {
        proof {
            if dx >= ady {
                if dx > 0 {
                    lemma_across_in_span(i, j, dx as int, ady as int);
                }
            } else {
                lemma_across_in_span(j, i, ady as int, dx as int);
            }
            assert((x - x0) * sx == i) by (nonlinear_arith)
                requires
                    x == x0 + sx * i,
                    sx == 1 || sx == -1,
            ;
            assert((y - y0) * sy == j) by (nonlinear_arith)
                requires
                    y == y0 + sy * j,
                    sy == 1 || sy == -1,
            ;
        }
        pixels.push((x as i32, y as i32));
        if x == x1 as i64 && y == y1 as i64 {
            proof {
                assert(i == dx && j == ady);
            }
            break ;
        }
        proof {
            if dx >= ady {
                if dx > 0 {
                    lemma_across_in_span(i, j, dx as int, ady as int);
                }
                assert(i < dx);
            } else {
                lemma_across_in_span(j, i, ady as int, dx as int);
                assert(j < ady);
            }
        }
        let e2 = 2 * err;
        if e2 >= dy {
            err += dy;
            x += sx;
            proof {
                assert((i + 1) * ady == i * ady + ady) by (nonlinear_arith);
                i = i + 1;
                along = along + ady;
            }
        }
        if e2 <= dx {
            err += dx;
            y += sy;
            proof {
                assert((j + 1) * dx == j * dx + dx) by (nonlinear_arith);
                j = j + 1;
                across = across + dx;
            }
        }
        proof {
            if dx >= ady {
                if dx > 0 {
                    lemma_across_in_span(i, j, dx as int, ady as int);
                }
            } else {
                lemma_across_in_span(j, i, ady as int, dx as int);
            }
        }
    }
    pixels
}

} // verus!
