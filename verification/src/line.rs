//! The path of a rasterized line, in closed form, and what holds of it.
//!
//! The rasterizer walks from one grid point to another with an integer error
//! term. Which cells it visits is stated here without the walk: after `k`
//! moves the path has advanced `steps_x` cells along x and `steps_y` cells
//! along y, both given by a formula in `k` and the two axis distances.

use vstd::prelude::*;
use vstd::arithmetic::div_mod::lemma_fundamental_div_mod;
use vstd::arithmetic::div_mod::lemma_fundamental_div_mod_converse;
use vstd::arithmetic::div_mod::lemma_mod_bound;
use crate::vec::Vector2;

verus! {

/// Distance between two coordinates of one axis.
pub open spec fn span(a: int, b: int) -> int {
    if a < b {
        b - a
    } else {
        a - b
    }
}

/// Cells advanced along the shorter axis once `k` cells are advanced along the
/// longer one: the ideal offset `k * short / long`, lowered by
/// `(short + 2 * (long / 2)) / (2 * long)` and rounded up.
pub open spec fn lag(k: int, long: int, short: int) -> int {
    ((2 * k - 1) * short - 2 * (long / 2) + 2 * long - 1) / (2 * long)
}

/// Number of points on a path that spans `dx` cells along x and `dy` along y.
///
/// A path with one longer axis advances along it at every move. An exact
/// diagonal of odd length moves diagonally throughout. An exact diagonal of
/// even length alternates single moves along y and along x, so it has a point
/// for each of its `2 * dx` moves.
pub open spec fn count(dx: int, dy: int) -> int {
    if dx == dy && dx % 2 == 0 {
        2 * dx + 1
    } else if dx > dy {
        dx + 1
    } else {
        dy + 1
    }
}

/// Cells advanced along x after `k` moves.
pub open spec fn steps_x(dx: int, dy: int, k: int) -> int {
    if dx > dy {
        k
    } else if dx < dy {
        lag(k, dy, dx)
    } else if dx % 2 == 0 {
        k / 2
    } else {
        k
    }
}

/// Cells advanced along y after `k` moves.
pub open spec fn steps_y(dx: int, dy: int, k: int) -> int {
    if dx > dy {
        lag(k, dx, dy)
    } else if dx < dy {
        k
    } else if dx % 2 == 0 {
        (k + 1) / 2
    } else {
        k
    }
}

/// The rasterizer's error term after `k` moves.
pub open spec fn error(dx: int, dy: int, k: int) -> int {
    if dx > dy {
        dx / 2 - k * dy + lag(k, dx, dy) * dx
    } else if dx < dy {
        -(dy / 2 - k * dx + lag(k, dy, dx) * dy)
    } else if dx % 2 == 0 && k % 2 != 0 {
        dx / 2
    } else {
        -(dx / 2)
    }
}

/// Number of points on the line from `a` to `b`.
pub open spec fn line_len(a: Vector2<i32>, b: Vector2<i32>) -> nat {
    count(span(a.x as int, b.x as int), span(a.y as int, b.y as int)) as nat
}

/// The x coordinate of point `k` of the line from `a` to `b`.
pub open spec fn line_x(a: Vector2<i32>, b: Vector2<i32>, k: int) -> int {
    let s = steps_x(span(a.x as int, b.x as int), span(a.y as int, b.y as int), k);
    if a.x < b.x {
        a.x + s
    } else {
        a.x - s
    }
}

/// The y coordinate of point `k` of the line from `a` to `b`.
pub open spec fn line_y(a: Vector2<i32>, b: Vector2<i32>, k: int) -> int {
    let s = steps_y(span(a.x as int, b.x as int), span(a.y as int, b.y as int), k);
    if a.y < b.y {
        a.y + s
    } else {
        a.y - s
    }
}

/// The points of the line from `a` to `b`, in the order they are plotted.
pub open spec fn line(a: Vector2<i32>, b: Vector2<i32>) -> Seq<Vector2<i32>> {
    Seq::new(
        line_len(a, b),
        |k: int| Vector2 { x: line_x(a, b, k) as i32, y: line_y(a, b, k) as i32 },
    )
}

/// `lag(k, long, short)` is the least `c` with
/// `(2 * k - 1) * short - 2 * (long / 2) <= 2 * long * c`.
proof fn lemma_lag_window(k: int, long: int, short: int)
    requires
        0 <= short < long,
    ensures
        (2 * k - 1) * short - 2 * (long / 2) <= 2 * long * lag(k, long, short),
        2 * long * lag(k, long, short) < (2 * k - 1) * short - 2 * (long / 2) + 2 * long,
{
    let d = 2 * long;
    let x = (2 * k - 1) * short - 2 * (long / 2) + 2 * long - 1;
    lemma_fundamental_div_mod(x, d);
    lemma_mod_bound(x, d);
}

/// The one `c` inside the window of `lemma_lag_window` is `lag(k, long, short)`.
proof fn lemma_lag_unique(k: int, long: int, short: int, c: int)
    requires
        0 <= short < long,
        (2 * k - 1) * short - 2 * (long / 2) <= 2 * long * c,
        2 * long * c < (2 * k - 1) * short - 2 * (long / 2) + 2 * long,
    ensures
        c == lag(k, long, short),
{
    let d = 2 * long;
    let x = (2 * k - 1) * short - 2 * (long / 2) + 2 * long - 1;
    let r = x - 2 * long * c;
    assert(x == c * d + r) by (nonlinear_arith)
        requires
            r == x - 2 * long * c,
            d == 2 * long,
    ;
    lemma_fundamental_div_mod_converse(x, d, c, r);
}

/// One move along the longer axis: the doubled error term stays in
/// `[-short, 2 * long - short)`, and the shorter axis advances exactly when
/// it is below `short`.
proof fn lemma_lag_step(k: int, long: int, short: int)
    requires
        0 <= short < long,
    ensures
        -short <= 2 * (long / 2 - k * short + lag(k, long, short) * long) < 2 * long - short,
        lag(k + 1, long, short) == lag(k, long, short) + if 2 * (long / 2 - k * short + lag(
            k,
            long,
            short,
        ) * long) < short {
            1int
        } else {
            0int
        },
{
    let j = lag(k, long, short);
    let n = (2 * k - 1) * short - 2 * (long / 2);
    let e2 = 2 * (long / 2 - k * short + j * long);
    lemma_lag_window(k, long, short);
    assert(e2 == 2 * long * j - n - short) by (nonlinear_arith)
        requires
            n == (2 * k - 1) * short - 2 * (long / 2),
            e2 == 2 * (long / 2 - k * short + j * long),
    ;
    let n1 = (2 * (k + 1) - 1) * short - 2 * (long / 2);
    assert(n1 == n + 2 * short) by (nonlinear_arith)
        requires
            n == (2 * k - 1) * short - 2 * (long / 2),
            n1 == (2 * (k + 1) - 1) * short - 2 * (long / 2),
    ;
    if e2 < short {
        assert(2 * long * (j + 1) == 2 * long * j + 2 * long) by (nonlinear_arith);
        lemma_lag_unique(k + 1, long, short, j + 1);
    } else {
        lemma_lag_unique(k + 1, long, short, j);
    }
}

/// Along the shorter axis the path never leaves the span, and it has crossed
/// all of it when the longer axis is crossed.
proof fn lemma_lag_bounds(k: int, long: int, short: int)
    requires
        0 <= short < long,
        0 <= k <= long,
    ensures
        0 <= lag(k, long, short) <= short,
        lag(0, long, short) == 0,
        lag(long, long, short) == short,
{
    let h = long / 2;
    assert(0 <= 2 * h <= long);
    assert((2 * 0 - 1) * short == -short) by (nonlinear_arith);
    lemma_lag_unique(0, long, short, 0);
    assert((2 * long - 1) * short - 2 * h <= 2 * long * short && 2 * long * short < (2 * long - 1)
        * short - 2 * h + 2 * long) by (nonlinear_arith)
        requires
            0 <= short < long,
            0 <= 2 * h <= long,
    ;
    lemma_lag_unique(long, long, short, short);
    let c = lag(k, long, short);
    lemma_lag_window(k, long, short);
    assert(0 <= c <= short) by (nonlinear_arith)
        requires
            0 <= short < long,
            0 <= k <= long,
            0 <= 2 * h <= long,
            (2 * k - 1) * short - 2 * h <= 2 * long * c,
            2 * long * c < (2 * k - 1) * short - 2 * h + 2 * long,
    ;
}

/// Before the first move nothing is advanced, and the error term is half the
/// longer distance: positive if x is the longer axis, else negative.
pub proof fn walk_begins(dx: int, dy: int)
    requires
        0 <= dx,
        0 <= dy,
    ensures
        steps_x(dx, dy, 0) == 0,
        steps_y(dx, dy, 0) == 0,
        error(dx, dy, 0) == if dx > dy {
            dx / 2
        } else {
            -(dy / 2)
        },
{
    if dx > dy {
        lemma_lag_bounds(0, dx, dy);
        assert(0 * dy == 0 && 0 * dx == 0) by (nonlinear_arith);
    } else if dx < dy {
        lemma_lag_bounds(0, dy, dx);
        assert(0 * dy == 0 && 0 * dx == 0) by (nonlinear_arith);
    }
}

/// One move of the rasterizer: x advances when twice the error term exceeds
/// `-dx`, y advances when it is below `dy`, and the error term gives up `dy`
/// for a move along x and gains `dx` for a move along y.
pub proof fn walk_moves(dx: int, dy: int, k: int)
    requires
        0 <= dx,
        0 <= dy,
        0 <= k < count(dx, dy) - 1,
    ensures
        steps_x(dx, dy, k + 1) == steps_x(dx, dy, k) + if 2 * error(dx, dy, k) > -dx {
            1int
        } else {
            0int
        },
        steps_y(dx, dy, k + 1) == steps_y(dx, dy, k) + if 2 * error(dx, dy, k) < dy {
            1int
        } else {
            0int
        },
        error(dx, dy, k + 1) == error(dx, dy, k) - (if 2 * error(dx, dy, k) > -dx {
            dy
        } else {
            0int
        }) + (if 2 * error(dx, dy, k) < dy {
            dx
        } else {
            0int
        }),
{
    if dx > dy {
        lemma_lag_step(k, dx, dy);
        let j = lag(k, dx, dy);
        assert((k + 1) * dy == k * dy + dy) by (nonlinear_arith);
        assert((j + 1) * dx == j * dx + dx) by (nonlinear_arith);
    } else if dx < dy {
        lemma_lag_step(k, dy, dx);
        let j = lag(k, dy, dx);
        assert((k + 1) * dx == k * dx + dx) by (nonlinear_arith);
        assert((j + 1) * dy == j * dy + dy) by (nonlinear_arith);
    } else {
    }
}

/// The path stays inside the box spanned by its ends, reaches the far corner
/// at its last point and at no earlier one, and its error term stays small.
pub proof fn walk_arrives(dx: int, dy: int, k: int)
    requires
        0 <= dx,
        0 <= dy,
        0 <= k < count(dx, dy),
    ensures
        0 <= steps_x(dx, dy, k) <= dx,
        0 <= steps_y(dx, dy, k) <= dy,
        (steps_x(dx, dy, k) == dx && steps_y(dx, dy, k) == dy) <==> k == count(dx, dy) - 1,
        -(dx + dy) <= error(dx, dy, k) <= dx + dy,
{
    if dx > dy {
        lemma_lag_bounds(k, dx, dy);
        lemma_lag_step(k, dx, dy);
    } else if dx < dy {
        lemma_lag_bounds(k, dy, dx);
        lemma_lag_step(k, dy, dx);
    } else {
    }
}

/// No point of a line lies outside the box spanned by its two ends, so its
/// coordinates are those of `line_x` and `line_y`, unshortened.
pub proof fn line_stays_between_ends(a: Vector2<i32>, b: Vector2<i32>, k: int)
    requires
        0 <= k < line_len(a, b),
    ensures
        line(a, b)[k].x == line_x(a, b, k),
        line(a, b)[k].y == line_y(a, b, k),
        a.x <= line(a, b)[k].x <= b.x || b.x <= line(a, b)[k].x <= a.x,
        a.y <= line(a, b)[k].y <= b.y || b.y <= line(a, b)[k].y <= a.y,
{
    walk_arrives(span(a.x as int, b.x as int), span(a.y as int, b.y as int), k);
}

/// A line starts at its first end and stops at its second, and has a point
/// for every cell of its longer axis at least.
pub proof fn line_joins_ends(a: Vector2<i32>, b: Vector2<i32>)
    ensures
        line_len(a, b) >= 1,
        line_len(a, b) >= span(a.x as int, b.x as int) + 1,
        line_len(a, b) >= span(a.y as int, b.y as int) + 1,
        line(a, b).first() == a,
        line(a, b).last() == b,
{
    let dx = span(a.x as int, b.x as int);
    let dy = span(a.y as int, b.y as int);
    walk_begins(dx, dy);
    walk_arrives(dx, dy, count(dx, dy) - 1);
}

/// A line is a connected path: from each point to the next, each coordinate
/// moves by at most one cell, always towards the second end, and at least one
/// of the two moves.
pub proof fn line_is_connected(a: Vector2<i32>, b: Vector2<i32>, k: int)
    requires
        0 <= k < line_len(a, b) - 1,
    ensures
        line(a, b)[k + 1].x - line(a, b)[k].x == 0 || line(a, b)[k + 1].x - line(a, b)[k].x == (
        if a.x < b.x {
            1int
        } else {
            -1int
        }),
        line(a, b)[k + 1].y - line(a, b)[k].y == 0 || line(a, b)[k + 1].y - line(a, b)[k].y == (
        if a.y < b.y {
            1int
        } else {
            -1int
        }),
        line(a, b)[k + 1] != line(a, b)[k],
{
    let dx = span(a.x as int, b.x as int);
    let dy = span(a.y as int, b.y as int);
    line_stays_between_ends(a, b, k);
    line_stays_between_ends(a, b, k + 1);
    walk_moves(dx, dy, k);
    walk_arrives(dx, dy, k);
}

/// A line along a row or a column visits every cell from its first end to its
/// second once, in order.
pub proof fn line_along_axis(a: Vector2<i32>, b: Vector2<i32>, k: int)
    requires
        a.x == b.x || a.y == b.y,
        0 <= k < line_len(a, b),
    ensures
        line_len(a, b) == span(a.x as int, b.x as int) + span(a.y as int, b.y as int) + 1,
        line(a, b)[k].x == if a.x < b.x {
            a.x + k
        } else if a.x > b.x {
            a.x - k
        } else {
            a.x as int
        },
        line(a, b)[k].y == if a.y < b.y {
            a.y + k
        } else if a.y > b.y {
            a.y - k
        } else {
            a.y as int
        },
{
    let dx = span(a.x as int, b.x as int);
    let dy = span(a.y as int, b.y as int);
    line_stays_between_ends(a, b, k);
    walk_arrives(dx, dy, k);
}

/// A line visits no cell twice.
pub proof fn line_visits_no_cell_twice(a: Vector2<i32>, b: Vector2<i32>, i: int, j: int)
    requires
        0 <= i < j < line_len(a, b),
    ensures
        line(a, b)[i] != line(a, b)[j],
{
    let dx = span(a.x as int, b.x as int);
    let dy = span(a.y as int, b.y as int);
    lemma_progress(dx, dy, i, j);
    line_stays_between_ends(a, b, i);
    line_stays_between_ends(a, b, j);
}

/// Along neither axis does the path ever turn back, and every move advances it
/// along one of the two at least.
proof fn lemma_progress(dx: int, dy: int, i: int, j: int)
    requires
        0 <= dx,
        0 <= dy,
        0 <= i < j < count(dx, dy),
    ensures
        steps_x(dx, dy, i) <= steps_x(dx, dy, j),
        steps_y(dx, dy, i) <= steps_y(dx, dy, j),
        steps_x(dx, dy, i) + steps_y(dx, dy, i) < steps_x(dx, dy, j) + steps_y(dx, dy, j),
    decreases j - i,
{
    walk_moves(dx, dy, j - 1);
    if i < j - 1 {
        lemma_progress(dx, dy, i, j - 1);
    }
}

} // verus!
