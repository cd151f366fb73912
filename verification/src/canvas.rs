//! The rasterizer: a wireframe in the screen plane, the cells its lines pass
//! through, and where a cell lands on a terminal of a given size.

use vstd::prelude::*;
use crate::line::{walk_arrives, walk_moves, walk_begins, line, line_len, line_x, line_y, span};
use crate::vec::Vector2;

verus! {

/// Where a glyph plotted at `point` lands on a terminal of `size` columns and
/// rows, if anywhere.
///
/// `point` is measured from the middle of the screen, the cell from its top
/// left corner. A cell one past the last column or row still counts as on
/// screen; anything further out is dropped.
pub open spec fn placed(point: Vector2<i32>, size: Vector2<u16>) -> Option<Vector2<u16>> {
    let x = point.x + size.x / 2;
    let y = point.y + size.y / 2;
    if 0 <= x <= size.x && 0 <= y <= size.y {
        Some(Vector2 { x: x as u16, y: y as u16 })
    } else {
        None
    }
}

/// A wireframe as it lies in the screen plane: the position of every vertex,
/// and the edges as pairs of vertex indices.
pub struct Canvas {
    pub verticies: Vec<Vector2<i32>>,
    pub indicies: Vec<Vector2<usize>>,
}

impl Canvas {
    pub fn new() -> (canvas: Self)
        ensures
            canvas.verticies@.len() == 0,
            canvas.indicies@.len() == 0,
    {
        Self { verticies: Vec::new(), indicies: Vec::new() }
    }

    /// The terminal cell for a glyph at `point`, or `None` if it falls off a
    /// screen of `size`.
    pub fn set_pixel(point: Vector2<i32>, size: Vector2<u16>) -> (cell: Option<Vector2<u16>>)
        ensures
            cell == placed(point, size),
    {
        let x: i64 = point.x as i64 + (size.x / 2) as i64;
        let y: i64 = point.y as i64 + (size.y / 2) as i64;
        if x < 0 || y < 0 || x > size.x as i64 || y > size.y as i64 {
            return None;
        }
        Some(Vector2::new(x as u16, y as u16))
    }

    /// The cells of the line from `point1` to `point2`, both ends included, in
    /// the order they are plotted.
    pub fn draw_line(point1: Vector2<i32>, point2: Vector2<i32>) -> (points: Vec<Vector2<i32>>)
        ensures
            points@ == line(point1, point2),
    {
        let end_x: i64 = point2.x as i64;
        let end_y: i64 = point2.y as i64;
        let mut current_x: i64 = point1.x as i64;
        let mut current_y: i64 = point1.y as i64;
        let delta_x: i64 = if current_x < end_x {
            end_x - current_x
        } else {
            current_x - end_x
        };
        let delta_y: i64 = if current_y < end_y {
            end_y - current_y
        } else {
            current_y - end_y
        };
        let slope_x: i64 = if current_x < end_x {
            1
        } else {
            -1
        };
        let slope_y: i64 = if current_y < end_y {
            1
        } else {
            -1
        };
        let mut error: i64 = if delta_x > delta_y {
            delta_x / 2
        } else {
            -(delta_y / 2)
        };
        let mut points: Vec<Vector2<i32>> = Vec::new();
        let ghost mut k: int = 0;
        proof {
            walk_begins(delta_x as int, delta_y as int);
        }
        loop
            invariant
                end_x == point2.x,
                end_y == point2.y,
                delta_x == span(point1.x as int, point2.x as int),
                delta_y == span(point1.y as int, point2.y as int),
                slope_x == if point1.x < point2.x {
                    1int
                } else {
                    -1int
                },
                slope_y == if point1.y < point2.y {
                    1int
                } else {
                    -1int
                },
                0 <= k < line_len(point1, point2),
                current_x == line_x(point1, point2, k),
                current_y == line_y(point1, point2, k),
                error == crate::line::error(delta_x as int, delta_y as int, k),
                points@ == line(point1, point2).take(k),
            decreases line_len(point1, point2) - k,
        {
            proof {
                walk_arrives(delta_x as int, delta_y as int, k);
            }
            points.push(Vector2::new(current_x as i32, current_y as i32));
            assert(points@ == line(point1, point2).take(k + 1));
            if current_x == end_x && current_y == end_y {
                assert(points@ == line(point1, point2));
                return points;
            }
            proof {
                walk_moves(delta_x as int, delta_y as int, k);
            }
            let old_error: i64 = 2 * error;
            if old_error > -delta_x {
                error = error - delta_y;
                current_x = current_x + slope_x;
            }
            if old_error < delta_y {
                error = error + delta_x;
                current_y = current_y + slope_y;
            }
            proof {
                k = k + 1;
            }
        }
    }

    /// Whether both ends of `edge` are vertices of this canvas.
    pub open spec fn joins(self, edge: Vector2<usize>) -> bool {
        edge.x < self.verticies@.len() && edge.y < self.verticies@.len()
    }

    /// The edges that are drawn, in their order: those with both ends among
    /// the vertices.
    pub open spec fn drawn(self) -> Seq<Vector2<usize>> {
        self.indicies@.filter(|edge: Vector2<usize>| self.joins(edge))
    }

    /// The lines of the wireframe: one for each drawn edge, from the position
    /// of its first vertex to that of its second.
    pub open spec fn wireframe(self) -> Seq<Seq<Vector2<i32>>> {
        Seq::new(
            self.drawn().len(),
            |i: int|
                line(
                    self.verticies@[self.drawn()[i].x as int],
                    self.verticies@[self.drawn()[i].y as int],
                ),
        )
    }

    /// One line for each edge whose two ends are vertices of the canvas, from
    /// the position of the first to that of the second. An edge that names a
    /// vertex the canvas does not have is left out.
    pub fn draw(&self) -> (lines: Vec<Vec<Vector2<i32>>>)
        ensures
            lines@.map_values(|points: Vec<Vector2<i32>>| points@) == self.wireframe(),
    {
        let verticies_len: usize = self.verticies.len();
        let mut lines: Vec<Vec<Vector2<i32>>> = Vec::new();
        let ghost joins = |edge: Vector2<usize>| self.joins(edge);
        proof {
            reveal(Seq::filter);
            assert(self.indicies@.take(0).filter(joins).len() == 0);
        }
        let mut n: usize = 0;
        while n < self.indicies.len()
            invariant
                n <= self.indicies@.len(),
                verticies_len == self.verticies@.len(),
                joins == |edge: Vector2<usize>| self.joins(edge),
                lines@.len() == self.indicies@.take(n as int).filter(joins).len(),
                forall|i: int|
                    0 <= i < lines@.len() ==> (#[trigger] lines@[i])@ == line(
                        self.verticies@[self.indicies@.take(n as int).filter(joins)[i].x as int],
                        self.verticies@[self.indicies@.take(n as int).filter(joins)[i].y as int],
                    ),
            decreases self.indicies@.len() - n,
        {
            let index = self.indicies[n];
            proof {
                reveal(Seq::filter);
                assert(self.indicies@.take(n + 1).drop_last() == self.indicies@.take(n as int));
            }
            if index.x < verticies_len && index.y < verticies_len {
                let points = Self::draw_line(self.verticies[index.x], self.verticies[index.y]);
                lines.push(points);
            }
            n = n + 1;
        }
        assert(self.indicies@.take(n as int) == self.indicies@);
        assert(lines@.map_values(|points: Vec<Vector2<i32>>| points@) =~= self.wireframe());
        lines
    }
}

/// An edge added behind the others adds its line behind theirs if both its
/// ends are vertices, and adds nothing if one of them is missing.
pub proof fn wireframe_grows_by_edge(before: Canvas, after: Canvas, edge: Vector2<usize>)
    requires
        after.verticies@ == before.verticies@,
        after.indicies@ == before.indicies@.push(edge),
    ensures
        before.joins(edge) ==> after.wireframe() == before.wireframe().push(
            line(before.verticies@[edge.x as int], before.verticies@[edge.y as int]),
        ),
        !before.joins(edge) ==> after.wireframe() == before.wireframe(),
{
    reveal(Seq::filter);
    let joins_before = |e: Vector2<usize>| before.joins(e);
    let joins_after = |e: Vector2<usize>| after.joins(e);
    assert(joins_before == joins_after);
    assert(after.indicies@.drop_last() == before.indicies@);
    if before.joins(edge) {
        assert(after.drawn() == before.drawn().push(edge));
        assert(after.wireframe() =~= before.wireframe().push(
            line(before.verticies@[edge.x as int], before.verticies@[edge.y as int]),
        ));
    } else {
        assert(after.drawn() == before.drawn());
        assert(after.wireframe() =~= before.wireframe());
    }
}

/// A canvas without edges shows nothing.
pub proof fn wireframe_of_no_edges(canvas: Canvas)
    requires
        canvas.indicies@.len() == 0,
    ensures
        canvas.wireframe().len() == 0,
{
    reveal(Seq::filter);
}

} // verus!
