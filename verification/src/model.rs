//! Where a wireframe comes from: the cube that is shown by default, and the
//! edges of a model that is given as a run of vertex indices.

use vstd::prelude::*;
use crate::vec::{Vector2, Vector3};

verus! {

/// The coordinates of a vertex, as whole numbers.
pub open spec fn place(vertex: Vector3<i32>) -> (int, int, int) {
    (vertex.x as int, vertex.y as int, vertex.z as int)
}

/// The two ends of an edge, as whole numbers.
pub open spec fn ends(edge: Vector2<usize>) -> (int, int) {
    (edge.x as int, edge.y as int)
}

/// The corners of the default cube, which has sides of 20 about the origin:
/// four round the bottom face, then the four above them.
pub fn cube_verticies() -> (verticies: Vec<Vector3<i32>>)
    ensures
        verticies@.map_values(|vertex: Vector3<i32>| place(vertex)) == seq![
            (-10int, -10int, -10int),
            (-10int, -10int, 10int),
            (10int, -10int, 10int),
            (10int, -10int, -10int),
            (-10int, 10int, -10int),
            (-10int, 10int, 10int),
            (10int, 10int, 10int),
            (10int, 10int, -10int),
        ],
{
    let mut verticies: Vec<Vector3<i32>> = Vec::new();
    verticies.push(Vector3::new(-10, -10, -10));
    verticies.push(Vector3::new(-10, -10, 10));
    verticies.push(Vector3::new(10, -10, 10));
    verticies.push(Vector3::new(10, -10, -10));
    verticies.push(Vector3::new(-10, 10, -10));
    verticies.push(Vector3::new(-10, 10, 10));
    verticies.push(Vector3::new(10, 10, 10));
    verticies.push(Vector3::new(10, 10, -10));
    assert(verticies@.map_values(|vertex: Vector3<i32>| place(vertex)) =~= seq![
        (-10int, -10int, -10int),
        (-10int, -10int, 10int),
        (10int, -10int, 10int),
        (10int, -10int, -10int),
        (-10int, 10int, -10int),
        (-10int, 10int, 10int),
        (10int, 10int, 10int),
        (10int, 10int, -10int),
    ]);
    verticies
}

/// The edges of the default cube: four round the bottom face, four round the
/// top face, and four that join each bottom corner to the one above it.
pub fn cube_indicies() -> (indicies: Vec<Vector2<usize>>)
    ensures
        indicies@.map_values(|edge: Vector2<usize>| ends(edge)) == seq![
            (0int, 1int),
            (1int, 2int),
            (2int, 3int),
            (3int, 0int),
            (4int, 5int),
            (5int, 6int),
            (6int, 7int),
            (7int, 4int),
            (0int, 4int),
            (1int, 5int),
            (2int, 6int),
            (3int, 7int),
        ],
{
    let mut indicies: Vec<Vector2<usize>> = Vec::new();
    indicies.push(Vector2::new(0, 1));
    indicies.push(Vector2::new(1, 2));
    indicies.push(Vector2::new(2, 3));
    indicies.push(Vector2::new(3, 0));
    indicies.push(Vector2::new(4, 5));
    indicies.push(Vector2::new(5, 6));
    indicies.push(Vector2::new(6, 7));
    indicies.push(Vector2::new(7, 4));
    indicies.push(Vector2::new(0, 4));
    indicies.push(Vector2::new(1, 5));
    indicies.push(Vector2::new(2, 6));
    indicies.push(Vector2::new(3, 7));
    assert(indicies@.map_values(|edge: Vector2<usize>| ends(edge)) =~= seq![
        (0int, 1int),
        (1int, 2int),
        (2int, 3int),
        (3int, 0int),
        (4int, 5int),
        (5int, 6int),
        (6int, 7int),
        (7int, 4int),
        (0int, 4int),
        (1int, 5int),
        (2int, 6int),
        (3int, 7int),
    ]);
    indicies
}

/// The edges of a model given as a run of vertex indices: one edge from each
/// index to the one that follows it.
pub open spec fn chain(indices: Seq<u16>) -> Seq<Vector2<usize>> {
    Seq::new(
        if indices.len() == 0 {
            0nat
        } else {
            (indices.len() - 1) as nat
        },
        |n: int| Vector2 { x: indices[n] as usize, y: indices[n + 1] as usize },
    )
}

/// The edges that join each index of `indices` to the next.
pub fn edges_of(indices: &Vec<u16>) -> (edges: Vec<Vector2<usize>>)
    ensures
        edges@ == chain(indices@),
{
    let mut edges: Vec<Vector2<usize>> = Vec::new();
    let mut n: usize = 1;
    while n < indices.len()
        invariant
            1 <= n,
            n <= indices@.len() || n == 1,
            edges@.len() == n - 1,
            forall|i: int| 0 <= i < n - 1 ==> #[trigger] edges@[i] == chain(indices@)[i],
        decreases indices@.len() - n,
    {
        edges.push(Vector2::new(indices[n - 1] as usize, indices[n] as usize));
        n = n + 1;
    }
    assert(edges@ =~= chain(indices@));
    edges
}

} // verus!
