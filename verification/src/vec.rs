//! Two- and three-component vectors.

use vstd::prelude::*;
use vstd::std_specs::convert::FromSpecImpl;
use crate::binary32::Binary32;

verus! {

/// A pair of coordinates: a point of the screen plane, a screen size, or the
/// two vertex indices of an edge.
#[derive(Clone, Copy, Debug, PartialEq, Eq)]
pub struct Vector2<T> {
    pub x: T,
    pub y: T,
}

impl<T> Vector2<T> {
    pub fn new(x: T, y: T) -> (v: Self)
        ensures
            v.x == x,
            v.y == y,
    {
        Self { x, y }
    }
}

impl Vector2<Binary32> {
    /// The grid point nearest to this point: each coordinate rounded to a
    /// whole number, a half taken away from zero.
    pub fn round(&self) -> (v: Vector2<i32>)
        ensures
            v.x == self.x.rounded(),
            v.y == self.y.rounded(),
    {
        Vector2::new(self.x.round(), self.y.round())
    }
}

impl<T> From<(T, T)> for Vector2<T> {
    fn from(pair: (T, T)) -> (v: Self) {
        Vector2 { x: pair.0, y: pair.1 }
    }
}

impl<T> FromSpecImpl<(T, T)> for Vector2<T> {
    open spec fn obeys_from_spec() -> bool {
        true
    }

    open spec fn from_spec(pair: (T, T)) -> Self {
        Vector2 { x: pair.0, y: pair.1 }
    }
}

/// A triple of coordinates: a vertex of a model.
#[derive(Clone, Copy, Debug, PartialEq, Eq)]
pub struct Vector3<T> {
    pub x: T,
    pub y: T,
    pub z: T,
}

impl<T> Vector3<T> {
    pub fn new(x: T, y: T, z: T) -> (v: Self)
        ensures
            v.x == x,
            v.y == y,
            v.z == z,
    {
        Self { x, y, z }
    }
}

impl<T> From<(T, T, T)> for Vector3<T> {
    fn from(triple: (T, T, T)) -> (v: Self) {
        Vector3 { x: triple.0, y: triple.1, z: triple.2 }
    }
}

impl<T> FromSpecImpl<(T, T, T)> for Vector3<T> {
    open spec fn obeys_from_spec() -> bool {
        true
    }

    open spec fn from_spec(triple: (T, T, T)) -> Self {
        Vector3 { x: triple.0, y: triple.1, z: triple.2 }
    }
}

} // verus!
