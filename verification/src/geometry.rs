use vstd::prelude::*;

verus! {

/// A point or a direction in the orbital plane.
#[derive(Clone, Copy, Debug)]
pub struct Vec2<T> {
    pub x: T,
    pub y: T,
}

impl<T: Copy> Vec2<T> {
    pub fn new(x: T, y: T) -> (v: Self)
        ensures
            v.x == x,
            v.y == y,
    {
        Self { x, y }
    }
}

/// A closed polygon around a body's centre, vertex by vertex.
#[derive(Clone, Debug)]
pub struct HullShape<T> {
    pub vertices: Vec<Vec2<T>>,
}

} // verus!
