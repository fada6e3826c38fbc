//! Cells of the character grid, and the fixed-point screen plane.
use vstd::prelude::*;

pub mod triangle;
pub mod vector;

verus! {

/// A character cell of the screen grid.
#[derive(Debug, Copy, Clone, PartialEq, Eq, Structural)]
pub struct Vec2 {
    pub x: usize,
    pub y: usize,
}

impl Vec2 {
    pub fn new(x: usize, y: usize) -> (v: Vec2)
        ensures
            v.x == x,
            v.y == y,
    {
        Vec2 { x, y }
    }
}

/// Three character cells.
#[derive(Debug, Copy, Clone, PartialEq, Eq, Structural)]
pub struct Triangle {
    pub p1: Vec2,
    pub p2: Vec2,
    pub p3: Vec2,
}

impl Triangle {
    pub fn new(p1: Vec2, p2: Vec2, p3: Vec2) -> (t: Triangle)
        ensures
            t.p1 == p1,
            t.p2 == p2,
            t.p3 == p3,
    {
        Triangle { p1, p2, p3 }
    }

    pub fn update_p1(&mut self, x: usize, y: usize)
        ensures
            final(self).p1 == (Vec2 { x, y }),
            final(self).p2 == old(self).p2,
            final(self).p3 == old(self).p3,
    {
        self.p1.x = x;
        self.p1.y = y;
    }

    pub fn update_p2(&mut self, x: usize, y: usize)
        ensures
            final(self).p1 == old(self).p1,
            final(self).p2 == (Vec2 { x, y }),
            final(self).p3 == old(self).p3,
    {
        self.p2.x = x;
        self.p2.y = y;
    }

    pub fn update_p3(&mut self, x: usize, y: usize)
        ensures
            final(self).p1 == old(self).p1,
            final(self).p2 == old(self).p2,
            final(self).p3 == (Vec2 { x, y }),
    {
        self.p3.x = x;
        self.p3.y = y;
    }
}

} // verus!
