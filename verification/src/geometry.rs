//! Points of the game world.
//!
//! Lengths and coordinates are whole numbers of thousandths of a world unit.

use vstd::prelude::*;

verus! {

/// Thousandths in one world unit.
pub const UNIT: i32 = 1000;

/// A point of the plane.
#[derive(Clone, Copy, Debug, PartialEq, Eq, Structural, Hash)]
pub struct Point {
    pub x: i32,
    pub y: i32,
}

/// A point of the plane with a stacking order: of two things that overlap,
/// the one with the larger `z` is in front.
#[derive(Clone, Copy, Debug, PartialEq, Eq, Structural, Hash)]
pub struct Point3 {
    pub x: i32,
    pub y: i32,
    pub z: i32,
}

} // verus!
