//! Tuple structs and a unit-like struct: same shapes, distinct types.

use vstd::prelude::*;

verus! {

/// An RGB color.
#[derive(Clone, Copy, PartialEq, Eq, Structural, Debug)]
pub struct Color(pub i32, pub i32, pub i32);

/// A point in three dimensions.
#[derive(Clone, Copy, PartialEq, Eq, Structural, Debug)]
pub struct Point(pub i32, pub i32, pub i32);

/// A zero-sized marker type.
#[derive(Clone, Copy, PartialEq, Eq, Structural, Debug)]
pub struct AlwaysEqual;

} // verus!
