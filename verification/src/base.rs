//! Integer 2D vectors and the four cardinal directions.

use vstd::prelude::*;

verus! {

/// Stable identity of a player: its slot in the game roster.
pub type PlayerIndex = usize;

/// An immutable 2D integer vector, used for grid positions and offsets.
#[derive(Debug, Clone, Copy, PartialEq, Eq, Structural)]
pub struct Vector2i {
    pub x: i32,
    pub y: i32,
}

/// One of the four cardinal directions a snake can face.
#[derive(Debug, Clone, Copy, PartialEq, Eq, Structural)]
pub enum Direction {
    PlusX,
    MinusX,
    PlusY,
    MinusY,
}

impl Vector2i {
    /// The unit vector of a direction.
    pub open spec fn spec_from_direction(direction: Direction) -> Vector2i {
        match direction {
            Direction::PlusX => Vector2i { x: 1, y: 0 },
            Direction::MinusX => Vector2i { x: -1i32, y: 0 },
            Direction::PlusY => Vector2i { x: 0, y: 1 },
            Direction::MinusY => Vector2i { x: 0, y: -1i32 },
        }
    }

    /// Make the unit X vector.
    pub fn unit_x() -> (r: Vector2i)
        ensures
            r == (Vector2i { x: 1, y: 0 }),
    {
        Vector2i { x: 1, y: 0 }
    }

    /// Make the unit Y vector.
    pub fn unit_y() -> (r: Vector2i)
        ensures
            r == (Vector2i { x: 0, y: 1 }),
    {
        Vector2i { x: 0, y: 1 }
    }

    /// Make the zero vector.
    pub fn zero() -> (r: Vector2i)
        ensures
            r == (Vector2i { x: 0, y: 0 }),
    {
        Vector2i { x: 0, y: 0 }
    }

    /// Make a vector from its two components.
    pub fn new(x: i32, y: i32) -> (r: Vector2i)
        ensures
            r == (Vector2i { x, y }),
    {
        Vector2i { x, y }
    }

    /// Make a vector from an array of two components.
    pub fn from_array(array: [i32; 2]) -> (r: Vector2i)
        ensures
            r == (Vector2i { x: array[0], y: array[1] }),
    {
        Vector2i { x: array[0], y: array[1] }
    }

    /// Make the unit vector of a direction.
    #[verifier::when_used_as_spec(spec_from_direction)]
    pub fn from_direction(direction: Direction) -> (r: Vector2i)
        ensures
            r == Vector2i::spec_from_direction(direction),
    {
        match direction {
            Direction::PlusX => Vector2i { x: 1, y: 0 },
            Direction::MinusX => Vector2i { x: -1, y: 0 },
            Direction::PlusY => Vector2i { x: 0, y: 1 },
            Direction::MinusY => Vector2i { x: 0, y: -1 },
        }
    }

    /// Componentwise vector addition.
    pub fn plus(self, other: Vector2i) -> (r: Vector2i)
        requires
            i32::MIN <= self.x + other.x <= i32::MAX,
            i32::MIN <= self.y + other.y <= i32::MAX,
        ensures
            r.x == self.x + other.x,
            r.y == self.y + other.y,
    {
        Vector2i { x: self.x + other.x, y: self.y + other.y }
    }

    /// Componentwise vector subtraction.
    pub fn minus(self, other: Vector2i) -> (r: Vector2i)
        requires
            i32::MIN <= self.x - other.x <= i32::MAX,
            i32::MIN <= self.y - other.y <= i32::MAX,
        ensures
            r.x == self.x - other.x,
            r.y == self.y - other.y,
    {
        Vector2i { x: self.x - other.x, y: self.y - other.y }
    }

    /// Componentwise vector negation.
    pub fn negate(self) -> (r: Vector2i)
        requires
            self.x != i32::MIN,
            self.y != i32::MIN,
        ensures
            r.x == -self.x,
            r.y == -self.y,
    {
        Vector2i { x: -self.x, y: -self.y }
    }

    /// Multiplication of a vector by a scalar.
    pub fn scale(self, other: i32) -> (r: Vector2i)
        requires
            i32::MIN <= self.x * other <= i32::MAX,
            i32::MIN <= self.y * other <= i32::MAX,
        ensures
            r.x == self.x * other,
            r.y == self.y * other,
    {
        Vector2i { x: self.x * other, y: self.y * other }
    }
}

} // verus!
