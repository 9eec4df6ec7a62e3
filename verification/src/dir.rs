//! The nine steps an organism can take.

use crate::coord::Coord;
use crate::rng::{rng_advance, rng_below, Rng};
use vstd::prelude::*;

verus! {

/// The number of directions.
pub const N_DIRS: u64 = 9;

/// One of the eight compass directions, or the step that stays in place.
/// North is the direction of growing `y`, east that of growing `x`.
#[derive(Clone, Copy, Debug, PartialEq, Eq, Structural, Hash)]
pub enum Dir {
    North,
    NorthEast,
    East,
    SouthEast,
    South,
    SouthWest,
    West,
    NorthWest,
    Here,
}

impl Dir {
    /// The place of the direction in the clockwise order that starts at north;
    /// `Here` comes last.
    pub open spec fn index_spec(self) -> int {
        match self {
            Dir::North => 0,
            Dir::NorthEast => 1,
            Dir::East => 2,
            Dir::SouthEast => 3,
            Dir::South => 4,
            Dir::SouthWest => 5,
            Dir::West => 6,
            Dir::NorthWest => 7,
            Dir::Here => 8,
        }
    }

    /// The direction at place `i`, counted modulo nine.
    pub open spec fn from_index_spec(i: int) -> Dir {
        let k: int = i % 9;
        if k == 0 {
            Dir::North
        } else if k == 1 {
            Dir::NorthEast
        } else if k == 2 {
            Dir::East
        } else if k == 3 {
            Dir::SouthEast
        } else if k == 4 {
            Dir::South
        } else if k == 5 {
            Dir::SouthWest
        } else if k == 6 {
            Dir::West
        } else if k == 7 {
            Dir::NorthWest
        } else {
            Dir::Here
        }
    }

    /// The unit step of the direction.
    pub open spec fn delta_spec(self) -> Coord<i8> {
        match self {
            Dir::North => Coord { x: 0, y: 1 },
            Dir::NorthEast => Coord { x: 1, y: 1 },
            Dir::East => Coord { x: 1, y: 0 },
            Dir::SouthEast => Coord { x: 1, y: -1i8 },
            Dir::South => Coord { x: 0, y: -1i8 },
            Dir::SouthWest => Coord { x: -1i8, y: -1i8 },
            Dir::West => Coord { x: -1i8, y: 0 },
            Dir::NorthWest => Coord { x: -1i8, y: 1 },
            Dir::Here => Coord { x: 0, y: 0 },
        }
    }

    /// The place of the direction in the clockwise order.
    pub fn index(self) -> (i: u8)
        ensures
            i == self.index_spec(),
            i < 9,
    {
        match self {
            Dir::North => 0,
            Dir::NorthEast => 1,
            Dir::East => 2,
            Dir::SouthEast => 3,
            Dir::South => 4,
            Dir::SouthWest => 5,
            Dir::West => 6,
            Dir::NorthWest => 7,
            Dir::Here => 8,
        }
    }

    /// The direction at place `i`, counted modulo nine.
    pub fn from_index(i: u64) -> (d: Dir)
        ensures
            d == Dir::from_index_spec(i as int),
            d.index_spec() == i % 9,
    {
        let k: u64 = i % 9;
        if k == 0 {
            Dir::North
        } else if k == 1 {
            Dir::NorthEast
        } else if k == 2 {
            Dir::East
        } else if k == 3 {
            Dir::SouthEast
        } else if k == 4 {
            Dir::South
        } else if k == 5 {
            Dir::SouthWest
        } else if k == 6 {
            Dir::West
        } else if k == 7 {
            Dir::NorthWest
        } else {
            Dir::Here
        }
    }

    /// The unit step of the direction.
    pub fn delta(self) -> (d: Coord<i8>)
        ensures
            d == self.delta_spec(),
            -1 <= d.x <= 1,
            -1 <= d.y <= 1,
    {
        match self {
            Dir::North => Coord { x: 0, y: 1 },
            Dir::NorthEast => Coord { x: 1, y: 1 },
            Dir::East => Coord { x: 1, y: 0 },
            Dir::SouthEast => Coord { x: 1, y: -1 },
            Dir::South => Coord { x: 0, y: -1 },
            Dir::SouthWest => Coord { x: -1, y: -1 },
            Dir::West => Coord { x: -1, y: 0 },
            Dir::NorthWest => Coord { x: -1, y: 1 },
            Dir::Here => Coord { x: 0, y: 0 },
        }
    }

    /// The direction whose unit step is `delta`; `None` where `delta` is no
    /// unit step.
    pub fn from_delta(delta: Coord<i8>) -> (found: Option<Dir>)
        ensures
            found is Some <==> (-1 <= delta.x <= 1 && -1 <= delta.y <= 1),
            found matches Some(d) ==> d.delta_spec() == delta,
    {
        if delta.x < -1 || delta.x > 1 || delta.y < -1 || delta.y > 1 {
            return None;
        }
        let d: Dir = if delta.y == 1 {
            if delta.x == 0 {
                Dir::North
            } else if delta.x == 1 {
                Dir::NorthEast
            } else {
                Dir::NorthWest
            }
        } else if delta.y == 0 {
            if delta.x == 0 {
                Dir::Here
            } else if delta.x == 1 {
                Dir::East
            } else {
                Dir::West
            }
        } else {
            if delta.x == 0 {
                Dir::South
            } else if delta.x == 1 {
                Dir::SouthEast
            } else {
                Dir::SouthWest
            }
        };
        Some(d)
    }
}

/// No two directions share a unit step, and taking the place of a direction
/// and going back gives the direction again.
pub proof fn lemma_dir_distinct(a: Dir, b: Dir)
    ensures
        a.delta_spec() == b.delta_spec() ==> a == b,
        a.index_spec() == b.index_spec() ==> a == b,
        Dir::from_index_spec(a.index_spec()) == a,
        0 <= a.index_spec() < 9,
{
}

/// Every step of at most one cell along each axis is the unit step of a
/// direction, and `Here` alone stays in place.
pub proof fn lemma_dir_covers(dx: i8, dy: i8) -> (d: Dir)
    requires
        -1 <= dx <= 1,
        -1 <= dy <= 1,
    ensures
        d.delta_spec() == (Coord { x: dx, y: dy }),
        (dx == 0 && dy == 0) <==> d == Dir::Here,
{
    if dy == 1 {
        if dx == 0 {
            Dir::North
        } else if dx == 1 {
            Dir::NorthEast
        } else {
            Dir::NorthWest
        }
    } else if dy == 0 {
        if dx == 0 {
            Dir::Here
        } else if dx == 1 {
            Dir::East
        } else {
            Dir::West
        }
    } else {
        if dx == 0 {
            Dir::South
        } else if dx == 1 {
            Dir::SouthEast
        } else {
            Dir::SouthWest
        }
    }
}

/// Draws one of the nine directions, each with the same probability.
pub fn sample_direction(rng: &mut Rng) -> (d: Dir)
    ensures
        d == Dir::from_index_spec(rng_below(old(rng).state, N_DIRS) as int),
        final(rng).state == rng_advance(old(rng).state),
{
    let roll: u64 = rng.below(N_DIRS);
    Dir::from_index(roll)
}

} // verus!
