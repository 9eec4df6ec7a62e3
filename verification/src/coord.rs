//! Integer coordinates on the plane.

use vstd::prelude::*;

verus! {

/// A pair of integers. With `usize` components it names a cell of a grid, with
/// `i8` components the step from one cell to another.
#[derive(Clone, Copy, Debug, PartialEq, Eq, Hash)]
pub struct Coord<T> {
    pub x: T,
    pub y: T,
}

impl<T> Coord<T> {
    /// The coordinate `(x, y)`.
    pub fn new(x: T, y: T) -> (c: Self)
        ensures
            c.x == x,
            c.y == y,
    {
        Coord { x, y }
    }
}

impl Coord<usize> {
    /// Whether the cell lies on a grid of the given extent.
    pub open spec fn within(self, width: int, height: int) -> bool {
        self.x < width && self.y < height
    }

    /// The cell that `delta` leads to from here, when it lies on a grid of the
    /// given extent.
    pub open spec fn step_spec(self, delta: Coord<i8>, width: int, height: int) -> Option<
        Coord<usize>,
    > {
        let nx: int = self.x + delta.x;
        let ny: int = self.y + delta.y;
        if 0 <= nx < width && 0 <= ny < height && nx <= usize::MAX && ny <= usize::MAX {
            Some(Coord { x: nx as usize, y: ny as usize })
        } else {
            None
        }
    }

    /// Whether `other` is the cell that one step by `delta` leads to from here.
    pub open spec fn is_step_to(self, delta: Coord<i8>, other: Coord<usize>) -> bool {
        other.x == self.x + delta.x && other.y == self.y + delta.y
    }

    /// Takes one step by `delta`; `None` where that leaves the grid.
    pub fn step(&self, delta: Coord<i8>, width: usize, height: usize) -> (target: Option<
        Coord<usize>,
    >)
        ensures
            target == self.step_spec(delta, width as int, height as int),
            target matches Some(t) ==> t.within(width as int, height as int) && self.is_step_to(
                delta,
                t,
            ),
    {
        let nx: Option<usize> = shift(self.x, delta.x);
        let ny: Option<usize> = shift(self.y, delta.y);
        match (nx, ny) {
            (Some(x), Some(y)) => {
                if x < width && y < height {
                    Some(Coord { x, y })
                } else {
                    None
                }
            },
            _ => None,
        }
    }
}

/// `base + by` where that is a `usize`.
pub open spec fn shift_spec(base: usize, by: i8) -> Option<usize> {
    if 0 <= base + by <= usize::MAX {
        Some((base + by) as usize)
    } else {
        None
    }
}

/// Adds a small signed number to an index; `None` where the sum is negative
/// or too large.
pub fn shift(base: usize, by: i8) -> (sum: Option<usize>)
    ensures
        sum == shift_spec(base, by),
{
    if by >= 0 {
        let up: usize = by as usize;
        if base <= usize::MAX - up {
            Some(base + up)
        } else {
            None
        }
    } else {
        let down: usize = (-(by as i16)) as usize;
        if base >= down {
            Some(base - down)
        } else {
            None
        }
    }
}

} // verus!
