//! What an organism can do in a tick.

use crate::dir::Dir;
use vstd::prelude::*;

verus! {

/// The number of actions that a controller can select: the eight moves, eating
/// and replicating.
pub const N_ACTIONS: usize = 10;

/// The behaviour of an organism in one tick.
#[derive(Clone, Copy, Debug, PartialEq, Eq, Structural, Hash)]
pub enum Action {
    /// Step to the neighbouring cell in the given direction.
    Move(Dir),
    /// Do nothing.
    Stay,
    /// Take a pellet from a neighbouring cell.
    Eat,
    /// Put a child into a free neighbouring cell.
    Replicate,
}

impl Action {
    /// The action that the action node `i` of a controller stands for: nodes 0
    /// to 7 are the moves in the clockwise order of the directions, node 8
    /// eats, node 9 replicates, and any further node does nothing.
    pub open spec fn from_index_spec(i: int) -> Action {
        if 0 <= i < 8 {
            Action::Move(Dir::from_index_spec(i))
        } else if i == 8 {
            Action::Eat
        } else if i == 9 {
            Action::Replicate
        } else {
            Action::Stay
        }
    }

    /// The action that the action node `i` of a controller stands for.
    pub fn from_index(i: usize) -> (action: Action)
        ensures
            action == Action::from_index_spec(i as int),
    {
        if i < 8 {
            Action::Move(Dir::from_index(i as u64))
        } else if i == 8 {
            Action::Eat
        } else if i == 9 {
            Action::Replicate
        } else {
            Action::Stay
        }
    }
}

} // verus!
