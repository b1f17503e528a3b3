//! The phases of a frame and their order.

use vstd::prelude::*;

verus! {

/// A phase of the frame's pipeline.
#[derive(Clone, Copy, Debug, PartialEq, Eq, Hash, Structural)]
pub enum InGameSet {
    /// Objects that left the playing field are removed.
    DespawnEntities,
    /// The player's controls are applied to the ship.
    UserInput,
    /// Objects move, timers count, hazards spawn.
    EntityUpdates,
    /// Overlaps are recorded.
    CollisionDetection,
    /// The recorded overlaps are judged.
    Resolution,
}

/// The number of phases.
pub const PHASES: usize = 5;

impl InGameSet {
    /// The place of the phase in the frame, from zero.
    pub open spec fn rank(self) -> nat {
        match self {
            InGameSet::DespawnEntities => 0,
            InGameSet::UserInput => 1,
            InGameSet::EntityUpdates => 2,
            InGameSet::CollisionDetection => 3,
            InGameSet::Resolution => 4,
        }
    }

    /// The phase that opens a frame.
    pub fn first() -> (set: InGameSet)
        ensures
            set.rank() == 0,
    {
        InGameSet::DespawnEntities
    }

    /// The phase that follows this one in the frame; `None` after the last.
    pub fn next(self) -> (following: Option<InGameSet>)
        ensures
            self.rank() + 1 < PHASES ==> (following matches Some(set) && set.rank() == self.rank() + 1),
            self.rank() + 1 == PHASES ==> following is None,
    {
        match self {
            InGameSet::DespawnEntities => Some(InGameSet::UserInput),
            InGameSet::UserInput => Some(InGameSet::EntityUpdates),
            InGameSet::EntityUpdates => Some(InGameSet::CollisionDetection),
            InGameSet::CollisionDetection => Some(InGameSet::Resolution),
            InGameSet::Resolution => None,
        }
    }

    /// The phase at a place in the frame.
    pub open spec fn at(rank: nat) -> InGameSet {
        if rank == 0 {
            InGameSet::DespawnEntities
        } else if rank == 1 {
            InGameSet::UserInput
        } else if rank == 2 {
            InGameSet::EntityUpdates
        } else if rank == 3 {
            InGameSet::CollisionDetection
        } else {
            InGameSet::Resolution
        }
    }
}

/// The order is total: each place below [`PHASES`] has one phase, and each
/// phase has one place.
pub proof fn lemma_order_is_total(set: InGameSet, rank: nat)
    ensures
        set.rank() < PHASES,
        InGameSet::at(set.rank()) == set,
        rank < PHASES ==> InGameSet::at(rank).rank() == rank,
{
}

} // verus!
