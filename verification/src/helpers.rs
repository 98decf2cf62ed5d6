//! The numbers that consensus messages count with.

use vstd::prelude::*;

verus! {

/// The index of a validator among the validators of the network.
#[derive(Clone, Copy, Debug, PartialEq, Eq, PartialOrd, Ord, Hash, Structural)]
pub struct ValidatorId(pub u16);

/// The sequential index of a committed block.
#[derive(Clone, Copy, Debug, PartialEq, Eq, PartialOrd, Ord, Hash, Structural)]
pub struct Height(pub u64);

/// The sequential index of a consensus attempt within a height.
#[derive(Clone, Copy, Debug, PartialEq, Eq, PartialOrd, Ord, Hash, Structural)]
pub struct Round(pub u32);

impl ValidatorId {
    /// The first validator.
    pub fn zero() -> (r: ValidatorId)
        ensures
            r == ValidatorId(0),
    {
        ValidatorId(0)
    }
}

impl Height {
    /// The height of the first block.
    pub fn zero() -> (r: Height)
        ensures
            r == Height(0),
    {
        Height(0)
    }
}

impl Round {
    /// The round before any round.
    pub fn zero() -> (r: Round)
        ensures
            r == Round(0),
    {
        Round(0)
    }

    /// The round in which each height starts.
    pub fn first() -> (r: Round)
        ensures
            r == Round(1),
    {
        Round(1)
    }
}

} // verus!
