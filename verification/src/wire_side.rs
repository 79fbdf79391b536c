//! How a wire connects on one of its four horizontal sides.

use vstd::prelude::*;
use crate::text::same_text;

verus! {

/// The connection of a wire toward one horizontal neighbor.
#[derive(Copy, Clone, Debug, PartialEq, Eq, Structural)]
pub enum RedstoneWireSide {
    /// The wire climbs diagonally to a wire one block higher.
    Up,
    /// The wire connects along the ground plane.
    Side,
    /// No connection on this side.
    Disconnected,
}

impl RedstoneWireSide {
    /// The side that a name stands for: `"up"`, `"side"`; any other text stands for no
    /// connection.
    pub open spec fn spec_from_str(name: Seq<char>) -> RedstoneWireSide {
        if name == "up"@ {
            RedstoneWireSide::Up
        } else if name == "side"@ {
            RedstoneWireSide::Side
        } else {
            RedstoneWireSide::Disconnected
        }
    }

    /// The number under which a side is persisted.
    pub open spec fn spec_id(self) -> u32 {
        match self {
            RedstoneWireSide::Up => 0,
            RedstoneWireSide::Side => 1,
            RedstoneWireSide::Disconnected => 2,
        }
    }

    /// The side that a number stands for; only 0, 1 and 2 name a side.
    pub open spec fn spec_from_id(id: u32) -> RedstoneWireSide {
        if id == 0 {
            RedstoneWireSide::Up
        } else if id == 1 {
            RedstoneWireSide::Side
        } else {
            RedstoneWireSide::Disconnected
        }
    }

    pub fn is_none(self) -> (none: bool)
        ensures
            none == (self == RedstoneWireSide::Disconnected),
    {
        match self {
            RedstoneWireSide::Disconnected => true,
            _ => false,
        }
    }

    /// Reads a side from its name.
    pub fn from_str(name: &str) -> (side: RedstoneWireSide)
        ensures
            side == Self::spec_from_str(name@),
    {
        if same_text(name, "up") {
            RedstoneWireSide::Up
        } else if same_text(name, "side") {
            RedstoneWireSide::Side
        } else {
            RedstoneWireSide::Disconnected
        }
    }

    /// Reads a side from its persisted number. Numbers above 2 name no side
    /// and are not accepted.
    pub fn from_id(id: u32) -> (side: RedstoneWireSide)
        requires
            id <= 2,
        ensures
            side == Self::spec_from_id(id),
            side.spec_id() == id,
    {
        if id == 0 {
            RedstoneWireSide::Up
        } else if id == 1 {
            RedstoneWireSide::Side
        } else {
            RedstoneWireSide::Disconnected
        }
    }

    /// The number under which this side is persisted.
    pub fn get_id(self) -> (id: u32)
        ensures
            id == self.spec_id(),
            id <= 2,
    {
        match self {
            RedstoneWireSide::Up => 0,
            RedstoneWireSide::Side => 1,
            RedstoneWireSide::Disconnected => 2,
        }
    }
}

impl Default for RedstoneWireSide {
    fn default() -> (side: RedstoneWireSide)
        ensures
            side == RedstoneWireSide::Disconnected,
    {
        RedstoneWireSide::Disconnected
    }
}

/// A side read back from its own number is the same side, and two sides with
/// one number are one side.
pub proof fn lemma_side_id_round_trip(a: RedstoneWireSide, b: RedstoneWireSide)
    ensures
        a.spec_id() <= 2,
        a.spec_id() == b.spec_id() ==> a == b,
{
}

} // verus!
