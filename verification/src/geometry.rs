//! Positions and the six-way / four-way direction vocabulary.

use vstd::prelude::*;

verus! {

/// One of the six faces of a block.
#[derive(Copy, Clone, Debug, PartialEq, Eq, Structural)]
pub enum BlockFace {
    Bottom,
    Top,
    North,
    South,
    West,
    East,
}

/// One of the four horizontal directions.
#[derive(Copy, Clone, Debug, PartialEq, Eq, Structural)]
pub enum BlockDirection {
    North,
    South,
    East,
    West,
}

/// The way a directional block points, one of six.
#[derive(Copy, Clone, Debug, PartialEq, Eq, Structural)]
pub enum BlockFacing {
    North,
    East,
    South,
    West,
    Up,
    Down,
}

/// A block position in the world.
#[derive(Copy, Clone, Debug, PartialEq, Eq, Structural)]
pub struct BlockPos {
    pub x: i32,
    pub y: i32,
    pub z: i32,
}

impl BlockFace {
    /// Change of the x coordinate when stepping through this face.
    pub open spec fn dx(self) -> int {
        match self {
            BlockFace::West => -1,
            BlockFace::East => 1,
            _ => 0,
        }
    }

    /// Change of the y coordinate when stepping through this face.
    pub open spec fn dy(self) -> int {
        match self {
            BlockFace::Bottom => -1,
            BlockFace::Top => 1,
            _ => 0,
        }
    }

    /// Change of the z coordinate when stepping through this face.
    pub open spec fn dz(self) -> int {
        match self {
            BlockFace::North => -1,
            BlockFace::South => 1,
            _ => 0,
        }
    }

    pub open spec fn spec_is_horizontal(self) -> bool {
        self != BlockFace::Top && self != BlockFace::Bottom
    }

    /// The six faces in a fixed order.
    pub open spec fn spec_values() -> Seq<BlockFace> {
        seq![
            BlockFace::Bottom,
            BlockFace::Top,
            BlockFace::North,
            BlockFace::South,
            BlockFace::West,
            BlockFace::East,
        ]
    }

    /// The six faces in a fixed order.
    pub fn values() -> (faces: [BlockFace; 6])
        ensures
            faces@ == Self::spec_values(),
    {
        let faces = [
            BlockFace::Bottom,
            BlockFace::Top,
            BlockFace::North,
            BlockFace::South,
            BlockFace::West,
            BlockFace::East,
        ];
        assert(faces@ =~= Self::spec_values());
        faces
    }

    /// Whether the face is one of the four vertical sides of a block.
    pub fn is_horizontal(self) -> (horizontal: bool)
        ensures
            horizontal == self.spec_is_horizontal(),
    {
        match self {
            BlockFace::Top | BlockFace::Bottom => false,
            _ => true,
        }
    }
}

impl BlockDirection {
    pub open spec fn spec_opposite(self) -> BlockDirection {
        match self {
            BlockDirection::North => BlockDirection::South,
            BlockDirection::South => BlockDirection::North,
            BlockDirection::East => BlockDirection::West,
            BlockDirection::West => BlockDirection::East,
        }
    }

    pub open spec fn spec_block_face(self) -> BlockFace {
        match self {
            BlockDirection::North => BlockFace::North,
            BlockDirection::South => BlockFace::South,
            BlockDirection::East => BlockFace::East,
            BlockDirection::West => BlockFace::West,
        }
    }

    pub open spec fn spec_block_facing(self) -> BlockFacing {
        match self {
            BlockDirection::North => BlockFacing::North,
            BlockDirection::South => BlockFacing::South,
            BlockDirection::East => BlockFacing::East,
            BlockDirection::West => BlockFacing::West,
        }
    }

    /// The direction pointing the other way.
    pub fn opposite(self) -> (other: BlockDirection)
        ensures
            other == self.spec_opposite(),
    {
        match self {
            BlockDirection::North => BlockDirection::South,
            BlockDirection::South => BlockDirection::North,
            BlockDirection::East => BlockDirection::West,
            BlockDirection::West => BlockDirection::East,
        }
    }

    /// The face of a block that looks in this direction.
    pub fn block_face(self) -> (face: BlockFace)
        ensures
            face == self.spec_block_face(),
    {
        match self {
            BlockDirection::North => BlockFace::North,
            BlockDirection::South => BlockFace::South,
            BlockDirection::East => BlockFace::East,
            BlockDirection::West => BlockFace::West,
        }
    }

    /// The facing of a directional block that points in this direction.
    pub fn block_facing(self) -> (facing: BlockFacing)
        ensures
            facing == self.spec_block_facing(),
    {
        match self {
            BlockDirection::North => BlockFacing::North,
            BlockDirection::South => BlockFacing::South,
            BlockDirection::East => BlockFacing::East,
            BlockDirection::West => BlockFacing::West,
        }
    }
}

impl BlockDirection {
    /// The number under which a direction is persisted.
    pub open spec fn spec_index(self) -> u32 {
        match self {
            BlockDirection::North => 0,
            BlockDirection::South => 1,
            BlockDirection::East => 2,
            BlockDirection::West => 3,
        }
    }

    /// The direction that a number stands for; numbers above 3 stand for west.
    pub open spec fn spec_from_index(index: u32) -> BlockDirection {
        if index == 0 {
            BlockDirection::North
        } else if index == 1 {
            BlockDirection::South
        } else if index == 2 {
            BlockDirection::East
        } else {
            BlockDirection::West
        }
    }

    pub fn index(self) -> (index: u32)
        ensures
            index == self.spec_index(),
            index < 4,
            Self::spec_from_index(index) == self,
    {
        match self {
            BlockDirection::North => 0,
            BlockDirection::South => 1,
            BlockDirection::East => 2,
            BlockDirection::West => 3,
        }
    }

    pub fn from_index(index: u32) -> (direction: BlockDirection)
        ensures
            direction == Self::spec_from_index(index),
            index < 4 ==> direction.spec_index() == index,
    {
        if index == 0 {
            BlockDirection::North
        } else if index == 1 {
            BlockDirection::South
        } else if index == 2 {
            BlockDirection::East
        } else {
            BlockDirection::West
        }
    }
}

impl BlockFacing {
    /// The number under which a facing is persisted.
    pub open spec fn spec_index(self) -> u32 {
        match self {
            BlockFacing::North => 0,
            BlockFacing::East => 1,
            BlockFacing::South => 2,
            BlockFacing::West => 3,
            BlockFacing::Up => 4,
            BlockFacing::Down => 5,
        }
    }

    /// The facing that a number stands for; numbers above 5 stand for down.
    pub open spec fn spec_from_index(index: u32) -> BlockFacing {
        if index == 0 {
            BlockFacing::North
        } else if index == 1 {
            BlockFacing::East
        } else if index == 2 {
            BlockFacing::South
        } else if index == 3 {
            BlockFacing::West
        } else if index == 4 {
            BlockFacing::Up
        } else {
            BlockFacing::Down
        }
    }

    pub fn index(self) -> (index: u32)
        ensures
            index == self.spec_index(),
            index < 6,
            Self::spec_from_index(index) == self,
    {
        match self {
            BlockFacing::North => 0,
            BlockFacing::East => 1,
            BlockFacing::South => 2,
            BlockFacing::West => 3,
            BlockFacing::Up => 4,
            BlockFacing::Down => 5,
        }
    }

    pub fn from_index(index: u32) -> (facing: BlockFacing)
        ensures
            facing == Self::spec_from_index(index),
            index < 6 ==> facing.spec_index() == index,
    {
        if index == 0 {
            BlockFacing::North
        } else if index == 1 {
            BlockFacing::East
        } else if index == 2 {
            BlockFacing::South
        } else if index == 3 {
            BlockFacing::West
        } else if index == 4 {
            BlockFacing::Up
        } else {
            BlockFacing::Down
        }
    }
}

impl BlockPos {
    /// Every coordinate can move `margin` steps either way without leaving `i32`.
    pub open spec fn has_margin(self, margin: int) -> bool {
        &&& i32::MIN + margin <= self.x <= i32::MAX - margin
        &&& i32::MIN + margin <= self.y <= i32::MAX - margin
        &&& i32::MIN + margin <= self.z <= i32::MAX - margin
    }

    /// The position `dx`, `dy`, `dz` away is still made of `i32` coordinates.
    pub open spec fn fits(self, dx: int, dy: int, dz: int) -> bool {
        &&& i32::MIN <= self.x + dx <= i32::MAX
        &&& i32::MIN <= self.y + dy <= i32::MAX
        &&& i32::MIN <= self.z + dz <= i32::MAX
    }

    /// The position `dx`, `dy`, `dz` away; meaningful where it `fits`.
    pub open spec fn shifted(self, dx: int, dy: int, dz: int) -> BlockPos {
        BlockPos { x: (self.x + dx) as i32, y: (self.y + dy) as i32, z: (self.z + dz) as i32 }
    }

    /// The position one step through `face`.
    pub open spec fn spec_offset(self, face: BlockFace) -> BlockPos {
        self.shifted(face.dx(), face.dy(), face.dz())
    }

    pub fn new(x: i32, y: i32, z: i32) -> (pos: BlockPos)
        ensures
            pos == (BlockPos { x, y, z }),
    {
        BlockPos { x, y, z }
    }

    /// Whether every coordinate can move `margin` steps either way.
    pub fn within_margin(self, margin: i32) -> (within: bool)
        requires
            0 <= margin,
        ensures
            within == self.has_margin(margin as int),
    {
        let low: i32 = i32::MIN + margin;
        let high: i32 = i32::MAX - margin;
        low <= self.x && self.x <= high && low <= self.y && self.y <= high && low <= self.z
            && self.z <= high
    }

    /// The position one step through `face`.
    pub fn offset(self, face: BlockFace) -> (pos: BlockPos)
        requires
            self.fits(face.dx(), face.dy(), face.dz()),
        ensures
            pos == self.spec_offset(face),
    {
        match face {
            BlockFace::Bottom => BlockPos::new(self.x, self.y - 1, self.z),
            BlockFace::Top => BlockPos::new(self.x, self.y + 1, self.z),
            BlockFace::North => BlockPos::new(self.x, self.y, self.z - 1),
            BlockFace::South => BlockPos::new(self.x, self.y, self.z + 1),
            BlockFace::West => BlockPos::new(self.x - 1, self.y, self.z),
            BlockFace::East => BlockPos::new(self.x + 1, self.y, self.z),
        }
    }
}

/// The size of a step.
pub open spec fn magnitude(step: int) -> int {
    if step < 0 { -step } else { step }
}

/// The number of unit steps from `from` to `to`.
pub open spec fn distance(from: BlockPos, to: BlockPos) -> int {
    magnitude(to.x - from.x) + magnitude(to.y - from.y) + magnitude(to.z - from.z)
}

/// The number of horizontal unit steps from `from` to `to`.
pub open spec fn horizontal_distance(from: BlockPos, to: BlockPos) -> int {
    magnitude(to.x - from.x) + magnitude(to.z - from.z)
}

/// Turning a direction round twice gives it back.
pub proof fn lemma_opposite_involution(direction: BlockDirection)
    ensures
        direction.spec_opposite().spec_opposite() == direction,
        direction.spec_opposite() != direction,
{
}

} // verus!
