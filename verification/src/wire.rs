//! The wire itself: its state, its connectivity and its power.

use vstd::prelude::*;
use crate::block::Block;
use crate::geometry::{BlockDirection, BlockFace, BlockPos};
use crate::plot::{block_in, Plot};
use crate::wire_side::RedstoneWireSide;

verus! {

/// The state of one wire: its four connections and its power.
#[derive(Copy, Clone, Debug, PartialEq, Eq, Structural)]
pub struct RedstoneWire {
    pub north: RedstoneWireSide,
    pub south: RedstoneWireSide,
    pub east: RedstoneWireSide,
    pub west: RedstoneWireSide,
    pub power: u8,
}

impl RedstoneWire {
    /// Power never exceeds 15.
    pub open spec fn well_formed(self) -> bool {
        self.power <= 15
    }

    /// The wire as one number below 1296: the power in the low four bits,
    /// above them the four sides as digits to base three.
    pub open spec fn spec_code(self) -> int {
        self.power + 16 * (self.west.spec_id() + 3 * (self.east.spec_id() + 3 * (
            self.south.spec_id() + 3 * self.north.spec_id())))
    }

    /// The wire that a number below 1296 stands for.
    pub open spec fn spec_from_code(code: int) -> RedstoneWire {
        RedstoneWire {
            north: RedstoneWireSide::spec_from_id((code / 432) as u32),
            south: RedstoneWireSide::spec_from_id(((code / 144) % 3) as u32),
            east: RedstoneWireSide::spec_from_id(((code / 48) % 3) as u32),
            west: RedstoneWireSide::spec_from_id(((code / 16) % 3) as u32),
            power: (code % 16) as u8,
        }
    }

    pub fn get_code(self) -> (code: u32)
        requires
            self.well_formed(),
        ensures
            code == self.spec_code(),
            code < 1296,
    {
        let sides: u32 = self.west.get_id() + 3 * (self.east.get_id() + 3 * (self.south.get_id()
            + 3 * self.north.get_id()));
        let power: u32 = self.power as u32;
        power + 16 * sides
    }

    pub fn from_code(code: u32) -> (wire: RedstoneWire)
        requires
            code < 1296,
        ensures
            wire == Self::spec_from_code(code as int),
            wire.well_formed(),
    {
        RedstoneWire {
            north: RedstoneWireSide::from_id(code / 432),
            south: RedstoneWireSide::from_id((code / 144) % 3),
            east: RedstoneWireSide::from_id((code / 48) % 3),
            west: RedstoneWireSide::from_id((code / 16) % 3),
            power: (code % 16) as u8,
        }
    }

    pub fn new(
        north: RedstoneWireSide,
        south: RedstoneWireSide,
        east: RedstoneWireSide,
        west: RedstoneWireSide,
        power: u8,
    ) -> (wire: RedstoneWire)
        ensures
            wire == (RedstoneWire { north, south, east, west, power }),
    {
        RedstoneWire { north, south, east, west, power }
    }
}

/// The larger of two power levels.
pub open spec fn max_power(a: u8, b: u8) -> u8 {
    if a >= b { a } else { b }
}

/// Whether a wire connects straight to `block`, which lies in direction
/// `side` of it. Most redstone components connect from anywhere; a repeater
/// only along its axis, an observer only where it faces the same way.
pub open spec fn spec_can_connect_to(block: Block, side: BlockDirection) -> bool {
    match block {
        Block::RedstoneWire(_)
        | Block::RedstoneComparator(_)
        | Block::RedstoneTorch(_)
        | Block::RedstoneBlock
        | Block::RedstoneWallTorch(_)
        | Block::PressurePlate(_)
        | Block::TripwireHook(_)
        | Block::Lever(_) => true,
        Block::RedstoneRepeater(facing, _) => facing == side || facing == side.spec_opposite(),
        Block::Observer(facing, _) => facing == side.spec_block_facing(),
        _ => false,
    }
}

/// The connection of a wire at `pos` toward `side`.
///
/// A neighbor that takes a straight connection gives `Side`. Failing that,
/// a wire one step up beyond the neighbor gives `Up`, provided the block
/// above `pos` is not solid. Failing that, a wire one step down beyond a
/// neighbor that is not solid gives `Side`.
pub open spec fn spec_side(
    world: Map<BlockPos, Block>,
    pos: BlockPos,
    side: BlockDirection,
) -> RedstoneWireSide {
    let neighbor_pos = pos.spec_offset(side.spec_block_face());
    let neighbor = block_in(world, neighbor_pos);
    let above = block_in(world, pos.spec_offset(BlockFace::Top));
    if spec_can_connect_to(neighbor, side) {
        RedstoneWireSide::Side
    } else if !above.spec_is_solid() && block_in(
        world,
        neighbor_pos.spec_offset(BlockFace::Top),
    ).spec_is_wire() {
        RedstoneWireSide::Up
    } else if !neighbor.spec_is_solid() && block_in(
        world,
        neighbor_pos.spec_offset(BlockFace::Bottom),
    ).spec_is_wire() {
        RedstoneWireSide::Side
    } else {
        RedstoneWireSide::Disconnected
    }
}

/// The power of the wire at `pos`; 0 where there is no wire.
pub open spec fn wire_level(world: Map<BlockPos, Block>, pos: BlockPos) -> u8 {
    block_in(world, pos).spec_wire_power()
}

/// The power that blocks other than wires give the wire at `pos` through `face`.
pub open spec fn face_block_power(world: Map<BlockPos, Block>, pos: BlockPos, face: BlockFace) -> u8 {
    block_in(world, pos.spec_offset(face)).spec_power_no_dust(face)
}

/// The strongest wire that reaches the wire at `pos` through `face`: the
/// neighbor itself; beyond a horizontal neighbor, the wire one step up, if
/// the block above `pos` is not solid and the neighbor is not transparent;
/// and the wire one step down, if the neighbor is not solid.
pub open spec fn face_wire_power(world: Map<BlockPos, Block>, pos: BlockPos, face: BlockFace) -> u8 {
    let neighbor_pos = pos.spec_offset(face);
    let neighbor = block_in(world, neighbor_pos);
    let above = block_in(world, pos.spec_offset(BlockFace::Top));
    let direct = wire_level(world, neighbor_pos);
    let over = if face.spec_is_horizontal() && !above.spec_is_solid()
        && !neighbor.spec_is_transparent() {
        wire_level(world, neighbor_pos.spec_offset(BlockFace::Top))
    } else {
        0
    };
    let under = if face.spec_is_horizontal() && !neighbor.spec_is_solid() {
        wire_level(world, neighbor_pos.spec_offset(BlockFace::Bottom))
    } else {
        0
    };
    max_power(max_power(direct, over), under)
}

/// The strongest power from other blocks through the first `count` faces.
pub open spec fn block_power_upto(world: Map<BlockPos, Block>, pos: BlockPos, count: nat) -> u8
    decreases count,
{
    if count == 0 || count > 6 {
        0
    } else {
        max_power(
            block_power_upto(world, pos, (count - 1) as nat),
            face_block_power(world, pos, BlockFace::spec_values()[count - 1]),
        )
    }
}

/// The strongest wire through the first `count` faces.
pub open spec fn wire_power_upto(world: Map<BlockPos, Block>, pos: BlockPos, count: nat) -> u8
    decreases count,
{
    if count == 0 || count > 6 {
        0
    } else {
        max_power(
            wire_power_upto(world, pos, (count - 1) as nat),
            face_wire_power(world, pos, BlockFace::spec_values()[count - 1]),
        )
    }
}

/// The power that a wire at `pos` shall have: the strongest of what other
/// blocks give it, undiminished, and of what the wires around it carry,
/// less one. It does not depend on the block at `pos` itself.
pub open spec fn spec_power(world: Map<BlockPos, Block>, pos: BlockPos) -> u8 {
    let wires = wire_power_upto(world, pos, 6);
    max_power(block_power_upto(world, pos, 6), if wires >= 1 { (wires - 1) as u8 } else { 0 })
}

/// The state of a wire newly placed at `pos`.
pub open spec fn spec_state_for_placement(world: Map<BlockPos, Block>, pos: BlockPos) -> RedstoneWire {
    RedstoneWire {
        north: spec_side(world, pos, BlockDirection::North),
        south: spec_side(world, pos, BlockDirection::South),
        east: spec_side(world, pos, BlockDirection::East),
        west: spec_side(world, pos, BlockDirection::West),
        power: spec_power(world, pos),
    }
}

impl RedstoneWire {
    /// The wire after a block on its `side` has changed. A change below
    /// renews all four connections, a change above none; a change on a
    /// horizontal side renews the connection that lies across from it.
    pub open spec fn spec_on_neighbor_changed(
        self,
        world: Map<BlockPos, Block>,
        pos: BlockPos,
        side: BlockFace,
    ) -> RedstoneWire {
        match side {
            BlockFace::Top => self,
            BlockFace::Bottom => RedstoneWire {
                power: self.power,
                ..spec_state_for_placement(world, pos)
            },
            BlockFace::North => RedstoneWire {
                south: spec_side(world, pos, BlockDirection::South),
                ..self
            },
            BlockFace::South => RedstoneWire {
                north: spec_side(world, pos, BlockDirection::North),
                ..self
            },
            BlockFace::East => RedstoneWire {
                west: spec_side(world, pos, BlockDirection::West),
                ..self
            },
            BlockFace::West => RedstoneWire {
                east: spec_side(world, pos, BlockDirection::East),
                ..self
            },
        }
    }

    /// The world after the wire, which stands at `pos` in `world`, has taken
    /// notice of an update: where its power is what it shall be, the world as
    /// it was; else the world with the wire at `pos` holding the new power.
    pub open spec fn spec_on_neighbor_updated(
        self,
        world: Map<BlockPos, Block>,
        pos: BlockPos,
    ) -> Map<BlockPos, Block> {
        if self.power == spec_power(world, pos) {
            world
        } else {
            world.insert(
                pos,
                Block::RedstoneWire(RedstoneWire { power: spec_power(world, pos), ..self }),
            )
        }
    }

    fn can_connect_to(block: Block, side: BlockDirection) -> (connects: bool)
        ensures
            connects == spec_can_connect_to(block, side),
    {
        match block {
            Block::RedstoneWire(_)
            | Block::RedstoneComparator(_)
            | Block::RedstoneTorch(_)
            | Block::RedstoneBlock
            | Block::RedstoneWallTorch(_)
            | Block::PressurePlate(_)
            | Block::TripwireHook(_)
            | Block::Lever(_) => true,
            Block::RedstoneRepeater(facing, _) => facing == side || facing == side.opposite(),
            Block::Observer(facing, _) => facing == side.block_facing(),
            _ => false,
        }
    }

    fn can_connect_diagonal_to(block: Block) -> (connects: bool)
        ensures
            connects == block.spec_is_wire(),
    {
        match block {
            Block::RedstoneWire(_) => true,
            _ => false,
        }
    }

    /// The connection of a wire at `pos` toward `side`.
    pub fn get_side(plot: &Plot, pos: BlockPos, side: BlockDirection) -> (connection: RedstoneWireSide)
        requires
            pos.has_margin(1),
        ensures
            connection == spec_side(plot@, pos, side),
    {
        let neighbor_pos = pos.offset(side.block_face());
        let neighbor = plot.get_block(neighbor_pos);

        if RedstoneWire::can_connect_to(neighbor, side) {
            return RedstoneWireSide::Side;
        }
        let up_pos = pos.offset(BlockFace::Top);
        let up = plot.get_block(up_pos);

        if !up.is_solid() && RedstoneWire::can_connect_diagonal_to(
            plot.get_block(neighbor_pos.offset(BlockFace::Top)),
        ) {
            RedstoneWireSide::Up
        } else if !neighbor.is_solid() && RedstoneWire::can_connect_diagonal_to(
            plot.get_block(neighbor_pos.offset(BlockFace::Bottom)),
        ) {
            RedstoneWireSide::Side
        } else {
            RedstoneWireSide::Disconnected
        }
    }

    fn max_wire_power(wire_power: u8, plot: &Plot, pos: BlockPos) -> (power: u8)
        ensures
            power == max_power(wire_power, wire_level(plot@, pos)),
    {
        let block = plot.get_block(pos);
        if let Block::RedstoneWire(wire) = block {
            if wire_power >= wire.power { wire_power } else { wire.power }
        } else {
            wire_power
        }
    }

    /// The power that a wire at `pos` shall have, whatever it has now.
    pub fn calculate_power(plot: &Plot, pos: BlockPos) -> (power: u8)
        requires
            pos.has_margin(1),
        ensures
            power == spec_power(plot@, pos),
            plot.well_formed() ==> power <= 15,
    {
        let mut block_power: u8 = 0;
        let mut wire_power: u8 = 0;

        let up_pos = pos.offset(BlockFace::Top);
        let up_block = plot.get_block(up_pos);
        let faces = BlockFace::values();

        let mut at: usize = 0;
        while at < 6
            invariant
                at <= 6,
                pos.has_margin(1),
                faces@ == BlockFace::spec_values(),
                up_block == block_in(plot@, pos.spec_offset(BlockFace::Top)),
                block_power == block_power_upto(plot@, pos, at as nat),
                wire_power == wire_power_upto(plot@, pos, at as nat),
                plot.well_formed() ==> block_power <= 15 && wire_power <= 15,
            decreases 6 - at,
        {
            let side = faces[at];
            let ghost before = wire_power;
            let neighbor_pos = pos.offset(side);
            wire_power = RedstoneWire::max_wire_power(wire_power, plot, neighbor_pos);
            let neighbor = plot.get_block(neighbor_pos);
            let given = neighbor.get_redstone_power_no_dust(side);
            if given > block_power {
                block_power = given;
            }
            if side.is_horizontal() {
                if !up_block.is_solid() && !neighbor.is_transparent() {
                    wire_power = RedstoneWire::max_wire_power(
                        wire_power,
                        plot,
                        neighbor_pos.offset(BlockFace::Top),
                    );
                }
                if !neighbor.is_solid() {
                    wire_power = RedstoneWire::max_wire_power(
                        wire_power,
                        plot,
                        neighbor_pos.offset(BlockFace::Bottom),
                    );
                }
            }
            proof {
                assert(wire_power == max_power(before, face_wire_power(plot@, pos, side)));
                if plot.well_formed() {
                    assert(block_in(plot@, neighbor_pos).well_formed());
                    assert(block_in(plot@, neighbor_pos.spec_offset(BlockFace::Top)).well_formed());
                    assert(block_in(
                        plot@,
                        neighbor_pos.spec_offset(BlockFace::Bottom),
                    ).well_formed());
                }
            }
            at = at + 1;
        }
        let carried = wire_power.saturating_sub(1);
        if block_power >= carried { block_power } else { carried }
    }

    /// The state of a wire newly placed at `pos`.
    pub fn get_state_for_placement(plot: &Plot, pos: BlockPos) -> (wire: RedstoneWire)
        requires
            pos.has_margin(1),
        ensures
            wire == spec_state_for_placement(plot@, pos),
            plot.well_formed() ==> wire.well_formed(),
    {
        RedstoneWire {
            power: RedstoneWire::calculate_power(plot, pos),
            north: RedstoneWire::get_side(plot, pos, BlockDirection::North),
            south: RedstoneWire::get_side(plot, pos, BlockDirection::South),
            east: RedstoneWire::get_side(plot, pos, BlockDirection::East),
            west: RedstoneWire::get_side(plot, pos, BlockDirection::West),
        }
    }

    /// The wire after a block on its `side` has changed; the world is not touched.
    pub fn on_neighbor_changed(self, plot: &Plot, pos: BlockPos, side: BlockFace) -> (wire: RedstoneWire)
        requires
            pos.has_margin(1),
        ensures
            wire == self.spec_on_neighbor_changed(plot@, pos, side),
    {
        let mut wire = self;
        match side {
            BlockFace::Top => {},
            BlockFace::Bottom => {
                wire.north = RedstoneWire::get_side(plot, pos, BlockDirection::North);
                wire.south = RedstoneWire::get_side(plot, pos, BlockDirection::South);
                wire.east = RedstoneWire::get_side(plot, pos, BlockDirection::East);
                wire.west = RedstoneWire::get_side(plot, pos, BlockDirection::West);
            },
            BlockFace::North => {
                wire.south = RedstoneWire::get_side(plot, pos, BlockDirection::South);
            },
            BlockFace::South => {
                wire.north = RedstoneWire::get_side(plot, pos, BlockDirection::North);
            },
            BlockFace::East => {
                wire.west = RedstoneWire::get_side(plot, pos, BlockDirection::West);
            },
            BlockFace::West => {
                wire.east = RedstoneWire::get_side(plot, pos, BlockDirection::East);
            },
        }
        wire
    }

    /// Brings the power of this wire, which stands at `pos`, up to date.
    /// Where the power it has is not the power it shall have, the wire is
    /// written to the plot with the new power and `true` is returned: the
    /// blocks around `pos` are then due a notice. Else nothing is written.
    pub fn on_neighbor_updated(self, plot: &mut Plot, pos: BlockPos) -> (changed: bool)
        requires
            pos.has_margin(1),
        ensures
            changed == (self.power != spec_power(old(plot)@, pos)),
            final(plot)@ == self.spec_on_neighbor_updated(old(plot)@, pos),
            old(plot).well_formed() ==> final(plot).well_formed(),
    {
        let new_power = RedstoneWire::calculate_power(plot, pos);
        if self.power != new_power {
            let mut wire = self;
            wire.power = new_power;
            plot.set_block(pos, Block::RedstoneWire(wire));
            true
        } else {
            false
        }
    }
}

/// A wire stands at `pos` and its power is not what it shall be.
pub open spec fn is_unsettled(world: Map<BlockPos, Block>, pos: BlockPos) -> bool {
    block_in(world, pos).spec_is_wire() && wire_level(world, pos) != spec_power(world, pos)
}

/// Whether the block at `pos` is at rest: no wire, or a wire that has the
/// power it shall have.
pub fn is_settled(plot: &Plot, pos: BlockPos) -> (settled: bool)
    requires
        pos.has_margin(1),
    ensures
        settled == !is_unsettled(plot@, pos),
{
    match plot.get_block(pos) {
        Block::RedstoneWire(wire) => wire.power == RedstoneWire::calculate_power(plot, pos),
        _ => true,
    }
}

impl Default for RedstoneWire {
    fn default() -> (wire: RedstoneWire)
        ensures
            wire == (RedstoneWire {
                north: RedstoneWireSide::Disconnected,
                south: RedstoneWireSide::Disconnected,
                east: RedstoneWireSide::Disconnected,
                west: RedstoneWireSide::Disconnected,
                power: 0,
            }),
    {
        RedstoneWire {
            north: RedstoneWireSide::Disconnected,
            south: RedstoneWireSide::Disconnected,
            east: RedstoneWireSide::Disconnected,
            west: RedstoneWireSide::Disconnected,
            power: 0,
        }
    }
}

/// A well-formed wire read back from its own number is the same wire.
pub proof fn lemma_wire_code_round_trip(wire: RedstoneWire)
    requires
        wire.well_formed(),
    ensures
        0 <= wire.spec_code() < 1296,
        RedstoneWire::spec_from_code(wire.spec_code()) == wire,
{
}

} // verus!
