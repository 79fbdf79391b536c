//! The blocks a wire can meet, reduced to what the wire asks of them:
//! their kind, their facing, whether they are solid or transparent, and the
//! power they give off toward each face.

use vstd::prelude::*;
use crate::geometry::{BlockDirection, BlockFace, BlockFacing};
use crate::wire::RedstoneWire;

verus! {

/// The power a block gives off, as the wire sees it: one level, and the
/// faces through which it arrives. A face names the side of the receiving
/// block on which the emitter sits.
#[derive(Copy, Clone, Debug, PartialEq, Eq, Structural)]
pub struct Signal {
    pub level: u8,
    pub bottom: bool,
    pub top: bool,
    pub north: bool,
    pub south: bool,
    pub west: bool,
    pub east: bool,
}

/// A block of the world.
#[derive(Copy, Clone, Debug, PartialEq, Eq, Structural)]
pub enum Block {
    Air,
    /// A non-solid, transparent block such as glass.
    Glass,
    /// An opaque full cube, with the power it passes on.
    Solid(Signal),
    RedstoneWire(RedstoneWire),
    RedstoneComparator(Signal),
    RedstoneTorch(Signal),
    RedstoneWallTorch(Signal),
    /// A solid block that gives off full power on every side.
    RedstoneBlock,
    PressurePlate(Signal),
    TripwireHook(Signal),
    Lever(Signal),
    RedstoneRepeater(BlockDirection, Signal),
    Observer(BlockFacing, Signal),
}

pub open spec fn bit(flag: bool) -> int {
    if flag { 1 } else { 0 }
}

impl Signal {
    pub open spec fn well_formed(self) -> bool {
        self.level <= 15
    }

    /// Whether the signal arrives through `face`.
    pub open spec fn reaches(self, face: BlockFace) -> bool {
        match face {
            BlockFace::Bottom => self.bottom,
            BlockFace::Top => self.top,
            BlockFace::North => self.north,
            BlockFace::South => self.south,
            BlockFace::West => self.west,
            BlockFace::East => self.east,
        }
    }

    /// The power that arrives through `face`.
    pub open spec fn spec_toward(self, face: BlockFace) -> u8 {
        if self.reaches(face) { self.level } else { 0 }
    }

    /// The signal as one number below 1024: the level in the low four bits,
    /// one bit for each face above them.
    pub open spec fn spec_code(self) -> int {
        self.level + 16 * (bit(self.bottom) + 2 * bit(self.top) + 4 * bit(self.north)
            + 8 * bit(self.south) + 16 * bit(self.west) + 32 * bit(self.east))
    }

    /// The signal that a number below 1024 stands for.
    pub open spec fn spec_from_code(code: int) -> Signal {
        Signal {
            level: (code % 16) as u8,
            bottom: (code / 16) % 2 == 1,
            top: (code / 32) % 2 == 1,
            north: (code / 64) % 2 == 1,
            south: (code / 128) % 2 == 1,
            west: (code / 256) % 2 == 1,
            east: (code / 512) % 2 == 1,
        }
    }

    /// No power in any direction.
    pub fn none() -> (signal: Signal)
        ensures
            signal == (Signal {
                level: 0,
                bottom: false,
                top: false,
                north: false,
                south: false,
                west: false,
                east: false,
            }),
    {
        Signal {
            level: 0,
            bottom: false,
            top: false,
            north: false,
            south: false,
            west: false,
            east: false,
        }
    }

    /// The same power through every face.
    pub fn uniform(level: u8) -> (signal: Signal)
        ensures
            signal == (Signal {
                level,
                bottom: true,
                top: true,
                north: true,
                south: true,
                west: true,
                east: true,
            }),
    {
        Signal { level, bottom: true, top: true, north: true, south: true, west: true, east: true }
    }

    /// The power that arrives through `face`.
    pub fn toward(self, face: BlockFace) -> (power: u8)
        ensures
            power == self.spec_toward(face),
    {
        let reaches = match face {
            BlockFace::Bottom => self.bottom,
            BlockFace::Top => self.top,
            BlockFace::North => self.north,
            BlockFace::South => self.south,
            BlockFace::West => self.west,
            BlockFace::East => self.east,
        };
        if reaches { self.level } else { 0 }
    }

    pub fn get_code(self) -> (code: u32)
        requires
            self.well_formed(),
        ensures
            code == self.spec_code(),
            code < 1024,
    {
        let mut code: u32 = self.level as u32;
        if self.bottom { code = code + 16; }
        if self.top { code = code + 32; }
        if self.north { code = code + 64; }
        if self.south { code = code + 128; }
        if self.west { code = code + 256; }
        if self.east { code = code + 512; }
        code
    }

    pub fn from_code(code: u32) -> (signal: Signal)
        requires
            code < 1024,
        ensures
            signal == Self::spec_from_code(code as int),
            signal.well_formed(),
    {
        Signal {
            level: (code % 16) as u8,
            bottom: (code / 16) % 2 == 1,
            top: (code / 32) % 2 == 1,
            north: (code / 64) % 2 == 1,
            south: (code / 128) % 2 == 1,
            west: (code / 256) % 2 == 1,
            east: (code / 512) % 2 == 1,
        }
    }
}

/// A well-formed signal read back from its own number is the same signal.
pub proof fn lemma_signal_code_round_trip(signal: Signal)
    requires
        signal.well_formed(),
    ensures
        0 <= signal.spec_code() < 1024,
        Signal::spec_from_code(signal.spec_code()) == signal,
{
}

/// Number of states of a wire, and of a block that carries a signal.
pub const WIRE_STATES: u32 = 1296;

pub const SIGNAL_STATES: u32 = 1024;

/// The first raw state of a wire.
pub const WIRE_BASE: u32 = 3;

/// The first raw state of a block that carries a signal.
pub const SIGNAL_BASE: u32 = 1299;

/// Number of kinds of block that carry a signal, each facing counted.
pub const SIGNAL_SLOTS: u32 = 17;

impl Block {
    /// A wire's power and a signal's level never exceed 15.
    pub open spec fn well_formed(self) -> bool {
        match self {
            Block::RedstoneWire(wire) => wire.well_formed(),
            Block::Solid(signal)
            | Block::RedstoneComparator(signal)
            | Block::RedstoneTorch(signal)
            | Block::RedstoneWallTorch(signal)
            | Block::PressurePlate(signal)
            | Block::TripwireHook(signal)
            | Block::Lever(signal)
            | Block::RedstoneRepeater(_, signal)
            | Block::Observer(_, signal) => signal.well_formed(),
            _ => true,
        }
    }

    pub open spec fn spec_is_wire(self) -> bool {
        self is RedstoneWire
    }

    /// The power of a wire; 0 for any other block.
    pub open spec fn spec_wire_power(self) -> u8 {
        match self {
            Block::RedstoneWire(wire) => wire.power,
            _ => 0,
        }
    }

    pub open spec fn spec_is_solid(self) -> bool {
        self is Solid || self is RedstoneBlock
    }

    pub open spec fn spec_is_transparent(self) -> bool {
        self is Glass
    }

    /// The power that this block, which is no wire, gives a neighbor that
    /// has it on its `side`; a wire gives none here.
    pub open spec fn spec_power_no_dust(self, side: BlockFace) -> u8 {
        match self {
            Block::RedstoneBlock => 15,
            Block::Solid(signal)
            | Block::RedstoneComparator(signal)
            | Block::RedstoneTorch(signal)
            | Block::RedstoneWallTorch(signal)
            | Block::PressurePlate(signal)
            | Block::TripwireHook(signal)
            | Block::Lever(signal)
            | Block::RedstoneRepeater(_, signal)
            | Block::Observer(_, signal) => signal.spec_toward(side),
            _ => 0,
        }
    }

    /// The place of a signal-carrying kind among its like, each facing counted.
    pub open spec fn spec_slot(self) -> int {
        match self {
            Block::Solid(_) => 0,
            Block::RedstoneComparator(_) => 1,
            Block::RedstoneTorch(_) => 2,
            Block::RedstoneWallTorch(_) => 3,
            Block::PressurePlate(_) => 4,
            Block::TripwireHook(_) => 5,
            Block::Lever(_) => 6,
            Block::RedstoneRepeater(facing, _) => 7 + facing.spec_index(),
            Block::Observer(facing, _) => 11 + facing.spec_index(),
            _ => 0,
        }
    }

    /// The raw state of a block: a number that tells its kind and all it holds.
    pub open spec fn spec_id(self) -> int {
        match self {
            Block::Air => 0,
            Block::Glass => 1,
            Block::RedstoneBlock => 2,
            Block::RedstoneWire(wire) => WIRE_BASE + wire.spec_code(),
            Block::Solid(signal)
            | Block::RedstoneComparator(signal)
            | Block::RedstoneTorch(signal)
            | Block::RedstoneWallTorch(signal)
            | Block::PressurePlate(signal)
            | Block::TripwireHook(signal)
            | Block::Lever(signal)
            | Block::RedstoneRepeater(_, signal)
            | Block::Observer(_, signal) => SIGNAL_BASE + self.spec_slot() * SIGNAL_STATES
                + signal.spec_code(),
        }
    }

    /// The block that a raw state stands for. A number that no block has
    /// stands for air.
    pub open spec fn spec_from_block_state(id: u32) -> Block {
        if id == 1 {
            Block::Glass
        } else if id == 2 {
            Block::RedstoneBlock
        } else if WIRE_BASE <= id < SIGNAL_BASE {
            Block::RedstoneWire(RedstoneWire::spec_from_code(id - WIRE_BASE))
        } else if SIGNAL_BASE <= id < SIGNAL_BASE + SIGNAL_SLOTS * SIGNAL_STATES {
            let slot = (id - SIGNAL_BASE) / (SIGNAL_STATES as int);
            let signal = Signal::spec_from_code((id - SIGNAL_BASE) % (SIGNAL_STATES as int));
            if slot == 0 {
                Block::Solid(signal)
            } else if slot == 1 {
                Block::RedstoneComparator(signal)
            } else if slot == 2 {
                Block::RedstoneTorch(signal)
            } else if slot == 3 {
                Block::RedstoneWallTorch(signal)
            } else if slot == 4 {
                Block::PressurePlate(signal)
            } else if slot == 5 {
                Block::TripwireHook(signal)
            } else if slot == 6 {
                Block::Lever(signal)
            } else if slot < 11 {
                Block::RedstoneRepeater(BlockDirection::spec_from_index((slot - 7) as u32), signal)
            } else {
                Block::Observer(BlockFacing::spec_from_index((slot - 11) as u32), signal)
            }
        } else {
            Block::Air
        }
    }

    pub fn is_wire(self) -> (wire: bool)
        ensures
            wire == self.spec_is_wire(),
    {
        match self {
            Block::RedstoneWire(_) => true,
            _ => false,
        }
    }

    /// Whether the block is an opaque full cube.
    pub fn is_solid(self) -> (solid: bool)
        ensures
            solid == self.spec_is_solid(),
    {
        match self {
            Block::Solid(_) | Block::RedstoneBlock => true,
            _ => false,
        }
    }

    /// Whether the block lets a wire's signal pass over it unseen.
    pub fn is_transparent(self) -> (transparent: bool)
        ensures
            transparent == self.spec_is_transparent(),
    {
        match self {
            Block::Glass => true,
            _ => false,
        }
    }

    /// The power that this block gives a neighbor that has it on its `side`,
    /// leaving out what a wire would hand on.
    pub fn get_redstone_power_no_dust(self, side: BlockFace) -> (power: u8)
        ensures
            power == self.spec_power_no_dust(side),
            self.well_formed() ==> power <= 15,
    {
        match self {
            Block::RedstoneBlock => 15,
            Block::Solid(signal)
            | Block::RedstoneComparator(signal)
            | Block::RedstoneTorch(signal)
            | Block::RedstoneWallTorch(signal)
            | Block::PressurePlate(signal)
            | Block::TripwireHook(signal)
            | Block::Lever(signal)
            | Block::RedstoneRepeater(_, signal)
            | Block::Observer(_, signal) => signal.toward(side),
            _ => 0,
        }
    }

    fn signal_id(slot: u32, signal: Signal) -> (id: u32)
        requires
            slot < SIGNAL_SLOTS,
            signal.well_formed(),
        ensures
            id == SIGNAL_BASE + slot * SIGNAL_STATES + signal.spec_code(),
    {
        SIGNAL_BASE + slot * SIGNAL_STATES + signal.get_code()
    }

    /// The raw state of this block.
    pub fn get_id(self) -> (id: u32)
        requires
            self.well_formed(),
        ensures
            id == self.spec_id(),
            Self::spec_from_block_state(id) == self,
    {
        proof {
            lemma_block_id_round_trip(self);
        }
        match self {
            Block::Air => 0,
            Block::Glass => 1,
            Block::RedstoneBlock => 2,
            Block::RedstoneWire(wire) => WIRE_BASE + wire.get_code(),
            Block::Solid(signal) => Self::signal_id(0, signal),
            Block::RedstoneComparator(signal) => Self::signal_id(1, signal),
            Block::RedstoneTorch(signal) => Self::signal_id(2, signal),
            Block::RedstoneWallTorch(signal) => Self::signal_id(3, signal),
            Block::PressurePlate(signal) => Self::signal_id(4, signal),
            Block::TripwireHook(signal) => Self::signal_id(5, signal),
            Block::Lever(signal) => Self::signal_id(6, signal),
            Block::RedstoneRepeater(facing, signal) => Self::signal_id(7 + facing.index(), signal),
            Block::Observer(facing, signal) => Self::signal_id(11 + facing.index(), signal),
        }
    }

    /// The block that a raw state stands for.
    pub fn from_block_state(id: u32) -> (block: Block)
        ensures
            block == Self::spec_from_block_state(id),
            block.well_formed(),
    {
        if id == 1 {
            Block::Glass
        } else if id == 2 {
            Block::RedstoneBlock
        } else if WIRE_BASE <= id && id < SIGNAL_BASE {
            Block::RedstoneWire(RedstoneWire::from_code(id - WIRE_BASE))
        } else if SIGNAL_BASE <= id && id < SIGNAL_BASE + SIGNAL_SLOTS * SIGNAL_STATES {
            let slot: u32 = (id - SIGNAL_BASE) / SIGNAL_STATES;
            let signal = Signal::from_code((id - SIGNAL_BASE) % SIGNAL_STATES);
            if slot == 0 {
                Block::Solid(signal)
            } else if slot == 1 {
                Block::RedstoneComparator(signal)
            } else if slot == 2 {
                Block::RedstoneTorch(signal)
            } else if slot == 3 {
                Block::RedstoneWallTorch(signal)
            } else if slot == 4 {
                Block::PressurePlate(signal)
            } else if slot == 5 {
                Block::TripwireHook(signal)
            } else if slot == 6 {
                Block::Lever(signal)
            } else if slot < 11 {
                Block::RedstoneRepeater(BlockDirection::from_index(slot - 7), signal)
            } else {
                Block::Observer(BlockFacing::from_index(slot - 11), signal)
            }
        } else {
            Block::Air
        }
    }
}

/// A number made of a slot and a signal's code gives both back.
proof fn lemma_slot_split(slot: int, code: int)
    requires
        0 <= slot,
        0 <= code < 1024,
    ensures
        (slot * 1024 + code) / 1024 == slot,
        (slot * 1024 + code) % 1024 == code,
{
    vstd::arithmetic::div_mod::lemma_fundamental_div_mod_converse(slot * 1024 + code, 1024, slot, code);
}

/// A well-formed block read back from its own raw state is the same block,
/// so two well-formed blocks with one raw state are one block.
pub proof fn lemma_block_id_round_trip(block: Block)
    requires
        block.well_formed(),
    ensures
        0 <= block.spec_id() < SIGNAL_BASE + SIGNAL_SLOTS * SIGNAL_STATES,
        Block::spec_from_block_state(block.spec_id() as u32) == block,
{
    match block {
        Block::RedstoneWire(wire) => {
            crate::wire::lemma_wire_code_round_trip(wire);
        },
        Block::Solid(signal)
        | Block::RedstoneComparator(signal)
        | Block::RedstoneTorch(signal)
        | Block::RedstoneWallTorch(signal)
        | Block::PressurePlate(signal)
        | Block::TripwireHook(signal)
        | Block::Lever(signal)
        | Block::RedstoneRepeater(_, signal)
        | Block::Observer(_, signal) => {
            lemma_signal_code_round_trip(signal);
            let slot = block.spec_slot();
            let code = signal.spec_code();
            lemma_slot_split(slot, code);
            let id = block.spec_id();
            assert(id - SIGNAL_BASE == slot * 1024 + code);
            assert(0 <= slot < 17);
            assert(Signal::spec_from_code((id - SIGNAL_BASE) % (SIGNAL_STATES as int)) == signal);
            assert((id - SIGNAL_BASE) / (SIGNAL_STATES as int) == slot);
        },
        _ => {},
    }
}

} // verus!
