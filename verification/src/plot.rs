//! The world that a wire lives in: a block for every position.

use vstd::prelude::*;
use crate::block::Block;
use crate::geometry::BlockPos;
use crate::wire::RedstoneWire;

verus! {

/// The block at `pos` in a world; where the world holds none, air.
pub open spec fn block_in(world: Map<BlockPos, Block>, pos: BlockPos) -> Block {
    if world.dom().contains(pos) {
        world[pos]
    } else {
        Block::Air
    }
}

/// Every block of the world is well-formed.
pub open spec fn world_well_formed(world: Map<BlockPos, Block>) -> bool {
    forall|pos: BlockPos| (#[trigger] block_in(world, pos)).well_formed()
}

/// The block `after` is the block `before`, but for the power of a wire.
pub open spec fn same_but_power(before: Block, after: Block) -> bool {
    match before {
        Block::RedstoneWire(wire) => after is RedstoneWire && after == Block::RedstoneWire(
            RedstoneWire { power: after->RedstoneWire_0.power, ..wire },
        ),
        _ => after == before,
    }
}

/// The block that the latest entry for `pos` holds; air where there is none.
pub open spec fn lookup(entries: Seq<(BlockPos, Block)>, pos: BlockPos) -> Block
    decreases entries.len(),
{
    if entries.len() == 0 {
        Block::Air
    } else if entries.last().0 == pos {
        entries.last().1
    } else {
        lookup(entries.drop_last(), pos)
    }
}

/// Replacing the latest entry for a position changes that position's block
/// and no other.
proof fn lemma_lookup_update(
    entries: Seq<(BlockPos, Block)>,
    at: int,
    pos: BlockPos,
    block: Block,
    other: BlockPos,
)
    requires
        0 <= at < entries.len(),
        entries[at].0 == pos,
        forall|later: int| at < later < entries.len() ==> entries[later].0 != pos,
    ensures
        lookup(entries.update(at, (pos, block)), other) == if other == pos {
            block
        } else {
            lookup(entries, other)
        },
    decreases entries.len(),
{
    let updated = entries.update(at, (pos, block));
    if at == entries.len() - 1 {
        assert(updated.drop_last() =~= entries.drop_last());
    } else {
        assert(updated.drop_last() =~= entries.drop_last().update(at, (pos, block)));
        lemma_lookup_update(entries.drop_last(), at, pos, block, other);
    }
}

/// A sparse store of blocks: every position that was never set holds air.
pub struct Plot {
    blocks: Vec<(BlockPos, Block)>,
}

impl View for Plot {
    type V = Map<BlockPos, Block>;

    closed spec fn view(&self) -> Map<BlockPos, Block> {
        Map::new(|pos: BlockPos| true, |pos: BlockPos| lookup(self.blocks@, pos))
    }
}

impl Plot {
    /// Every block in the plot is well-formed.
    pub open spec fn well_formed(&self) -> bool {
        world_well_formed(self@)
    }

    /// A plot of air.
    pub fn new() -> (plot: Plot)
        ensures
            forall|pos: BlockPos| block_in(plot@, pos) == Block::Air,
            plot.well_formed(),
    {
        Plot { blocks: Vec::new() }
    }

    /// Index of the latest entry for `pos`, if there is one.
    fn find(&self, pos: BlockPos) -> (found: Option<usize>)
        ensures
            match found {
                Some(at) => {
                    &&& at < self.blocks@.len()
                    &&& self.blocks@[at as int].0 == pos
                    &&& forall|later: int|
                        at < later < self.blocks@.len() ==> self.blocks@[later].0 != pos
                    &&& lookup(self.blocks@, pos) == self.blocks@[at as int].1
                },
                None => lookup(self.blocks@, pos) == Block::Air,
            },
    {
        let mut at: usize = self.blocks.len();
        assert(self.blocks@.take(at as int) =~= self.blocks@);
        while at > 0
            invariant
                at <= self.blocks@.len(),
                forall|later: int| at <= later < self.blocks@.len() ==> self.blocks@[later].0 != pos,
                lookup(self.blocks@, pos) == lookup(self.blocks@.take(at as int), pos),
            decreases at,
        {
            at = at - 1;
            let ghost longer = self.blocks@.take(at + 1);
            assert(longer.last() == self.blocks@[at as int]);
            assert(longer.drop_last() =~= self.blocks@.take(at as int));
            if self.blocks[at].0 == pos {
                return Some(at);
            }
        }
        assert(self.blocks@.take(0).len() == 0);
        None
    }

    /// The block at `pos`.
    pub fn get_block(&self, pos: BlockPos) -> (block: Block)
        ensures
            block == block_in(self@, pos),
    {
        match self.find(pos) {
            Some(at) => self.blocks[at].1,
            None => Block::Air,
        }
    }

    /// The raw state of the block at `pos`.
    pub fn get_block_raw(&self, pos: BlockPos) -> (id: u32)
        requires
            self.well_formed(),
        ensures
            id == block_in(self@, pos).spec_id(),
            Block::spec_from_block_state(id) == block_in(self@, pos),
    {
        let block = self.get_block(pos);
        assert(block_in(self@, pos).well_formed());
        block.get_id()
    }

    /// Puts `block` at `pos`; every other position keeps its block.
    pub fn set_block(&mut self, pos: BlockPos, block: Block)
        ensures
            final(self)@ == old(self)@.insert(pos, block),
            old(self).well_formed() && block.well_formed() ==> final(self).well_formed(),
    {
        match self.find(pos) {
            Some(at) => {
                proof {
                    assert forall|other: BlockPos|
                        lookup(self.blocks@.update(at as int, (pos, block)), other) == if other
                            == pos {
                            block
                        } else {
                            lookup(self.blocks@, other)
                        } by {
                        lemma_lookup_update(self.blocks@, at as int, pos, block, other);
                    }
                }
                self.blocks.set(at, (pos, block));
            },
            None => {
                self.blocks.push((pos, block));
                assert(self.blocks@.drop_last() =~= old(self).blocks@);
            },
        }
        assert(self@ =~= old(self)@.insert(pos, block));
        assert forall|other: BlockPos|
            old(self).well_formed() && block.well_formed() implies (#[trigger] block_in(
            self@,
            other,
        )).well_formed() by {
            assert(block_in(old(self)@, other).well_formed());
        }
    }
}

} // verus!
