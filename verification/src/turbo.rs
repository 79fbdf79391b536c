//! The fast update pass: the neighborhood of a changed wire, the order in
//! which it is visited, and the pass-wide cache of visited positions.

use vstd::prelude::*;
use crate::block::Block;
use crate::geometry::{distance, horizontal_distance, BlockDirection, BlockPos};
use crate::lemmas::lemma_power_reads_the_neighborhood;
use crate::plot::{block_in, same_but_power, Plot};
use crate::propagation::{
    spec_update_wire, spec_update_wire_neighbors, update_wire, update_wire_neighbors,
};
use crate::wire::{is_settled, is_unsettled, spec_power, RedstoneWire};

verus! {

/// For each neighbor, in the order of `compute_all_neighbors`: whether a
/// wire there is updated by a wire in the middle. Only the positions through
/// which two wires can connect are: the four horizontal neighbors and the
/// blocks above and below them.
pub const UPDATE_REDSTONE: [bool; 24] = [
    true, true, false, false, true, true,
    false, true, true, false, false, false,
    true, true, false, false, false, true,
    true, false, true, true, false, false,
];

/// The visiting order for a signal that travels north: entry `k` is the
/// neighbor, numbered as in `compute_all_neighbors`, that is visited in
/// place `k`.
pub const FORWARD_IS_NORTH: [u32; 24] = [
    2, 3, 16, 19, 0, 4, 1, 5, 7, 8, 17, 20, 12, 13, 18, 21, 6, 9, 22, 14, 11, 10, 23, 15,
];

/// The visiting order for a signal that travels east.
pub const FORWARD_IS_EAST: [u32; 24] = [
    2, 3, 16, 19, 4, 1, 5, 0, 17, 20, 12, 13, 18, 21, 7, 8, 22, 14, 11, 15, 23, 9, 6, 10,
];

/// The visiting order for a signal that travels south.
pub const FORWARD_IS_SOUTH: [u32; 24] = [
    2, 3, 16, 19, 1, 5, 0, 4, 12, 13, 18, 21, 7, 8, 17, 20, 11, 15, 23, 10, 6, 14, 22, 9,
];

/// The visiting order for a signal that travels west.
pub const FORWARD_IS_WEST: [u32; 24] = [
    2, 3, 16, 19, 5, 0, 4, 1, 18, 21, 7, 8, 17, 20, 12, 13, 23, 10, 6, 9, 22, 15, 11, 14,
];

/// The 24 positions around `pos`: first the six that touch it, west, east,
/// down, up, north, south; then, in the same order, the neighbors of each of
/// these, leaving out `pos` and what was listed before.
pub open spec fn spec_all_neighbors(pos: BlockPos) -> Seq<BlockPos> {
    seq![
        pos.shifted(-1, 0, 0),
        pos.shifted(1, 0, 0),
        pos.shifted(0, -1, 0),
        pos.shifted(0, 1, 0),
        pos.shifted(0, 0, -1),
        pos.shifted(0, 0, 1),
        pos.shifted(-2, 0, 0),
        pos.shifted(-1, -1, 0),
        pos.shifted(-1, 1, 0),
        pos.shifted(-1, 0, -1),
        pos.shifted(-1, 0, 1),
        pos.shifted(2, 0, 0),
        pos.shifted(1, -1, 0),
        pos.shifted(1, 1, 0),
        pos.shifted(1, 0, -1),
        pos.shifted(1, 0, 1),
        pos.shifted(0, -2, 0),
        pos.shifted(0, -1, -1),
        pos.shifted(0, -1, 1),
        pos.shifted(0, 2, 0),
        pos.shifted(0, 1, -1),
        pos.shifted(0, 1, 1),
        pos.shifted(0, 0, -2),
        pos.shifted(0, 0, 2),
    ]
}

/// The visiting order for a signal that travels in direction `forward`.
pub open spec fn spec_reordering(forward: BlockDirection) -> Seq<u32> {
    match forward {
        BlockDirection::North => FORWARD_IS_NORTH@,
        BlockDirection::East => FORWARD_IS_EAST@,
        BlockDirection::South => FORWARD_IS_SOUTH@,
        BlockDirection::West => FORWARD_IS_WEST@,
    }
}

/// What a node of the pass was found to be.
#[derive(Copy, Clone, Debug, PartialEq, Eq, Structural)]
pub enum UpdateNodeType {
    /// Not looked at yet.
    Unknown,
    Redstone,
    Other,
}

/// One position in one pass. Nodes live in the cache of their pass and
/// name their children by their place in it.
pub struct UpdateNode {
    /// The raw state of the block when the node was identified.
    pub current_state: u32,
    /// The nodes that this node has scheduled, in visiting order.
    pub neighbor_nodes: Vec<usize>,
    pub self_pos: BlockPos,
    /// The position of the node that first scheduled this one.
    pub parent_pos: BlockPos,
    pub node_type: UpdateNodeType,
    /// Distance from the origin of the pass, in scheduling steps.
    pub layer: u32,
    /// Whether the power of this node has been settled in this pass.
    pub visited: bool,
    /// Rank of the node among all nodes of the pass, in order of creation.
    pub xbias: u32,
    /// Place of the node in the visiting order of its parent.
    pub ybias: u32,
    /// The direction in which the signal reached this node.
    pub forward: BlockDirection,
}

/// One pass of updates that starts from one wire.
pub struct RedstoneWireTurbo {
    wire: RedstoneWire,
    node_cache: Vec<UpdateNode>,
}

/// The type of node that a block makes.
pub open spec fn spec_node_type(block: Block) -> UpdateNodeType {
    if block.spec_is_wire() {
        UpdateNodeType::Redstone
    } else {
        UpdateNodeType::Other
    }
}

/// Whether the update of a block at `center` is passed on to its neighbor
/// number `index`. A wire passes none on to a wire in a position through
/// which the two cannot connect; every other update is passed on.
pub open spec fn spec_is_scheduled(
    world: Map<BlockPos, Block>,
    from_wire: bool,
    center: BlockPos,
    index: int,
) -> bool {
    !from_wire || UPDATE_REDSTONE@[index] || !block_in(
        world,
        spec_all_neighbors(center)[index],
    ).spec_is_wire()
}

/// The positions to which a block at `center` passes its update on, among
/// the first `count` in the visiting order for `forward`.
pub open spec fn scheduled_upto(
    world: Map<BlockPos, Block>,
    from_wire: bool,
    center: BlockPos,
    forward: BlockDirection,
    count: nat,
) -> Seq<BlockPos>
    decreases count,
{
    if count == 0 || count > 24 {
        Seq::empty()
    } else {
        let before = scheduled_upto(world, from_wire, center, forward, (count - 1) as nat);
        let index = spec_reordering(forward)[count - 1] as int;
        if spec_is_scheduled(world, from_wire, center, index) {
            before.push(spec_all_neighbors(center)[index])
        } else {
            before
        }
    }
}

/// The direction of the signal at a node at `to` that was scheduled from
/// `from`: along the one horizontal axis on which the two differ; where
/// they differ on both or on none, the direction that the parent had.
pub open spec fn spec_heading(from: BlockPos, to: BlockPos, inherited: BlockDirection) -> BlockDirection {
    if to.z == from.z && to.x > from.x {
        BlockDirection::East
    } else if to.z == from.z && to.x < from.x {
        BlockDirection::West
    } else if to.x == from.x && to.z < from.z {
        BlockDirection::North
    } else if to.x == from.x && to.z > from.z {
        BlockDirection::South
    } else {
        inherited
    }
}

/// No position has two nodes, every node knows its rank, and every child
/// is a node of the cache.
pub open spec fn cache_well_formed(nodes: Seq<UpdateNode>) -> bool {
    &&& 1 <= nodes.len() <= u32::MAX
    &&& forall|i: int, j: int|
        0 <= i < j < nodes.len() ==> nodes[i].self_pos != nodes[j].self_pos
    &&& forall|i: int| 0 <= i < nodes.len() ==> (#[trigger] nodes[i]).xbias == i
    &&& forall|i: int, k: int|
        0 <= i < nodes.len() && 0 <= k < nodes[i].neighbor_nodes@.len()
            ==> (#[trigger] nodes[i].neighbor_nodes@[k]) < nodes.len()
}

/// The positions of the nodes, in order.
pub open spec fn cache_positions(nodes: Seq<UpdateNode>) -> Seq<BlockPos> {
    Seq::new(nodes.len(), |k: int| nodes[k].self_pos)
}

/// One of the positions listed from place `from` to place `upto` lies
/// within two steps of `at`, or is `at`.
pub open spec fn near_one_of(positions: Seq<BlockPos>, from: int, upto: int, at: BlockPos) -> bool {
    exists|j: int| from <= j < upto && 0 <= j < positions.len() && distance(#[trigger] positions[j], at) <= 2
}

/// What the course of a pass depends on in a node: its position, whether
/// it is a wire, the direction of its signal, its layer, and whether it has
/// been settled.
pub struct NodeModel {
    pub pos: BlockPos,
    pub from_wire: bool,
    pub forward: BlockDirection,
    pub layer: u32,
    pub visited: bool,
}

pub open spec fn model_of(node: UpdateNode) -> NodeModel {
    NodeModel {
        pos: node.self_pos,
        from_wire: node.node_type == UpdateNodeType::Redstone,
        forward: node.forward,
        layer: node.layer,
        visited: node.visited,
    }
}

/// The nodes of a cache, each reduced to what the pass depends on.
pub open spec fn models(nodes: Seq<UpdateNode>) -> Seq<NodeModel> {
    Seq::new(nodes.len(), |k: int| model_of(nodes[k]))
}

/// The position has a node in the cache.
pub open spec fn model_holds(cache: Seq<NodeModel>, pos: BlockPos) -> bool {
    exists|i: int| 0 <= i < cache.len() && (#[trigger] cache[i]).pos == pos
}

/// The positions of a cache, in order.
pub open spec fn model_positions(cache: Seq<NodeModel>) -> Seq<BlockPos> {
    Seq::new(cache.len(), |k: int| cache[k].pos)
}

/// The cache after `parent` has scheduled the first `count` of its
/// neighbors in its visiting order: each position to which it passes its
/// update on and which the cache does not hold gets a node at the end, one
/// layer on, not yet settled.
pub open spec fn spec_schedule(
    cache: Seq<NodeModel>,
    world: Map<BlockPos, Block>,
    parent: NodeModel,
    count: nat,
) -> Seq<NodeModel>
    decreases count,
{
    if count == 0 || count > 24 {
        cache
    } else {
        let before = spec_schedule(cache, world, parent, (count - 1) as nat);
        let index = spec_reordering(parent.forward)[count - 1] as int;
        let pos = spec_all_neighbors(parent.pos)[index];
        if spec_is_scheduled(world, parent.from_wire, parent.pos, index) && !model_holds(
            before,
            pos,
        ) {
            before.push(
                NodeModel {
                    pos,
                    from_wire: block_in(world, pos).spec_is_wire(),
                    forward: spec_heading(parent.pos, pos, parent.forward),
                    layer: (parent.layer + 1) as u32,
                    visited: false,
                },
            )
        } else {
            before
        }
    }
}

/// The cache, the world and the answer after the node at rank `rank` has
/// been settled: the node counts as settled; a wire at its position, with
/// room around it, takes notice of an update unless the node was settled
/// before, and the answer tells whether its power changed.
pub open spec fn spec_update_node(
    cache: Seq<NodeModel>,
    world: Map<BlockPos, Block>,
    rank: int,
) -> (Seq<NodeModel>, Map<BlockPos, Block>, bool) {
    let node = cache[rank];
    let marked = cache.update(rank, NodeModel { visited: true, ..node });
    let block = block_in(world, node.pos);
    if !node.visited && node.pos.has_margin(1) && block is RedstoneWire {
        let wire = block->RedstoneWire_0;
        (
            marked,
            wire.spec_on_neighbor_updated(world, node.pos),
            wire.power != spec_power(world, node.pos),
        )
    } else {
        (marked, world, false)
    }
}

/// The largest cache from which neighbors are still scheduled, for a limit
/// given and a cache of `start` nodes.
pub open spec fn spec_cap(node_limit: int, start: int) -> int {
    if node_limit > 0xffff_ffff - 24 {
        0xffff_ffff - 24
    } else if node_limit < start {
        start
    } else {
        node_limit
    }
}

/// The cache and the world after the pass has gone on from rank `cursor`:
/// each node in order is settled, and one whose power changed schedules its
/// neighbors, while the cache holds no more than `cap` nodes, the node has
/// room around it and its layer can still grow.
pub open spec fn spec_pass(
    cache: Seq<NodeModel>,
    world: Map<BlockPos, Block>,
    cursor: int,
    cap: int,
) -> (Seq<NodeModel>, Map<BlockPos, Block>)
    decreases cap + 24 - cursor,
{
    if cursor < 0 || cursor >= cache.len() || cache.len() > cap + 24 {
        (cache, world)
    } else {
        let (marked, next, changed) = spec_update_node(cache, world, cursor);
        let node = marked[cursor];
        let grown = if changed && marked.len() <= cap && node.pos.has_margin(2) && node.layer
            < u32::MAX {
            spec_schedule(marked, next, node, 24)
        } else {
            marked
        };
        spec_pass(grown, next, cursor + 1, cap)
    }
}

/// What the plain path makes of `world` when it looks after the positions
/// listed, from place `from` on: at each the wire is brought up to date and
/// the positions around it take notice, each within `budget`; the first
/// that does not come to an end stops the work.
pub open spec fn spec_finish(
    world: Map<BlockPos, Block>,
    positions: Seq<BlockPos>,
    from: int,
    budget: nat,
) -> (Map<BlockPos, Block>, bool)
    decreases positions.len() - from,
{
    if from < 0 || from >= positions.len() {
        (world, true)
    } else {
        let (first, updated) = spec_update_wire(world, positions[from], budget);
        if !updated {
            (first, false)
        } else {
            let (second, around) = spec_update_wire_neighbors(first, positions[from], budget);
            if !around {
                (second, false)
            } else {
                spec_finish(second, positions, from + 1, budget)
            }
        }
    }
}

/// The position has a node among `nodes`.
pub open spec fn cache_holds(nodes: Seq<UpdateNode>, pos: BlockPos) -> bool {
    exists|i: int| 0 <= i < nodes.len() && (#[trigger] nodes[i]).self_pos == pos
}

/// A node as `parent` makes it when it schedules a position that has no
/// node yet: one layer on, identified, not visited, without children, at a
/// position to which `parent` passes its update on.
pub open spec fn is_fresh_child(node: UpdateNode, parent: UpdateNode, world: Map<BlockPos, Block>) -> bool {
    &&& node.parent_pos == parent.self_pos
    &&& node.layer == parent.layer + 1
    &&& !node.visited
    &&& node.neighbor_nodes@.len() == 0
    &&& node.current_state == block_in(world, node.self_pos).spec_id()
    &&& node.node_type == spec_node_type(block_in(world, node.self_pos))
    &&& node.forward == spec_heading(parent.self_pos, node.self_pos, parent.forward)
    &&& node.ybias < 24
    &&& spec_all_neighbors(parent.self_pos)[spec_reordering(parent.forward)[node.ybias as int] as int]
        == node.self_pos
    &&& spec_is_scheduled(
        world,
        parent.node_type == UpdateNodeType::Redstone,
        parent.self_pos,
        spec_reordering(parent.forward)[node.ybias as int] as int,
    )
}

impl RedstoneWireTurbo {
    /// The nodes of the pass, in order of creation; the first is the origin.
    pub closed spec fn nodes(&self) -> Seq<UpdateNode> {
        self.node_cache@
    }

    /// The wire from which the pass starts.
    pub closed spec fn origin_wire(&self) -> RedstoneWire {
        self.wire
    }

    pub open spec fn well_formed(&self) -> bool {
        cache_well_formed(self.nodes())
    }

    /// A pass that starts from `wire` at `pos`, with the signal travelling
    /// north until a step says otherwise. Its cache holds the origin alone:
    /// at layer 0, a wire in the state given, not visited, its own parent.
    pub fn new(wire: RedstoneWire, pos: BlockPos) -> (pass: RedstoneWireTurbo)
        requires
            wire.well_formed(),
        ensures
            pass.well_formed(),
            pass.origin_wire() == wire,
            pass.nodes().len() == 1,
            pass.nodes()[0].self_pos == pos,
            pass.nodes()[0].parent_pos == pos,
            pass.nodes()[0].layer == 0,
            pass.nodes()[0].node_type == UpdateNodeType::Redstone,
            pass.nodes()[0].current_state == Block::RedstoneWire(wire).spec_id(),
            !pass.nodes()[0].visited,
            pass.nodes()[0].neighbor_nodes@.len() == 0,
            pass.nodes()[0].forward == BlockDirection::North,
            pass.nodes()[0].xbias == 0,
            pass.nodes()[0].ybias == 0,
    {
        let origin = UpdateNode {
            current_state: Block::RedstoneWire(wire).get_id(),
            neighbor_nodes: Vec::new(),
            self_pos: pos,
            parent_pos: pos,
            node_type: UpdateNodeType::Redstone,
            layer: 0,
            visited: false,
            xbias: 0,
            ybias: 0,
            forward: BlockDirection::North,
        };
        let mut node_cache: Vec<UpdateNode> = Vec::new();
        node_cache.push(origin);
        RedstoneWireTurbo { wire, node_cache }
    }

    /// The wire from which the pass starts.
    pub fn wire(&self) -> (wire: RedstoneWire)
        ensures
            wire == self.origin_wire(),
    {
        self.wire
    }

    /// Number of nodes in the cache.
    pub fn node_count(&self) -> (count: usize)
        ensures
            count == self.nodes().len(),
    {
        self.node_cache.len()
    }

    /// The node at rank `rank`.
    pub fn node(&self, rank: usize) -> (node: &UpdateNode)
        requires
            rank < self.nodes().len(),
        ensures
            *node == self.nodes()[rank as int],
    {
        &self.node_cache[rank]
    }

    /// The rank of the first node for `pos`, if the cache holds one.
    pub fn find_node(&self, pos: BlockPos) -> (found: Option<usize>)
        ensures
            match found {
                Some(rank) => {
                    &&& rank < self.nodes().len()
                    &&& self.nodes()[rank as int].self_pos == pos
                    &&& forall|i: int| 0 <= i < rank ==> (#[trigger] self.nodes()[i]).self_pos != pos
                },
                None => !cache_holds(self.nodes(), pos),
            },
    {
        let mut rank: usize = 0;
        while rank < self.node_cache.len()
            invariant
                rank <= self.node_cache@.len(),
                forall|i: int| 0 <= i < rank ==> (#[trigger] self.node_cache@[i]).self_pos != pos,
            decreases self.node_cache@.len() - rank,
        {
            if self.node_cache[rank].self_pos == pos {
                return Some(rank);
            }
            rank = rank + 1;
        }
        None
    }

    /// Looks at the block that a node stands for: records its raw state and
    /// whether it is a wire. Nothing else of the node changes.
    pub fn identify_node(plot: &Plot, upd1: &mut UpdateNode)
        requires
            plot.well_formed(),
        ensures
            final(upd1).current_state == block_in(plot@, old(upd1).self_pos).spec_id(),
            final(upd1).node_type == spec_node_type(block_in(plot@, old(upd1).self_pos)),
            final(upd1).neighbor_nodes == old(upd1).neighbor_nodes,
            final(upd1).self_pos == old(upd1).self_pos,
            final(upd1).parent_pos == old(upd1).parent_pos,
            final(upd1).layer == old(upd1).layer,
            final(upd1).visited == old(upd1).visited,
            final(upd1).xbias == old(upd1).xbias,
            final(upd1).ybias == old(upd1).ybias,
            final(upd1).forward == old(upd1).forward,
    {
        let pos = upd1.self_pos;
        let old_state = plot.get_block_raw(pos);
        upd1.current_state = old_state;
        let block = Block::from_block_state(old_state);
        if let Block::RedstoneWire(_) = block {
            upd1.node_type = UpdateNodeType::Redstone;
        } else {
            upd1.node_type = UpdateNodeType::Other;
        }
    }

    /// The direction of the signal at a node at `to` scheduled from `from`.
    pub fn heading(from: BlockPos, to: BlockPos, inherited: BlockDirection) -> (forward: BlockDirection)
        ensures
            forward == spec_heading(from, to, inherited),
    {
        if to.z == from.z && to.x > from.x {
            BlockDirection::East
        } else if to.z == from.z && to.x < from.x {
            BlockDirection::West
        } else if to.x == from.x && to.z < from.z {
            BlockDirection::North
        } else if to.x == from.x && to.z > from.z {
            BlockDirection::South
        } else {
            inherited
        }
    }

    /// Schedules the neighbors of the node at rank `parent` for the next
    /// layer. The 24 positions around it are taken in the visiting order of
    /// its direction; those to which the update is passed on become its
    /// children, in that order. A position that the cache holds keeps its
    /// node, which is not made anew; any other gets a node at the end of
    /// the cache, one layer below the parent, identified and not visited.
    pub fn schedule_neighbors(&mut self, plot: &Plot, parent: usize)
        requires
            old(self).well_formed(),
            plot.well_formed(),
            parent < old(self).nodes().len(),
            old(self).nodes()[parent as int].self_pos.has_margin(2),
            old(self).nodes()[parent as int].layer < u32::MAX,
            old(self).nodes().len() + 24 <= u32::MAX,
        ensures
            final(self).well_formed(),
            final(self).origin_wire() == old(self).origin_wire(),
            old(self).nodes().len() <= final(self).nodes().len() <= old(self).nodes().len() + 24,
            forall|i: int|
                0 <= i < old(self).nodes().len() && i != parent ==> final(self).nodes()[i] == old(self).nodes()[i],
            final(self).nodes()[parent as int] == (UpdateNode {
                neighbor_nodes: final(self).nodes()[parent as int].neighbor_nodes,
                ..old(self).nodes()[parent as int]
            }),
            models(final(self).nodes()) == spec_schedule(
                models(old(self).nodes()),
                plot@,
                model_of(old(self).nodes()[parent as int]),
                24,
            ),
            ({
                let before = old(self).nodes()[parent as int];
                let scheduled = scheduled_upto(
                    plot@,
                    before.node_type == UpdateNodeType::Redstone,
                    before.self_pos,
                    before.forward,
                    24,
                );
                let children = final(self).nodes()[parent as int].neighbor_nodes@;
                &&& children.len() == scheduled.len()
                &&& forall|k: int|
                    0 <= k < children.len() ==> final(self).nodes()[children[k] as int].self_pos
                        == #[trigger] scheduled[k]
                &&& forall|i: int|
                    old(self).nodes().len() <= i < final(self).nodes().len() ==> {
                        &&& is_fresh_child(#[trigger] final(self).nodes()[i], before, plot@)
                        &&& !cache_holds(old(self).nodes(), final(self).nodes()[i].self_pos)
                    }
                &&& forall|i: int, j: int|
                    old(self).nodes().len() <= i < j < final(self).nodes().len() ==> final(self).nodes()[i].ybias < final(self).nodes()[j].ybias
            }),
    {
        let center = self.node_cache[parent].self_pos;
        let forward = self.node_cache[parent].forward;
        let from_wire = self.node_cache[parent].node_type == UpdateNodeType::Redstone;
        let layer: u32 = self.node_cache[parent].layer + 1;
        let neighbors = Self::compute_all_neighbors(center);
        let ghost before = self.node_cache@[parent as int];
        let ghost start = self.node_cache@.len();
        let mut children: Vec<usize> = Vec::new();
        let mut place: usize = 0;
        while place < 24
            invariant
                place <= 24,
                plot.well_formed(),
                parent < start,
                start + 24 <= u32::MAX,
                start == old(self).node_cache@.len(),
                before == old(self).node_cache@[parent as int],
                center == before.self_pos,
                forward == before.forward,
                from_wire == (before.node_type == UpdateNodeType::Redstone),
                layer == before.layer + 1,
                neighbors@ == spec_all_neighbors(center),
                self.wire == old(self).wire,
                start <= self.node_cache@.len() <= start + place,
                forall|i: int| 0 <= i < start ==> self.node_cache@[i] == old(self).node_cache@[i],
                cache_well_formed(self.node_cache@),
                models(self.node_cache@) == spec_schedule(
                    models(old(self).node_cache@),
                    plot@,
                    model_of(before),
                    place as nat,
                ),
                children@.len() == scheduled_upto(
                    plot@,
                    from_wire,
                    center,
                    forward,
                    place as nat,
                ).len(),
                forall|k: int|
                    0 <= k < children@.len() ==> (#[trigger] children@[k]) < self.node_cache@.len()
                        && self.node_cache@[children@[k] as int].self_pos == scheduled_upto(
                        plot@,
                        from_wire,
                        center,
                        forward,
                        place as nat,
                    )[k],
                forall|i: int|
                    start <= i < self.node_cache@.len() ==> {
                        &&& is_fresh_child(#[trigger] self.node_cache@[i], before, plot@)
                        &&& !cache_holds(old(self).node_cache@, self.node_cache@[i].self_pos)
                        &&& self.node_cache@[i].ybias < place
                    },
                forall|i: int, j: int|
                    start <= i < j < self.node_cache@.len() ==> self.node_cache@[i].ybias
                        < self.node_cache@[j].ybias,
            decreases 24 - place,
        {
            let index = reordering(forward, place);
            let pos = neighbors[index];
            let is_wire = Block::from_block_state(plot.get_block_raw(pos)).is_wire();
            let ghost known = self.node_cache@;
            if !from_wire || update_redstone(index) || !is_wire {
                match self.find_node(pos) {
                    Some(rank) => {
                        assert(models(known)[rank as int].pos == pos);
                        assert(model_holds(models(known), pos));
                        children.push(rank);
                    },
                    None => {
                        let mut node = UpdateNode {
                            current_state: 0,
                            neighbor_nodes: Vec::new(),
                            self_pos: pos,
                            parent_pos: center,
                            node_type: UpdateNodeType::Unknown,
                            layer,
                            visited: false,
                            xbias: self.node_cache.len() as u32,
                            ybias: place as u32,
                            forward: Self::heading(center, pos, forward),
                        };
                        Self::identify_node(plot, &mut node);
                        let rank = self.node_cache.len();
                        proof {
                            assert forall|i: int| 0 <= i < start implies old(self).node_cache@[i].self_pos != pos by {
                                assert(self.node_cache@[i].self_pos != pos);
                            }
                        }
                        assert(!model_holds(models(known), pos)) by {
                            if model_holds(models(known), pos) {
                                let i = choose|i: int|
                                    0 <= i < models(known).len() && (#[trigger] models(
                                        known,
                                    )[i]).pos == pos;
                                assert(known[i].self_pos == pos);
                            }
                        }
                        self.node_cache.push(node);
                        assert(models(self.node_cache@) =~= models(known).push(model_of(node)));
                        children.push(rank);
                    },
                }
            }
            place = place + 1;
        }
        let ghost filled = self.node_cache@;
        self.node_cache[parent].neighbor_nodes = children;
        assert(models(self.node_cache@) =~= models(filled));
    }

    /// Settles the node at rank `rank`, once. A node that was visited
    /// before is left alone, and so is the plot. Else the node is marked
    /// as visited; where a wire stands at its position, with room around it
    /// to look at its neighbors, the wire takes notice of an update, and
    /// the node records the raw state that the plot then holds. The result
    /// tells whether the power of the wire changed.
    pub fn update_node(&mut self, plot: &mut Plot, rank: usize) -> (changed: bool)
        requires
            old(self).well_formed(),
            old(plot).well_formed(),
            rank < old(self).nodes().len(),
        ensures
            final(self).well_formed(),
            final(plot).well_formed(),
            final(self).origin_wire() == old(self).origin_wire(),
            final(self).nodes().len() == old(self).nodes().len(),
            forall|i: int|
                0 <= i < old(self).nodes().len() && i != rank ==> final(self).nodes()[i] == old(self).nodes()[i],
            final(self).nodes()[rank as int] == (UpdateNode {
                visited: true,
                current_state: final(self).nodes()[rank as int].current_state,
                ..old(self).nodes()[rank as int]
            }),
            (models(final(self).nodes()), final(plot)@, changed) == spec_update_node(
                models(old(self).nodes()),
                old(plot)@,
                rank as int,
            ),
            ({
                let node = old(self).nodes()[rank as int];
                let block = block_in(old(plot)@, node.self_pos);
                if !node.visited && node.self_pos.has_margin(1) && block is RedstoneWire {
                    let wire = block->RedstoneWire_0;
                    &&& changed == (wire.power != spec_power(old(plot)@, node.self_pos))
                    &&& final(plot)@ == wire.spec_on_neighbor_updated(old(plot)@, node.self_pos)
                    &&& final(self).nodes()[rank as int].current_state == block_in(
                        final(plot)@,
                        node.self_pos,
                    ).spec_id()
                } else {
                    &&& !changed
                    &&& final(plot)@ == old(plot)@
                    &&& final(self).nodes()[rank as int].current_state == node.current_state
                }
            }),
    {
        let pos = self.node_cache[rank].self_pos;
        let ghost known = self.node_cache@;
        let mut changed = false;
        if !self.node_cache[rank].visited {
            self.node_cache[rank].visited = true;
            if pos.within_margin(1) {
                match plot.get_block(pos) {
                    Block::RedstoneWire(wire) => {
                        changed = wire.on_neighbor_updated(plot, pos);
                        self.node_cache[rank].current_state = plot.get_block_raw(pos);
                    },
                    _ => {},
                }
            }
        }
        assert(models(self.node_cache@) =~= models(known).update(
            rank as int,
            NodeModel { visited: true, ..models(known)[rank as int] },
        ));
        changed
    }

    /// Runs the pass: the nodes of the cache are settled in the order in
    /// which they were made, the origin first, and a wire whose power
    /// changed schedules its neighbors, which are settled in their turn. No
    /// neighbors are scheduled once the cache holds more than `node_limit`
    /// nodes, nor from a position at the edge of the coordinate space.
    /// The positions below and above a node come first among its neighbors;
    /// as a node is settled once, nothing is gained by scheduling them a
    /// second time one layer further on, and it is not done.
    ///
    /// The result lists the positions that were settled, in order: they are
    /// the positions of the cache, none of them twice. In the plot only the
    /// power of wires has changed.
    pub fn run(&mut self, plot: &mut Plot, node_limit: usize) -> (settled: Vec<BlockPos>)
        requires
            old(self).well_formed(),
            old(plot).well_formed(),
            old(self).nodes().len() + 24 <= u32::MAX,
        ensures
            final(self).well_formed(),
            final(plot).well_formed(),
            final(self).origin_wire() == old(self).origin_wire(),
            forall|at: BlockPos|
                same_but_power(block_in(old(plot)@, at), #[trigger] block_in(final(plot)@, at)),
            forall|at: BlockPos|
                !cache_holds(final(self).nodes(), at) ==> #[trigger] block_in(final(plot)@, at)
                    == block_in(old(plot)@, at),
            settled@ == cache_positions(final(self).nodes()),
            (models(final(self).nodes()), final(plot)@) == spec_pass(
                models(old(self).nodes()),
                old(plot)@,
                0,
                spec_cap(node_limit as int, old(self).nodes().len() as int),
            ),
            old(self).nodes().len() <= settled@.len(),
            forall|k: int|
                0 <= k < final(self).nodes().len() ==> (#[trigger] final(self).nodes()[k]).visited,
            forall|i: int, j: int| 0 <= i < j < settled@.len() ==> settled@[i] != settled@[j],
            forall|k: int|
                0 <= k < old(self).nodes().len() ==> final(self).nodes()[k].self_pos == old(self).nodes()[k].self_pos,
    {
        let start = self.node_cache.len();
        let ceiling: usize = 0xffff_ffff - 24;
        let cap: usize = if node_limit > ceiling {
            ceiling
        } else if node_limit < start {
            start
        } else {
            node_limit
        };
        let mut settled: Vec<BlockPos> = Vec::new();
        let mut cursor: usize = 0;
        while cursor < self.node_cache.len()
            invariant
                cache_well_formed(self.node_cache@),
                plot.well_formed(),
                self.wire == old(self).wire,
                start == old(self).node_cache@.len(),
                start <= self.node_cache@.len() <= cap + 24,
                cap + 24 <= u32::MAX,
                cursor <= self.node_cache@.len(),
                settled@.len() == cursor,
                forall|at: BlockPos|
                    same_but_power(block_in(old(plot)@, at), #[trigger] block_in(plot@, at)),
                forall|at: BlockPos|
                    !cache_holds(self.node_cache@, at) ==> #[trigger] block_in(plot@, at)
                        == block_in(old(plot)@, at),
                cap == spec_cap(node_limit as int, start as int),
                spec_pass(models(old(self).node_cache@), old(plot)@, 0, cap as int) == spec_pass(
                    models(self.node_cache@),
                    plot@,
                    cursor as int,
                    cap as int,
                ),
                settled@ == cache_positions(self.node_cache@).take(cursor as int),
                forall|k: int| 0 <= k < cursor ==> (#[trigger] self.node_cache@[k]).visited,
                forall|k: int|
                    0 <= k < start ==> (#[trigger] self.node_cache@[k]).self_pos == old(self).node_cache@[k].self_pos,
            decreases cap + 24 - cursor,
        {
            let pos = self.node_cache[cursor].self_pos;
            let ghost before = plot@;
            let ghost initial = self.node_cache@;
            let ghost listed = settled@;
            let changed = self.update_node(plot, cursor);
            proof {
                assert forall|at: BlockPos|
                    same_but_power(block_in(old(plot)@, at), #[trigger] block_in(plot@, at)) by {
                    assert(same_but_power(block_in(old(plot)@, at), block_in(before, at)));
                }
            }
            let ghost updated = self.node_cache@;
            if changed && self.node_cache.len() <= cap && pos.within_margin(2)
                && self.node_cache[cursor].layer < u32::MAX {
                self.schedule_neighbors(plot, cursor);
            }
            settled.push(pos);
            proof {
                assert forall|k: int| 0 <= k < updated.len() implies (#[trigger] self.node_cache@[k]).self_pos
                    == updated[k].self_pos && self.node_cache@[k].visited == updated[k].visited by {
                    if k != cursor {
                        assert(self.node_cache@[k] == updated[k]);
                    }
                }
                assert(settled@ =~= cache_positions(self.node_cache@).take(cursor + 1)) by {
                    assert(settled@ =~= listed.push(pos));
                    assert forall|k: int| 0 <= k <= cursor implies settled@[k]
                        == self.node_cache@[k].self_pos by {
                        assert(self.node_cache@[k].self_pos == updated[k].self_pos);
                        assert(updated[k].self_pos == initial[k].self_pos);
                        if k < cursor {
                            assert(listed[k] == cache_positions(initial).take(cursor as int)[k]);
                        }
                    }
                }
                assert forall|k: int| 0 <= k <= cursor implies (#[trigger] self.node_cache@[k]).visited by {
                    assert(self.node_cache@[k].visited == updated[k].visited);
                    if k < cursor {
                        assert(updated[k] == initial[k]);
                        assert(initial[k].visited);
                    }
                }
                assert forall|at: BlockPos| !cache_holds(self.node_cache@, at) implies #[trigger]
                    block_in(plot@, at) == block_in(old(plot)@, at) by {
                    if cache_holds(initial, at) {
                        let k = choose|k: int| 0 <= k < initial.len() && initial[k].self_pos == at;
                        assert(updated[k].self_pos == initial[k].self_pos);
                        assert(self.node_cache@[k].self_pos == updated[k].self_pos);
                    }
                    assert(initial[cursor as int].self_pos == pos);
                    assert(block_in(before, at) == block_in(old(plot)@, at));
                }
                assert forall|k: int| 0 <= k < start implies (#[trigger] self.node_cache@[k]).self_pos
                    == old(self).node_cache@[k].self_pos by {
                    assert(self.node_cache@[k].self_pos == updated[k].self_pos);
                    assert(updated[k].self_pos == initial[k].self_pos);
                }
            }
            cursor = cursor + 1;
        }
        proof {
            assert(settled@ =~= cache_positions(self.node_cache@));
            assert forall|i: int, j: int| 0 <= i < j < settled@.len() implies settled@[i]
                != settled@[j] by {
                assert(self.node_cache@[i].self_pos != self.node_cache@[j].self_pos);
            }
        }
        settled
    }

    /// Runs the pass and then lets the plain path look after every position
    /// that the pass has settled, so that nothing is left which the one
    /// visit of the pass could not bring to rest. `node_limit` bounds the
    /// cache, `budget` the positions that the plain path looks at around
    /// each node.
    ///
    /// The cache is the one that the pass leaves, and the world and the
    /// result are what the plain path makes of the world that the pass
    /// leaves, position by position in the order of the cache. Only the
    /// power of wires changes. The result tells whether the work came to an
    /// end; if it did, no wire is left with a power other than it shall
    /// have, unless it was so before and lies more than two steps from
    /// every position of the cache.
    pub fn settle(&mut self, plot: &mut Plot, node_limit: usize, budget: usize) -> (settled: bool)
        requires
            old(self).well_formed(),
            old(plot).well_formed(),
            old(self).nodes().len() + 24 <= u32::MAX,
        ensures
            final(self).well_formed(),
            final(plot).well_formed(),
            final(self).origin_wire() == old(self).origin_wire(),
            old(self).nodes().len() <= final(self).nodes().len(),
            forall|k: int|
                0 <= k < old(self).nodes().len() ==> final(self).nodes()[k].self_pos == old(self).nodes()[k].self_pos,
            forall|at: BlockPos|
                same_but_power(block_in(old(plot)@, at), #[trigger] block_in(final(plot)@, at)),
            ({
                let (cache, passed) = spec_pass(
                    models(old(self).nodes()),
                    old(plot)@,
                    0,
                    spec_cap(node_limit as int, old(self).nodes().len() as int),
                );
                &&& models(final(self).nodes()) == cache
                &&& (final(plot)@, settled) == spec_finish(
                    passed,
                    model_positions(cache),
                    0,
                    budget as nat,
                )
            }),
            settled ==> forall|at: BlockPos|
                at.has_margin(1) && #[trigger] is_unsettled(final(plot)@, at) ==> is_unsettled(
                    old(plot)@,
                    at,
                ) && !near_one_of(
                    cache_positions(final(self).nodes()),
                    0,
                    final(self).nodes().len() as int,
                    at,
                ),
    {
        let visited = self.run(plot, node_limit);
        let ghost passed = plot@;
        assert(visited@ =~= model_positions(models(self.node_cache@)));
        proof {
            assert forall|at: BlockPos|
                at.has_margin(1) && #[trigger] is_unsettled(passed, at) implies is_unsettled(
                old(plot)@,
                at,
            ) || near_one_of(visited@, 0, visited@.len() as int, at) by {
                if !near_one_of(visited@, 0, visited@.len() as int, at) {
                    assert forall|near: BlockPos| distance(at, near) <= 2 implies #[trigger] block_in(
                        old(plot)@,
                        near,
                    ) == block_in(passed, near) by {
                        if cache_holds(self.node_cache@, near) {
                            let i = choose|i: int|
                                0 <= i < self.node_cache@.len() && self.node_cache@[i].self_pos
                                    == near;
                            assert(distance(visited@[i], at) <= 2);
                        }
                    }
                    assert(distance(at, at) == 0);
                    lemma_power_reads_the_neighborhood(old(plot)@, passed, at);
                }
            }
        }
        let mut rank: usize = 0;
        while rank < visited.len()
            invariant
                plot.well_formed(),
                cache_well_formed(self.node_cache@),
                self.wire == old(self).wire,
                old(self).node_cache@.len() <= self.node_cache@.len(),
                forall|k: int|
                    0 <= k < old(self).node_cache@.len() ==> self.node_cache@[k].self_pos == old(self).node_cache@[k].self_pos,
                visited@ == cache_positions(self.node_cache@),
                models(self.node_cache@) == spec_pass(
                    models(old(self).node_cache@),
                    old(plot)@,
                    0,
                    spec_cap(node_limit as int, old(self).node_cache@.len() as int),
                ).0,
                spec_finish(passed, visited@, 0, budget as nat) == spec_finish(
                    plot@,
                    visited@,
                    rank as int,
                    budget as nat,
                ),
                passed == spec_pass(
                    models(old(self).node_cache@),
                    old(plot)@,
                    0,
                    spec_cap(node_limit as int, old(self).node_cache@.len() as int),
                ).1,
                visited@ == model_positions(models(self.node_cache@)),
                rank <= visited@.len(),
                forall|at: BlockPos|
                    same_but_power(block_in(old(plot)@, at), #[trigger] block_in(plot@, at)),
                forall|at: BlockPos|
                    at.has_margin(1) && #[trigger] is_unsettled(plot@, at) ==> (is_unsettled(
                        old(plot)@,
                        at,
                    ) && !near_one_of(visited@, 0, rank as int, at)) || near_one_of(
                        visited@,
                        rank as int,
                        visited@.len() as int,
                        at,
                    ),
            decreases visited@.len() - rank,
        {
            let pos = visited[rank];
            let ghost before = plot@;
            if !update_wire(plot, pos, budget) {
                proof {
                    assert forall|at: BlockPos|
                        same_but_power(
                            block_in(old(plot)@, at),
                            #[trigger] block_in(plot@, at),
                        ) by {
                        assert(same_but_power(block_in(before, at), block_in(plot@, at)));
                    }
                }
                return false;
            }
            let ghost between = plot@;
            let around = update_wire_neighbors(plot, pos, budget);
            proof {
                assert forall|at: BlockPos|
                    same_but_power(block_in(old(plot)@, at), #[trigger] block_in(plot@, at)) by {
                    assert(same_but_power(block_in(before, at), block_in(between, at)));
                    assert(same_but_power(block_in(between, at), block_in(plot@, at)));
                }
            }
            if !around {
                return false;
            }
            proof {
                assert forall|at: BlockPos|
                    at.has_margin(1) && #[trigger] is_unsettled(plot@, at) implies (is_unsettled(
                    old(plot)@,
                    at,
                ) && !near_one_of(visited@, 0, rank + 1, at)) || near_one_of(
                    visited@,
                    rank + 1,
                    visited@.len() as int,
                    at,
                ) by {
                    assert(is_unsettled(between, at));
                    assert(is_unsettled(before, at));
                    assert(distance(visited@[rank as int], at) > 2);
                    if near_one_of(visited@, rank as int, visited@.len() as int, at) {
                        let j = choose|j: int|
                            rank <= j < visited@.len() && 0 <= j < visited@.len() && distance(
                                #[trigger] visited@[j],
                                at,
                            ) <= 2;
                        assert(j != rank);
                        assert(near_one_of(visited@, rank + 1, visited@.len() as int, at));
                    } else {
                        if near_one_of(visited@, 0, rank + 1, at) {
                            let j = choose|j: int|
                                0 <= j < rank + 1 && 0 <= j < visited@.len() && distance(
                                    #[trigger] visited@[j],
                                    at,
                                ) <= 2;
                            assert(j != rank);
                            assert(near_one_of(visited@, 0, rank as int, at));
                        }
                    }
                }
            }
            rank = rank + 1;
        }
        proof {
            assert forall|at: BlockPos| !near_one_of(visited@, rank as int, visited@.len() as int, at) by {}
        }
        true
    }

    /// Whether the pass has left every position of its cache at rest: each
    /// with room around it, and no wire among them with a power other than
    /// it shall have.
    pub fn is_at_rest(&self, plot: &Plot) -> (at_rest: bool)
        ensures
            at_rest == forall|k: int|
                0 <= k < self.nodes().len() ==> (#[trigger] self.nodes()[k]).self_pos.has_margin(1)
                    && !is_unsettled(plot@, self.nodes()[k].self_pos),
    {
        let mut rank: usize = 0;
        while rank < self.node_cache.len()
            invariant
                rank <= self.node_cache@.len(),
                forall|k: int|
                    0 <= k < rank ==> (#[trigger] self.node_cache@[k]).self_pos.has_margin(1)
                        && !is_unsettled(plot@, self.node_cache@[k].self_pos),
            decreases self.node_cache@.len() - rank,
        {
            let pos = self.node_cache[rank].self_pos;
            if !pos.within_margin(1) || !is_settled(plot, pos) {
                assert(!(self.node_cache@[rank as int].self_pos.has_margin(1) && !is_unsettled(
                    plot@,
                    self.node_cache@[rank as int].self_pos,
                )));
                return false;
            }
            rank = rank + 1;
        }
        true
    }

    /// The 24 positions around `pos`, in the order in which a change of a block
    /// is made known to its surroundings.
    pub fn compute_all_neighbors(pos: BlockPos) -> (neighbors: [BlockPos; 24])
        requires
            pos.has_margin(2),
        ensures
            neighbors@ == spec_all_neighbors(pos),
    {
        let x = pos.x;
        let y = pos.y;
        let z = pos.z;
        let neighbors = [
            BlockPos::new(x - 1, y, z),
            BlockPos::new(x + 1, y, z),
            BlockPos::new(x, y - 1, z),
            BlockPos::new(x, y + 1, z),
            BlockPos::new(x, y, z - 1),
            BlockPos::new(x, y, z + 1),
            BlockPos::new(x - 2, y, z),
            BlockPos::new(x - 1, y - 1, z),
            BlockPos::new(x - 1, y + 1, z),
            BlockPos::new(x - 1, y, z - 1),
            BlockPos::new(x - 1, y, z + 1),
            BlockPos::new(x + 2, y, z),
            BlockPos::new(x + 1, y - 1, z),
            BlockPos::new(x + 1, y + 1, z),
            BlockPos::new(x + 1, y, z - 1),
            BlockPos::new(x + 1, y, z + 1),
            BlockPos::new(x, y - 2, z),
            BlockPos::new(x, y - 1, z - 1),
            BlockPos::new(x, y - 1, z + 1),
            BlockPos::new(x, y + 2, z),
            BlockPos::new(x, y + 1, z - 1),
            BlockPos::new(x, y + 1, z + 1),
            BlockPos::new(x, y, z - 2),
            BlockPos::new(x, y, z + 2),
        ];
        assert(neighbors@ =~= spec_all_neighbors(pos));
        neighbors
    }
}

/// Whether a wire at neighbor `index` is updated by a wire in the middle.
pub fn update_redstone(index: usize) -> (updated: bool)
    requires
        index < 24,
    ensures
        updated == UPDATE_REDSTONE@[index as int],
{
    UPDATE_REDSTONE[index]
}

/// The neighbor that is visited in place `place` by a signal that travels
/// in direction `forward`.
pub fn reordering(forward: BlockDirection, place: usize) -> (index: usize)
    requires
        place < 24,
    ensures
        index == spec_reordering(forward)[place as int],
        index < 24,
{
    proof {
        lemma_reordering_is_permutation(forward);
    }
    let index: u32 = match forward {
        BlockDirection::North => FORWARD_IS_NORTH[place],
        BlockDirection::East => FORWARD_IS_EAST[place],
        BlockDirection::South => FORWARD_IS_SOUTH[place],
        BlockDirection::West => FORWARD_IS_WEST[place],
    };
    index as usize
}

/// The neighborhood of a position is exactly what lies one or two unit
/// steps away from it, each position once.
pub proof fn lemma_all_neighbors_are_the_near_positions(pos: BlockPos)
    requires
        pos.has_margin(2),
    ensures
        spec_all_neighbors(pos).len() == 24,
        forall|i: int| 0 <= i < 6 ==> distance(pos, #[trigger] spec_all_neighbors(pos)[i]) == 1,
        forall|i: int| 6 <= i < 24 ==> distance(pos, #[trigger] spec_all_neighbors(pos)[i]) == 2,
        forall|i: int, j: int|
            0 <= i < j < 24 ==> spec_all_neighbors(pos)[i] != spec_all_neighbors(pos)[j],
        forall|near: BlockPos|
            1 <= distance(pos, near) <= 2 ==> spec_all_neighbors(pos).contains(near),
{
    let all = spec_all_neighbors(pos);
    assert forall|near: BlockPos| 1 <= distance(pos, near) <= 2 implies all.contains(near) by {
        let dx = near.x - pos.x;
        let dy = near.y - pos.y;
        let dz = near.z - pos.z;
        assert(near == pos.shifted(dx, dy, dz));
        let i: int = if dx == -1 && dy == 0 && dz == 0 {
            0
        } else if dx == 1 && dy == 0 && dz == 0 {
            1
        } else if dx == 0 && dy == -1 && dz == 0 {
            2
        } else if dx == 0 && dy == 1 && dz == 0 {
            3
        } else if dx == 0 && dy == 0 && dz == -1 {
            4
        } else if dx == 0 && dy == 0 && dz == 1 {
            5
        } else if dx == -2 {
            6
        } else if dx == -1 && dy == -1 {
            7
        } else if dx == -1 && dy == 1 {
            8
        } else if dx == -1 && dz == -1 {
            9
        } else if dx == -1 && dz == 1 {
            10
        } else if dx == 2 {
            11
        } else if dx == 1 && dy == -1 {
            12
        } else if dx == 1 && dy == 1 {
            13
        } else if dx == 1 && dz == -1 {
            14
        } else if dx == 1 && dz == 1 {
            15
        } else if dy == -2 {
            16
        } else if dy == -1 && dz == -1 {
            17
        } else if dy == -1 && dz == 1 {
            18
        } else if dy == 2 {
            19
        } else if dy == 1 && dz == -1 {
            20
        } else if dy == 1 && dz == 1 {
            21
        } else if dz == -2 {
            22
        } else {
            23
        };
        assert(all[i] == near);
    }
}

/// A wire updates the wires at exactly those neighbors that lie one
/// horizontal step away, on its own level or one above or below.
pub proof fn lemma_update_redstone_marks_connecting_positions(pos: BlockPos, index: int)
    requires
        pos.has_margin(2),
        0 <= index < 24,
    ensures
        UPDATE_REDSTONE@[index] == (horizontal_distance(pos, spec_all_neighbors(pos)[index]) == 1),
{
}

/// Every visiting order names each of the 24 neighbors exactly once, and
/// begins with the four positions below and above the middle.
pub proof fn lemma_reordering_is_permutation(forward: BlockDirection)
    ensures
        spec_reordering(forward).len() == 24,
        forall|place: int| 0 <= place < 24 ==> (#[trigger] spec_reordering(forward)[place]) < 24,
        forall|a: int, b: int|
            0 <= a < b < 24 ==> spec_reordering(forward)[a] != spec_reordering(forward)[b],
        spec_reordering(forward).subrange(0, 4) == seq![2u32, 3u32, 16u32, 19u32],
{
    assert(spec_reordering(forward).subrange(0, 4) =~= seq![2u32, 3u32, 16u32, 19u32]);
}

} // verus!
