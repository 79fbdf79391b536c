//! The plain way of spreading a change: every wire near a change takes
//! notice, and where its power changes, the wires near it take notice in
//! turn, until nothing changes any more.

use vstd::prelude::*;
use crate::block::Block;
use crate::geometry::{distance, BlockPos};
use crate::lemmas::{lemma_power_reads_the_neighborhood, lemma_update_settles};
use crate::plot::{block_in, same_but_power, Plot};
use crate::turbo::{
    lemma_all_neighbors_are_the_near_positions, spec_all_neighbors, RedstoneWireTurbo,
};
use crate::wire::{is_unsettled, spec_power};

verus! {

/// Adds the 24 positions around `pos` to the end of `queue`.
fn push_neighbors(queue: &mut Vec<BlockPos>, pos: BlockPos)
    requires
        pos.has_margin(2),
    ensures
        final(queue)@ == old(queue)@ + spec_all_neighbors(pos),
{
    let neighbors = RedstoneWireTurbo::compute_all_neighbors(pos);
    let mut at: usize = 0;
    while at < 24
        invariant
            at <= 24,
            neighbors@ == spec_all_neighbors(pos),
            queue@ == old(queue)@ + spec_all_neighbors(pos).take(at as int),
        decreases 24 - at,
    {
        queue.push(neighbors[at]);
        assert(spec_all_neighbors(pos).take(at + 1) =~= spec_all_neighbors(pos).take(
            at as int,
        ).push(neighbors@[at as int]));
        assert(queue@ =~= old(queue)@ + spec_all_neighbors(pos).take(at + 1));
        at = at + 1;
    }
    assert(spec_all_neighbors(pos).take(24) =~= spec_all_neighbors(pos));
}

/// What the plain path makes of `world` when the positions in `waiting`
/// are still to take notice and no more than `budget` of them may be looked
/// at: the world it leaves, and whether the work came to an end.
///
/// The position that came last is looked at first. A wire there, with room
/// around it, takes notice; if its power changes, the 24 positions around
/// it wait in their turn. A wire without room around it stops the work.
pub open spec fn spread(
    world: Map<BlockPos, Block>,
    waiting: Seq<BlockPos>,
    budget: nat,
) -> (Map<BlockPos, Block>, bool)
    decreases budget,
{
    if waiting.len() == 0 {
        (world, true)
    } else if budget == 0 {
        (world, false)
    } else {
        let current = waiting.last();
        let rest = waiting.drop_last();
        match block_in(world, current) {
            Block::RedstoneWire(wire) => if !current.has_margin(2) {
                (world, false)
            } else if wire.power != spec_power(world, current) {
                spread(
                    wire.spec_on_neighbor_updated(world, current),
                    rest + spec_all_neighbors(current),
                    (budget - 1) as nat,
                )
            } else {
                spread(world, rest, (budget - 1) as nat)
            },
            _ => spread(world, rest, (budget - 1) as nat),
        }
    }
}

/// What the plain path makes of `world` when the positions around `pos`
/// take notice of a change at `pos`. Without room around `pos` nothing is
/// done and the work counts as unfinished.
pub open spec fn spec_update_wire_neighbors(
    world: Map<BlockPos, Block>,
    pos: BlockPos,
    budget: nat,
) -> (Map<BlockPos, Block>, bool) {
    if pos.has_margin(2) {
        spread(world, spec_all_neighbors(pos), budget)
    } else {
        (world, false)
    }
}

/// What the plain path makes of `world` when the wire at `pos` is brought
/// up to date: nothing where no wire stands there or the wire has the power
/// it shall have; else the wire takes its new power and the change spreads
/// from the positions around it.
pub open spec fn spec_update_wire(
    world: Map<BlockPos, Block>,
    pos: BlockPos,
    budget: nat,
) -> (Map<BlockPos, Block>, bool) {
    match block_in(world, pos) {
        Block::RedstoneWire(wire) => if !pos.has_margin(2) {
            (world, false)
        } else if wire.power != spec_power(world, pos) {
            spread(wire.spec_on_neighbor_updated(world, pos), spec_all_neighbors(pos), budget)
        } else {
            (world, true)
        },
        _ => (world, true),
    }
}

/// Lets the wires around `pos` take notice of a change at `pos`, and the
/// wires around every wire whose power changes thereby, and so on, looking
/// at no more than `budget` positions.
///
/// The world that is left and the result are those of `spread` from the 24
/// positions around `pos`. Only the power of wires changes. The result
/// tells whether the work came to an end within the budget and away from
/// the edge of the coordinate space. If it did, every wire within two steps
/// of `pos` has the power it shall have, and so has every wire that had it
/// before.
pub fn update_wire_neighbors(plot: &mut Plot, pos: BlockPos, budget: usize) -> (settled: bool)
    requires
        old(plot).well_formed(),
    ensures
        final(plot).well_formed(),
        forall|at: BlockPos|
            same_but_power(block_in(old(plot)@, at), #[trigger] block_in(final(plot)@, at)),
        (!pos.has_margin(2) || budget == 0) ==> (!settled && final(plot)@ == old(plot)@),
        (final(plot)@, settled) == spec_update_wire_neighbors(old(plot)@, pos, budget as nat),
        settled ==> forall|at: BlockPos|
            at.has_margin(1) && #[trigger] is_unsettled(final(plot)@, at) ==> is_unsettled(
                old(plot)@,
                at,
            ) && !(1 <= distance(pos, at) <= 2),
{
    if !pos.within_margin(2) {
        return false;
    }
    let mut queue: Vec<BlockPos> = Vec::new();
    push_neighbors(&mut queue, pos);
    let ghost mut touched: Set<BlockPos> = Set::new(|at: BlockPos| 1 <= distance(pos, at) <= 2);
    proof {
        lemma_all_neighbors_are_the_near_positions(pos);
        assert(queue@ =~= spec_all_neighbors(pos));
        assert forall|at: BlockPos| queue@.contains(at) implies touched.contains(at) by {
            let i = choose|i: int| 0 <= i < queue@.len() && queue@[i] == at;
            assert(spec_all_neighbors(pos)[i] == at);
        }
    }
    let mut left: usize = budget;
    while queue.len() > 0 && left > 0
        invariant
            plot.well_formed(),
            pos.has_margin(2),
            left <= budget,
            left == budget ==> plot@ == old(plot)@ && queue@.len() == 24,
            spread(old(plot)@, spec_all_neighbors(pos), budget as nat) == spread(
                plot@,
                queue@,
                left as nat,
            ),
            forall|at: BlockPos|
                same_but_power(block_in(old(plot)@, at), #[trigger] block_in(plot@, at)),
            forall|at: BlockPos| #[trigger] queue@.contains(at) ==> touched.contains(at),
            forall|at: BlockPos| 1 <= distance(pos, at) <= 2 ==> #[trigger] touched.contains(at),
            forall|at: BlockPos|
                !#[trigger] touched.contains(at) ==> block_in(plot@, at) == block_in(
                    old(plot)@,
                    at,
                ),
            forall|at: BlockPos|
                at.has_margin(1) && #[trigger] is_unsettled(plot@, at) ==> queue@.contains(at) || (
                is_unsettled(old(plot)@, at) && !touched.contains(at)),
        decreases left,
    {
        left = left - 1;
        let ghost waiting = queue@;
        let current = queue.pop().unwrap();
        let ghost before = plot@;
        assert(queue@ =~= waiting.drop_last());
        assert(current == waiting.last());
        assert(waiting.contains(current)) by {
            assert(waiting[waiting.len() - 1] == current);
        }
        assert forall|at: BlockPos| at != current && waiting.contains(at) implies queue@.contains(
            at,
        ) by {
            let i = choose|i: int| 0 <= i < waiting.len() && waiting[i] == at;
            assert(queue@[i] == at);
        }
        assert forall|at: BlockPos| #[trigger] queue@.contains(at) implies touched.contains(at) by {
            let i = choose|i: int| 0 <= i < queue@.len() && queue@[i] == at;
            assert(waiting[i] == at);
            assert(waiting.contains(at));
        }
        match plot.get_block(current) {
            Block::RedstoneWire(wire) => {
                if !current.within_margin(2) {
                    return false;
                }
                let ghost resting = queue@;
                let changed = wire.on_neighbor_updated(plot, current);
                proof {
                    lemma_update_settles(wire, before, current);
                    assert forall|at: BlockPos|
                        same_but_power(
                            block_in(old(plot)@, at),
                            #[trigger] block_in(plot@, at),
                        ) by {
                        assert(same_but_power(block_in(old(plot)@, at), block_in(before, at)));
                    }
                    assert(touched.contains(current));
                    assert forall|at: BlockPos| !#[trigger] touched.contains(at) implies block_in(
                        plot@,
                        at,
                    ) == block_in(old(plot)@, at) by {
                        assert(block_in(before, at) == block_in(old(plot)@, at));
                    }
                }
                if changed {
                    push_neighbors(&mut queue, current);
                    assert(queue@ == waiting.drop_last() + spec_all_neighbors(current));
                    proof {
                        let around = spec_all_neighbors(current);
                        lemma_all_neighbors_are_the_near_positions(current);
                        let earlier = touched;
                        touched = touched.union(Set::new(|at: BlockPos| around.contains(at)));
                        assert forall|at: BlockPos| resting.contains(at) implies queue@.contains(
                            at,
                        ) by {
                            let i = choose|i: int| 0 <= i < resting.len() && resting[i] == at;
                            assert(queue@[i] == at);
                        }
                        assert forall|at: BlockPos| around.contains(at) implies queue@.contains(
                            at,
                        ) by {
                            let i = choose|i: int| 0 <= i < around.len() && around[i] == at;
                            assert(queue@[resting.len() + i] == at);
                        }
                        assert forall|at: BlockPos| #[trigger]
                            queue@.contains(at) implies touched.contains(at) by {
                            let i = choose|i: int| 0 <= i < queue@.len() && queue@[i] == at;
                            if i < resting.len() {
                                assert(resting[i] == at);
                                assert(resting.contains(at));
                                assert(waiting.contains(at)) by {
                                    assert(waiting[i] == at);
                                }
                                assert(earlier.contains(at));
                            } else {
                                assert(around[i - resting.len()] == at);
                                assert(around.contains(at));
                            }
                        }
                        assert forall|at: BlockPos|
                            at.has_margin(1) && #[trigger] is_unsettled(
                                plot@,
                                at,
                            ) implies queue@.contains(at) || (is_unsettled(old(plot)@, at)
                            && !touched.contains(at)) by {
                            if at != current {
                                if 1 <= distance(current, at) <= 2 {
                                    assert(around.contains(at));
                                } else {
                                    lemma_power_reads_the_neighborhood(before, plot@, at);
                                    assert(is_unsettled(before, at));
                                    if waiting.contains(at) {
                                        assert(resting.contains(at));
                                    } else {
                                        assert(!around.contains(at)) by {
                                            if around.contains(at) {
                                                let i = choose|i: int|
                                                    0 <= i < around.len() && around[i] == at;
                                                assert(distance(current, around[i]) >= 1);
                                            }
                                        }
                                    }
                                }
                            }
                        }
                    }
                }
            },
            _ => {},
        }
    }
    queue.len() == 0
}

/// Brings the wire at `pos` up to date and, where its power changed, lets
/// the change spread as far as it goes, looking at no more than `budget`
/// positions around it. Where no wire stands at `pos`, nothing happens.
///
/// Only the power of wires changes. The result tells whether the work came
/// to an end; if it did, no wire is left with a power other than it shall
/// have, unless it was so before, and the wire at `pos` in no case.
pub fn update_wire(plot: &mut Plot, pos: BlockPos, budget: usize) -> (settled: bool)
    requires
        old(plot).well_formed(),
    ensures
        final(plot).well_formed(),
        forall|at: BlockPos|
            same_but_power(block_in(old(plot)@, at), #[trigger] block_in(final(plot)@, at)),
        !block_in(old(plot)@, pos).spec_is_wire() ==> (settled && final(plot)@ == old(plot)@),
        (block_in(old(plot)@, pos).spec_is_wire() && !pos.has_margin(2)) ==> (!settled && final(plot)@ == old(plot)@),
        (pos.has_margin(2) && !is_unsettled(old(plot)@, pos)) ==> (settled && final(plot)@ == old(plot)@),
        (final(plot)@, settled) == spec_update_wire(old(plot)@, pos, budget as nat),
        settled ==> forall|at: BlockPos|
            at.has_margin(1) && #[trigger] is_unsettled(final(plot)@, at) ==> is_unsettled(
                old(plot)@,
                at,
            ) && at != pos,
{
    match plot.get_block(pos) {
        Block::RedstoneWire(wire) => {
            if !pos.within_margin(2) {
                return false;
            }
            let changed = wire.on_neighbor_updated(plot, pos);
            proof {
                lemma_update_settles(wire, old(plot)@, pos);
            }
            if changed {
                let ghost written = plot@;
                let settled = update_wire_neighbors(plot, pos, budget);
                proof {
                    assert forall|at: BlockPos|
                        same_but_power(
                            block_in(old(plot)@, at),
                            #[trigger] block_in(plot@, at),
                        ) by {
                        assert(same_but_power(block_in(written, at), block_in(plot@, at)));
                    }
                    if settled {
                        assert forall|at: BlockPos|
                            at.has_margin(1) && #[trigger] is_unsettled(
                                plot@,
                                at,
                            ) implies is_unsettled(old(plot)@, at) && at != pos by {
                            assert(is_unsettled(written, at));
                            lemma_power_reads_the_neighborhood(old(plot)@, written, at);
                        }
                    }
                }
                settled
            } else {
                true
            }
        },
        _ => true,
    }
}

} // verus!
