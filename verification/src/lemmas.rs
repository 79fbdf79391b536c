//! What holds of connectivity and power in every world.

use vstd::prelude::*;
use crate::block::Block;
use crate::geometry::{distance, BlockDirection, BlockFace, BlockPos};
use crate::plot::{block_in, same_but_power, world_well_formed};
use crate::wire::{
    block_power_upto, face_block_power, face_wire_power, is_unsettled, max_power,
    spec_can_connect_to, spec_power,
    spec_side, wire_level, wire_power_upto, RedstoneWire,
};
use crate::wire_side::RedstoneWireSide;

verus! {

/// The power of a wire is at most 15 in a world of well-formed blocks.
pub proof fn lemma_power_is_bounded(world: Map<BlockPos, Block>, pos: BlockPos)
    requires
        world_well_formed(world),
    ensures
        spec_power(world, pos) <= 15,
{
    reveal_with_fuel(wire_power_upto, 7);
    reveal_with_fuel(block_power_upto, 7);
    assert forall|face: BlockFace|
        face_wire_power(world, pos, face) <= 15 && face_block_power(world, pos, face) <= 15 by {
        let neighbor_pos = pos.spec_offset(face);
        assert(block_in(world, neighbor_pos).well_formed());
        assert(block_in(world, neighbor_pos.spec_offset(BlockFace::Top)).well_formed());
        assert(block_in(world, neighbor_pos.spec_offset(BlockFace::Bottom)).well_formed());
    }
}

/// The power of a wire is decided by the blocks one or two steps away from
/// it: two worlds that agree there give the wire the same power, whatever
/// they hold at the wire's own position and further off.
pub proof fn lemma_power_reads_the_neighborhood(
    first: Map<BlockPos, Block>,
    second: Map<BlockPos, Block>,
    pos: BlockPos,
)
    requires
        pos.has_margin(1),
        forall|near: BlockPos|
            1 <= distance(pos, near) <= 2 ==> #[trigger] block_in(first, near) == block_in(
                second,
                near,
            ),
    ensures
        spec_power(first, pos) == spec_power(second, pos),
{
    reveal_with_fuel(wire_power_upto, 7);
    reveal_with_fuel(block_power_upto, 7);
    assert forall|face: BlockFace|
        face_wire_power(first, pos, face) == face_wire_power(second, pos, face)
            && face_block_power(first, pos, face) == face_block_power(second, pos, face) by {
        let neighbor_pos = pos.spec_offset(face);
        assert(block_in(first, neighbor_pos) == block_in(second, neighbor_pos));
        assert(block_in(first, pos.spec_offset(BlockFace::Top)) == block_in(
            second,
            pos.spec_offset(BlockFace::Top),
        ));
        if face.spec_is_horizontal() {
            let over = neighbor_pos.spec_offset(BlockFace::Top);
            let under = neighbor_pos.spec_offset(BlockFace::Bottom);
            assert(block_in(first, over) == block_in(second, over));
            assert(block_in(first, under) == block_in(second, under));
        }
    }
}

/// Once a wire has taken notice of an update, a second notice with nothing
/// changed in between finds its power as it shall be and leaves the world
/// as it is.
pub proof fn lemma_update_settles(wire: RedstoneWire, world: Map<BlockPos, Block>, pos: BlockPos)
    requires
        pos.has_margin(1),
    ensures
        ({
            let settled = wire.spec_on_neighbor_updated(world, pos);
            let stored = RedstoneWire { power: spec_power(world, pos), ..wire };
            &&& spec_power(settled, pos) == spec_power(world, pos)
            &&& stored.power == spec_power(settled, pos)
            &&& stored.spec_on_neighbor_updated(settled, pos) == settled
        }),
{
    let settled = wire.spec_on_neighbor_updated(world, pos);
    lemma_power_reads_the_neighborhood(world, settled, pos);
}

/// A repeater takes a connection from a wire exactly when it points toward
/// the wire or away from it; a wire beside such a repeater connects to it.
pub proof fn lemma_repeater_connects_along_its_axis(
    world: Map<BlockPos, Block>,
    pos: BlockPos,
    side: BlockDirection,
    facing: BlockDirection,
)
    requires
        block_in(world, pos.spec_offset(side.spec_block_face())) is RedstoneRepeater,
        block_in(world, pos.spec_offset(side.spec_block_face()))->RedstoneRepeater_0 == facing,
    ensures
        spec_can_connect_to(block_in(world, pos.spec_offset(side.spec_block_face())), side) == (
        facing == side || facing == side.spec_opposite()),
        facing == side || facing == side.spec_opposite() ==> spec_side(world, pos, side)
            == RedstoneWireSide::Side,
{
}

/// Two wires on either side of a step of one block: the lower at `pos`,
/// the upper one step in direction `side` and one step up. With nothing
/// solid above the lower wire, the lower wire climbs with `Up` unless the
/// block beside it takes a straight connection, the upper wire, with
/// nothing solid or wired above it, comes down with `Side`, and each
/// receives the other's power less one: the lower if the block beside it is
/// not transparent.
pub proof fn lemma_wires_connect_across_a_step(
    world: Map<BlockPos, Block>,
    pos: BlockPos,
    side: BlockDirection,
)
    requires
        pos.has_margin(2),
        block_in(world, pos).spec_is_wire(),
        block_in(
            world,
            pos.spec_offset(side.spec_block_face()).spec_offset(BlockFace::Top),
        ).spec_is_wire(),
        !block_in(world, pos.spec_offset(BlockFace::Top)).spec_is_solid(),
    ensures
        ({
            let beside = pos.spec_offset(side.spec_block_face());
            let upper = beside.spec_offset(BlockFace::Top);
            let above = pos.spec_offset(BlockFace::Top);
            &&& !spec_can_connect_to(block_in(world, beside), side) ==> spec_side(world, pos, side)
                == RedstoneWireSide::Up
            &&& spec_side(world, pos, side) != RedstoneWireSide::Disconnected
            &&& !spec_can_connect_to(block_in(world, above), side.spec_opposite()) && !block_in(
                world,
                above.spec_offset(BlockFace::Top),
            ).spec_is_wire() ==> spec_side(world, upper, side.spec_opposite())
                == RedstoneWireSide::Side
            &&& spec_side(world, upper, side.spec_opposite()) != RedstoneWireSide::Disconnected
            &&& spec_power(world, upper) >= wire_level(world, pos) - 1
            &&& !block_in(world, beside).spec_is_transparent() ==> spec_power(world, pos)
                >= wire_level(world, upper) - 1
        }),
{
    reveal_with_fuel(wire_power_upto, 7);
    reveal_with_fuel(block_power_upto, 7);
    let beside = pos.spec_offset(side.spec_block_face());
    let upper = beside.spec_offset(BlockFace::Top);
    let above = pos.spec_offset(BlockFace::Top);
    assert(upper.spec_offset(side.spec_opposite().spec_block_face()) == above);
    assert(above.spec_offset(BlockFace::Bottom) == pos);
    assert(face_wire_power(world, upper, side.spec_opposite().spec_block_face()) >= wire_level(
        world,
        pos,
    ));
    if !block_in(world, beside).spec_is_transparent() {
        assert(face_wire_power(world, pos, side.spec_block_face()) >= wire_level(world, upper));
    }
}

/// A solid block above the lower of two wires on either side of a step
/// cuts them off from each other: the lower wire does not climb, and
/// neither wire's power depends on what the other carries.
pub proof fn lemma_solid_block_cuts_a_step(
    world: Map<BlockPos, Block>,
    pos: BlockPos,
    side: BlockDirection,
    other: Block,
)
    requires
        pos.has_margin(2),
        block_in(world, pos.spec_offset(BlockFace::Top)).spec_is_solid(),
    ensures
        ({
            let beside = pos.spec_offset(side.spec_block_face());
            let upper = beside.spec_offset(BlockFace::Top);
            &&& spec_side(world, pos, side) != RedstoneWireSide::Up
            &&& spec_power(world.insert(upper, other), pos) == spec_power(world, pos)
            &&& spec_power(world.insert(pos, other), upper) == spec_power(world, upper)
        }),
{
    reveal_with_fuel(wire_power_upto, 7);
    reveal_with_fuel(block_power_upto, 7);
    let beside = pos.spec_offset(side.spec_block_face());
    let upper = beside.spec_offset(BlockFace::Top);
    let above = pos.spec_offset(BlockFace::Top);
    assert(upper.spec_offset(side.spec_opposite().spec_block_face()) == above);
    let first = world.insert(upper, other);
    assert forall|face: BlockFace|
        face_wire_power(first, pos, face) == face_wire_power(world, pos, face) && face_block_power(
            first,
            pos,
            face,
        ) == face_block_power(world, pos, face) by {
        let neighbor_pos = pos.spec_offset(face);
        assert(neighbor_pos != upper);
        assert(above != upper);
        assert(neighbor_pos.spec_offset(BlockFace::Bottom) != upper);
    }
    let second = world.insert(pos, other);
    assert forall|face: BlockFace|
        face_wire_power(second, upper, face) == face_wire_power(world, upper, face)
            && face_block_power(second, upper, face) == face_block_power(world, upper, face) by {
        let neighbor_pos = upper.spec_offset(face);
        assert(neighbor_pos != pos);
        assert(upper.spec_offset(BlockFace::Top) != pos);
        assert(neighbor_pos.spec_offset(BlockFace::Top) != pos);
        if neighbor_pos.spec_offset(BlockFace::Bottom) == pos {
            assert(neighbor_pos == above);
        }
    }
}

/// Power less one, but not below zero.
pub open spec fn one_less(power: int) -> int {
    if power >= 1 { power - 1 } else { 0 }
}

/// The larger of two numbers.
pub open spec fn larger(a: int, b: int) -> int {
    if a >= b { a } else { b }
}

/// The level after place `i` in a row of levels; beyond the row, 0.
pub open spec fn level_after(levels: Seq<int>, i: int) -> int {
    if i + 1 < levels.len() { levels[i + 1] } else { 0 }
}

/// Each level but the first is one less than the larger of its two neighbors.
pub open spec fn levels_settled(levels: Seq<int>) -> bool {
    &&& levels.len() >= 1
    &&& levels[0] == 15
    &&& forall|i: int| 0 <= i < levels.len() ==> 0 <= #[trigger] levels[i]
    &&& forall|i: int|
        1 <= i < levels.len() ==> #[trigger] levels[i] == one_less(
            larger(levels[i - 1], level_after(levels, i)),
        )
}

/// In a settled row no level takes its power from the level after it.
proof fn lemma_levels_fall(levels: Seq<int>, i: int)
    requires
        levels_settled(levels),
        1 <= i < levels.len(),
    ensures
        levels[i] == one_less(levels[i - 1]),
        level_after(levels, i) <= levels[i],
    decreases levels.len() - i,
{
    if i + 1 < levels.len() {
        lemma_levels_fall(levels, i + 1);
    }
}

/// A settled row that starts at 15 loses one with every place until it is at 0.
proof fn lemma_levels_attenuate(levels: Seq<int>, i: int)
    requires
        levels_settled(levels),
        0 <= i < levels.len(),
    ensures
        levels[i] == larger(0, 15 - i),
    decreases i,
{
    if i > 0 {
        lemma_levels_attenuate(levels, i - 1);
        lemma_levels_fall(levels, i);
    }
}

/// Whether `pos` lies on the row of `length` positions that runs east from `start`.
pub open spec fn on_row(start: BlockPos, length: int, pos: BlockPos) -> bool {
    pos.y == start.y && pos.z == start.z && start.x <= pos.x < start.x + length
}

/// A straight row of wires runs east from `start`, in air, with one block
/// at its west end that gives the first wire power 15. Once every wire of
/// the row carries the power it shall have, the wire at place `n`, counted
/// from 0, carries 15 less `n`, and none from place 15 on.
pub proof fn lemma_row_attenuates(world: Map<BlockPos, Block>, start: BlockPos, length: int, n: int)
    requires
        1 <= length,
        start.has_margin(1),
        start.x + length < i32::MAX,
        world_well_formed(world),
        !block_in(world, start.shifted(-1, 0, 0)).spec_is_wire(),
        block_in(world, start.shifted(-1, 0, 0)).spec_power_no_dust(BlockFace::West) == 15,
        forall|pos: BlockPos|
            on_row(start, length, pos) ==> (#[trigger] block_in(world, pos)).spec_is_wire()
                && wire_level(world, pos) == spec_power(world, pos),
        forall|pos: BlockPos|
            !on_row(start, length, pos) && pos != start.shifted(-1, 0, 0) ==> #[trigger] block_in(
                world,
                pos,
            ) == Block::Air,
        0 <= n < length,
    ensures
        wire_level(world, start.shifted(n, 0, 0)) == larger(0, 15 - n),
{
    let levels = Seq::new(length as nat, |i: int| wire_level(world, start.shifted(i, 0, 0)) as int);
    assert forall|i: int| 1 <= i < levels.len() implies #[trigger] levels[i] == one_less(
        larger(levels[i - 1], level_after(levels, i)),
    ) by {
        lemma_row_wire(world, start, length, i);
    }
    lemma_row_wire(world, start, length, 0);
    assert(levels_settled(levels));
    lemma_levels_attenuate(levels, n);
}

/// The power of one wire of such a row: 15 for the first, for any other one
/// less than the stronger of the wires before and after it.
proof fn lemma_row_wire(world: Map<BlockPos, Block>, start: BlockPos, length: int, i: int)
    requires
        1 <= length,
        start.has_margin(1),
        start.x + length < i32::MAX,
        world_well_formed(world),
        !block_in(world, start.shifted(-1, 0, 0)).spec_is_wire(),
        block_in(world, start.shifted(-1, 0, 0)).spec_power_no_dust(BlockFace::West) == 15,
        forall|pos: BlockPos|
            on_row(start, length, pos) ==> (#[trigger] block_in(world, pos)).spec_is_wire()
                && wire_level(world, pos) == spec_power(world, pos),
        forall|pos: BlockPos|
            !on_row(start, length, pos) && pos != start.shifted(-1, 0, 0) ==> #[trigger] block_in(
                world,
                pos,
            ) == Block::Air,
        0 <= i < length,
    ensures
        i == 0 ==> wire_level(world, start.shifted(0, 0, 0)) == 15,
        i >= 1 ==> wire_level(world, start.shifted(i, 0, 0)) == one_less(
            larger(
                wire_level(world, start.shifted(i - 1, 0, 0)) as int,
                if i + 1 < length {
                    wire_level(world, start.shifted(i + 1, 0, 0)) as int
                } else {
                    0
                },
            ),
        ),
{
    let pos = start.shifted(i, 0, 0);
    let source = start.shifted(-1, 0, 0);
    let west = pos.spec_offset(BlockFace::West);
    let east = pos.spec_offset(BlockFace::East);
    assert(on_row(start, length, pos));
    lemma_power_is_bounded(world, pos);
    lemma_power_by_faces(world, pos);
    assert(west == start.shifted(i - 1, 0, 0));
    assert(east == start.shifted(i + 1, 0, 0));
    let above = pos.spec_offset(BlockFace::Top);
    let below = pos.spec_offset(BlockFace::Bottom);
    let north = pos.spec_offset(BlockFace::North);
    let south = pos.spec_offset(BlockFace::South);
    assert(block_in(world, above) == Block::Air);
    assert(block_in(world, below) == Block::Air);
    assert(block_in(world, north) == Block::Air);
    assert(block_in(world, south) == Block::Air);
    assert(block_in(world, north.spec_offset(BlockFace::Top)) == Block::Air);
    assert(block_in(world, north.spec_offset(BlockFace::Bottom)) == Block::Air);
    assert(block_in(world, south.spec_offset(BlockFace::Top)) == Block::Air);
    assert(block_in(world, south.spec_offset(BlockFace::Bottom)) == Block::Air);
    assert(block_in(world, west.spec_offset(BlockFace::Top)) == Block::Air);
    assert(block_in(world, west.spec_offset(BlockFace::Bottom)) == Block::Air);
    assert(block_in(world, east.spec_offset(BlockFace::Top)) == Block::Air);
    assert(block_in(world, east.spec_offset(BlockFace::Bottom)) == Block::Air);
    assert(face_wire_power(world, pos, BlockFace::Top) == 0);
    assert(face_wire_power(world, pos, BlockFace::Bottom) == 0);
    assert(face_wire_power(world, pos, BlockFace::North) == 0);
    assert(face_wire_power(world, pos, BlockFace::South) == 0);
    assert(face_wire_power(world, pos, BlockFace::West) == wire_level(world, west));
    assert(face_wire_power(world, pos, BlockFace::East) == wire_level(world, east));
    assert(face_block_power(world, pos, BlockFace::Top) == 0);
    assert(face_block_power(world, pos, BlockFace::Bottom) == 0);
    assert(face_block_power(world, pos, BlockFace::North) == 0);
    assert(face_block_power(world, pos, BlockFace::South) == 0);
    if i + 1 < length {
        assert(on_row(start, length, east));
    } else {
        assert(block_in(world, east) == Block::Air);
    }
    assert(face_block_power(world, pos, BlockFace::East) == 0);
    if i == 0 {
        assert(west == source);
        assert(face_block_power(world, pos, BlockFace::West) == 15);
    } else {
        assert(on_row(start, length, west));
        assert(face_block_power(world, pos, BlockFace::West) == 0);
    }
}

/// The power of a wire, written out over the six faces.
pub proof fn lemma_power_by_faces(world: Map<BlockPos, Block>, pos: BlockPos)
    ensures
        wire_power_upto(world, pos, 6) == max_power(
            max_power(
                max_power(
                    max_power(
                        max_power(
                            face_wire_power(world, pos, BlockFace::Bottom),
                            face_wire_power(world, pos, BlockFace::Top),
                        ),
                        face_wire_power(world, pos, BlockFace::North),
                    ),
                    face_wire_power(world, pos, BlockFace::South),
                ),
                face_wire_power(world, pos, BlockFace::West),
            ),
            face_wire_power(world, pos, BlockFace::East),
        ),
        block_power_upto(world, pos, 6) == max_power(
            max_power(
                max_power(
                    max_power(
                        max_power(
                            face_block_power(world, pos, BlockFace::Bottom),
                            face_block_power(world, pos, BlockFace::Top),
                        ),
                        face_block_power(world, pos, BlockFace::North),
                    ),
                    face_block_power(world, pos, BlockFace::South),
                ),
                face_block_power(world, pos, BlockFace::West),
            ),
            face_block_power(world, pos, BlockFace::East),
        ),
{
    reveal_with_fuel(wire_power_upto, 7);
    reveal_with_fuel(block_power_upto, 7);
}

/// The two worlds hold the same blocks but for the power of their wires,
/// which is at most 15 and in every wire the power that it shall have.
pub open spec fn at_rest_alike(first: Map<BlockPos, Block>, second: Map<BlockPos, Block>) -> bool {
    &&& world_well_formed(first)
    &&& world_well_formed(second)
    &&& forall|pos: BlockPos|
        same_but_power(#[trigger] block_in(first, pos), block_in(second, pos))
    &&& forall|pos: BlockPos| !#[trigger] is_unsettled(first, pos)
    &&& forall|pos: BlockPos| !#[trigger] is_unsettled(second, pos)
}

/// Of two worlds at rest that differ at most in the power of their wires,
/// a wire that carries `level` or more in the first carries no less in the
/// second.
proof fn lemma_rest_dominates(
    first: Map<BlockPos, Block>,
    second: Map<BlockPos, Block>,
    level: int,
    pos: BlockPos,
)
    requires
        at_rest_alike(first, second),
        1 <= level,
        wire_level(first, pos) >= level,
    ensures
        wire_level(second, pos) >= wire_level(first, pos),
    decreases 16 - level,
{
    assert(block_in(first, pos).well_formed());
    if wire_level(first, pos) > level {
        lemma_rest_dominates(first, second, level + 1, pos);
    } else {
        assert(!is_unsettled(first, pos));
        assert(!is_unsettled(second, pos));
        assert(same_but_power(block_in(first, pos), block_in(second, pos)));
        lemma_power_by_faces(first, pos);
        lemma_power_by_faces(second, pos);
        let above = pos.spec_offset(BlockFace::Top);
        assert(same_but_power(block_in(first, above), block_in(second, above)));
        assert forall|face: BlockFace|
            face_block_power(first, pos, face) == face_block_power(second, pos, face) && (
            face_wire_power(first, pos, face) > level ==> face_wire_power(second, pos, face)
                >= face_wire_power(first, pos, face)) by {
            let beside = pos.spec_offset(face);
            let over = beside.spec_offset(BlockFace::Top);
            let under = beside.spec_offset(BlockFace::Bottom);
            assert(same_but_power(block_in(first, beside), block_in(second, beside)));
            assert(same_but_power(block_in(first, over), block_in(second, over)));
            assert(same_but_power(block_in(first, under), block_in(second, under)));
            if wire_level(first, beside) > level {
                lemma_rest_dominates(first, second, level + 1, beside);
            }
            if wire_level(first, over) > level {
                lemma_rest_dominates(first, second, level + 1, over);
            }
            if wire_level(first, under) > level {
                lemma_rest_dominates(first, second, level + 1, under);
            }
        }
    }
}

/// Rest is unique: two worlds that hold the same blocks but for the power
/// of their wires, and in which every wire has the power that it shall
/// have, are one world. So every way of spreading a change that comes to
/// rest, the plain one or the fast pass, comes to the same powers.
pub proof fn lemma_rest_is_unique(first: Map<BlockPos, Block>, second: Map<BlockPos, Block>)
    requires
        at_rest_alike(first, second),
    ensures
        forall|pos: BlockPos| #[trigger] block_in(first, pos) == block_in(second, pos),
{
    assert forall|pos: BlockPos| #[trigger] block_in(first, pos) == block_in(second, pos) by {
        assert(same_but_power(block_in(first, pos), block_in(second, pos)));
        assert(same_but_power(block_in(second, pos), block_in(first, pos)));
        assert forall|at: BlockPos|
            same_but_power(#[trigger] block_in(second, at), block_in(first, at)) by {
            assert(same_but_power(block_in(first, at), block_in(second, at)));
        }
        if wire_level(first, pos) >= 1 {
            lemma_rest_dominates(first, second, 1, pos);
        }
        if wire_level(second, pos) >= 1 {
            lemma_rest_dominates(second, first, 1, pos);
        }
    }
}

/// The fast pass and the plain path agree wherever both come to rest: let
/// `fast` and `plain` be what the two make of the world `start`, each
/// changing only the power of wires. If every wire has the power that it
/// shall have in the one and in the other, the two hold the same block at
/// every position.
pub proof fn lemma_paths_agree_at_rest(
    start: Map<BlockPos, Block>,
    fast: Map<BlockPos, Block>,
    plain: Map<BlockPos, Block>,
)
    requires
        world_well_formed(fast),
        world_well_formed(plain),
        forall|pos: BlockPos| same_but_power(block_in(start, pos), #[trigger] block_in(fast, pos)),
        forall|pos: BlockPos|
            same_but_power(block_in(start, pos), #[trigger] block_in(plain, pos)),
        forall|pos: BlockPos| !#[trigger] is_unsettled(fast, pos),
        forall|pos: BlockPos| !#[trigger] is_unsettled(plain, pos),
    ensures
        forall|pos: BlockPos| #[trigger] block_in(fast, pos) == block_in(plain, pos),
{
    assert forall|pos: BlockPos|
        same_but_power(#[trigger] block_in(fast, pos), block_in(plain, pos)) by {
        assert(same_but_power(block_in(start, pos), block_in(fast, pos)));
        assert(same_but_power(block_in(start, pos), block_in(plain, pos)));
    }
    lemma_rest_is_unique(fast, plain);
}

} // verus!
