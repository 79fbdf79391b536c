use redstone::block::{Block, Signal};
use redstone::geometry::{BlockDirection, BlockFace, BlockFacing, BlockPos};
use redstone::plot::Plot;
use redstone::wire::RedstoneWire;
use redstone::wire_side::RedstoneWireSide;

fn wire_at(plot: &Plot, pos: BlockPos) -> RedstoneWire {
    match plot.get_block(pos) {
        Block::RedstoneWire(wire) => wire,
        other => panic!("no wire at {:?}: {:?}", pos, other),
    }
}

fn place_wire(plot: &mut Plot, pos: BlockPos) {
    plot.set_block(pos.offset(BlockFace::Bottom), Block::Solid(Signal::none()));
    let wire = RedstoneWire {
        power: 0,
        ..RedstoneWire::get_state_for_placement(plot, pos)
    };
    plot.set_block(pos, Block::RedstoneWire(wire));
}

#[test]
fn new_keeps_its_arguments() {
    let wire = RedstoneWire::new(
        RedstoneWireSide::Up,
        RedstoneWireSide::Side,
        RedstoneWireSide::Disconnected,
        RedstoneWireSide::Up,
        7,
    );
    assert_eq!(wire.north, RedstoneWireSide::Up);
    assert_eq!(wire.south, RedstoneWireSide::Side);
    assert_eq!(wire.east, RedstoneWireSide::Disconnected);
    assert_eq!(wire.west, RedstoneWireSide::Up);
    assert_eq!(wire.power, 7);
}

#[test]
fn default_wire_is_unconnected_and_unpowered() {
    let wire = RedstoneWire::default();
    assert_eq!(
        wire,
        RedstoneWire::new(
            RedstoneWireSide::Disconnected,
            RedstoneWireSide::Disconnected,
            RedstoneWireSide::Disconnected,
            RedstoneWireSide::Disconnected,
            0
        )
    );
}

#[test]
fn wire_beside_a_power_block() {
    let mut plot = Plot::new();
    let pos = BlockPos::new(0, 10, 0);
    plot.set_block(pos.offset(BlockFace::East), Block::RedstoneBlock);
    let wire = RedstoneWire::get_state_for_placement(&plot, pos);
    assert_eq!(wire.power, 15);
    assert_eq!(wire.east, RedstoneWireSide::Side);
    assert_eq!(wire.west, RedstoneWireSide::Disconnected);
    assert_eq!(wire.north, RedstoneWireSide::Disconnected);
    assert_eq!(wire.south, RedstoneWireSide::Disconnected);
}

#[test]
fn wire_above_a_power_block() {
    let mut plot = Plot::new();
    let pos = BlockPos::new(0, 10, 0);
    plot.set_block(pos.offset(BlockFace::Bottom), Block::RedstoneBlock);
    let wire = RedstoneWire::get_state_for_placement(&plot, pos);
    assert_eq!(wire.power, 15);
    assert_eq!(wire, RedstoneWire::new(
        RedstoneWireSide::Disconnected,
        RedstoneWireSide::Disconnected,
        RedstoneWireSide::Disconnected,
        RedstoneWireSide::Disconnected,
        15,
    ));
}

#[test]
fn wire_in_air_has_no_power() {
    let plot = Plot::new();
    let wire = RedstoneWire::get_state_for_placement(&plot, BlockPos::new(5, 5, 5));
    assert_eq!(wire, RedstoneWire::default());
}

#[test]
fn power_is_the_same_on_every_call() {
    let mut plot = Plot::new();
    let pos = BlockPos::new(0, 10, 0);
    plot.set_block(pos.offset(BlockFace::North), Block::Lever(Signal::uniform(9)));
    let first = RedstoneWire::calculate_power(&plot, pos);
    let second = RedstoneWire::calculate_power(&plot, pos);
    assert_eq!(first, 9);
    assert_eq!(second, 9);
}

#[test]
fn direct_power_is_not_attenuated_and_wire_power_is() {
    let mut plot = Plot::new();
    let pos = BlockPos::new(0, 10, 0);
    let strong = RedstoneWire::new(
        RedstoneWireSide::Side,
        RedstoneWireSide::Side,
        RedstoneWireSide::Side,
        RedstoneWireSide::Side,
        12,
    );
    plot.set_block(pos.offset(BlockFace::West), Block::RedstoneWire(strong));
    assert_eq!(RedstoneWire::calculate_power(&plot, pos), 11);
    plot.set_block(pos.offset(BlockFace::East), Block::Lever(Signal::uniform(5)));
    assert_eq!(RedstoneWire::calculate_power(&plot, pos), 11);
    plot.set_block(pos.offset(BlockFace::East), Block::Lever(Signal::uniform(13)));
    assert_eq!(RedstoneWire::calculate_power(&plot, pos), 13);
}

#[test]
fn power_never_falls_below_zero() {
    let mut plot = Plot::new();
    let pos = BlockPos::new(0, 10, 0);
    plot.set_block(pos.offset(BlockFace::West), Block::RedstoneWire(RedstoneWire::default()));
    assert_eq!(RedstoneWire::calculate_power(&plot, pos), 0);
}

#[test]
fn emission_counts_only_toward_the_wire() {
    let mut plot = Plot::new();
    let pos = BlockPos::new(0, 10, 0);
    let east_only = Signal {
        level: 15,
        bottom: false,
        top: false,
        north: false,
        south: false,
        west: false,
        east: true,
    };
    plot.set_block(pos.offset(BlockFace::West), Block::RedstoneRepeater(BlockDirection::East, east_only));
    assert_eq!(RedstoneWire::calculate_power(&plot, pos), 0);
    plot.set_block(pos.offset(BlockFace::West), Block::Air);
    plot.set_block(pos.offset(BlockFace::East), Block::RedstoneRepeater(BlockDirection::East, east_only));
    assert_eq!(RedstoneWire::calculate_power(&plot, pos), 15);
}

#[test]
fn repeater_connects_along_its_axis_only() {
    let pos = BlockPos::new(0, 10, 0);
    for facing in [BlockDirection::East, BlockDirection::West] {
        let mut plot = Plot::new();
        plot.set_block(
            pos.offset(BlockFace::East),
            Block::RedstoneRepeater(facing, Signal::none()),
        );
        assert_eq!(RedstoneWire::get_side(&plot, pos, BlockDirection::East), RedstoneWireSide::Side);
    }
    for facing in [BlockDirection::North, BlockDirection::South] {
        let mut plot = Plot::new();
        plot.set_block(
            pos.offset(BlockFace::East),
            Block::RedstoneRepeater(facing, Signal::none()),
        );
        assert_eq!(
            RedstoneWire::get_side(&plot, pos, BlockDirection::East),
            RedstoneWireSide::Disconnected
        );
    }
}

#[test]
fn observer_connects_where_it_faces_the_same_way() {
    let pos = BlockPos::new(0, 10, 0);
    let mut plot = Plot::new();
    plot.set_block(pos.offset(BlockFace::North), Block::Observer(BlockFacing::North, Signal::none()));
    assert_eq!(RedstoneWire::get_side(&plot, pos, BlockDirection::North), RedstoneWireSide::Side);
    plot.set_block(pos.offset(BlockFace::North), Block::Observer(BlockFacing::South, Signal::none()));
    assert_eq!(
        RedstoneWire::get_side(&plot, pos, BlockDirection::North),
        RedstoneWireSide::Disconnected
    );
    plot.set_block(pos.offset(BlockFace::North), Block::Observer(BlockFacing::Up, Signal::none()));
    assert_eq!(
        RedstoneWire::get_side(&plot, pos, BlockDirection::North),
        RedstoneWireSide::Disconnected
    );
}

#[test]
fn components_connect_from_any_side() {
    let pos = BlockPos::new(0, 10, 0);
    let components = [
        Block::RedstoneWire(RedstoneWire::default()),
        Block::RedstoneComparator(Signal::none()),
        Block::RedstoneTorch(Signal::none()),
        Block::RedstoneWallTorch(Signal::none()),
        Block::RedstoneBlock,
        Block::PressurePlate(Signal::none()),
        Block::TripwireHook(Signal::none()),
        Block::Lever(Signal::none()),
    ];
    for block in components {
        let mut plot = Plot::new();
        plot.set_block(pos.offset(BlockFace::South), block);
        assert_eq!(RedstoneWire::get_side(&plot, pos, BlockDirection::South), RedstoneWireSide::Side);
    }
    for block in [Block::Air, Block::Glass, Block::Solid(Signal::uniform(15))] {
        let mut plot = Plot::new();
        plot.set_block(pos.offset(BlockFace::South), block);
        assert_eq!(
            RedstoneWire::get_side(&plot, pos, BlockDirection::South),
            RedstoneWireSide::Disconnected
        );
    }
}

#[test]
fn wires_connect_across_a_step() {
    let mut plot = Plot::new();
    let lower = BlockPos::new(0, 10, 0);
    let step = lower.offset(BlockFace::East);
    let upper = step.offset(BlockFace::Top);
    plot.set_block(step, Block::Solid(Signal::none()));
    let carried = RedstoneWire::new(
        RedstoneWireSide::Disconnected,
        RedstoneWireSide::Disconnected,
        RedstoneWireSide::Disconnected,
        RedstoneWireSide::Disconnected,
        10,
    );
    plot.set_block(lower, Block::RedstoneWire(RedstoneWire::default()));
    plot.set_block(upper, Block::RedstoneWire(carried));
    assert_eq!(RedstoneWire::get_side(&plot, lower, BlockDirection::East), RedstoneWireSide::Up);
    assert_eq!(RedstoneWire::get_side(&plot, upper, BlockDirection::West), RedstoneWireSide::Side);
    assert_eq!(RedstoneWire::calculate_power(&plot, lower), 9);
    plot.set_block(lower, Block::RedstoneWire(carried));
    plot.set_block(upper, Block::RedstoneWire(RedstoneWire::default()));
    assert_eq!(RedstoneWire::calculate_power(&plot, upper), 9);
}

#[test]
fn solid_block_above_cuts_the_step() {
    let mut plot = Plot::new();
    let lower = BlockPos::new(0, 10, 0);
    let step = lower.offset(BlockFace::East);
    let upper = step.offset(BlockFace::Top);
    plot.set_block(step, Block::Solid(Signal::none()));
    plot.set_block(lower.offset(BlockFace::Top), Block::Solid(Signal::none()));
    let carried = RedstoneWire::new(
        RedstoneWireSide::Disconnected,
        RedstoneWireSide::Disconnected,
        RedstoneWireSide::Disconnected,
        RedstoneWireSide::Disconnected,
        10,
    );
    plot.set_block(lower, Block::RedstoneWire(RedstoneWire::default()));
    plot.set_block(upper, Block::RedstoneWire(carried));
    assert_eq!(
        RedstoneWire::get_side(&plot, lower, BlockDirection::East),
        RedstoneWireSide::Disconnected
    );
    assert_eq!(
        RedstoneWire::get_side(&plot, upper, BlockDirection::West),
        RedstoneWireSide::Disconnected
    );
    assert_eq!(RedstoneWire::calculate_power(&plot, lower), 0);
    plot.set_block(lower, Block::RedstoneWire(carried));
    plot.set_block(upper, Block::RedstoneWire(RedstoneWire::default()));
    assert_eq!(RedstoneWire::calculate_power(&plot, upper), 0);
}

#[test]
fn wire_does_not_ride_over_glass() {
    let mut plot = Plot::new();
    let lower = BlockPos::new(0, 10, 0);
    let step = lower.offset(BlockFace::East);
    let upper = step.offset(BlockFace::Top);
    plot.set_block(step, Block::Glass);
    let carried = RedstoneWire::new(
        RedstoneWireSide::Disconnected,
        RedstoneWireSide::Disconnected,
        RedstoneWireSide::Disconnected,
        RedstoneWireSide::Disconnected,
        10,
    );
    plot.set_block(upper, Block::RedstoneWire(carried));
    assert_eq!(RedstoneWire::calculate_power(&plot, lower), 0);
    assert_eq!(RedstoneWire::get_side(&plot, lower, BlockDirection::East), RedstoneWireSide::Up);
}

#[test]
fn change_above_changes_nothing() {
    let mut plot = Plot::new();
    let pos = BlockPos::new(0, 10, 0);
    plot.set_block(pos.offset(BlockFace::East), Block::RedstoneBlock);
    let wire = RedstoneWire::default();
    assert_eq!(wire.on_neighbor_changed(&plot, pos, BlockFace::Top), wire);
}

#[test]
fn change_below_renews_all_four_sides() {
    let mut plot = Plot::new();
    let pos = BlockPos::new(0, 10, 0);
    plot.set_block(pos.offset(BlockFace::East), Block::RedstoneBlock);
    plot.set_block(pos.offset(BlockFace::North), Block::Lever(Signal::none()));
    let stale = RedstoneWire::new(
        RedstoneWireSide::Disconnected,
        RedstoneWireSide::Up,
        RedstoneWireSide::Disconnected,
        RedstoneWireSide::Side,
        4,
    );
    let renewed = stale.on_neighbor_changed(&plot, pos, BlockFace::Bottom);
    assert_eq!(
        renewed,
        RedstoneWire::new(
            RedstoneWireSide::Side,
            RedstoneWireSide::Disconnected,
            RedstoneWireSide::Side,
            RedstoneWireSide::Disconnected,
            4
        )
    );
}

#[test]
fn change_on_a_side_renews_the_side_across() {
    let mut plot = Plot::new();
    let pos = BlockPos::new(0, 10, 0);
    for face in [BlockFace::North, BlockFace::South, BlockFace::East, BlockFace::West] {
        plot.set_block(pos.offset(face), Block::RedstoneBlock);
    }
    let wire = RedstoneWire::default();
    let none = RedstoneWireSide::Disconnected;
    let side = RedstoneWireSide::Side;
    assert_eq!(
        wire.on_neighbor_changed(&plot, pos, BlockFace::North),
        RedstoneWire::new(none, side, none, none, 0)
    );
    assert_eq!(
        wire.on_neighbor_changed(&plot, pos, BlockFace::South),
        RedstoneWire::new(side, none, none, none, 0)
    );
    assert_eq!(
        wire.on_neighbor_changed(&plot, pos, BlockFace::East),
        RedstoneWire::new(none, none, none, side, 0)
    );
    assert_eq!(
        wire.on_neighbor_changed(&plot, pos, BlockFace::West),
        RedstoneWire::new(none, none, side, none, 0)
    );
}

#[test]
fn update_writes_once_and_then_rests() {
    let mut plot = Plot::new();
    let pos = BlockPos::new(0, 10, 0);
    plot.set_block(pos.offset(BlockFace::East), Block::RedstoneBlock);
    place_wire(&mut plot, pos);
    let wire = wire_at(&plot, pos);
    assert!(wire.on_neighbor_updated(&mut plot, pos));
    let settled = wire_at(&plot, pos);
    assert_eq!(settled.power, 15);
    assert_eq!(settled.east, wire.east);
    assert!(!settled.on_neighbor_updated(&mut plot, pos));
    assert_eq!(wire_at(&plot, pos), settled);
}

#[test]
fn power_stays_within_fifteen() {
    let mut plot = Plot::new();
    let pos = BlockPos::new(0, 10, 0);
    let full = RedstoneWire::new(
        RedstoneWireSide::Side,
        RedstoneWireSide::Side,
        RedstoneWireSide::Side,
        RedstoneWireSide::Side,
        15,
    );
    for face in BlockFace::values() {
        plot.set_block(pos.offset(face), Block::RedstoneWire(full));
    }
    assert_eq!(RedstoneWire::calculate_power(&plot, pos), 14);
    for face in BlockFace::values() {
        plot.set_block(pos.offset(face), Block::RedstoneBlock);
    }
    assert_eq!(RedstoneWire::calculate_power(&plot, pos), 15);
}
