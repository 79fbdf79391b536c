use redstone::block::{Block, Signal};
use redstone::geometry::{BlockDirection, BlockFace, BlockPos};
use redstone::plot::Plot;
use redstone::turbo::{
    reordering, update_redstone, RedstoneWireTurbo, UpdateNode, UpdateNodeType, FORWARD_IS_EAST,
    FORWARD_IS_NORTH, FORWARD_IS_SOUTH, FORWARD_IS_WEST, UPDATE_REDSTONE,
};
use redstone::wire::RedstoneWire;
use redstone::wire_side::RedstoneWireSide;

fn powered(power: u8) -> RedstoneWire {
    RedstoneWire::new(
        RedstoneWireSide::Disconnected,
        RedstoneWireSide::Disconnected,
        RedstoneWireSide::Disconnected,
        RedstoneWireSide::Disconnected,
        power,
    )
}

fn wire_power(plot: &Plot, pos: BlockPos) -> u8 {
    match plot.get_block(pos) {
        Block::RedstoneWire(wire) => wire.power,
        other => panic!("no wire at {:?}: {:?}", pos, other),
    }
}

#[test]
fn neighbors_come_in_the_fixed_order() {
    let all = RedstoneWireTurbo::compute_all_neighbors(BlockPos::new(10, 20, 30));
    let expected = [
        (9, 20, 30), (11, 20, 30), (10, 19, 30), (10, 21, 30), (10, 20, 29), (10, 20, 31),
        (8, 20, 30), (9, 19, 30), (9, 21, 30), (9, 20, 29), (9, 20, 31),
        (12, 20, 30), (11, 19, 30), (11, 21, 30), (11, 20, 29), (11, 20, 31),
        (10, 18, 30), (10, 19, 29), (10, 19, 31),
        (10, 22, 30), (10, 21, 29), (10, 21, 31),
        (10, 20, 28), (10, 20, 32),
    ];
    assert_eq!(all.len(), 24);
    for (pos, (x, y, z)) in all.iter().zip(expected.iter()) {
        assert_eq!(*pos, BlockPos::new(*x, *y, *z));
    }
}

#[test]
fn neighbors_are_the_positions_one_or_two_steps_away() {
    let center = BlockPos::new(-3, 0, 7);
    let all = RedstoneWireTurbo::compute_all_neighbors(center);
    for (i, a) in all.iter().enumerate() {
        let steps = (a.x - center.x).abs() + (a.y - center.y).abs() + (a.z - center.z).abs();
        assert_eq!(steps, if i < 6 { 1 } else { 2 });
        for b in all.iter().skip(i + 1) {
            assert_ne!(a, b);
        }
    }
}

#[test]
fn mask_marks_the_connecting_positions() {
    let center = BlockPos::new(0, 0, 0);
    let all = RedstoneWireTurbo::compute_all_neighbors(center);
    let mut marked = 0;
    for i in 0..24 {
        let flat = all[i].x.abs() + all[i].z.abs();
        assert_eq!(update_redstone(i), flat == 1);
        assert_eq!(update_redstone(i), UPDATE_REDSTONE[i]);
        if update_redstone(i) {
            marked += 1;
        }
    }
    assert_eq!(marked, 12);
}

#[test]
fn orders_are_permutations_that_start_below_and_above() {
    let tables = [
        (BlockDirection::North, FORWARD_IS_NORTH),
        (BlockDirection::East, FORWARD_IS_EAST),
        (BlockDirection::South, FORWARD_IS_SOUTH),
        (BlockDirection::West, FORWARD_IS_WEST),
    ];
    for (forward, table) in tables {
        let mut seen = [false; 24];
        for place in 0..24 {
            let index = reordering(forward, place);
            assert_eq!(index, table[place] as usize);
            assert!(!seen[index]);
            seen[index] = true;
        }
        assert_eq!(&table[0..4], &[2, 3, 16, 19]);
    }
}

#[test]
fn first_horizontal_neighbor_is_to_the_left_of_forward() {
    let center = BlockPos::new(0, 0, 0);
    let all = RedstoneWireTurbo::compute_all_neighbors(center);
    // going north, left is west; going east, left is north
    assert_eq!(all[reordering(BlockDirection::North, 4)], BlockPos::new(-1, 0, 0));
    assert_eq!(all[reordering(BlockDirection::North, 5)], BlockPos::new(0, 0, -1));
    assert_eq!(all[reordering(BlockDirection::East, 4)], BlockPos::new(0, 0, -1));
    assert_eq!(all[reordering(BlockDirection::East, 5)], BlockPos::new(1, 0, 0));
    assert_eq!(all[reordering(BlockDirection::South, 4)], BlockPos::new(1, 0, 0));
    assert_eq!(all[reordering(BlockDirection::West, 4)], BlockPos::new(0, 0, 1));
}

#[test]
fn identify_node_tells_wire_from_other_blocks() {
    let mut plot = Plot::new();
    let pos = BlockPos::new(1, 1, 1);
    plot.set_block(pos, Block::RedstoneWire(powered(4)));
    let mut node = UpdateNode {
        current_state: 0,
        neighbor_nodes: Vec::new(),
        self_pos: pos,
        parent_pos: BlockPos::new(0, 1, 1),
        node_type: UpdateNodeType::Unknown,
        layer: 3,
        visited: false,
        xbias: 5,
        ybias: 6,
        forward: BlockDirection::East,
    };
    RedstoneWireTurbo::identify_node(&plot, &mut node);
    assert_eq!(node.node_type, UpdateNodeType::Redstone);
    assert_eq!(node.current_state, Block::RedstoneWire(powered(4)).get_id());
    assert_eq!(node.layer, 3);
    assert_eq!(node.xbias, 5);
    assert_eq!(node.ybias, 6);
    assert_eq!(node.parent_pos, BlockPos::new(0, 1, 1));
    assert!(!node.visited);

    plot.set_block(pos, Block::Lever(Signal::uniform(15)));
    RedstoneWireTurbo::identify_node(&plot, &mut node);
    assert_eq!(node.node_type, UpdateNodeType::Other);
    assert_eq!(node.current_state, Block::Lever(Signal::uniform(15)).get_id());
}

#[test]
fn new_pass_holds_the_origin_alone() {
    let pos = BlockPos::new(2, 3, 4);
    let pass = RedstoneWireTurbo::new(powered(9), pos);
    assert_eq!(pass.wire(), powered(9));
    assert_eq!(pass.node_count(), 1);
    let origin = pass.node(0);
    assert_eq!(origin.self_pos, pos);
    assert_eq!(origin.parent_pos, pos);
    assert_eq!(origin.layer, 0);
    assert_eq!(origin.node_type, UpdateNodeType::Redstone);
    assert_eq!(origin.current_state, Block::RedstoneWire(powered(9)).get_id());
    assert!(!origin.visited);
    assert_eq!(pass.find_node(pos), Some(0));
    assert_eq!(pass.find_node(BlockPos::new(2, 3, 5)), None);
}

#[test]
fn wire_schedules_no_wire_it_cannot_connect_to() {
    let mut plot = Plot::new();
    let pos = BlockPos::new(0, 10, 0);
    plot.set_block(pos, Block::RedstoneWire(powered(0)));
    // a wire two steps east cannot connect, a wire one step east can
    plot.set_block(BlockPos::new(2, 10, 0), Block::RedstoneWire(powered(0)));
    plot.set_block(BlockPos::new(1, 10, 0), Block::RedstoneWire(powered(0)));
    let mut pass = RedstoneWireTurbo::new(powered(0), pos);
    pass.schedule_neighbors(&plot, 0);
    assert_eq!(pass.node_count(), 24);
    assert_eq!(pass.find_node(BlockPos::new(2, 10, 0)), None);
    let near = pass.find_node(BlockPos::new(1, 10, 0)).unwrap();
    assert_eq!(pass.node(near).node_type, UpdateNodeType::Redstone);
    assert_eq!(pass.node(near).layer, 1);
    assert_eq!(pass.node(near).parent_pos, pos);
    assert_eq!(pass.node(near).forward, BlockDirection::East);
    let children = &pass.node(0).neighbor_nodes;
    assert_eq!(children.len(), 23);
    // going north: below, above, two below, two above, then west, north, east, south
    let all = RedstoneWireTurbo::compute_all_neighbors(pos);
    for place in 0..8 {
        let child = pass.node(children[place]);
        assert_eq!(child.self_pos, all[reordering(BlockDirection::North, place)]);
        assert_eq!(child.ybias as usize, place);
        assert_eq!(child.xbias as usize, children[place]);
    }
}

#[test]
fn scheduling_twice_makes_no_node_twice() {
    let mut plot = Plot::new();
    let pos = BlockPos::new(0, 10, 0);
    plot.set_block(pos, Block::RedstoneWire(powered(0)));
    let mut pass = RedstoneWireTurbo::new(powered(0), pos);
    pass.schedule_neighbors(&plot, 0);
    assert_eq!(pass.node_count(), 25);
    pass.schedule_neighbors(&plot, 0);
    assert_eq!(pass.node_count(), 25);
    let east = pass.find_node(BlockPos::new(1, 10, 0)).unwrap();
    pass.schedule_neighbors(&plot, east);
    for i in 0..pass.node_count() {
        for j in (i + 1)..pass.node_count() {
            assert_ne!(pass.node(i).self_pos, pass.node(j).self_pos);
        }
    }
    // the origin is a neighbor of its neighbor, and keeps its node
    assert!(pass.node(east).neighbor_nodes.contains(&0));
    assert_eq!(pass.node(0).layer, 0);
}

#[test]
fn settled_node_is_left_alone() {
    let mut plot = Plot::new();
    let pos = BlockPos::new(0, 10, 0);
    plot.set_block(pos.offset(BlockFace::East), Block::RedstoneBlock);
    plot.set_block(pos, Block::RedstoneWire(powered(0)));
    let mut pass = RedstoneWireTurbo::new(powered(0), pos);
    assert!(pass.update_node(&mut plot, 0));
    assert_eq!(wire_power(&plot, pos), 15);
    assert!(pass.node(0).visited);
    assert_eq!(pass.node(0).current_state, Block::RedstoneWire(powered(15)).get_id());
    plot.set_block(pos.offset(BlockFace::East), Block::Air);
    assert!(!pass.update_node(&mut plot, 0));
    assert_eq!(wire_power(&plot, pos), 15);
}

#[test]
fn pass_carries_power_down_a_row() {
    let mut plot = Plot::new();
    plot.set_block(BlockPos::new(-1, 10, 0), Block::RedstoneBlock);
    for x in 0..5 {
        plot.set_block(BlockPos::new(x, 10, 0), Block::RedstoneWire(powered(0)));
    }
    let origin = BlockPos::new(0, 10, 0);
    let mut pass = RedstoneWireTurbo::new(powered(0), origin);
    let settled = pass.run(&mut plot, 10_000);
    for x in 0..5 {
        assert_eq!(wire_power(&plot, BlockPos::new(x, 10, 0)), 15 - x as u8);
    }
    assert_eq!(settled[0], origin);
    assert_eq!(settled.len(), pass.node_count());
    for i in 0..settled.len() {
        assert!(pass.node(i).visited);
        for j in (i + 1)..settled.len() {
            assert_ne!(settled[i], settled[j]);
        }
    }
    assert_eq!(plot.get_block(BlockPos::new(-1, 10, 0)), Block::RedstoneBlock);
    assert_eq!(plot.get_block(BlockPos::new(5, 10, 0)), Block::Air);
}

#[test]
fn pass_on_a_settled_wire_visits_the_origin_only() {
    let mut plot = Plot::new();
    let origin = BlockPos::new(0, 10, 0);
    plot.set_block(origin, Block::RedstoneWire(powered(0)));
    plot.set_block(BlockPos::new(1, 10, 0), Block::RedstoneWire(powered(0)));
    let mut pass = RedstoneWireTurbo::new(powered(0), origin);
    let settled = pass.run(&mut plot, 100);
    assert_eq!(settled, vec![origin]);
}

#[test]
fn pass_that_carried_power_is_at_rest() {
    let mut plot = Plot::new();
    plot.set_block(BlockPos::new(-1, 10, 0), Block::RedstoneBlock);
    for x in 0..4 {
        plot.set_block(BlockPos::new(x, 10, 0), Block::RedstoneWire(powered(0)));
    }
    let mut pass = RedstoneWireTurbo::new(powered(0), BlockPos::new(0, 10, 0));
    assert!(!pass.is_at_rest(&plot));
    pass.run(&mut plot, 10_000);
    assert!(pass.is_at_rest(&plot));
}

#[test]
fn pass_agrees_with_the_plain_path_where_it_comes_to_rest() {
    let mut fast = Plot::new();
    let mut plain = Plot::new();
    let wires = [(0, 10, 0), (1, 10, 0), (2, 10, 0), (2, 10, 1), (3, 11, 1), (2, 10, -1)];
    for plot in [&mut fast, &mut plain] {
        plot.set_block(BlockPos::new(-1, 10, 0), Block::Lever(Signal::uniform(15)));
        plot.set_block(BlockPos::new(3, 10, 1), Block::Solid(Signal::none()));
        for (x, y, z) in wires {
            plot.set_block(BlockPos::new(x, y, z), Block::RedstoneWire(powered(0)));
        }
    }
    let origin = BlockPos::new(0, 10, 0);
    let mut pass = RedstoneWireTurbo::new(powered(0), origin);
    pass.run(&mut fast, 10_000);
    assert!(pass.is_at_rest(&fast));
    assert!(redstone::propagation::update_wire(&mut plain, origin, 100_000));
    let expected = [15, 14, 13, 12, 11, 12];
    for ((x, y, z), power) in wires.iter().zip(expected.iter()) {
        let pos = BlockPos::new(*x, *y, *z);
        assert_eq!(fast.get_block(pos), plain.get_block(pos));
        assert_eq!(wire_power(&fast, pos), *power);
    }
}

#[test]
fn pass_that_visits_each_wire_once_can_miss_rest_when_power_falls() {
    let mut plot = Plot::new();
    for x in 0..4 {
        plot.set_block(BlockPos::new(x, 10, 0), Block::RedstoneWire(powered(15 - x as u8)));
    }
    let origin = BlockPos::new(0, 10, 0);
    let mut pass = RedstoneWireTurbo::new(powered(15), origin);
    let settled = pass.run(&mut plot, 10_000);
    for i in 0..settled.len() {
        for j in (i + 1)..settled.len() {
            assert_ne!(settled[i], settled[j]);
        }
    }
    assert!(!pass.is_at_rest(&plot));
    assert!(redstone::propagation::update_wire(&mut plot, origin, 100_000));
    for x in 0..4 {
        assert_eq!(wire_power(&plot, BlockPos::new(x, 10, 0)), 0);
    }
}

#[test]
fn settle_brings_falling_power_to_rest() {
    let mut plot = Plot::new();
    for x in 0..6 {
        plot.set_block(BlockPos::new(x, 10, 0), Block::RedstoneWire(powered(15 - x as u8)));
    }
    let origin = BlockPos::new(0, 10, 0);
    let mut pass = RedstoneWireTurbo::new(powered(15), origin);
    assert!(pass.settle(&mut plot, 10_000, 100_000));
    assert!(pass.is_at_rest(&plot));
    for x in 0..6 {
        assert_eq!(wire_power(&plot, BlockPos::new(x, 10, 0)), 0);
    }
}

#[test]
fn settle_agrees_with_the_plain_path() {
    let wires = [
        (0, 10, 0), (1, 10, 0), (2, 10, 0), (2, 10, 1), (2, 10, 2), (1, 10, 2), (0, 10, 2),
        (0, 10, 1), (3, 11, 0), (4, 11, 0), (-1, 9, 1),
    ];
    for lit in [true, false] {
        let mut fast = Plot::new();
        let mut plain = Plot::new();
        for plot in [&mut fast, &mut plain] {
            plot.set_block(BlockPos::new(3, 10, 0), Block::Solid(Signal::none()));
            for (i, (x, y, z)) in wires.iter().enumerate() {
                let stale = if lit { 0 } else { 15 - i as u8 };
                plot.set_block(BlockPos::new(*x, *y, *z), Block::RedstoneWire(powered(stale)));
            }
            if lit {
                plot.set_block(BlockPos::new(0, 10, -1), Block::RedstoneBlock);
            }
        }
        let origin = BlockPos::new(0, 10, 0);
        let stale = wire_power(&fast, origin);
        let mut pass = RedstoneWireTurbo::new(powered(stale), origin);
        assert!(pass.settle(&mut fast, 10_000, 100_000));
        assert!(redstone::propagation::update_wire(&mut plain, origin, 100_000));
        for (x, y, z) in wires {
            let pos = BlockPos::new(x, y, z);
            assert_eq!(fast.get_block(pos), plain.get_block(pos));
            assert!(redstone::wire::is_settled(&fast, pos));
        }
        if lit {
            assert_eq!(wire_power(&fast, origin), 15);
            assert_eq!(wire_power(&fast, BlockPos::new(2, 10, 2)), 11);
            assert_eq!(wire_power(&fast, BlockPos::new(4, 11, 0)), 11);
            assert_eq!(wire_power(&fast, BlockPos::new(-1, 9, 1)), 13);
        } else {
            assert_eq!(wire_power(&fast, BlockPos::new(4, 11, 0)), 0);
        }
    }
}

#[test]
fn settle_reports_a_spent_budget() {
    let mut plot = Plot::new();
    for x in 0..6 {
        plot.set_block(BlockPos::new(x, 10, 0), Block::RedstoneWire(powered(15 - x as u8)));
    }
    let mut pass = RedstoneWireTurbo::new(powered(15), BlockPos::new(0, 10, 0));
    assert!(!pass.settle(&mut plot, 10_000, 0));
}

#[test]
fn settle_on_a_wire_at_rest_changes_nothing() {
    let mut plot = Plot::new();
    let origin = BlockPos::new(0, 10, 0);
    plot.set_block(origin, Block::RedstoneWire(powered(0)));
    plot.set_block(BlockPos::new(1, 10, 0), Block::RedstoneWire(powered(0)));
    let mut pass = RedstoneWireTurbo::new(powered(0), origin);
    assert!(pass.settle(&mut plot, 100, 24));
    assert_eq!(pass.node_count(), 1);
    assert_eq!(wire_power(&plot, origin), 0);
    let mut short = RedstoneWireTurbo::new(powered(0), origin);
    assert!(!short.settle(&mut plot, 100, 23));
}
