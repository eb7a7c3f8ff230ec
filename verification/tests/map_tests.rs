//! Tests of the tile map, the view window, and the shared world of units.

use glavblock::location::Direction;
use glavblock::location::Position;
use glavblock::location::Unit;
use glavblock::location::coords2dir;
use glavblock::location::eval_direction;
use glavblock::location::idx2pos;
use glavblock::location::pos2idx;
use glavblock::render::get_segment;
use glavblock::render::make_border_interval;
use glavblock::world::WorldState;
use glavblock::world::add_unit;
use glavblock::world::block_tiles_from_location;
use glavblock::world::display_world_segment;
use glavblock::world::remove_unit;
use glavblock::world::spawn_unit;
use glavblock::world::unit_step;
use glavblock::protocol::SamosborError;

#[test]
fn test_make_border_interval() {
    assert_eq!(make_border_interval(10, 2, 3), 1..=5);
    assert_eq!(make_border_interval(10, 2, 0), 0..=4);
    assert_eq!(make_border_interval(10, 2, 9), 6..=10);
    assert_eq!(make_border_interval(10, 2, 20), 6..=10);
}

#[test]
fn test_pos2idx_idx2pos() {
    assert_eq!(pos2idx(10, Position { x: 0, y: 0 }), 0);
    assert_eq!(pos2idx(10, Position { x: 0, y: 1 }), 10);
    assert_eq!(pos2idx(10, Position { x: 1, y: 1 }), 11);
    assert_eq!(pos2idx(64, idx2pos(64, 2048)), 2048);
}

#[test]
fn location_test_pos2idx_idx2pos() {
    assert_eq!(pos2idx(10, Position { x: 0, y: 0 }), 0);
    assert_eq!(pos2idx(10, Position { x: 0, y: 1 }), 10);
    assert_eq!(pos2idx(10, Position { x: 1, y: 1 }), 11);
    assert_eq!(pos2idx(64, idx2pos(64, 2048)), 2048);
}

#[test]
fn test_eval_direction() {
    // Try to go under zero on any of the axes: no position comes back.
    assert_eq!(eval_direction(Position { x: 0, y: 0 }, Direction::N), None);
    assert_eq!(eval_direction(Position { x: 0, y: 0 }, Direction::W), None);
    assert_eq!(
        eval_direction(Position { x: 0, y: 1 }, Direction::N),
        Some(Position { x: 0, y: 0 }),
    );
    assert_eq!(
        eval_direction(Position { x: 1, y: 0 }, Direction::W),
        Some(Position { x: 0, y: 0 }),
    );
    assert_eq!(
        eval_direction(Position { x: 1, y: 1 }, Direction::NW),
        Some(Position { x: 0, y: 0 }),
    );
    assert_eq!(eval_direction(Position { x: 0, y: 0 }, Direction::NW), None);

    // Just moving.
    assert_eq!(
        eval_direction(Position { x: 0, y: 0 }, Direction::S),
        Some(Position { x: 0, y: 1 }),
    );
}

#[test]
fn test_coords2dir() {
    assert_eq!(
        coords2dir(Position { x: 2, y: 2 }, Position { x: 3, y: 3 }),
        Some(Direction::SE),
    );
}

#[test]
fn test_get_segment() {
    let vec = vec![
        '#', '#', '#', '#', '#', '#', '#', '#', '#', '#',
        '#', '.', '.', '.', '#', '#', '.', '.', '.', '#',
        '#', '.', '.', '.', '#', '#', '.', '.', '.', '#',
        '#', '.', '.', '.', '.', '.', '.', '.', '.', '#',
        '#', '#', '#', '.', '.', '.', '.', '#', '#', '#',
        '#', '#', '#', '.', '.', '.', '.', '#', '#', '#',
        '#', '.', '.', '.', '.', '.', '.', '.', '.', '#',
        '#', '.', '.', '.', '#', '#', '.', '.', '.', '#',
        '#', '.', '.', '.', '#', '#', '.', '.', '.', '#',
        '#', '#', '#', '#', '#', '#', '#', '#', '#', '#',
    ];

    assert_eq!(
        get_segment(10, 10, 2, Position { x: 1, y: 1 }, vec.clone()),
        "#####\n#...#\n#...#\n#....\n###..\n".to_string(),
    );
    assert_eq!(
        get_segment(10, 10, 2, Position { x: 9, y: 9 }, vec.clone()),
        "...#\n...#\n...#\n####\n".to_string(),
    );
}

#[test]
fn test_unit_step() {
    let mut world = WorldState::new(5, 5);
    let unit = Unit(7);
    add_unit(&mut world, unit, Position { x: 2, y: 2 }).unwrap();
    unit_step(&mut world, unit, Direction::N).unwrap();
    unit_step(&mut world, unit, Direction::W).unwrap();
    let entry = world.units.iter().find(|e| e.unit == unit).unwrap();
    assert_eq!(entry.pos, Position { x: 1, y: 1 });
}

#[test]
fn test_unit_step_collision() {
    let mut world = WorldState::new(3, 3);
    let unit = Unit(1);
    add_unit(&mut world, unit, Position { x: 1, y: 1 }).unwrap();
    // Every neighbor of the center of a three-by-three map is a wall.
    let r = unit_step(&mut world, unit, Direction::N);
    assert!(r.is_err());
    assert_eq!(world.units[0].pos, Position { x: 1, y: 1 });
}

#[test]
fn test_add_remove_unit() {
    let mut world = WorldState::new(4, 4);
    let unit = Unit(42);
    add_unit(&mut world, unit, Position { x: 1, y: 1 }).unwrap();
    assert_eq!(world.units.first().map(|e| e.unit), Some(unit));
    remove_unit(&mut world, unit).unwrap();
    assert!(world.units.first().is_none());
}

#[test]
fn test_display_world_segment() {
    let mut world = WorldState::new(3, 3);
    let unit = Unit(3);
    add_unit(&mut world, unit, Position { x: 1, y: 1 }).unwrap();
    block_tiles_from_location(&mut world);
    let result = display_world_segment(&world, Position { x: 1, y: 1 }, 1);
    assert_eq!(result, "###\n#@#\n###\n");
}

#[test]
fn test_step_and_spawn_errors() {
    // Stepping a unit nobody ever added.
    let mut world = WorldState::new(4, 4);
    assert_eq!(
        unit_step(&mut world, Unit(9), Direction::S),
        Err(SamosborError::NoSuchUnit),
    );

    // Stepping off the map's corner.
    add_unit(&mut world, Unit(1), Position { x: 0, y: 0 }).unwrap();
    assert_eq!(
        unit_step(&mut world, Unit(1), Direction::N),
        Err(SamosborError::OutOfBorders),
    );

    // A three-by-three map has a single floor tile: the second spawn finds
    // no room.
    let mut small = WorldState::new(3, 3);
    assert_eq!(spawn_unit(&mut small, Unit(2)), Ok(Position { x: 1, y: 1 }));
    assert_eq!(spawn_unit(&mut small, Unit(3)), Err(SamosborError::NoEmptyTiles));
}
