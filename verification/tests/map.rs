use bw_adventures::collisions::HasBounds;
use bw_adventures::fixed::{COORD_MAX, UNIT};
use bw_adventures::level_serialization::{Direction, Level, LevelItem};
use bw_adventures::map::{LevelMap, Platform};

fn level(items: Vec<LevelItem>) -> Level {
    Level {
        initial_x: 3 * UNIT,
        initial_y: 4 * UNIT,
        items,
        west_boundary: -100 * UNIT,
        south_boundary: -50 * UNIT,
        east_boundary: 200 * UNIT,
        north_boundary: 150 * UNIT,
    }
}

fn bounds(p: &Platform) -> (i64, i64, i64, i64) {
    (p.min_x(), p.min_y(), p.len_x(), p.len_y())
}

#[test]
fn direction_letters() {
    assert_eq!(Direction::North.to_string(), "n");
    assert_eq!(Direction::East.to_string(), "e");
}

#[test]
fn box_becomes_an_obstacle_of_its_size() {
    let l = level(vec![LevelItem::Box { x: UNIT, y: 2 * UNIT, width: 3 * UNIT, height: 4 * UNIT }]);
    assert!(l.is_valid());
    let map = LevelMap::from(&l);
    assert_eq!(map.blocks().len(), 1);
    assert_eq!(bounds(&map.blocks()[0]), (UNIT, 2 * UNIT, 3 * UNIT, 4 * UNIT));
}

#[test]
fn line_is_one_unit_thick() {
    let l = level(vec![
        LevelItem::Line { x: UNIT, y: 2 * UNIT, direction: Direction::North, length: 7 * UNIT },
        LevelItem::Line { x: 5 * UNIT, y: 6 * UNIT, direction: Direction::East, length: 9 * UNIT },
    ]);
    assert!(l.is_valid());
    let map = LevelMap::from(&l);
    assert_eq!(map.blocks().len(), 2);
    assert_eq!(bounds(&map.blocks()[0]), (UNIT, 2 * UNIT, UNIT, 7 * UNIT));
    assert_eq!(bounds(&map.blocks()[1]), (5 * UNIT, 6 * UNIT, 9 * UNIT, UNIT));
}

#[test]
fn items_keep_their_order() {
    let l = level(vec![
        LevelItem::Box { x: 0, y: 0, width: UNIT, height: UNIT },
        LevelItem::Box { x: 10 * UNIT, y: 0, width: 2 * UNIT, height: UNIT },
        LevelItem::Box { x: 20 * UNIT, y: 0, width: 3 * UNIT, height: UNIT },
    ]);
    let map = LevelMap::from(&l);
    let xs: Vec<i64> = map.blocks().iter().map(|b| b.min_x()).collect();
    assert_eq!(xs, vec![0, 10 * UNIT, 20 * UNIT]);
}

#[test]
fn four_walls_stand_just_outside_the_boundaries() {
    let l = level(vec![]);
    let map = LevelMap::from(&l);
    assert_eq!(map.blocks().len(), 0);
    let walls = map.boundary_collision_lines();
    assert_eq!(walls.len(), 4);
    // west
    assert_eq!(bounds(&walls[0]), (-101 * UNIT, -50 * UNIT, UNIT, 200 * UNIT));
    // north
    assert_eq!(bounds(&walls[1]), (-100 * UNIT, 150 * UNIT, 300 * UNIT, UNIT));
    // south
    assert_eq!(bounds(&walls[2]), (-100 * UNIT, -51 * UNIT, 300 * UNIT, UNIT));
    // east
    assert_eq!(bounds(&walls[3]), (200 * UNIT, -50 * UNIT, UNIT, 200 * UNIT));
}

#[test]
fn map_keeps_start_and_boundaries() {
    let l = level(vec![]);
    let map = LevelMap::from(&l);
    assert_eq!(map.initial_x(), 3 * UNIT);
    assert_eq!(map.initial_y(), 4 * UNIT);
    assert_eq!(map.boundaries(), [-100 * UNIT, -50 * UNIT, 200 * UNIT, 300 * UNIT]);
}

#[test]
fn map_validity() {
    let l = level(vec![LevelItem::Box { x: 0, y: 0, width: UNIT, height: UNIT }]);
    let mut map = LevelMap::from(&l);
    assert!(map.is_valid());
    map.add_block(Platform::new_box(0, 0, 0, 0));
    assert!(map.is_valid());
    map.add_block(Platform::new_box(0, 0, -1, 0));
    assert!(!map.is_valid());
    let mut map = LevelMap::from(&l);
    map.add_block(Platform::new_box(COORD_MAX, 0, 1, 0));
    assert!(!map.is_valid());
}

#[test]
fn added_block_comes_last() {
    let l = level(vec![LevelItem::Box { x: 0, y: 0, width: UNIT, height: UNIT }]);
    let mut map = LevelMap::from(&l);
    map.add_block(Platform::new_box(5, 6, 7, 8));
    assert_eq!(map.blocks().len(), 2);
    assert_eq!(bounds(&map.blocks()[0]), (0, 0, UNIT, UNIT));
    assert_eq!(bounds(&map.blocks()[1]), (5, 6, 7, 8));
    assert_eq!(map.boundary_collision_lines().len(), 4);
}

#[test]
fn level_with_an_empty_play_area_is_valid() {
    let l = Level {
        initial_x: 0,
        initial_y: 0,
        items: vec![],
        west_boundary: 7,
        south_boundary: -7,
        east_boundary: 7,
        north_boundary: -7,
    };
    assert!(l.is_valid());
}

#[test]
fn level_at_the_edge_of_the_range_is_valid() {
    let l = Level {
        initial_x: i64::MAX,
        initial_y: i64::MIN,
        items: vec![LevelItem::Box {
            x: -COORD_MAX,
            y: -COORD_MAX,
            width: 2 * COORD_MAX,
            height: 2 * COORD_MAX,
        }],
        west_boundary: UNIT - COORD_MAX,
        south_boundary: UNIT - COORD_MAX,
        east_boundary: COORD_MAX - UNIT,
        north_boundary: COORD_MAX - UNIT,
    };
    assert!(l.is_valid());
    let map = LevelMap::from(&l);
    let walls = map.boundary_collision_lines();
    assert_eq!(bounds(&walls[0]), (-COORD_MAX, UNIT - COORD_MAX, UNIT, 2 * COORD_MAX - 2 * UNIT));
    assert_eq!(bounds(&walls[3]), (COORD_MAX - UNIT, UNIT - COORD_MAX, UNIT, 2 * COORD_MAX - 2 * UNIT));
}

#[test]
fn malformed_levels_are_not_valid() {
    let mut l = level(vec![]);
    l.west_boundary = l.east_boundary + 1;
    assert!(!l.is_valid());

    let mut l = level(vec![]);
    l.north_boundary = l.south_boundary - 1;
    assert!(!l.is_valid());

    let mut l = level(vec![]);
    l.east_boundary = COORD_MAX;
    assert!(!l.is_valid());

    let mut l = level(vec![]);
    l.south_boundary = -COORD_MAX;
    assert!(!l.is_valid());

    let l = level(vec![LevelItem::Box { x: 0, y: 0, width: -1, height: UNIT }]);
    assert!(!l.is_valid());

    let l = level(vec![
        LevelItem::Box { x: 0, y: 0, width: UNIT, height: UNIT },
        LevelItem::Line { x: 0, y: 0, direction: Direction::East, length: -UNIT },
    ]);
    assert!(!l.is_valid());

    let l = level(vec![LevelItem::Line {
        x: COORD_MAX,
        y: 0,
        direction: Direction::North,
        length: UNIT,
    }]);
    assert!(!l.is_valid());
}

#[test]
fn item_validity() {
    assert!(LevelItem::Box { x: 0, y: 0, width: 0, height: 0 }.is_valid());
    assert!(!LevelItem::Box { x: 0, y: 0, width: 0, height: -1 }.is_valid());
    assert!(LevelItem::Line { x: 0, y: 0, direction: Direction::North, length: 0 }.is_valid());
    assert!(!LevelItem::Line { x: 0, y: COORD_MAX, direction: Direction::East, length: 0 }.is_valid());
    assert!(LevelItem::Line { x: 0, y: COORD_MAX, direction: Direction::North, length: 0 }.is_valid());
}
