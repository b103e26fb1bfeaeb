use bw_adventures::collisions::HasBounds;
use bw_adventures::fixed::{COORD_MAX, LIMIT, UNIT};
use bw_adventures::level_serialization::Level;
use bw_adventures::map::LevelMap;
use bw_adventures::mechanics::Key;
use bw_adventures::scenes::{EditorState, MenuSelection};

fn empty_map() -> LevelMap {
    LevelMap::from(&Level {
        initial_x: 0,
        initial_y: 0,
        items: vec![],
        west_boundary: -1000 * UNIT,
        south_boundary: -1000 * UNIT,
        east_boundary: 1000 * UNIT,
        north_boundary: 1000 * UNIT,
    })
}

#[test]
fn menu_starts_at_the_first_entry() {
    assert_eq!(MenuSelection::new().selected, 0);
}

#[test]
fn menu_selection_moves_and_wraps_around() {
    let mut m = MenuSelection::new();
    assert_eq!(m.press(Key::Down, 3), None);
    assert_eq!(m.selected, 1);
    assert_eq!(m.press(Key::Down, 3), None);
    assert_eq!(m.selected, 2);
    assert_eq!(m.press(Key::Down, 3), None);
    assert_eq!(m.selected, 0);
    assert_eq!(m.press(Key::Up, 3), None);
    assert_eq!(m.selected, 2);
    assert_eq!(m.press(Key::Up, 3), None);
    assert_eq!(m.selected, 1);
}

#[test]
fn menu_with_one_entry_stays_on_it() {
    let mut m = MenuSelection::new();
    assert_eq!(m.press(Key::Down, 1), None);
    assert_eq!(m.selected, 0);
    assert_eq!(m.press(Key::Up, 1), None);
    assert_eq!(m.selected, 0);
}

#[test]
fn return_chooses_the_selected_entry() {
    let mut m = MenuSelection::new();
    m.press(Key::Down, 4);
    m.press(Key::Down, 4);
    assert_eq!(m.press(Key::Return, 4), Some(2));
    assert_eq!(m.selected, 2);
}

#[test]
fn other_keys_leave_the_menu_alone() {
    let mut m = MenuSelection { selected: 1 };
    for key in [Key::Left, Key::Right, Key::Escape, Key::Other] {
        assert_eq!(m.press(key, 3), None);
        assert_eq!(m.selected, 1);
    }
}

#[test]
fn editor_starts_empty() {
    let e = EditorState::new();
    assert_eq!(e.current_mouse_x, 0);
    assert_eq!(e.current_mouse_y, 0);
    assert_eq!(e.screen_width, 0);
    assert_eq!(e.screen_height, 0);
    assert_eq!(e.scroll_start, None);
    assert!(e.outline(0, 0).is_none());
}

#[test]
fn mouse_height_counts_from_the_bottom() {
    let mut e = EditorState::new();
    e.resized(640 * UNIT, 480 * UNIT);
    e.mouse_moved(100 * UNIT, 80 * UNIT);
    assert_eq!(e.current_mouse_x, 100 * UNIT);
    assert_eq!(e.current_mouse_y, 400 * UNIT);
    assert_eq!(e.screen_width, 640 * UNIT);
    assert_eq!(e.screen_height, 480 * UNIT);
}

#[test]
fn a_drag_makes_a_platform() {
    let mut map = empty_map();
    let mut e = EditorState::new();
    e.resized(640 * UNIT, 480 * UNIT);
    // The camera is at (10, 20): the middle of the screen shows that point.
    e.mouse_moved(420 * UNIT, 140 * UNIT);
    e.press(10 * UNIT, 20 * UNIT);
    // 420 + 10 - 320, and (480 - 140) + 20 - 240
    assert_eq!(e.scroll_start, Some((110 * UNIT, 120 * UNIT)));
    e.mouse_moved(400 * UNIT, 100 * UNIT);
    let shown = e.outline(10 * UNIT, 20 * UNIT).unwrap();
    assert_eq!(
        (shown.min_x(), shown.min_y(), shown.len_x(), shown.len_y()),
        (90 * UNIT, 120 * UNIT, 20 * UNIT, 40 * UNIT)
    );
    let added = e.release(10 * UNIT, 20 * UNIT, &mut map).unwrap();
    assert_eq!(
        (added.min_x(), added.min_y(), added.len_x(), added.len_y()),
        (90 * UNIT, 120 * UNIT, 20 * UNIT, 40 * UNIT)
    );
    assert_eq!(e.scroll_start, None);
    assert_eq!(map.blocks().len(), 1);
    assert_eq!(map.blocks()[0].min_x(), 90 * UNIT);
    assert_eq!(map.blocks()[0].len_y(), 40 * UNIT);
    assert!(e.outline(10 * UNIT, 20 * UNIT).is_none());
}

#[test]
fn a_release_without_a_drag_adds_nothing() {
    let mut map = empty_map();
    let mut e = EditorState::new();
    e.resized(640 * UNIT, 480 * UNIT);
    e.mouse_moved(5 * UNIT, 5 * UNIT);
    assert!(e.release(0, 0, &mut map).is_none());
    assert_eq!(map.blocks().len(), 0);
}

#[test]
fn a_click_makes_an_empty_platform() {
    let mut map = empty_map();
    let mut e = EditorState::new();
    e.resized(640 * UNIT, 480 * UNIT);
    e.mouse_moved(320 * UNIT, 240 * UNIT);
    e.press(0, 0);
    let added = e.release(0, 0, &mut map).unwrap();
    assert_eq!((added.min_x(), added.min_y(), added.len_x(), added.len_y()), (0, 0, 0, 0));
    assert_eq!(map.blocks().len(), 1);
}

#[test]
fn a_drag_out_of_range_adds_nothing() {
    let mut map = empty_map();
    let mut e = EditorState::new();
    e.resized(640 * UNIT, 480 * UNIT);
    e.mouse_moved(0, 0);
    e.press(0, 0);
    e.mouse_moved(COORD_MAX + 1000 * UNIT, 0);
    let shown = e.outline(0, 0).unwrap();
    assert_eq!(shown.min_x(), -320 * UNIT);
    assert_eq!(shown.len_x(), COORD_MAX + 1000 * UNIT);
    assert!(e.release(0, 0, &mut map).is_none());
    assert_eq!(e.scroll_start, None);
    assert_eq!(map.blocks().len(), 0);
}

#[test]
fn editor_positions_stay_in_range() {
    let mut e = EditorState::new();
    e.resized(0, i64::MIN);
    e.mouse_moved(i64::MAX, i64::MAX);
    assert_eq!(e.current_mouse_y, -LIMIT);
    e.press(i64::MAX, i64::MIN);
    assert_eq!(e.scroll_start, Some((LIMIT, -LIMIT)));
    e.mouse_moved(i64::MIN, i64::MAX);
    let shown = e.outline(i64::MIN, 0).unwrap();
    assert_eq!(shown.min_x(), -LIMIT);
    assert_eq!(shown.len_x(), LIMIT);
}
