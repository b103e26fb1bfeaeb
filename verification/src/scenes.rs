//! What the scenes of the game decide: which entry of a menu is selected,
//! and which platform the editor draws with the mouse.

use vstd::prelude::*;
use crate::collisions::{is_valid_obstacle, valid_obstacle, HasBounds, Rect};
use crate::fixed::{clamp, saturate, trunc_div};
use crate::map::{LevelMap, Platform};
use crate::mechanics::Key;

verus! {

/// The entry that is selected after `key` in a menu of `count` entries in
/// which `selected` was: `Up` and `Down` move the selection and wrap around
/// at the ends.
pub open spec fn selection_after(selected: int, count: int, key: Key) -> int {
    match key {
        Key::Up => if selected == 0 {
            count - 1
        } else {
            selected - 1
        },
        Key::Down => if selected + 1 == count {
            0
        } else {
            selected + 1
        },
        _ => selected,
    }
}

/// The selection of a menu.
#[derive(Copy, Clone, Debug)]
pub struct MenuSelection {
    pub selected: usize,
}

impl MenuSelection {
    /// The first entry is selected.
    pub fn new() -> (m: MenuSelection)
        ensures
            m.selected == 0,
    {
        MenuSelection { selected: 0 }
    }

    /// Takes a key in, in a menu of `count` entries. The result is the entry
    /// that the key chooses: the selected one for `Return`, none for any
    /// other key.
    pub fn press(&mut self, key: Key, count: usize) -> (chosen: Option<usize>)
        requires
            old(self).selected < count,
        ensures
            final(self).selected == selection_after(old(self).selected as int, count as int, key),
            final(self).selected < count,
            chosen == if key == Key::Return {
                Some(old(self).selected)
            } else {
                None
            },
    {
        match key {
            Key::Up => {
                if self.selected == 0 {
                    self.selected = count - 1;
                } else {
                    self.selected = self.selected - 1;
                }
                None
            },
            Key::Down => {
                self.selected = if self.selected == count - 1 {
                    0
                } else {
                    self.selected + 1
                };
                None
            },
            Key::Return => Some(self.selected),
            _ => None,
        }
    }
}

/// Where a point of the screen lies in the level, along one axis: the
/// screen shows the level around the camera, which is at `scroll`, in the
/// middle.
pub open spec fn level_position(mouse: int, scroll: int, extent: int) -> int {
    saturate(mouse + scroll - trunc_div(extent, 2))
}

/// The span between two positions: where it begins and how long it is.
pub open spec fn span_between(a: int, b: int) -> (int, int) {
    if a <= b {
        (a, b - a)
    } else {
        (b, a - b)
    }
}

/// The rectangle that has two given points as opposite corners.
pub open spec fn rect_between(from: (i64, i64), to: (int, int)) -> Rect {
    let (min_x, len_x) = span_between(from.0 as int, to.0);
    let (min_y, len_y) = span_between(from.1 as int, to.1);
    Rect { min_x, min_y, len_x: saturate(len_x), len_y: saturate(len_y) }
}

/// What the level editor knows of the mouse. Positions grow to the right
/// and upwards, as in the level.
#[derive(Copy, Clone, Debug)]
pub struct EditorState {
    pub current_mouse_x: i64,
    pub current_mouse_y: i64,
    pub screen_width: i64,
    pub screen_height: i64,
    /// Where in the level the drag began that is under way.
    pub scroll_start: Option<(i64, i64)>,
}

/// See [`level_position`].
fn to_level(mouse: i64, scroll: i64, extent: i64) -> (r: i64)
    ensures
        r == level_position(mouse as int, scroll as int, extent as int),
{
    clamp(mouse as i128 + scroll as i128 - (extent / 2) as i128)
}

/// See [`span_between`].
fn span(a: i64, b: i64) -> (r: (i64, i64))
    ensures
        r.0 == span_between(a as int, b as int).0,
        r.1 == saturate(span_between(a as int, b as int).1),
{
    if a <= b {
        (a, clamp(b as i128 - a as i128))
    } else {
        (b, clamp(a as i128 - b as i128))
    }
}

impl EditorState {
    /// The state before anything has happened.
    pub fn new() -> (e: EditorState)
        ensures
            e == (EditorState {
                current_mouse_x: 0,
                current_mouse_y: 0,
                screen_width: 0,
                screen_height: 0,
                scroll_start: None,
            }),
    {
        EditorState {
            current_mouse_x: 0,
            current_mouse_y: 0,
            screen_width: 0,
            screen_height: 0,
            scroll_start: None,
        }
    }

    /// Where the mouse is in the level when the camera is at
    /// `(scroll_x, scroll_y)`.
    pub open spec fn mouse_in_level(self, scroll_x: int, scroll_y: int) -> (int, int) {
        (
            level_position(self.current_mouse_x as int, scroll_x, self.screen_width as int),
            level_position(self.current_mouse_y as int, scroll_y, self.screen_height as int),
        )
    }

    /// The screen is drawn with the given size.
    pub fn resized(&mut self, width: i64, height: i64)
        ensures
            *final(self) == (EditorState { screen_width: width, screen_height: height, ..*old(self) }),
    {
        self.screen_width = width;
        self.screen_height = height;
    }

    /// The mouse has moved to `(x, y)` on the screen, where `y` grows
    /// downwards from the top.
    pub fn mouse_moved(&mut self, x: i64, y: i64)
        ensures
            *final(self) == (EditorState {
                current_mouse_x: x,
                current_mouse_y: saturate(old(self).screen_height - y) as i64,
                ..*old(self)
            }),
    {
        self.current_mouse_x = x;
        self.current_mouse_y = clamp(self.screen_height as i128 - y as i128);
    }

    /// The mouse button went down: a drag begins where the mouse is.
    pub fn press(&mut self, scroll_x: i64, scroll_y: i64)
        ensures
            *final(self) == (EditorState {
                scroll_start: Some(
                    (
                        old(self).mouse_in_level(scroll_x as int, scroll_y as int).0 as i64,
                        old(self).mouse_in_level(scroll_x as int, scroll_y as int).1 as i64,
                    ),
                ),
                ..*old(self)
            }),
    {
        self.scroll_start =
        Some(
            (
                to_level(self.current_mouse_x, scroll_x, self.screen_width),
                to_level(self.current_mouse_y, scroll_y, self.screen_height),
            ),
        );
    }

    /// The rectangle that the drag under way spans, if there is one.
    pub open spec fn dragged(self, scroll_x: int, scroll_y: int) -> Option<Rect> {
        match self.scroll_start {
            Some(start) => Some(rect_between(start, self.mouse_in_level(scroll_x, scroll_y))),
            None => None,
        }
    }

    /// The platform that the drag under way would make, for the editor to
    /// show.
    pub fn outline(&self, scroll_x: i64, scroll_y: i64) -> (p: Option<Platform>)
        ensures
            match p {
                Some(platform) => self.dragged(scroll_x as int, scroll_y as int) == Some(
                    platform.bounds(),
                ),
                None => self.dragged(scroll_x as int, scroll_y as int) is None,
            },
    {
        match self.scroll_start {
            Some((start_x, start_y)) => {
                let (min_x, len_x) = span(
                    start_x,
                    to_level(self.current_mouse_x, scroll_x, self.screen_width),
                );
                let (min_y, len_y) = span(
                    start_y,
                    to_level(self.current_mouse_y, scroll_y, self.screen_height),
                );
                Some(Platform::new_box(min_x, min_y, len_x, len_y))
            },
            None => None,
        }
    }

    /// The mouse button came up: the drag under way, if there is one, ends
    /// and its rectangle becomes a platform of the map, provided that it is
    /// a valid obstacle. The result is the platform that was added.
    pub fn release(&mut self, scroll_x: i64, scroll_y: i64, map: &mut LevelMap) -> (added: Option<
        Platform,
    >)
        ensures
            *final(self) == (EditorState { scroll_start: None, ..*old(self) }),
            match old(self).dragged(scroll_x as int, scroll_y as int) {
                Some(r) if valid_obstacle(r) => {
                    &&& added matches Some(p)
                    &&& p.bounds() == r
                    &&& final(map)@ == (crate::map::LevelMapView {
                        blocks: old(map)@.blocks.push(r),
                        ..old(map)@
                    })
                },
                _ => added is None && final(map)@ == old(map)@,
            },
            old(map).wf() ==> final(map).wf(),
    {
        let dragged = self.outline(scroll_x, scroll_y);
        self.scroll_start = None;
        match dragged {
            Some(platform) => {
                if is_valid_obstacle(
                    platform.min_x(),
                    platform.min_y(),
                    platform.len_x(),
                    platform.len_y(),
                ) {
                    map.add_block(platform);
                    Some(platform)
                } else {
                    None
                }
            },
            None => None,
        }
    }
}

} // verus!
