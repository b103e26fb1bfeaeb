//! The player as the screen sees it: the motion state, the picture that
//! shows it, and the camera that follows it.

use vstd::prelude::*;
use crate::fixed::{clamp, in_range, saturate, trunc_div, UNIT};
use crate::map::LevelMap;
use crate::mechanics::{Event, MovementState, PlayerState};

verus! {

/// Width of the player's picture, in whole units.
pub const PLAYER_IMAGE_WIDTH: u32 = 32;

/// Height of the player's picture, in whole units.
pub const PLAYER_IMAGE_HEIGHT: u32 = 20;

/// Vertical offset of the picture from the collision box.
pub const PLAYER_IMAGE_Y_OFFSET: i64 = 0;

/// Horizontal offset of the picture from the collision box.
pub const PLAYER_IMAGE_X_OFFSET: i64 = -11_000_000;

/// Number of frames in a running animation.
pub const RUN_FRAMES: u64 = 6;

/// The least distance, in whole units, that the camera keeps between the
/// player and the middle of the screen before it follows.
pub const SCROLL_ALLOWANCE: i64 = 100;

/// The picture that shows the player.
#[derive(Copy, Clone, Debug, PartialEq, Eq, Structural)]
pub enum PlayerImage {
    StandingLeft,
    StandingRight,
    /// A frame of the animation of running to the left.
    RunLeft(usize),
    /// A frame of the animation of running to the right.
    RunRight(usize),
}

/// The number of whole units that `v` does not exceed, and none for a
/// negative `v`: `v` rounded up to a whole number, or zero.
pub open spec fn units_up(v: int) -> int {
    if v <= 0 {
        0
    } else {
        (v + UNIT - 1) / (UNIT as int)
    }
}

/// The frame of the running animation at the position `x`: the animation
/// moves on by one frame every four units.
pub open spec fn run_frame(x: int) -> int {
    (units_up(x) / 4) % (RUN_FRAMES as int)
}

/// `v` rounded down to a whole number of units.
pub open spec fn whole_units(v: int) -> int {
    v - v % (UNIT as int)
}

/// The space that the camera leaves to the player on a screen of the given
/// extent: a fifth of the extent, and at least `SCROLL_ALLOWANCE` units.
pub open spec fn allowance(extent: int) -> int {
    let fifth = trunc_div(extent, 5);
    if fifth >= SCROLL_ALLOWANCE * UNIT {
        fifth
    } else {
        SCROLL_ALLOWANCE * UNIT
    }
}

/// Where a camera that was at `last` goes along one axis when the player is
/// at `position` and the screen has the given extent. The camera stays
/// where it is while the player is within half the extent less the
/// allowance of it, and otherwise follows at exactly that distance.
pub open spec fn follow(position: int, last: int, extent: int) -> int {
    let half = trunc_div(extent, 2);
    let margin = half - allowance(extent);
    saturate(
        if position > last + margin {
            position - margin
        } else if position < last - margin {
            position + margin
        } else {
            last
        },
    )
}

/// The player of a running game.
pub struct Player {
    pub last_scroll_x: i64,
    pub last_scroll_y: i64,
    pub state: PlayerState,
}

/// See [`run_frame`].
fn frame_at(x: i64) -> (f: usize)
    ensures
        f == run_frame(x as int),
        f < RUN_FRAMES,
{
    let units: u64 = if x <= 0 {
        0
    } else {
        ((x as i128 + UNIT as i128 - 1) / (UNIT as i128)) as u64
    };
    ((units / 4) % RUN_FRAMES) as usize
}

/// See [`whole_units`].
fn floor_units(v: i64) -> (r: i64)
    requires
        in_range(v as int),
    ensures
        r == whole_units(v as int),
{
    let r: i64 = v % UNIT;
    if r < 0 {
        v - r - UNIT
    } else {
        v - r
    }
}

/// See [`follow`].
fn follow_axis(position: i64, last: i64, extent: i64) -> (r: i64)
    ensures
        r == follow(position as int, last as int, extent as int),
{
    let fifth: i128 = (extent / 5) as i128;
    let least: i128 = SCROLL_ALLOWANCE as i128 * UNIT as i128;
    let allowance: i128 = if fifth >= least {
        fifth
    } else {
        least
    };
    let margin: i128 = (extent / 2) as i128 - allowance;
    if position as i128 > last as i128 + margin {
        clamp(position as i128 - margin)
    } else if (position as i128) < last as i128 - margin {
        clamp(position as i128 + margin)
    } else {
        clamp(last as i128)
    }
}

impl Player {
    /// A player at rest at `(x, y)`, with the camera on it.
    pub fn new(x: i64, y: i64) -> (p: Player)
        ensures
            p.state@ == PlayerState::at_rest(x as int, y as int),
            p.last_scroll_x == x,
            p.last_scroll_y == y,
    {
        Player { state: PlayerState::new(x, y), last_scroll_x: x, last_scroll_y: y }
    }

    /// Hands one event to the player's motion.
    pub fn event(&mut self, event: &Event, map: &LevelMap)
        requires
            *event is Update ==> old(self).state.settings.weight != 0 && map.wf(),
        ensures
            final(self).state@ == old(self).state@.handled(*event, map.obstacles()),
            final(self).last_scroll_x == old(self).last_scroll_x,
            final(self).last_scroll_y == old(self).last_scroll_y,
    {
        self.state.update(event, map);
    }

    /// The picture for the player's present state.
    pub open spec fn image(self) -> PlayerImage {
        if self.state.grounded {
            match self.state.last_movement {
                MovementState::StillLeft => PlayerImage::StandingLeft,
                MovementState::StillRight => PlayerImage::StandingRight,
                MovementState::MovingLeft => PlayerImage::RunLeft(
                    (RUN_FRAMES - 1 - run_frame(self.state.absolute_x as int)) as usize,
                ),
                MovementState::MovingRight => PlayerImage::RunRight(
                    run_frame(self.state.absolute_x as int) as usize,
                ),
            }
        } else {
            match self.state.last_movement {
                MovementState::StillLeft | MovementState::MovingLeft => PlayerImage::RunLeft(0),
                MovementState::StillRight | MovementState::MovingRight => PlayerImage::RunRight(0),
            }
        }
    }

    /// Which picture shows the player: standing or running on the ground,
    /// where the running animation goes by the position, and the first
    /// running frame in the air.
    pub fn get_current_image(&self) -> (image: PlayerImage)
        ensures
            image == self.image(),
            image matches PlayerImage::RunLeft(f) ==> f < RUN_FRAMES,
            image matches PlayerImage::RunRight(f) ==> f < RUN_FRAMES,
    {
        if self.state.grounded {
            match self.state.last_movement {
                MovementState::StillLeft => PlayerImage::StandingLeft,
                MovementState::StillRight => PlayerImage::StandingRight,
                MovementState::MovingLeft => PlayerImage::RunLeft(
                    5 - frame_at(self.state.absolute_x),
                ),
                MovementState::MovingRight => PlayerImage::RunRight(
                    frame_at(self.state.absolute_x),
                ),
            }
        } else {
            match self.state.last_movement {
                MovementState::StillLeft | MovementState::MovingLeft => PlayerImage::RunLeft(0),
                MovementState::StillRight | MovementState::MovingRight => PlayerImage::RunRight(0),
            }
        }
    }

    /// Moves the camera for a screen of the given width and height, and
    /// returns where it now is, rounded down to whole units.
    pub fn calculate_scroll(&mut self, width: i64, height: i64) -> (scroll: (i64, i64))
        ensures
            final(self).last_scroll_x == follow(
                old(self).state.absolute_x as int,
                old(self).last_scroll_x as int,
                width as int,
            ),
            final(self).last_scroll_y == follow(
                old(self).state.absolute_y as int,
                old(self).last_scroll_y as int,
                height as int,
            ),
            final(self).state == old(self).state,
            scroll.0 == whole_units(final(self).last_scroll_x as int),
            scroll.1 == whole_units(final(self).last_scroll_y as int),
    {
        let scroll_x = follow_axis(self.state.absolute_x, self.last_scroll_x, width);
        let scroll_y = follow_axis(self.state.absolute_y, self.last_scroll_y, height);
        self.last_scroll_x = scroll_x;
        self.last_scroll_y = scroll_y;
        (floor_units(scroll_x), floor_units(scroll_y))
    }
}

impl Default for Player {
    fn default() -> (p: Player)
        ensures
            p.state@ == PlayerState::at_rest(0, 0),
            p.last_scroll_x == 0,
            p.last_scroll_y == 0,
    {
        Player::new(0, 0)
    }
}

} // verus!
