//! Motion and collision core of a two-dimensional side-scrolling platformer.
//!
//! One body, the player, moves among static rectangular obstacles. Each
//! simulation step turns the held keys, gravity and drag into a proposed
//! position, finds out which obstacles stand in the way, and commits a
//! position that respects them.
//!
//! All lengths, times, forces and velocities are fixed-point numbers held in
//! an `i64`: one whole unit is [`fixed::UNIT`] raw steps. In a level, `x`
//! grows to the east and `y` to the north. The modules build on each other
//! from the bottom up:
//!
//! * [`fixed`]: saturating fixed-point arithmetic;
//! * [`collisions`]: which obstacles stop a moving box, and where;
//! * [`level_serialization`] and [`level_writing`]: a level and the layout of
//!   its file, read and written;
//! * [`map`]: the obstacles that a level yields;
//! * [`mechanics`]: the player's motion, step by step;
//! * [`player`]: the player as the screen sees it, with picture and camera;
//! * [`scenes`]: the selection of a menu and the editor's mouse.

pub mod fixed;
pub mod collisions;
pub mod level_serialization;
pub mod level_writing;
pub mod map;
pub mod mechanics;
pub mod player;
pub mod scenes;
