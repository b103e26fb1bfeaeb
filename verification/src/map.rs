//! The obstacles of a level: its platforms, and a wall one unit thick along
//! the outside of each boundary so that nothing leaves the level.

use vstd::prelude::*;
use crate::collisions::{
    is_valid_obstacle, rects, valid_obstacle, valid_obstacles, HasBounds, Rect,
};
use crate::fixed::UNIT;
use crate::level_serialization::{Direction, Level, LevelItem};

verus! {

#[derive(Debug, Copy, Clone)]
enum PlatformType {
    Box,
    Line,
}

/// A static obstacle.
#[derive(Debug, Copy, Clone)]
pub struct Platform {
    min_x: i64,
    min_y: i64,
    len_x: i64,
    len_y: i64,
    platform_type: PlatformType,
}

impl HasBounds for Platform {
    closed spec fn bounds(&self) -> Rect {
        Rect {
            min_x: self.min_x as int,
            min_y: self.min_y as int,
            len_x: self.len_x as int,
            len_y: self.len_y as int,
        }
    }

    fn min_x(&self) -> (v: i64) {
        self.min_x
    }

    fn min_y(&self) -> (v: i64) {
        self.min_y
    }

    fn len_x(&self) -> (v: i64) {
        self.len_x
    }

    fn len_y(&self) -> (v: i64) {
        self.len_y
    }
}

impl Platform {
    /// A rectangular platform with the given minimum corner and size.
    pub fn new_box(min_x: i64, min_y: i64, len_x: i64, len_y: i64) -> (p: Platform)
        ensures
            p.bounds() == (Rect {
                min_x: min_x as int,
                min_y: min_y as int,
                len_x: len_x as int,
                len_y: len_y as int,
            }),
    {
        Platform { min_x, min_y, len_x, len_y, platform_type: PlatformType::Box }
    }

    /// A platform one unit thick.
    fn new_line(min_x: i64, min_y: i64, len_x: i64, len_y: i64) -> (p: Platform)
        ensures
            p.bounds() == (Rect {
                min_x: min_x as int,
                min_y: min_y as int,
                len_x: len_x as int,
                len_y: len_y as int,
            }),
    {
        Platform { min_x, min_y, len_x, len_y, platform_type: PlatformType::Line }
    }

    /// The platform that a level item describes.
    fn of_item(item: &LevelItem) -> (p: Platform)
        ensures
            p.bounds() == item.rect(),
    {
        match *item {
            LevelItem::Box { x, y, width, height } => Platform::new_box(x, y, width, height),
            LevelItem::Line { x, y, direction, length } => match direction {
                Direction::North => Platform::new_line(x, y, UNIT, length),
                Direction::East => Platform::new_line(x, y, length, UNIT),
            },
        }
    }
}

/// Whether every one of the platforms is a valid obstacle.
fn all_valid(platforms: &[Platform]) -> (b: bool)
    ensures
        b == valid_obstacles(rects(platforms@)),
{
    let mut i: usize = 0;
    while i < platforms.len()
        invariant
            i <= platforms@.len(),
            forall|j: int| 0 <= j < i ==> valid_obstacle(#[trigger] rects(platforms@)[j]),
        decreases platforms@.len() - i,
    {
        let p = &platforms[i];
        assert(rects(platforms@)[i as int] == p.bounds());
        if !is_valid_obstacle(p.min_x, p.min_y, p.len_x, p.len_y) {
            return false;
        }
        i = i + 1;
    }
    true
}

/// What a map holds, as the contracts see it.
pub struct LevelMapView {
    /// The boxes of the platforms, in the order of the level's items.
    pub blocks: Seq<Rect>,
    /// The boxes of the four walls around the level.
    pub boundary_lines: Seq<Rect>,
    pub initial_x: int,
    pub initial_y: int,
    pub boundaries: Seq<i64>,
}

/// The boxes of a level's platforms, in order.
pub open spec fn level_blocks(level: Level) -> Seq<Rect> {
    Seq::new(level.items@.len(), |i: int| level.items@[i].rect())
}

/// The four walls that close a level off: each is one unit thick and lies
/// just outside the boundary it guards. They come in the order west, north,
/// south, east.
pub open spec fn level_walls(level: Level) -> Seq<Rect> {
    let west = level.west_boundary as int;
    let east = level.east_boundary as int;
    let south = level.south_boundary as int;
    let north = level.north_boundary as int;
    seq![
        Rect { min_x: west - UNIT, min_y: south, len_x: UNIT as int, len_y: north - south },
        Rect { min_x: west, min_y: north, len_x: east - west, len_y: UNIT as int },
        Rect { min_x: west, min_y: south - UNIT, len_x: east - west, len_y: UNIT as int },
        Rect { min_x: east, min_y: south, len_x: UNIT as int, len_y: north - south },
    ]
}

/// The walls of a well-formed level are valid obstacles.
pub proof fn lemma_level_walls_valid(level: Level)
    requires
        level.boundaries_wf(),
    ensures
        valid_obstacles(level_walls(level)),
{
}

/// The obstacles of one level and the place where the player starts.
pub struct LevelMap {
    blocks: Vec<Platform>,
    boundary_collision_lines: Vec<Platform>,
    initial_x: i64,
    initial_y: i64,
    boundaries: [i64; 4],
}

impl View for LevelMap {
    type V = LevelMapView;

    closed spec fn view(&self) -> LevelMapView {
        LevelMapView {
            blocks: rects(self.blocks@),
            boundary_lines: rects(self.boundary_collision_lines@),
            initial_x: self.initial_x as int,
            initial_y: self.initial_y as int,
            boundaries: self.boundaries@,
        }
    }
}

impl LevelMap {
    /// Every obstacle of the map is valid.
    pub open spec fn wf(&self) -> bool {
        &&& valid_obstacles(self@.blocks)
        &&& valid_obstacles(self@.boundary_lines)
    }

    /// Whether every obstacle of the map is valid.
    pub fn is_valid(&self) -> (b: bool)
        ensures
            b == self.wf(),
    {
        all_valid(self.blocks.as_slice()) && all_valid(self.boundary_collision_lines.as_slice())
    }

    /// All obstacles of the map: the platforms, then the walls.
    pub open spec fn obstacles(&self) -> Seq<Rect> {
        self@.blocks + self@.boundary_lines
    }

    /// The platforms.
    pub fn blocks(&self) -> (r: &[Platform])
        ensures
            rects(r@) == self@.blocks,
    {
        self.blocks.as_slice()
    }

    /// The walls around the level.
    pub fn boundary_collision_lines(&self) -> (r: &[Platform])
        ensures
            rects(r@) == self@.boundary_lines,
    {
        self.boundary_collision_lines.as_slice()
    }

    /// Where the player starts.
    pub fn initial_x(&self) -> (x: i64)
        ensures
            x == self@.initial_x,
    {
        self.initial_x
    }

    /// See [`Self::initial_x`].
    pub fn initial_y(&self) -> (y: i64)
        ensures
            y == self@.initial_y,
    {
        self.initial_y
    }

    /// The boundaries as `[west, south, north - south, east - west]`.
    pub fn boundaries(&self) -> (b: [i64; 4])
        ensures
            b@ == self@.boundaries,
    {
        self.boundaries
    }

    /// Adds a platform to the map.
    pub fn add_block(&mut self, block: Platform)
        ensures
            final(self)@ == (LevelMapView {
                blocks: old(self)@.blocks.push(block.bounds()),
                ..old(self)@
            }),
            old(self).wf() && valid_obstacle(block.bounds()) ==> final(self).wf(),
    {
        let ghost before = rects(self.blocks@);
        self.blocks.push(block);
        assert(rects(self.blocks@) =~= before.push(block.bounds()));
    }

    /// Builds the map of a level: one obstacle for each platform, and the
    /// four walls.
    pub fn from(level: &Level) -> (map: LevelMap)
        requires
            level.wf(),
        ensures
            map.wf(),
            map@.blocks == level_blocks(*level),
            map@.boundary_lines == level_walls(*level),
            map@.initial_x == level.initial_x,
            map@.initial_y == level.initial_y,
            map@.boundaries == seq![
                level.west_boundary,
                level.south_boundary,
                (level.north_boundary - level.south_boundary) as i64,
                (level.east_boundary - level.west_boundary) as i64,
            ],
    {
        let mut blocks: Vec<Platform> = Vec::new();
        let mut i: usize = 0;
        while i < level.items.len()
            invariant
                i <= level.items@.len(),
                blocks@.len() == i,
                forall|j: int| 0 <= j < i ==> (#[trigger] blocks@[j]).bounds() == level.items@[j].rect(),
            decreases level.items@.len() - i,
        {
            blocks.push(Platform::of_item(&level.items[i]));
            i = i + 1;
        }
        assert(rects(blocks@) =~= level_blocks(*level));

        let west = level.west_boundary;
        let east = level.east_boundary;
        let south = level.south_boundary;
        let north = level.north_boundary;
        let mut boundary_collision_lines: Vec<Platform> = Vec::new();
        boundary_collision_lines.push(Platform::new_line(west - UNIT, south, UNIT, north - south));
        boundary_collision_lines.push(Platform::new_line(west, north, east - west, UNIT));
        boundary_collision_lines.push(Platform::new_line(west, south - UNIT, east - west, UNIT));
        boundary_collision_lines.push(Platform::new_line(east, south, UNIT, north - south));
        assert(rects(boundary_collision_lines@) =~= level_walls(*level));

        let map = LevelMap {
            blocks,
            boundary_collision_lines,
            initial_x: level.initial_x,
            initial_y: level.initial_y,
            boundaries: [west, south, north - south, east - west],
        };
        proof {
            lemma_level_walls_valid(*level);
            assert(map@.boundaries =~= seq![
                west,
                south,
                (north - south) as i64,
                (east - west) as i64,
            ]);
        }
        map
    }
}

} // verus!
