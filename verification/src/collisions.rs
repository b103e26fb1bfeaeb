//! Collision resolution for one moving box against static obstacles.
//!
//! A box is axis-aligned and anchored at its minimum corner. Given where the
//! box is, where it would like to be after the step, and the obstacles of the
//! level, [`collides`] reports for each of the four sides the tightest
//! coordinate that the box may not cross.

use vstd::prelude::*;
use crate::fixed::COORD_MAX;

verus! {

/// An axis-aligned box as the contracts see it: minimum corner and extent.
pub struct Rect {
    pub min_x: int,
    pub min_y: int,
    pub len_x: int,
    pub len_y: int,
}

/// A side on which a moving box can be stopped. North and east are the
/// directions of growing `y` and `x`.
pub enum Side {
    North,
    South,
    East,
    West,
}

/// What stops the moving box in this step. Each side holds the position that
/// the box's minimum corner takes on that axis when it rests against the
/// nearest obstacle on that side, or `None` where nothing stops it.
#[derive(Copy, Clone, Debug)]
pub struct Collisions {
    pub north: Option<i64>,
    pub south: Option<i64>,
    pub east: Option<i64>,
    pub west: Option<i64>,
}

impl Rect {
    /// The box with its two axes exchanged.
    pub open spec fn transposed(self) -> Rect {
        Rect { min_x: self.min_y, min_y: self.min_x, len_x: self.len_y, len_y: self.len_x }
    }

    /// The box moved by `(dx, dy)`.
    pub open spec fn moved(self, dx: int, dy: int) -> Rect {
        Rect { min_x: self.min_x + dx, min_y: self.min_y + dy, ..self }
    }

    /// The box as a mirror shows it: the mirror image of the point `(x, y)`
    /// is `(-x, -y)`.
    pub open spec fn mirrored(self) -> Rect {
        Rect {
            min_x: -(self.min_x + self.len_x),
            min_y: -(self.min_y + self.len_y),
            ..self
        }
    }
}

impl Side {
    /// The side opposite to this one.
    pub open spec fn opposite(self) -> Side {
        match self {
            Side::North => Side::South,
            Side::South => Side::North,
            Side::East => Side::West,
            Side::West => Side::East,
        }
    }

    /// The side that takes this side's place when the axes are exchanged:
    /// north for east, south for west, and the other way round.
    pub open spec fn transposed(self) -> Side {
        match self {
            Side::North => Side::East,
            Side::East => Side::North,
            Side::South => Side::West,
            Side::West => Side::South,
        }
    }
}

/// Anything that occupies an axis-aligned box: an obstacle or the moving
/// entity.
pub trait HasBounds {
    /// The box that this value occupies.
    spec fn bounds(&self) -> Rect;

    /// The least `x` of the box.
    fn min_x(&self) -> (v: i64)
        ensures
            v == self.bounds().min_x,
    ;

    /// The least `y` of the box.
    fn min_y(&self) -> (v: i64)
        ensures
            v == self.bounds().min_y,
    ;

    /// The extent of the box along `x`.
    fn len_x(&self) -> (v: i64)
        ensures
            v == self.bounds().len_x,
    ;

    /// The extent of the box along `y`.
    fn len_y(&self) -> (v: i64)
        ensures
            v == self.bounds().len_y,
    ;
}

/// The boxes of a sequence of bounded values, in order.
pub open spec fn rects<T: HasBounds>(items: Seq<T>) -> Seq<Rect> {
    Seq::new(items.len(), |i: int| items[i].bounds())
}

/// Both extents are non-negative and small enough to stand next to any
/// obstacle.
pub open spec fn valid_extent(r: Rect) -> bool {
    &&& 0 <= r.len_x <= COORD_MAX
    &&& 0 <= r.len_y <= COORD_MAX
}

/// A box with non-negative extents whose four edges lie within
/// `±COORD_MAX`.
pub open spec fn valid_obstacle(r: Rect) -> bool {
    &&& 0 <= r.len_x
    &&& 0 <= r.len_y
    &&& -COORD_MAX <= r.min_x
    &&& -COORD_MAX <= r.min_y
    &&& r.min_x + r.len_x <= COORD_MAX
    &&& r.min_y + r.len_y <= COORD_MAX
}

/// Whether the box with this minimum corner and extent is a valid obstacle.
pub fn is_valid_obstacle(min_x: i64, min_y: i64, len_x: i64, len_y: i64) -> (b: bool)
    ensures
        b == valid_obstacle(
            Rect { min_x: min_x as int, min_y: min_y as int, len_x: len_x as int, len_y: len_y as int },
        ),
{
    0 <= len_x && 0 <= len_y && -COORD_MAX <= min_x && -COORD_MAX <= min_y && min_x as i128
        + len_x as i128 <= COORD_MAX as i128 && min_y as i128 + len_y as i128 <= COORD_MAX as i128
}

/// Every box of the sequence is a valid obstacle.
pub open spec fn valid_obstacles(s: Seq<Rect>) -> bool {
    forall|i: int| 0 <= i < s.len() ==> valid_obstacle(#[trigger] s[i])
}

/// The closed intervals `[a, a + a_len]` and `[b, b + b_len]` share a point.
pub open spec fn spans_touch(a: int, a_len: int, b: int, b_len: int) -> bool {
    a <= b + b_len && a + a_len >= b
}

/// The open intervals `(a, a + a_len)` and `(b, b + b_len)` share a point:
/// intervals that merely touch at an end do not count.
pub open spec fn spans_overlap(a: int, a_len: int, b: int, b_len: int) -> bool {
    a < b + b_len && a + a_len > b
}

/// `value` lies in the closed interval `[start, start + len]`.
pub open spec fn in_span(start: int, len: int, value: int) -> bool {
    value <= start + len && value >= start
}

/// The far edge of a span of length `len` was at or before `point` and is
/// now beyond it.
pub open spec fn crossed_up(point: int, old_pos: int, new_pos: int, len: int) -> bool {
    new_pos + len > point && old_pos + len <= point
}

/// A position was at or beyond `point` and is now before it.
pub open spec fn crossed_down(point: int, old_pos: int, new_pos: int) -> bool {
    new_pos < point && old_pos >= point
}

/// The box `e`, moved to `(nx, ny)`, and the obstacle `b` share a point
/// (edges and corners count).
pub open spec fn touching(e: Rect, nx: int, ny: int, b: Rect) -> bool {
    &&& spans_touch(nx, e.len_x, b.min_x, b.len_x)
    &&& spans_touch(ny, e.len_y, b.min_y, b.len_y)
}

/// Along one axis, the moving span runs into the obstacle's span from the
/// low side: its far edge ends inside the obstacle, or has just passed the
/// obstacle's near edge.
pub open spec fn enters_from_low(
    old_pos: int,
    new_pos: int,
    len: int,
    start: int,
    span: int,
) -> bool {
    in_span(start, span, new_pos + len) || crossed_up(start, old_pos, new_pos, len)
}

/// Along one axis, the moving span runs into the obstacle's span from the
/// high side: its near edge ends inside the obstacle, or has just passed
/// the obstacle's far edge.
pub open spec fn enters_from_high(old_pos: int, new_pos: int, start: int, span: int) -> bool {
    in_span(start, span, new_pos) || crossed_down(start + span, old_pos, new_pos)
}

/// The obstacle `b` stops the box `e`, which proposes to move to `(nx, ny)`,
/// on the given side.
///
/// The obstacle must touch the box at its proposed position, and the two
/// must properly overlap on the other axis at the box's present position, so
/// that a box sliding along a surface is not caught by the surface's
/// neighbours. The box must then run into the obstacle from one side only.
pub open spec fn blocks(side: Side, e: Rect, nx: int, ny: int, b: Rect) -> bool {
    let low_y = enters_from_low(e.min_y, ny, e.len_y, b.min_y, b.len_y);
    let high_y = enters_from_high(e.min_y, ny, b.min_y, b.len_y);
    let low_x = enters_from_low(e.min_x, nx, e.len_x, b.min_x, b.len_x);
    let high_x = enters_from_high(e.min_x, nx, b.min_x, b.len_x);
    let facing_y = spans_overlap(e.min_x, e.len_x, b.min_x, b.len_x);
    let facing_x = spans_overlap(e.min_y, e.len_y, b.min_y, b.len_y);
    touching(e, nx, ny, b) && match side {
        Side::North => facing_y && low_y && !high_y,
        Side::South => facing_y && !low_y && high_y,
        Side::East => facing_x && low_x && !high_x,
        Side::West => facing_x && !low_x && high_x,
    }
}

/// Where the box `e` comes to rest against the obstacle `b` on the given
/// side.
pub open spec fn limit(side: Side, e: Rect, b: Rect) -> int {
    match side {
        Side::North => b.min_y - e.len_y,
        Side::South => b.min_y + b.len_y,
        Side::East => b.min_x - e.len_x,
        Side::West => b.min_x + b.len_x,
    }
}

/// The limit `a` confines the box at least as much as `b` does: it is the
/// lower of two ceilings or right-hand walls, the higher of two floors or
/// left-hand walls.
pub open spec fn at_least_as_tight(side: Side, a: int, b: int) -> bool {
    match side {
        Side::North | Side::East => a <= b,
        Side::South | Side::West => a >= b,
    }
}

/// `r` is the tightest limit that the obstacles of `s` put on the given
/// side: `None` when none of them blocks that side, otherwise the limit of
/// one that does, which no other one beats.
pub open spec fn tightest(
    side: Side,
    e: Rect,
    nx: int,
    ny: int,
    s: Seq<Rect>,
    r: Option<i64>,
) -> bool {
    match r {
        None => forall|i: int| 0 <= i < s.len() ==> !blocks(side, e, nx, ny, #[trigger] s[i]),
        Some(v) => {
            &&& exists|i: int|
                0 <= i < s.len() && blocks(side, e, nx, ny, #[trigger] s[i]) && limit(
                    side,
                    e,
                    s[i],
                ) == v
            &&& forall|i: int|
                0 <= i < s.len() && blocks(side, e, nx, ny, #[trigger] s[i])
                    ==> at_least_as_tight(side, v as int, limit(side, e, s[i]))
        },
    }
}

/// `c` is the outcome of the step in which the box `e` proposes to move to
/// `(nx, ny)` among the obstacles `s`.
pub open spec fn resolved(e: Rect, nx: int, ny: int, s: Seq<Rect>, c: Collisions) -> bool {
    &&& tightest(Side::North, e, nx, ny, s, c.north)
    &&& tightest(Side::South, e, nx, ny, s, c.south)
    &&& tightest(Side::East, e, nx, ny, s, c.east)
    &&& tightest(Side::West, e, nx, ny, s, c.west)
}

/// The outcome of the step in which the box `e` proposes to move to
/// `(nx, ny)` among the obstacles `s`. A step has one outcome
/// ([`lemma_resolved_unique`]), and [`collides`] computes it.
pub open spec fn resolution(e: Rect, nx: int, ny: int, s: Seq<Rect>) -> Collisions {
    choose|c: Collisions| resolved(e, nx, ny, s, c)
}

/// The tighter of two optional limits on one side.
pub open spec fn tighter(side: Side, a: Option<i64>, b: Option<i64>) -> Option<i64> {
    match (a, b) {
        (None, None) => None,
        (Some(x), None) => Some(x),
        (None, Some(y)) => Some(y),
        (Some(x), Some(y)) => if at_least_as_tight(side, x as int, y as int) {
            Some(x)
        } else {
            Some(y)
        },
    }
}

impl Collisions {
    /// Nothing stops the box on any side.
    pub open spec fn is_clear(self) -> bool {
        self.north is None && self.south is None && self.east is None && self.west is None
    }

    /// Side by side, the tighter limit of the two outcomes.
    pub open spec fn merged(self, other: Collisions) -> Collisions {
        Collisions {
            north: tighter(Side::North, self.north, other.north),
            south: tighter(Side::South, self.south, other.south),
            east: tighter(Side::East, self.east, other.east),
            west: tighter(Side::West, self.west, other.west),
        }
    }

    /// Combines the outcomes of one step over two sets of obstacles into the
    /// outcome over both.
    pub fn merge(self, other: Collisions) -> (c: Collisions)
        ensures
            c == self.merged(other),
    {
        Collisions {
            north: min_opt(self.north, other.north),
            south: max_opt(self.south, other.south),
            east: min_opt(self.east, other.east),
            west: max_opt(self.west, other.west),
        }
    }
}

impl Default for Collisions {
    fn default() -> (c: Collisions)
        ensures
            c.is_clear(),
    {
        Collisions { north: None, south: None, east: None, west: None }
    }
}

/// Magnitudes up to which the helpers below add without overflow.
spec fn small(v: int) -> bool {
    -0x1_0000_0000_0000_0000 <= v <= 0x1_0000_0000_0000_0000
}

fn touches(
    x1: i128,
    y1: i128,
    width1: i128,
    height1: i128,
    x2: i128,
    y2: i128,
    width2: i128,
    height2: i128,
) -> (r: bool)
    requires
        small(x1 as int),
        small(y1 as int),
        small(width1 as int),
        small(height1 as int),
        small(x2 as int),
        small(y2 as int),
        small(width2 as int),
        small(height2 as int),
    ensures
        r == (spans_touch(x1 as int, width1 as int, x2 as int, width2 as int) && spans_touch(
            y1 as int,
            height1 as int,
            y2 as int,
            height2 as int,
        )),
{
    x1 <= x2 + width2 && x1 + width1 >= x2 && y1 <= y2 + height2 && y1 + height1 >= y2
}

fn collides1d(x1: i128, width1: i128, x2: i128, width2: i128) -> (r: bool)
    requires
        small(x1 as int),
        small(width1 as int),
        small(x2 as int),
        small(width2 as int),
    ensures
        r == spans_overlap(x1 as int, width1 as int, x2 as int, width2 as int),
{
    x1 < x2 + width2 && x1 + width1 > x2
}

fn within(bound_start: i128, bound_length: i128, value: i128) -> (r: bool)
    requires
        small(bound_start as int),
        small(bound_length as int),
    ensures
        r == in_span(bound_start as int, bound_length as int, value as int),
{
    value <= bound_start + bound_length && value >= bound_start
}

fn now_past(point: i128, old_pos: i128, new_pos: i128, length: i128) -> (r: bool)
    requires
        small(old_pos as int),
        small(new_pos as int),
        small(length as int),
    ensures
        r == crossed_up(point as int, old_pos as int, new_pos as int, length as int),
{
    new_pos + length > point && old_pos + length <= point
}

fn now_before(point: i128, old_pos: i128, new_pos: i128) -> (r: bool)
    ensures
        r == crossed_down(point as int, old_pos as int, new_pos as int),
{
    new_pos < point && old_pos >= point
}

fn min_opt(v1: Option<i64>, v2: Option<i64>) -> (r: Option<i64>)
    ensures
        r == tighter(Side::North, v1, v2),
        r == tighter(Side::East, v1, v2),
{
    match (v1, v2) {
        (None, None) => None,
        (Some(x), None) => Some(x),
        (None, Some(x)) => Some(x),
        (Some(x), Some(y)) => Some(if x <= y { x } else { y }),
    }
}

fn max_opt(v1: Option<i64>, v2: Option<i64>) -> (r: Option<i64>)
    ensures
        r == tighter(Side::South, v1, v2),
        r == tighter(Side::West, v1, v2),
{
    match (v1, v2) {
        (None, None) => None,
        (Some(x), None) => Some(x),
        (None, Some(x)) => Some(x),
        (Some(x), Some(y)) => Some(if x >= y { x } else { y }),
    }
}

/// What one more obstacle `b` makes of the limit `r` found so far.
pub open spec fn with_obstacle(
    side: Side,
    e: Rect,
    nx: int,
    ny: int,
    b: Rect,
    r: Option<i64>,
) -> Option<i64> {
    if blocks(side, e, nx, ny, b) {
        tighter(side, r, Some(limit(side, e, b) as i64))
    } else {
        r
    }
}

/// Taking one more obstacle into account keeps the limit the tightest.
proof fn lemma_tightest_push(
    side: Side,
    e: Rect,
    nx: int,
    ny: int,
    s: Seq<Rect>,
    b: Rect,
    r: Option<i64>,
)
    requires
        tightest(side, e, nx, ny, s, r),
        i64::MIN <= limit(side, e, b) <= i64::MAX,
    ensures
        tightest(side, e, nx, ny, s.push(b), with_obstacle(side, e, nx, ny, b, r)),
{
    let s2 = s.push(b);
    let r2 = with_obstacle(side, e, nx, ny, b, r);
    assert(s2[s.len() as int] == b);
    assert forall|i: int| 0 <= i < s.len() implies #[trigger] s2[i] == s[i] by {}
    match r2 {
        None => {
            assert forall|i: int| 0 <= i < s2.len() implies !blocks(
                side,
                e,
                nx,
                ny,
                #[trigger] s2[i],
            ) by {
                if i < s.len() {
                    assert(s2[i] == s[i]);
                }
            }
        },
        Some(v) => {
            if blocks(side, e, nx, ny, b) && limit(side, e, b) == v {
                assert(blocks(side, e, nx, ny, s2[s.len() as int]));
            } else {
                let j = choose|j: int|
                    0 <= j < s.len() && blocks(side, e, nx, ny, #[trigger] s[j]) && limit(
                        side,
                        e,
                        s[j],
                    ) == v;
                assert(s2[j] == s[j]);
                assert(blocks(side, e, nx, ny, s2[j]) && limit(side, e, s2[j]) == v);
            }
            assert forall|i: int|
                0 <= i < s2.len() && blocks(side, e, nx, ny, #[trigger] s2[i]) implies at_least_as_tight(
                side,
                v as int,
                limit(side, e, s2[i]),
            ) by {
                if i < s.len() {
                    assert(s2[i] == s[i]);
                }
            }
        },
    }
}

/// Folds one obstacle into the outcome found so far.
fn fold_block(
    found: Collisions,
    ex: i64,
    ey: i64,
    ew: i64,
    eh: i64,
    next_x: i64,
    next_y: i64,
    bx: i64,
    by: i64,
    bw: i64,
    bh: i64,
) -> (c: Collisions)
    requires
        valid_extent(Rect { min_x: ex as int, min_y: ey as int, len_x: ew as int, len_y: eh as int }),
        valid_obstacle(
            Rect { min_x: bx as int, min_y: by as int, len_x: bw as int, len_y: bh as int },
        ),
    ensures
        ({
            let e = Rect { min_x: ex as int, min_y: ey as int, len_x: ew as int, len_y: eh as int };
            let b = Rect { min_x: bx as int, min_y: by as int, len_x: bw as int, len_y: bh as int };
            let nx = next_x as int;
            let ny = next_y as int;
            &&& c.north == with_obstacle(Side::North, e, nx, ny, b, found.north)
            &&& c.south == with_obstacle(Side::South, e, nx, ny, b, found.south)
            &&& c.east == with_obstacle(Side::East, e, nx, ny, b, found.east)
            &&& c.west == with_obstacle(Side::West, e, nx, ny, b, found.west)
            &&& i64::MIN <= limit(Side::North, e, b) <= i64::MAX
            &&& i64::MIN <= limit(Side::South, e, b) <= i64::MAX
            &&& i64::MIN <= limit(Side::East, e, b) <= i64::MAX
            &&& i64::MIN <= limit(Side::West, e, b) <= i64::MAX
        }),
{
    let mut collisions = found;
    let (sx, sy, sw, sh) = (ex as i128, ey as i128, ew as i128, eh as i128);
    let (nx, ny) = (next_x as i128, next_y as i128);
    let (ox, oy, ow, oh) = (bx as i128, by as i128, bw as i128, bh as i128);
    if !touches(nx, ny, sw, sh, ox, oy, ow, oh) {
        return collisions;
    }
    if collides1d(sx, sw, ox, ow) {
        let from_below = within(oy, oh, ny + sh) || now_past(oy, sy, ny, sh);
        let from_above = within(oy, oh, ny) || now_before(oy + oh, sy, ny);
        if from_below && !from_above {
            collisions.north = min_opt(collisions.north, Some(by - eh));
        } else if !from_below && from_above {
            collisions.south = max_opt(collisions.south, Some(by + bh));
        }
    }
    if collides1d(sy, sh, oy, oh) {
        let from_left = within(ox, ow, nx + sw) || now_past(ox, sx, nx, sw);
        let from_right = within(ox, ow, nx) || now_before(ox + ow, sx, nx);
        if from_left && !from_right {
            collisions.east = min_opt(collisions.east, Some(bx - ew));
        } else if !from_left && from_right {
            collisions.west = max_opt(collisions.west, Some(bx + bw));
        }
    }
    collisions
}

/// Resolves one step of the moving `entity` against the obstacles `blocks`.
///
/// The entity stands at its own bounds and proposes to move its minimum
/// corner to `(next_x, next_y)`. The result holds, for each side, the
/// tightest limit among the obstacles that block that side: the lowest
/// ceiling, the highest floor, the nearest wall to the right and to the left.
/// The order of the obstacles does not matter.
pub fn collides<E: HasBounds, T: HasBounds>(
    entity: &E,
    next_x: i64,
    next_y: i64,
    blocks: &[T],
) -> (c: Collisions)
    requires
        valid_extent(entity.bounds()),
        valid_obstacles(rects(blocks@)),
    ensures
        resolved(entity.bounds(), next_x as int, next_y as int, rects(blocks@), c),
{
    let mut collisions = Collisions::default();
    let ex = entity.min_x();
    let ey = entity.min_y();
    let ew = entity.len_x();
    let eh = entity.len_y();
    let ghost e = entity.bounds();
    let ghost s = rects(blocks@);
    let mut i: usize = 0;
    while i < blocks.len()
        invariant
            i <= blocks@.len(),
            s == rects(blocks@),
            e == entity.bounds(),
            e == (Rect { min_x: ex as int, min_y: ey as int, len_x: ew as int, len_y: eh as int }),
            valid_extent(e),
            valid_obstacles(s),
            resolved(e, next_x as int, next_y as int, s.take(i as int), collisions),
        decreases blocks@.len() - i,
    {
        let block = &blocks[i];
        let ghost b = s[i as int];
        assert(b == block.bounds());
        let found = collisions;
        collisions =
        fold_block(
            found,
            ex,
            ey,
            ew,
            eh,
            next_x,
            next_y,
            block.min_x(),
            block.min_y(),
            block.len_x(),
            block.len_y(),
        );
        proof {
            let t = s.take(i as int);
            assert(s.take(i + 1) == t.push(b));
            lemma_tightest_push(Side::North, e, next_x as int, next_y as int, t, b, found.north);
            lemma_tightest_push(Side::South, e, next_x as int, next_y as int, t, b, found.south);
            lemma_tightest_push(Side::East, e, next_x as int, next_y as int, t, b, found.east);
            lemma_tightest_push(Side::West, e, next_x as int, next_y as int, t, b, found.west);
        }
        i = i + 1;
    }
    assert(s.take(i as int) == s);
    collisions
}

/// One step has one outcome: two results that both describe the step over
/// the same obstacles are equal.
pub proof fn lemma_resolved_unique(e: Rect, nx: int, ny: int, s: Seq<Rect>, c1: Collisions, c2: Collisions)
    requires
        resolved(e, nx, ny, s, c1),
        resolved(e, nx, ny, s, c2),
    ensures
        c1 == c2,
{
    lemma_tightest_unique(Side::North, e, nx, ny, s, c1.north, c2.north);
    lemma_tightest_unique(Side::South, e, nx, ny, s, c1.south, c2.south);
    lemma_tightest_unique(Side::East, e, nx, ny, s, c1.east, c2.east);
    lemma_tightest_unique(Side::West, e, nx, ny, s, c1.west, c2.west);
}

proof fn lemma_tightest_unique(
    side: Side,
    e: Rect,
    nx: int,
    ny: int,
    s: Seq<Rect>,
    r1: Option<i64>,
    r2: Option<i64>,
)
    requires
        tightest(side, e, nx, ny, s, r1),
        tightest(side, e, nx, ny, s, r2),
    ensures
        r1 == r2,
{
    match (r1, r2) {
        (Some(v1), Some(v2)) => {
            let i = choose|i: int|
                0 <= i < s.len() && blocks(side, e, nx, ny, #[trigger] s[i]) && limit(
                    side,
                    e,
                    s[i],
                ) == v1;
            let j = choose|j: int|
                0 <= j < s.len() && blocks(side, e, nx, ny, #[trigger] s[j]) && limit(
                    side,
                    e,
                    s[j],
                ) == v2;
            assert(at_least_as_tight(side, v1 as int, limit(side, e, s[j])));
            assert(at_least_as_tight(side, v2 as int, limit(side, e, s[i])));
        },
        (Some(v1), None) => {
            let i = choose|i: int|
                0 <= i < s.len() && blocks(side, e, nx, ny, #[trigger] s[i]) && limit(
                    side,
                    e,
                    s[i],
                ) == v1;
            assert(!blocks(side, e, nx, ny, s[i]));
        },
        (None, Some(v2)) => {
            let j = choose|j: int|
                0 <= j < s.len() && blocks(side, e, nx, ny, #[trigger] s[j]) && limit(
                    side,
                    e,
                    s[j],
                ) == v2;
            assert(!blocks(side, e, nx, ny, s[j]));
        },
        (None, None) => {},
    }
}

/// Every step among valid obstacles has an outcome.
pub proof fn lemma_resolution_resolves(e: Rect, nx: int, ny: int, s: Seq<Rect>)
    requires
        valid_extent(e),
        valid_obstacles(s),
    ensures
        resolved(e, nx, ny, s, resolution(e, nx, ny, s)),
    decreases s.len(),
{
    if s.len() == 0 {
        let c = Collisions { north: None, south: None, east: None, west: None };
        assert(resolved(e, nx, ny, s, c));
    } else {
        let rest = s.drop_last();
        let b = s.last();
        lemma_resolution_resolves(e, nx, ny, rest);
        let c0 = resolution(e, nx, ny, rest);
        let c = Collisions {
            north: with_obstacle(Side::North, e, nx, ny, b, c0.north),
            south: with_obstacle(Side::South, e, nx, ny, b, c0.south),
            east: with_obstacle(Side::East, e, nx, ny, b, c0.east),
            west: with_obstacle(Side::West, e, nx, ny, b, c0.west),
        };
        assert(valid_obstacle(b));
        lemma_tightest_push(Side::North, e, nx, ny, rest, b, c0.north);
        lemma_tightest_push(Side::South, e, nx, ny, rest, b, c0.south);
        lemma_tightest_push(Side::East, e, nx, ny, rest, b, c0.east);
        lemma_tightest_push(Side::West, e, nx, ny, rest, b, c0.west);
        assert(rest.push(b) == s);
        assert(resolved(e, nx, ny, s, c));
    }
}

/// Whatever describes the step is its outcome.
pub proof fn lemma_resolved_is_resolution(e: Rect, nx: int, ny: int, s: Seq<Rect>, c: Collisions)
    requires
        resolved(e, nx, ny, s, c),
    ensures
        c == resolution(e, nx, ny, s),
{
    lemma_resolved_unique(e, nx, ny, s, c, resolution(e, nx, ny, s));
}

/// Without obstacles nothing stops the box, wherever it stands and wherever
/// it proposes to go.
pub proof fn lemma_no_obstacles_is_clear(e: Rect, nx: int, ny: int, c: Collisions)
    requires
        resolved(e, nx, ny, Seq::<Rect>::empty(), c),
    ensures
        c.is_clear(),
{
}

/// A box that touches no obstacle, neither where it stands nor where it
/// proposes to go, is stopped on no side.
pub proof fn lemma_disjoint_is_clear(e: Rect, nx: int, ny: int, s: Seq<Rect>, c: Collisions)
    requires
        forall|i: int|
            0 <= i < s.len() ==> !touching(e, e.min_x, e.min_y, #[trigger] s[i]) && !touching(
                e,
                nx,
                ny,
                s[i],
            ),
        resolved(e, nx, ny, s, c),
    ensures
        c.is_clear(),
{
}

/// A floor that is found is the top edge of one of the obstacles that block
/// the south side, and no obstacle that blocks that side reaches higher. The
/// lemma returns the index of such an obstacle.
pub proof fn lemma_floor_is_a_top_edge(
    e: Rect,
    nx: int,
    ny: int,
    s: Seq<Rect>,
    c: Collisions,
) -> (floor: int)
    requires
        resolved(e, nx, ny, s, c),
        c.south is Some,
    ensures
        0 <= floor < s.len(),
        blocks(Side::South, e, nx, ny, s[floor]),
        c.south == Some((s[floor].min_y + s[floor].len_y) as i64),
        c.south->0 == s[floor].min_y + s[floor].len_y,
        forall|i: int|
            0 <= i < s.len() && blocks(Side::South, e, nx, ny, #[trigger] s[i]) ==> s[i].min_y
                + s[i].len_y <= c.south->0,
{
    let v = c.south->0;
    choose|i: int|
        0 <= i < s.len() && blocks(Side::South, e, nx, ny, #[trigger] s[i]) && limit(
            Side::South,
            e,
            s[i],
        ) == v
}

/// The outcome over two sets of obstacles taken together is the merge of
/// the outcomes over each.
pub proof fn lemma_resolved_merged(
    e: Rect,
    nx: int,
    ny: int,
    s1: Seq<Rect>,
    s2: Seq<Rect>,
    c1: Collisions,
    c2: Collisions,
)
    requires
        resolved(e, nx, ny, s1, c1),
        resolved(e, nx, ny, s2, c2),
    ensures
        resolved(e, nx, ny, s1 + s2, c1.merged(c2)),
{
    lemma_tightest_merged(Side::North, e, nx, ny, s1, s2, c1.north, c2.north);
    lemma_tightest_merged(Side::South, e, nx, ny, s1, s2, c1.south, c2.south);
    lemma_tightest_merged(Side::East, e, nx, ny, s1, s2, c1.east, c2.east);
    lemma_tightest_merged(Side::West, e, nx, ny, s1, s2, c1.west, c2.west);
}

proof fn lemma_tightest_merged(
    side: Side,
    e: Rect,
    nx: int,
    ny: int,
    s1: Seq<Rect>,
    s2: Seq<Rect>,
    r1: Option<i64>,
    r2: Option<i64>,
)
    requires
        tightest(side, e, nx, ny, s1, r1),
        tightest(side, e, nx, ny, s2, r2),
    ensures
        tightest(side, e, nx, ny, s1 + s2, tighter(side, r1, r2)),
{
    let s = s1 + s2;
    let r = tighter(side, r1, r2);
    assert forall|i: int| 0 <= i < s1.len() implies #[trigger] s[i] == s1[i] by {}
    assert forall|i: int| 0 <= i < s2.len() implies #[trigger] s[s1.len() + i] == s2[i] by {}
    match r {
        None => {
            assert forall|i: int| 0 <= i < s.len() implies !blocks(
                side,
                e,
                nx,
                ny,
                #[trigger] s[i],
            ) by {
                if i < s1.len() {
                    assert(s[i] == s1[i]);
                } else {
                    assert(s[i] == s2[i - s1.len()]);
                }
            }
        },
        Some(v) => {
            if r1 == Some(v) {
                let j = choose|j: int|
                    0 <= j < s1.len() && blocks(side, e, nx, ny, #[trigger] s1[j]) && limit(
                        side,
                        e,
                        s1[j],
                    ) == v;
                assert(s[j] == s1[j]);
                assert(blocks(side, e, nx, ny, s[j]) && limit(side, e, s[j]) == v);
            } else {
                let j = choose|j: int|
                    0 <= j < s2.len() && blocks(side, e, nx, ny, #[trigger] s2[j]) && limit(
                        side,
                        e,
                        s2[j],
                    ) == v;
                assert(s[s1.len() + j] == s2[j]);
                assert(blocks(side, e, nx, ny, s[s1.len() + j]) && limit(
                    side,
                    e,
                    s[s1.len() + j],
                ) == v);
            }
            assert forall|i: int|
                0 <= i < s.len() && blocks(side, e, nx, ny, #[trigger] s[i]) implies at_least_as_tight(
                side,
                v as int,
                limit(side, e, s[i]),
            ) by {
                if i < s1.len() {
                    assert(s[i] == s1[i]);
                } else {
                    assert(s[i] == s2[i - s1.len()]);
                }
            }
        },
    }
}

/// The outcome depends on which obstacles there are, not on their order or
/// on how often each is listed.
pub proof fn lemma_resolved_any_order(
    e: Rect,
    nx: int,
    ny: int,
    s1: Seq<Rect>,
    s2: Seq<Rect>,
    c: Collisions,
)
    requires
        forall|i: int| 0 <= i < s1.len() ==> s2.contains(#[trigger] s1[i]),
        forall|j: int| 0 <= j < s2.len() ==> s1.contains(#[trigger] s2[j]),
        resolved(e, nx, ny, s1, c),
    ensures
        resolved(e, nx, ny, s2, c),
{
    lemma_tightest_any_order(Side::North, e, nx, ny, s1, s2, c.north);
    lemma_tightest_any_order(Side::South, e, nx, ny, s1, s2, c.south);
    lemma_tightest_any_order(Side::East, e, nx, ny, s1, s2, c.east);
    lemma_tightest_any_order(Side::West, e, nx, ny, s1, s2, c.west);
}

proof fn lemma_tightest_any_order(
    side: Side,
    e: Rect,
    nx: int,
    ny: int,
    s1: Seq<Rect>,
    s2: Seq<Rect>,
    r: Option<i64>,
)
    requires
        forall|i: int| 0 <= i < s1.len() ==> s2.contains(#[trigger] s1[i]),
        forall|j: int| 0 <= j < s2.len() ==> s1.contains(#[trigger] s2[j]),
        tightest(side, e, nx, ny, s1, r),
    ensures
        tightest(side, e, nx, ny, s2, r),
{
    match r {
        None => {
            assert forall|j: int| 0 <= j < s2.len() implies !blocks(
                side,
                e,
                nx,
                ny,
                #[trigger] s2[j],
            ) by {
                assert(s1.contains(s2[j]));
                let i = choose|i: int| 0 <= i < s1.len() && s1[i] == s2[j];
                assert(!blocks(side, e, nx, ny, s1[i]));
            }
        },
        Some(v) => {
            let i = choose|i: int|
                0 <= i < s1.len() && blocks(side, e, nx, ny, #[trigger] s1[i]) && limit(
                    side,
                    e,
                    s1[i],
                ) == v;
            assert(s2.contains(s1[i]));
            let j = choose|j: int| 0 <= j < s2.len() && s2[j] == s1[i];
            assert(blocks(side, e, nx, ny, s2[j]) && limit(side, e, s2[j]) == v);
            assert forall|j: int|
                0 <= j < s2.len() && blocks(side, e, nx, ny, #[trigger] s2[j]) implies at_least_as_tight(
                side,
                v as int,
                limit(side, e, s2[j]),
            ) by {
                assert(s1.contains(s2[j]));
                let i = choose|i: int| 0 <= i < s1.len() && s1[i] == s2[j];
                assert(blocks(side, e, nx, ny, s1[i]));
            }
        },
    }
}

/// The box `e`, on its way to `(nx, ny)`, runs into the obstacle `b` on the
/// given side within this one step and does not pass through it: before the
/// step the box lies wholly on its own side of the obstacle's near face,
/// after it the box's leading edge lies within the obstacle, and its
/// trailing edge has stayed outside. This is what steps that are short
/// against the obstacle's thickness look like.
pub open spec fn runs_into(side: Side, e: Rect, nx: int, ny: int, b: Rect) -> bool {
    match side {
        Side::South => {
            &&& e.min_y >= b.min_y + b.len_y
            &&& b.min_y <= ny < b.min_y + b.len_y
            &&& ny + e.len_y > b.min_y + b.len_y
        },
        Side::North => {
            &&& e.min_y + e.len_y <= b.min_y
            &&& b.min_y < ny + e.len_y <= b.min_y + b.len_y
            &&& ny < b.min_y
        },
        Side::West => {
            &&& e.min_x >= b.min_x + b.len_x
            &&& b.min_x <= nx < b.min_x + b.len_x
            &&& nx + e.len_x > b.min_x + b.len_x
        },
        Side::East => {
            &&& e.min_x + e.len_x <= b.min_x
            &&& b.min_x < nx + e.len_x <= b.min_x + b.len_x
            &&& nx < b.min_x
        },
    }
}

/// The box `e` faces the obstacle `b` across the given side: on the other
/// axis the two overlap properly where the box stands, and at least touch
/// where it proposes to go.
pub open spec fn faces(side: Side, e: Rect, nx: int, ny: int, b: Rect) -> bool {
    match side {
        Side::North | Side::South => {
            &&& spans_overlap(e.min_x, e.len_x, b.min_x, b.len_x)
            &&& spans_touch(nx, e.len_x, b.min_x, b.len_x)
        },
        Side::East | Side::West => {
            &&& spans_overlap(e.min_y, e.len_y, b.min_y, b.len_y)
            &&& spans_touch(ny, e.len_y, b.min_y, b.len_y)
        },
    }
}

/// Nothing is passed through in a short step. If the box faces an obstacle
/// and runs into it within the step, the obstacle blocks that side, and the
/// limit that the step finds on that side keeps the box out of the
/// obstacle: it is the resting position against that obstacle or a tighter
/// one.
pub proof fn lemma_no_tunnelling(
    side: Side,
    e: Rect,
    nx: int,
    ny: int,
    s: Seq<Rect>,
    c: Collisions,
    i: int,
)
    requires
        0 <= i < s.len(),
        0 <= e.len_x,
        0 <= e.len_y,
        0 <= s[i].len_x,
        0 <= s[i].len_y,
        faces(side, e, nx, ny, s[i]),
        runs_into(side, e, nx, ny, s[i]),
        resolved(e, nx, ny, s, c),
    ensures
        blocks(side, e, nx, ny, s[i]),
        match side {
            Side::North => c.north matches Some(v) && v <= s[i].min_y - e.len_y,
            Side::South => c.south matches Some(v) && v >= s[i].min_y + s[i].len_y,
            Side::East => c.east matches Some(v) && v <= s[i].min_x - e.len_x,
            Side::West => c.west matches Some(v) && v >= s[i].min_x + s[i].len_x,
        },
{
    assert(blocks(side, e, nx, ny, s[i]));
}

/// The two axes are treated alike: with the axes exchanged, an obstacle
/// blocks the side that takes the place of the one it blocked, and at the
/// same limit.
pub proof fn lemma_axes_are_alike(side: Side, e: Rect, nx: int, ny: int, b: Rect)
    ensures
        blocks(side.transposed(), e.transposed(), ny, nx, b.transposed()) == blocks(
            side,
            e,
            nx,
            ny,
            b,
        ),
        limit(side.transposed(), e.transposed(), b.transposed()) == limit(side, e, b),
{
}

/// Only relative positions count: when the box, the position it proposes
/// and the obstacle are all moved by `(dx, dy)`, the obstacle blocks the
/// sides that it blocked, and the limits move along.
pub proof fn lemma_moving_all_changes_nothing(
    side: Side,
    e: Rect,
    nx: int,
    ny: int,
    b: Rect,
    dx: int,
    dy: int,
)
    ensures
        blocks(side, e.moved(dx, dy), nx + dx, ny + dy, b.moved(dx, dy)) == blocks(
            side,
            e,
            nx,
            ny,
            b,
        ),
        limit(side, e.moved(dx, dy), b.moved(dx, dy)) == limit(side, e, b) + match side {
            Side::North | Side::South => dy,
            Side::East | Side::West => dx,
        },
{
}

/// Merging outcomes does not depend on the order in which they are merged,
/// nor on how they are grouped, and an outcome that is clear changes
/// nothing: outcomes over parts of the obstacles can be combined in any
/// way.
pub proof fn lemma_merge_any_way(a: Collisions, b: Collisions, c: Collisions)
    ensures
        a.merged(b) == b.merged(a),
        a.merged(b).merged(c) == a.merged(b.merged(c)),
        b.is_clear() ==> a.merged(b) == a,
        a.merged(a) == a,
{
}

/// Sliding along a surface is free. An obstacle whose span on one axis
/// merely touches the box's span where the box stands, or lies apart from
/// it, does not block the box on the other axis, wherever the box proposes
/// to go.
pub proof fn lemma_flush_obstacle_does_not_snag(e: Rect, nx: int, ny: int, b: Rect)
    ensures
        e.min_x + e.len_x <= b.min_x || b.min_x + b.len_x <= e.min_x ==> !blocks(
            Side::North,
            e,
            nx,
            ny,
            b,
        ) && !blocks(Side::South, e, nx, ny, b),
        e.min_y + e.len_y <= b.min_y || b.min_y + b.len_y <= e.min_y ==> !blocks(
            Side::East,
            e,
            nx,
            ny,
            b,
        ) && !blocks(Side::West, e, nx, ny, b),
{
}

/// Opposite sides are treated alike: in a mirror, an obstacle blocks the
/// side opposite to the one it blocked, and the box comes to rest at the
/// mirror image of where it rested.
pub proof fn lemma_opposite_sides_are_alike(side: Side, e: Rect, nx: int, ny: int, b: Rect)
    ensures
        blocks(
            side.opposite(),
            e.mirrored(),
            -(nx + e.len_x),
            -(ny + e.len_y),
            b.mirrored(),
        ) == blocks(side, e, nx, ny, b),
        limit(side.opposite(), e.mirrored(), b.mirrored()) == -(limit(side, e, b) + match side {
            Side::North | Side::South => e.len_y,
            Side::East | Side::West => e.len_x,
        }),
{
}

} // verus!
