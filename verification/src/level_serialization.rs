//! A level as its file describes it: where the player starts, the rectangle
//! that can be played in, and the platforms.
//!
//! A level file is text. Its first line gives the starting point, its
//! second the boundaries, and each further line one platform:
//!
//! ```text
//! start: 10.0,20.0
//! bounds: -100.0,0.0,500.0,300.0
//! platform.box: 0.0,0.0,50.0,10.0
//! platform.line: 60.0,0.0,e,25.0
//! ```
//!
//! [`split_level`] finds the lines and the number fields in them. What
//! number a field's text stands for is for the caller to say.

use vstd::prelude::*;
use vstd::string::StringSliceAdditionalSpecFns;
use crate::collisions::{valid_obstacle, is_valid_obstacle, Rect};
use crate::fixed::{COORD_MAX, UNIT};

verus! {

/// The direction in which a line platform runs from its starting point.
#[derive(Debug, Clone, Copy)]
pub enum Direction {
    North,
    East,
}

impl Direction {
    /// The letter that stands for this direction in a level file.
    pub open spec fn letter(self) -> char {
        match self {
            Direction::North => 'n',
            Direction::East => 'e',
        }
    }

    /// The direction as a level file writes it: `"n"` or `"e"`.
    pub fn to_string(&self) -> (s: String)
        ensures
            s@ == seq![self.letter()],
    {
        proof {
            reveal_strlit("n");
            reveal_strlit("e");
        }
        let s = match self {
            Direction::North => "n".to_owned(),
            Direction::East => "e".to_owned(),
        };
        assert(s@ =~= seq![self.letter()]);
        s
    }
}

/// One platform of a level.
#[derive(Debug, Clone, Copy)]
pub enum LevelItem {
    /// A rectangle given by its minimum corner and its size.
    Box { x: i64, y: i64, width: i64, height: i64 },
    /// A line one unit thick that runs `length` from `(x, y)`.
    Line { x: i64, y: i64, direction: Direction, length: i64 },
}

impl LevelItem {
    /// The box that the platform occupies.
    pub open spec fn rect(self) -> Rect {
        match self {
            LevelItem::Box { x, y, width, height } => Rect {
                min_x: x as int,
                min_y: y as int,
                len_x: width as int,
                len_y: height as int,
            },
            LevelItem::Line { x, y, direction: Direction::North, length } => Rect {
                min_x: x as int,
                min_y: y as int,
                len_x: UNIT as int,
                len_y: length as int,
            },
            LevelItem::Line { x, y, direction: Direction::East, length } => Rect {
                min_x: x as int,
                min_y: y as int,
                len_x: length as int,
                len_y: UNIT as int,
            },
        }
    }

    /// Whether the platform is a valid obstacle.
    pub fn is_valid(&self) -> (b: bool)
        ensures
            b == valid_obstacle(self.rect()),
    {
        match *self {
            LevelItem::Box { x, y, width, height } => is_valid_obstacle(x, y, width, height),
            LevelItem::Line { x, y, direction, length } => match direction {
                Direction::North => is_valid_obstacle(x, y, UNIT, length),
                Direction::East => is_valid_obstacle(x, y, length, UNIT),
            },
        }
    }
}

/// A level: the player's starting point, the platforms, and the boundaries
/// of the rectangle that can be played in.
#[derive(Debug, Clone)]
pub struct Level {
    pub initial_x: i64,
    pub initial_y: i64,
    pub items: Vec<LevelItem>,
    pub east_boundary: i64,
    pub south_boundary: i64,
    pub north_boundary: i64,
    pub west_boundary: i64,
}

impl Level {
    /// The boundaries enclose a rectangle, possibly empty, that leaves room
    /// for a wall one unit thick on each of its sides.
    pub open spec fn boundaries_wf(self) -> bool {
        &&& UNIT - COORD_MAX <= self.west_boundary <= self.east_boundary <= COORD_MAX - UNIT
        &&& UNIT - COORD_MAX <= self.south_boundary <= self.north_boundary <= COORD_MAX - UNIT
    }

    /// The level's geometry is well formed: every platform is a valid
    /// obstacle, and so are the walls around the boundaries.
    pub open spec fn wf(self) -> bool {
        &&& self.boundaries_wf()
        &&& forall|i: int| 0 <= i < self.items@.len() ==> valid_obstacle(#[trigger] self.items@[i].rect())
    }

    /// Whether the level's geometry is well formed.
    pub fn is_valid(&self) -> (b: bool)
        ensures
            b == self.wf(),
    {
        if !(UNIT - COORD_MAX <= self.west_boundary && self.west_boundary <= self.east_boundary
            && self.east_boundary <= COORD_MAX - UNIT) {
            return false;
        }
        if !(UNIT - COORD_MAX <= self.south_boundary && self.south_boundary <= self.north_boundary
            && self.north_boundary <= COORD_MAX - UNIT) {
            return false;
        }
        let mut i: usize = 0;
        while i < self.items.len()
            invariant
                i <= self.items@.len(),
                self.boundaries_wf(),
                forall|j: int| 0 <= j < i ==> valid_obstacle(#[trigger] self.items@[j].rect()),
            decreases self.items@.len() - i,
        {
            if !self.items[i].is_valid() {
                return false;
            }
            i = i + 1;
        }
        true
    }
}

/// The place of one number in the text of a level: the bytes from `start`
/// up to, and without, `end`.
#[derive(Copy, Clone, Debug, PartialEq, Eq, Structural)]
pub struct Field {
    pub start: usize,
    pub end: usize,
}

/// The number fields of one platform line.
#[derive(Copy, Clone, Debug)]
pub enum ItemFields {
    Box { x: Field, y: Field, width: Field, height: Field },
    Line { x: Field, y: Field, direction: Direction, length: Field },
}

/// The number fields of a level file.
#[derive(Debug, Clone)]
pub struct LevelFields {
    pub initial_x: Field,
    pub initial_y: Field,
    pub west_boundary: Field,
    pub south_boundary: Field,
    pub east_boundary: Field,
    pub north_boundary: Field,
    pub items: Vec<ItemFields>,
}

/// The number fields of a level file, as the contracts see them.
pub struct LevelLayout {
    pub initial_x: Field,
    pub initial_y: Field,
    pub west_boundary: Field,
    pub south_boundary: Field,
    pub east_boundary: Field,
    pub north_boundary: Field,
    pub items: Seq<ItemFields>,
}

impl View for LevelFields {
    type V = LevelLayout;

    open spec fn view(&self) -> LevelLayout {
        LevelLayout {
            initial_x: self.initial_x,
            initial_y: self.initial_y,
            west_boundary: self.west_boundary,
            south_boundary: self.south_boundary,
            east_boundary: self.east_boundary,
            north_boundary: self.north_boundary,
            items: self.items@,
        }
    }
}

impl Field {
    /// The field lies within a text of `len` bytes.
    pub open spec fn within(self, len: nat) -> bool {
        self.start <= self.end <= len
    }
}

impl ItemFields {
    /// All fields of the line lie within a text of `len` bytes.
    pub open spec fn within(self, len: nat) -> bool {
        match self {
            ItemFields::Box { x, y, width, height } => x.within(len) && y.within(len)
                && width.within(len) && height.within(len),
            ItemFields::Line { x, y, direction, length } => x.within(len) && y.within(len)
                && length.within(len),
        }
    }
}

impl LevelLayout {
    /// All fields of the level lie within a text of `len` bytes.
    pub open spec fn within(self, len: nat) -> bool {
        &&& self.initial_x.within(len)
        &&& self.initial_y.within(len)
        &&& self.west_boundary.within(len)
        &&& self.south_boundary.within(len)
        &&& self.east_boundary.within(len)
        &&& self.north_boundary.within(len)
        &&& forall|i: int| 0 <= i < self.items.len() ==> (#[trigger] self.items[i]).within(len)
    }
}

/// A space or a tab, and with `lines` also a line feed or a carriage return.
pub open spec fn is_blank(b: u8, lines: bool) -> bool {
    b == 32 || b == 9 || (lines && (b == 10 || b == 13))
}

/// The first position at or after `pos` that holds no blank, or the end of
/// the text.
pub open spec fn after_blanks(s: Seq<u8>, pos: int, lines: bool) -> int
    decreases s.len() - pos,
{
    if 0 <= pos < s.len() && is_blank(s[pos], lines) {
        after_blanks(s, pos + 1, lines)
    } else {
        pos
    }
}

/// The first position at or after `pos` that holds the byte `b`.
pub open spec fn position_of(s: Seq<u8>, pos: int, b: u8) -> Option<int>
    decreases s.len() - pos,
{
    if pos < 0 || pos >= s.len() {
        None
    } else if s[pos] == b {
        Some(pos)
    } else {
        position_of(s, pos + 1, b)
    }
}

/// The text holds `word` at `pos`.
pub open spec fn has_word(s: Seq<u8>, pos: int, word: Seq<u8>) -> bool {
    &&& 0 <= pos
    &&& pos + word.len() <= s.len()
    &&& s.subrange(pos, pos + word.len()) == word
}

/// A field that begins at `pos` and runs up to the next `stop`, and the
/// position behind that `stop`.
pub open spec fn field_at(s: Seq<u8>, pos: int, stop: u8) -> Option<(Field, int)> {
    match position_of(s, pos, stop) {
        Some(end) => Some((Field { start: pos as usize, end: end as usize }, end + 1)),
        None => None,
    }
}

/// The beginning of a line: the line's name, a colon, and blanks around the
/// colon at will. The result is the position behind them.
pub open spec fn heading_at(s: Seq<u8>, pos: int, name: Seq<u8>) -> Option<int> {
    if has_word(s, pos, name) {
        let colon = after_blanks(s, pos + name.len(), false);
        if colon < s.len() && s[colon] == 58 {
            Some(after_blanks(s, colon + 1, false))
        } else {
            None
        }
    } else {
        None
    }
}

/// A run of `count` fields from `pos` on. A comma ends each of them but
/// the last, which `last_stop` ends. The result holds the fields and the
/// position behind the run.
pub open spec fn fields_at(s: Seq<u8>, pos: int, count: nat, last_stop: u8) -> Option<
    (Seq<Field>, int),
>
    decreases count,
{
    if count == 0 {
        Some((Seq::empty(), pos))
    } else {
        match field_at(s, pos, if count == 1 { last_stop } else { 44u8 }) {
            Some((f, next)) => match fields_at(s, next, (count - 1) as nat, last_stop) {
                Some((rest, end)) => Some((seq![f] + rest, end)),
                None => None,
            },
            None => None,
        }
    }
}

/// The line `platform.box: x,y,width,height`.
pub open spec fn box_at(s: Seq<u8>, pos: int) -> Option<(ItemFields, int)> {
    match heading_at(s, pos, "platform.box".spec_bytes()) {
        Some(p) => match fields_at(s, p, 4, 10) {
            Some((f, end)) => Some(
                (ItemFields::Box { x: f[0], y: f[1], width: f[2], height: f[3] }, end),
            ),
            None => None,
        },
        None => None,
    }
}

/// The letter of a direction, followed by a comma.
pub open spec fn direction_at(s: Seq<u8>, pos: int) -> Option<Direction> {
    if 0 <= pos && pos + 1 < s.len() && s[pos + 1] == 44 {
        if s[pos] == 110 {
            Some(Direction::North)
        } else if s[pos] == 101 {
            Some(Direction::East)
        } else {
            None
        }
    } else {
        None
    }
}

/// The line `platform.line: x,y,direction,length`.
pub open spec fn line_at(s: Seq<u8>, pos: int) -> Option<(ItemFields, int)> {
    match heading_at(s, pos, "platform.line".spec_bytes()) {
        Some(p) => match fields_at(s, p, 2, 44) {
            Some((f, q)) => match direction_at(s, q) {
                Some(direction) => match fields_at(s, q + 2, 1, 10) {
                    Some((l, end)) => Some(
                        (ItemFields::Line { x: f[0], y: f[1], direction, length: l[0] }, end),
                    ),
                    None => None,
                },
                None => None,
            },
            None => None,
        },
        None => None,
    }
}

/// A platform line of either kind.
pub open spec fn item_at(s: Seq<u8>, pos: int) -> Option<(ItemFields, int)> {
    match box_at(s, pos) {
        Some(found) => Some(found),
        None => line_at(s, pos),
    }
}

/// The platform lines that follow one another from `pos` on, and the
/// position behind the last of them.
pub open spec fn items_at(s: Seq<u8>, pos: int) -> (Seq<ItemFields>, int)
    decreases s.len() - pos,
{
    match item_at(s, pos) {
        Some((item, next)) => if pos < next <= s.len() {
            let (rest, end) = items_at(s, next);
            (seq![item] + rest, end)
        } else {
            (Seq::empty(), pos)
        },
        None => (Seq::empty(), pos),
    }
}

/// The layout of the level file `s`, if it is one: the line `start`, the
/// line `bounds`, and the platform lines, which follow one another without
/// anything in between. Blank lines may stand around the line `bounds` and
/// at the end, and nothing else may follow.
pub open spec fn level_layout(s: Seq<u8>) -> Option<LevelLayout> {
    match heading_at(s, 0, "start".spec_bytes()) {
        Some(p) => match fields_at(s, p, 2, 10) {
            Some((start, q)) => match heading_at(
                s,
                after_blanks(s, q, true),
                "bounds".spec_bytes(),
            ) {
                Some(r) => match fields_at(s, r, 4, 10) {
                    Some((bounds, t)) => {
                        let (items, end) = items_at(s, after_blanks(s, t, true));
                        if after_blanks(s, end, true) == s.len() {
                            Some(
                                LevelLayout {
                                    initial_x: start[0],
                                    initial_y: start[1],
                                    west_boundary: bounds[0],
                                    south_boundary: bounds[1],
                                    east_boundary: bounds[2],
                                    north_boundary: bounds[3],
                                    items,
                                },
                            )
                        } else {
                            None
                        }
                    },
                    None => None,
                },
                None => None,
            },
            None => None,
        },
        None => None,
    }
}

/// See [`after_blanks`].
fn skip_blanks(input: &[u8], pos: usize, lines: bool) -> (next: usize)
    requires
        pos <= input@.len(),
    ensures
        next == after_blanks(input@, pos as int, lines),
        pos <= next <= input@.len(),
{
    let mut next = pos;
    while next < input.len() && (input[next] == 32 || input[next] == 9 || (lines && (input[next]
        == 10 || input[next] == 13)))
        invariant
            pos <= next <= input@.len(),
            after_blanks(input@, pos as int, lines) == after_blanks(input@, next as int, lines),
        decreases input@.len() - next,
    {
        next = next + 1;
    }
    next
}

/// See [`position_of`].
fn find_byte(input: &[u8], pos: usize, b: u8) -> (found: Option<usize>)
    requires
        pos <= input@.len(),
    ensures
        found matches Some(i) ==> position_of(input@, pos as int, b) == Some(i as int) && pos <= i
            < input@.len(),
        found is None ==> position_of(input@, pos as int, b) is None,
{
    let mut i = pos;
    while i < input.len()
        invariant
            pos <= i <= input@.len(),
            position_of(input@, pos as int, b) == position_of(input@, i as int, b),
        decreases input@.len() - i,
    {
        if input[i] == b {
            return Some(i);
        }
        i = i + 1;
    }
    None
}

/// See [`has_word`].
fn starts_with(input: &[u8], pos: usize, word: &[u8]) -> (b: bool)
    requires
        pos <= input@.len(),
    ensures
        b == has_word(input@, pos as int, word@),
{
    let len = input.len();
    if word.len() > len - pos {
        return false;
    }
    let mut i: usize = 0;
    while i < word.len()
        invariant
            i <= word@.len(),
            pos + word@.len() <= input@.len() == len,
            forall|j: int| 0 <= j < i ==> input@[pos + j] == word@[j],
        decreases word@.len() - i,
    {
        if input[pos + i] != word[i] {
            assert(input@.subrange(pos as int, pos + word@.len())[i as int] != word@[i as int]);
            return false;
        }
        i = i + 1;
    }
    assert(input@.subrange(pos as int, pos + word@.len()) =~= word@);
    true
}

/// See [`field_at`].
fn take_field(input: &[u8], pos: usize, stop: u8) -> (found: Option<(Field, usize)>)
    requires
        pos <= input@.len(),
    ensures
        found matches Some((f, next)) ==> field_at(input@, pos as int, stop) == Some(
            (f, next as int),
        ) && f.start == pos && f.start <= f.end < next <= input@.len(),
        found is None ==> field_at(input@, pos as int, stop) is None,
{
    let len = input.len();
    match find_byte(input, pos, stop) {
        Some(end) => Some((Field { start: pos, end }, end + 1)),
        None => None,
    }
}

/// See [`heading_at`].
fn take_heading(input: &[u8], pos: usize, name: &str) -> (found: Option<usize>)
    requires
        pos <= input@.len(),
    ensures
        found matches Some(next) ==> heading_at(input@, pos as int, name.spec_bytes()) == Some(
            next as int,
        ) && pos < next <= input@.len(),
        found is None ==> heading_at(input@, pos as int, name.spec_bytes()) is None,
{
    let word = name.as_bytes();
    let len = input.len();
    if !starts_with(input, pos, word) {
        return None;
    }
    let colon = skip_blanks(input, pos + word.len(), false);
    if colon < input.len() && input[colon] == 58 {
        Some(skip_blanks(input, colon + 1, false))
    } else {
        None
    }
}

/// See [`fields_at`].
fn take_fields(input: &[u8], pos: usize, count: usize, last_stop: u8) -> (found: Option<
    (Vec<Field>, usize),
>)
    requires
        pos <= input@.len(),
    ensures
        found matches Some((f, next)) ==> fields_at(
            input@,
            pos as int,
            count as nat,
            last_stop,
        ) == Some(
            (f@, next as int),
        ) && f@.len() == count && pos <= next <= input@.len() && (count > 0 ==> pos < next),
        found matches Some((f, next)) ==> forall|i: int|
            0 <= i < f@.len() ==> (#[trigger] f@[i]).within(input@.len()),
        found is None ==> fields_at(input@, pos as int, count as nat, last_stop) is None,
    decreases count,
{
    if count == 0 {
        return Some((Vec::new(), pos));
    }
    let stop: u8 = if count == 1 {
        last_stop
    } else {
        44
    };
    match take_field(input, pos, stop) {
        Some((first, next)) => match take_fields(input, next, count - 1, last_stop) {
            Some((rest, end)) => {
                let mut fields: Vec<Field> = Vec::new();
                fields.push(first);
                let mut i: usize = 0;
                while i < rest.len()
                    invariant
                        i <= rest@.len(),
                        fields@ == seq![first] + rest@.take(i as int),
                        first.within(input@.len()),
                        forall|j: int| 0 <= j < rest@.len() ==> (#[trigger] rest@[j]).within(input@.len()),
                        forall|j: int| 0 <= j < fields@.len() ==> (#[trigger] fields@[j]).within(input@.len()),
                    decreases rest@.len() - i,
                {
                    fields.push(rest[i]);
                    assert(rest@.take(i + 1) == rest@.take(i as int).push(rest@[i as int]));
                    i = i + 1;
                }
                assert(rest@.take(i as int) == rest@);
                Some((fields, end))
            },
            None => None,
        },
        None => None,
    }
}

/// See [`box_at`].
fn take_box(input: &[u8], pos: usize) -> (found: Option<(ItemFields, usize)>)
    requires
        pos <= input@.len(),
    ensures
        found matches Some((item, next)) ==> box_at(input@, pos as int) == Some(
            (item, next as int),
        ) && pos < next <= input@.len() && item.within(input@.len()),
        found is None ==> box_at(input@, pos as int) is None,
{
    match take_heading(input, pos, "platform.box") {
        Some(p) => match take_fields(input, p, 4, 10) {
            Some((f, end)) => Some(
                (ItemFields::Box { x: f[0], y: f[1], width: f[2], height: f[3] }, end),
            ),
            None => None,
        },
        None => None,
    }
}

/// See [`direction_at`].
fn take_direction(input: &[u8], pos: usize) -> (found: Option<Direction>)
    requires
        pos <= input@.len(),
    ensures
        found == direction_at(input@, pos as int),
        found is Some ==> pos + 2 <= input@.len(),
{
    if input.len() - pos >= 2 && input[pos + 1] == 44 {
        if input[pos] == 110 {
            Some(Direction::North)
        } else if input[pos] == 101 {
            Some(Direction::East)
        } else {
            None
        }
    } else {
        None
    }
}

/// See [`line_at`].
fn take_line(input: &[u8], pos: usize) -> (found: Option<(ItemFields, usize)>)
    requires
        pos <= input@.len(),
    ensures
        found matches Some((item, next)) ==> line_at(input@, pos as int) == Some(
            (item, next as int),
        ) && pos < next <= input@.len() && item.within(input@.len()),
        found is None ==> line_at(input@, pos as int) is None,
{
    let len = input.len();
    match take_heading(input, pos, "platform.line") {
        Some(p) => match take_fields(input, p, 2, 44) {
            Some((f, q)) => match take_direction(input, q) {
                Some(direction) => match take_fields(input, q + 2, 1, 10) {
                    Some((l, end)) => Some(
                        (ItemFields::Line { x: f[0], y: f[1], direction, length: l[0] }, end),
                    ),
                    None => None,
                },
                None => None,
            },
            None => None,
        },
        None => None,
    }
}

/// See [`item_at`].
fn take_item(input: &[u8], pos: usize) -> (found: Option<(ItemFields, usize)>)
    requires
        pos <= input@.len(),
    ensures
        found matches Some((item, next)) ==> item_at(input@, pos as int) == Some(
            (item, next as int),
        ) && pos < next <= input@.len() && item.within(input@.len()),
        found is None ==> item_at(input@, pos as int) is None,
{
    match take_box(input, pos) {
        Some(found) => Some(found),
        None => take_line(input, pos),
    }
}

/// Finds the lines of a level file and the number fields in them.
///
/// The result is `None` where the text is no level file. Whether the text
/// of each field is a number is not looked at.
pub fn split_level(input: &[u8]) -> (fields: Option<LevelFields>)
    ensures
        fields matches Some(f) ==> level_layout(input@) == Some(f@) && f@.within(input@.len()),
        fields is None ==> level_layout(input@) is None,
{
    let p = match take_heading(input, 0, "start") {
        Some(p) => p,
        None => {
            return None;
        },
    };
    let (start, q) = match take_fields(input, p, 2, 10) {
        Some(found) => found,
        None => {
            return None;
        },
    };
    let r = match take_heading(input, skip_blanks(input, q, true), "bounds") {
        Some(r) => r,
        None => {
            return None;
        },
    };
    let (bounds, t) = match take_fields(input, r, 4, 10) {
        Some(found) => found,
        None => {
            return None;
        },
    };
    let first = skip_blanks(input, t, true);
    let mut items: Vec<ItemFields> = Vec::new();
    let mut pos = first;
    loop
        invariant
            first <= pos <= input@.len(),
            items_at(input@, first as int) == (
                items@ + items_at(input@, pos as int).0,
                items_at(input@, pos as int).1,
            ),
            forall|i: int| 0 <= i < items@.len() ==> (#[trigger] items@[i]).within(input@.len()),
        ensures
            first <= pos <= input@.len(),
            items_at(input@, first as int) == (items@, pos as int),
            forall|i: int| 0 <= i < items@.len() ==> (#[trigger] items@[i]).within(input@.len()),
        decreases input@.len() - pos,
    {
        match take_item(input, pos) {
            Some((item, next)) => {
                proof {
                    let rest = items_at(input@, next as int).0;
                    assert(items@.push(item) + rest == items@ + (seq![item] + rest));
                }
                items.push(item);
                pos = next;
            },
            None => {
                assert(items@ + Seq::<ItemFields>::empty() == items@);
                break ;
            },
        }
    }
    if skip_blanks(input, pos, true) != input.len() {
        return None;
    }
    Some(
        LevelFields {
            initial_x: start[0],
            initial_y: start[1],
            west_boundary: bounds[0],
            south_boundary: bounds[1],
            east_boundary: bounds[2],
            north_boundary: bounds[3],
            items,
        },
    )
}

} // verus!
