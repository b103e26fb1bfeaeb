//! Writing a level file, and the proof that what is written reads back.
//!
//! [`write_level`] puts the texts of a level's numbers into the lines of a
//! level file. [`lemma_written_level_reads_back`] shows that
//! [`split_level`](crate::level_serialization::split_level) finds in the
//! written file every one of those texts again.

use vstd::prelude::*;
use vstd::string::StringSliceAdditionalSpecFns;
use crate::level_serialization::{
    after_blanks, box_at, direction_at, field_at, fields_at, has_word, heading_at, is_blank,
    item_at, items_at, level_layout, position_of, Direction, Field, ItemFields, LevelLayout,
};

verus! {

/// The texts of the numbers of one platform line.
#[derive(Debug, Clone)]
pub enum ItemTexts {
    Box { x: Vec<u8>, y: Vec<u8>, width: Vec<u8>, height: Vec<u8> },
    Line { x: Vec<u8>, y: Vec<u8>, direction: Direction, length: Vec<u8> },
}

/// The texts of the numbers of a level.
#[derive(Debug, Clone)]
pub struct LevelTexts {
    pub initial_x: Vec<u8>,
    pub initial_y: Vec<u8>,
    pub west_boundary: Vec<u8>,
    pub south_boundary: Vec<u8>,
    pub east_boundary: Vec<u8>,
    pub north_boundary: Vec<u8>,
    pub items: Vec<ItemTexts>,
}

/// The texts of one platform line, as the contracts see them.
pub enum ItemWords {
    Box { x: Seq<u8>, y: Seq<u8>, width: Seq<u8>, height: Seq<u8> },
    Line { x: Seq<u8>, y: Seq<u8>, direction: Direction, length: Seq<u8> },
}

/// The texts of a level, as the contracts see them.
pub struct LevelWords {
    pub initial_x: Seq<u8>,
    pub initial_y: Seq<u8>,
    pub west_boundary: Seq<u8>,
    pub south_boundary: Seq<u8>,
    pub east_boundary: Seq<u8>,
    pub north_boundary: Seq<u8>,
    pub items: Seq<ItemWords>,
}

impl View for ItemTexts {
    type V = ItemWords;

    open spec fn view(&self) -> ItemWords {
        match *self {
            ItemTexts::Box { x, y, width, height } => ItemWords::Box {
                x: x@,
                y: y@,
                width: width@,
                height: height@,
            },
            ItemTexts::Line { x, y, direction, length } => ItemWords::Line {
                x: x@,
                y: y@,
                direction,
                length: length@,
            },
        }
    }
}

impl View for LevelTexts {
    type V = LevelWords;

    open spec fn view(&self) -> LevelWords {
        LevelWords {
            initial_x: self.initial_x@,
            initial_y: self.initial_y@,
            west_boundary: self.west_boundary@,
            south_boundary: self.south_boundary@,
            east_boundary: self.east_boundary@,
            north_boundary: self.north_boundary@,
            items: Seq::new(self.items@.len(), |i: int| self.items@[i]@),
        }
    }
}

/// The letter of a direction as a text.
pub open spec fn direction_word(direction: Direction) -> Seq<u8> {
    match direction {
        Direction::North => seq![110u8],
        Direction::East => seq![101u8],
    }
}

/// A run of fields, each followed by a comma and the last by `last`.
pub open spec fn joined(fields: Seq<Seq<u8>>, last: u8) -> Seq<u8>
    decreases fields.len(),
{
    if fields.len() == 0 {
        Seq::empty()
    } else {
        fields[0] + seq![if fields.len() == 1 { last } else { 44u8 }] + joined(
            fields.drop_first(),
            last,
        )
    }
}

/// A line: its name, a colon, a space, and its fields, of which a line feed
/// ends the last.
pub open spec fn line_text(name: Seq<u8>, fields: Seq<Seq<u8>>) -> Seq<u8> {
    name + seq![58u8, 32u8] + joined(fields, 10)
}

/// The line of one platform.
pub open spec fn item_text(item: ItemWords) -> Seq<u8> {
    match item {
        ItemWords::Box { x, y, width, height } => line_text(
            "platform.box".spec_bytes(),
            seq![x, y, width, height],
        ),
        ItemWords::Line { x, y, direction, length } => line_text(
            "platform.line".spec_bytes(),
            seq![x, y, direction_word(direction), length],
        ),
    }
}

/// The lines of the platforms, one after the other.
pub open spec fn items_text(items: Seq<ItemWords>) -> Seq<u8>
    decreases items.len(),
{
    if items.len() == 0 {
        Seq::empty()
    } else {
        item_text(items[0]) + items_text(items.drop_first())
    }
}

/// The text of a level file: the line `start`, a blank line, the line
/// `bounds`, a blank line, and the lines of the platforms.
pub open spec fn level_text(level: LevelWords) -> Seq<u8> {
    line_text("start".spec_bytes(), seq![level.initial_x, level.initial_y]) + seq![10u8]
        + line_text(
        "bounds".spec_bytes(),
        seq![
            level.west_boundary,
            level.south_boundary,
            level.east_boundary,
            level.north_boundary,
        ],
    ) + seq![10u8] + items_text(level.items)
}

/// Appends the bytes of `more` to `out`.
fn put(out: &mut Vec<u8>, more: &[u8])
    ensures
        final(out)@ == old(out)@ + more@,
{
    let ghost before = out@;
    let mut i: usize = 0;
    while i < more.len()
        invariant
            i <= more@.len(),
            out@ == before + more@.take(i as int),
        decreases more@.len() - i,
    {
        out.push(more[i]);
        assert(more@.take(i + 1) == more@.take(i as int).push(more@[i as int]));
        i = i + 1;
    }
    assert(more@.take(i as int) == more@);
}

/// Appends a line with one to four fields to `out`.
fn put_line(out: &mut Vec<u8>, name: &str, fields: &[&[u8]])
    requires
        1 <= fields@.len() <= 4,
    ensures
        final(out)@ == old(out)@ + line_text(
            name.spec_bytes(),
            Seq::new(fields@.len(), |i: int| fields@[i]@),
        ),
{
    let ghost before = out@;
    let ghost words = Seq::new(fields@.len(), |i: int| fields@[i]@);
    put(out, name.as_bytes());
    out.push(58);
    out.push(32);
    let ghost head = before + name.spec_bytes() + seq![58u8, 32u8];
    assert(out@ == head);
    assert(words.skip(0) == words);
    let mut i: usize = 0;
    while i < fields.len()
        invariant
            i <= fields@.len(),
            words == Seq::new(fields@.len(), |i: int| fields@[i]@),
            out@ + joined(words.skip(i as int), 10) == head + joined(words, 10),
        decreases fields@.len() - i,
    {
        let ghost rest = words.skip(i as int);
        let ghost so_far = out@;
        put(out, fields[i]);
        out.push(
            if i + 1 == fields.len() {
                10
            } else {
                44
            },
        );
        proof {
            assert(rest[0] == fields@[i as int]@);
            assert(rest.drop_first() == words.skip(i + 1));
            assert(rest.len() == fields@.len() - i);
            assert(out@ + joined(words.skip(i + 1), 10) == so_far + joined(rest, 10));
        }
        i = i + 1;
    }
    assert(joined(words.skip(i as int), 10) == Seq::<u8>::empty());
    assert(out@ == before + line_text(name.spec_bytes(), words));
}

/// Appends the line of one platform to `out`.
fn put_item(out: &mut Vec<u8>, item: &ItemTexts)
    ensures
        final(out)@ == old(out)@ + item_text(item@),
{
    match item {
        ItemTexts::Box { x, y, width, height } => {
            let fields: [&[u8]; 4] = [x.as_slice(), y.as_slice(), width.as_slice(), height.as_slice()];
            assert(Seq::new(4, |i: int| fields@[i]@) == seq![x@, y@, width@, height@]);
            put_line(out, "platform.box", fields.as_slice());
        },
        ItemTexts::Line { x, y, direction, length } => {
            let letter: [u8; 1] = match direction {
                Direction::North => [110],
                Direction::East => [101],
            };
            assert(letter@ == direction_word(*direction));
            let fields: [&[u8]; 4] = [x.as_slice(), y.as_slice(), letter.as_slice(), length.as_slice()];
            assert(Seq::new(4, |i: int| fields@[i]@) == seq![
                x@,
                y@,
                direction_word(*direction),
                length@,
            ]);
            put_line(out, "platform.line", fields.as_slice());
        },
    }
}

/// Writes the file of a level whose numbers have the given texts.
pub fn write_level(texts: &LevelTexts) -> (out: Vec<u8>)
    ensures
        out@ == level_text(texts@),
{
    let mut out: Vec<u8> = Vec::new();
    let start: [&[u8]; 2] = [texts.initial_x.as_slice(), texts.initial_y.as_slice()];
    assert(Seq::new(2, |i: int| start@[i]@) == seq![texts.initial_x@, texts.initial_y@]);
    put_line(&mut out, "start", start.as_slice());
    out.push(10);
    let bounds: [&[u8]; 4] = [
        texts.west_boundary.as_slice(),
        texts.south_boundary.as_slice(),
        texts.east_boundary.as_slice(),
        texts.north_boundary.as_slice(),
    ];
    assert(Seq::new(4, |i: int| bounds@[i]@) == seq![
        texts.west_boundary@,
        texts.south_boundary@,
        texts.east_boundary@,
        texts.north_boundary@,
    ]);
    put_line(&mut out, "bounds", bounds.as_slice());
    out.push(10);
    let ghost head = out@;
    let ghost words = texts@.items;
    assert(words.skip(0) == words);
    let mut i: usize = 0;
    while i < texts.items.len()
        invariant
            i <= texts.items@.len(),
            words == texts@.items,
            out@ + items_text(words.skip(i as int)) == head + items_text(words),
        decreases texts.items@.len() - i,
    {
        let ghost rest = words.skip(i as int);
        let ghost so_far = out@;
        put_item(&mut out, &texts.items[i]);
        proof {
            assert(rest[0] == texts.items@[i as int]@);
            assert(rest.drop_first() == words.skip(i + 1));
            assert(out@ + items_text(words.skip(i + 1)) == so_far + items_text(rest));
        }
        i = i + 1;
    }
    assert(items_text(words.skip(i as int)) == Seq::<u8>::empty());
    out
}

/// The bytes of the names of the lines.
proof fn lemma_names()
    ensures
        "start".spec_bytes() == seq![115u8, 116, 97, 114, 116],
        "bounds".spec_bytes() == seq![98u8, 111, 117, 110, 100, 115],
        "platform.box".spec_bytes() == seq![
            112u8,
            108,
            97,
            116,
            102,
            111,
            114,
            109,
            46,
            98,
            111,
            120,
        ],
        "platform.line".spec_bytes() == seq![
            112u8,
            108,
            97,
            116,
            102,
            111,
            114,
            109,
            46,
            108,
            105,
            110,
            101,
        ],
{
    reveal_strlit("start");
    reveal_strlit("bounds");
    reveal_strlit("platform.box");
    reveal_strlit("platform.line");
    vstd::string::is_ascii_spec_bytes("start");
    vstd::string::is_ascii_spec_bytes("bounds");
    vstd::string::is_ascii_spec_bytes("platform.box");
    vstd::string::is_ascii_spec_bytes("platform.line");
}

/// A text that can stand for a number in a level file: it holds neither a
/// comma nor a line feed, and does not begin with a blank.
pub open spec fn is_plain(t: Seq<u8>) -> bool {
    &&& forall|i: int| 0 <= i < t.len() ==> t[i] != 44 && t[i] != 10
    &&& t.len() > 0 ==> !is_blank(t[0], false)
}

/// Where the text `t` lies when it begins at `pos`.
pub open spec fn placed(pos: int, t: Seq<u8>) -> Field {
    Field { start: pos as usize, end: (pos + t.len()) as usize }
}

/// Where the texts of a run of fields lie when the run begins at `pos`.
pub open spec fn places(fields: Seq<Seq<u8>>, pos: int) -> Seq<Field>
    decreases fields.len(),
{
    if fields.len() == 0 {
        Seq::empty()
    } else {
        seq![placed(pos, fields[0])] + places(fields.drop_first(), pos + fields[0].len() + 1)
    }
}

/// The text that a field holds.
pub open spec fn word_at(s: Seq<u8>, f: Field) -> Seq<u8> {
    s.subrange(f.start as int, f.end as int)
}

/// A text holds a word that is made of two parts exactly if it holds the
/// parts one behind the other.
proof fn lemma_word_parts(s: Seq<u8>, pos: int, a: Seq<u8>, b: Seq<u8>)
    requires
        0 <= pos,
    ensures
        has_word(s, pos, a + b) <==> has_word(s, pos, a) && has_word(s, pos + a.len(), b),
{
    let m = pos + a.len();
    let n = pos + a.len() + b.len();
    if has_word(s, pos, a + b) {
        let w = s.subrange(pos, n);
        assert(w == a + b);
        assert forall|i: int| 0 <= i < a.len() implies s.subrange(pos, m)[i] == a[i] by {
            assert(w[i] == s[pos + i]);
            assert((a + b)[i] == a[i]);
        }
        assert(s.subrange(pos, m) =~= a);
        assert forall|i: int| 0 <= i < b.len() implies s.subrange(m, n)[i] == b[i] by {
            assert(w[a.len() + i] == s[m + i]);
            assert((a + b)[a.len() + i] == b[i]);
        }
        assert(s.subrange(m, n) =~= b);
    }
    if has_word(s, pos, a) && has_word(s, m, b) {
        assert forall|i: int| 0 <= i < a.len() + b.len() implies s.subrange(pos, n)[i] == (a
            + b)[i] by {
            if i < a.len() {
                assert(s.subrange(pos, m)[i] == a[i]);
            } else {
                assert(s.subrange(m, n)[i - a.len()] == b[i - a.len()]);
            }
        }
        assert(s.subrange(pos, n) =~= a + b);
    }
}

/// A text that holds a word holds each of its bytes.
proof fn lemma_word_byte(s: Seq<u8>, pos: int, w: Seq<u8>, i: int)
    requires
        has_word(s, pos, w),
        0 <= i < w.len(),
    ensures
        pos + i < s.len(),
        s[pos + i] == w[i],
{
    assert(s.subrange(pos, pos + w.len())[i] == s[pos + i]);
}

/// A word is read back from the place where it lies.
proof fn lemma_placed_reads(s: Seq<u8>, pos: int, t: Seq<u8>)
    requires
        has_word(s, pos, t),
        s.len() <= usize::MAX,
    ensures
        word_at(s, placed(pos, t)) == t,
        placed(pos, t).within(s.len()),
{
}

/// The end of a field is found behind a text that holds no separator.
proof fn lemma_position(s: Seq<u8>, pos: int, t: Seq<u8>, stop: u8)
    requires
        0 <= pos,
        has_word(s, pos, t + seq![stop]),
        forall|i: int| 0 <= i < t.len() ==> t[i] != stop,
    ensures
        position_of(s, pos, stop) == Some(pos + t.len()),
    decreases t.len(),
{
    lemma_word_byte(s, pos, t + seq![stop], 0);
    if t.len() > 0 {
        let rest = t.drop_first();
        assert(t + seq![stop] == seq![t[0]] + (rest + seq![stop]));
        lemma_word_parts(s, pos, seq![t[0]], rest + seq![stop]);
        lemma_position(s, pos + 1, rest, stop);
    }
}

/// A field is found where its text lies.
proof fn lemma_field(s: Seq<u8>, pos: int, t: Seq<u8>, stop: u8)
    requires
        0 <= pos,
        has_word(s, pos, t + seq![stop]),
        forall|i: int| 0 <= i < t.len() ==> t[i] != stop,
    ensures
        field_at(s, pos, stop) == Some((placed(pos, t), pos + t.len() + 1)),
        has_word(s, pos, t),
{
    lemma_position(s, pos, t, stop);
    lemma_word_parts(s, pos, t, seq![stop]);
}

/// A run of fields is found where its texts lie.
proof fn lemma_fields(s: Seq<u8>, pos: int, fields: Seq<Seq<u8>>, last: u8)
    requires
        0 <= pos,
        last == 10 || last == 44,
        has_word(s, pos, joined(fields, last)),
        forall|i: int| 0 <= i < fields.len() ==> is_plain(#[trigger] fields[i]),
        s.len() <= usize::MAX,
    ensures
        fields_at(s, pos, fields.len(), last) == Some(
            (places(fields, pos), pos + joined(fields, last).len()),
        ),
        places(fields, pos).len() == fields.len(),
        forall|i: int|
            0 <= i < fields.len() ==> word_at(s, #[trigger] places(fields, pos)[i]) == fields[i]
                && places(fields, pos)[i].within(s.len()),
        forall|i: int| 0 <= i < fields.len() ==> places(fields, pos)[i].start >= pos,
    decreases fields.len(),
{
    if fields.len() > 0 {
        let first = fields[0];
        let rest = fields.drop_first();
        let stop = if fields.len() == 1 { last } else { 44u8 };
        let next = pos + first.len() + 1;
        assert(is_plain(first));
        assert(joined(fields, last) == (first + seq![stop]) + joined(rest, last));
        lemma_word_parts(s, pos, first + seq![stop], joined(rest, last));
        lemma_field(s, pos, first, stop);
        assert forall|i: int| 0 <= i < rest.len() implies is_plain(#[trigger] rest[i]) by {
            assert(rest[i] == fields[i + 1]);
        }
        lemma_fields(s, next, rest, last);
        lemma_placed_reads(s, pos, first);
        assert(fields.len() - 1 == rest.len());
        assert forall|i: int| 0 <= i < fields.len() implies word_at(
            s,
            #[trigger] places(fields, pos)[i],
        ) == fields[i] && places(fields, pos)[i].within(s.len()) && places(fields, pos)[i].start
            >= pos by {
            if i > 0 {
                assert(places(fields, pos)[i] == places(rest, next)[i - 1]);
                assert(rest[i - 1] == fields[i]);
            }
        }
    }
}

/// The heading of a line is found where the line's name, a colon and a
/// space lie, if what follows is no blank.
proof fn lemma_heading(s: Seq<u8>, pos: int, name: Seq<u8>)
    requires
        0 <= pos,
        has_word(s, pos, name + seq![58u8, 32u8]),
        pos + name.len() + 2 < s.len() ==> !is_blank(s[pos + name.len() + 2], false),
    ensures
        heading_at(s, pos, name) == Some(pos + name.len() + 2),
{
    reveal_with_fuel(after_blanks, 3);
    lemma_word_parts(s, pos, name, seq![58u8, 32u8]);
    lemma_word_byte(s, pos + name.len(), seq![58u8, 32u8], 0);
    lemma_word_byte(s, pos + name.len(), seq![58u8, 32u8], 1);
}

impl ItemWords {
    /// Every text of the line can stand for a number.
    pub open spec fn is_plain(self) -> bool {
        match self {
            ItemWords::Box { x, y, width, height } => is_plain(x) && is_plain(y) && is_plain(width)
                && is_plain(height),
            ItemWords::Line { x, y, direction, length } => is_plain(x) && is_plain(y) && is_plain(
                length,
            ),
        }
    }
}

impl LevelWords {
    /// Every text of the level can stand for a number.
    pub open spec fn is_plain(self) -> bool {
        &&& is_plain(self.initial_x)
        &&& is_plain(self.initial_y)
        &&& is_plain(self.west_boundary)
        &&& is_plain(self.south_boundary)
        &&& is_plain(self.east_boundary)
        &&& is_plain(self.north_boundary)
        &&& forall|i: int| 0 <= i < self.items.len() ==> (#[trigger] self.items[i]).is_plain()
    }
}

/// The texts that the fields of a platform line hold.
pub open spec fn item_words(s: Seq<u8>, item: ItemFields) -> ItemWords {
    match item {
        ItemFields::Box { x, y, width, height } => ItemWords::Box {
            x: word_at(s, x),
            y: word_at(s, y),
            width: word_at(s, width),
            height: word_at(s, height),
        },
        ItemFields::Line { x, y, direction, length } => ItemWords::Line {
            x: word_at(s, x),
            y: word_at(s, y),
            direction,
            length: word_at(s, length),
        },
    }
}

/// The texts that the fields of a level file hold.
pub open spec fn level_words(s: Seq<u8>, layout: LevelLayout) -> LevelWords {
    LevelWords {
        initial_x: word_at(s, layout.initial_x),
        initial_y: word_at(s, layout.initial_y),
        west_boundary: word_at(s, layout.west_boundary),
        south_boundary: word_at(s, layout.south_boundary),
        east_boundary: word_at(s, layout.east_boundary),
        north_boundary: word_at(s, layout.north_boundary),
        items: Seq::new(layout.items.len(), |i: int| item_words(s, layout.items[i])),
    }
}

/// Where the fields of a platform's line lie when the line begins at `pos`.
pub open spec fn item_places(item: ItemWords, pos: int) -> ItemFields {
    match item {
        ItemWords::Box { x, y, width, height } => {
            let f = places(seq![x, y, width, height], pos + 14);
            ItemFields::Box { x: f[0], y: f[1], width: f[2], height: f[3] }
        },
        ItemWords::Line { x, y, direction, length } => {
            let f = places(seq![x, y, direction_word(direction), length], pos + 15);
            ItemFields::Line { x: f[0], y: f[1], direction, length: f[3] }
        },
    }
}

/// Where the fields of the platforms' lines lie when the first line begins
/// at `pos`.
pub open spec fn items_places(items: Seq<ItemWords>, pos: int) -> Seq<ItemFields>
    decreases items.len(),
{
    if items.len() == 0 {
        Seq::empty()
    } else {
        seq![item_places(items[0], pos)] + items_places(
            items.drop_first(),
            pos + item_text(items[0]).len(),
        )
    }
}

/// A line of fields is found where it lies: first its heading, then its
/// fields.
proof fn lemma_line(s: Seq<u8>, pos: int, name: Seq<u8>, fields: Seq<Seq<u8>>)
    requires
        0 <= pos,
        fields.len() > 0,
        has_word(s, pos, line_text(name, fields)),
        forall|i: int| 0 <= i < fields.len() ==> is_plain(#[trigger] fields[i]),
        s.len() <= usize::MAX,
    ensures
        heading_at(s, pos, name) == Some(pos + name.len() + 2),
        has_word(s, pos, name),
        has_word(s, pos + name.len() + 2, joined(fields, 10)),
        fields_at(s, pos + name.len() + 2, fields.len(), 10) == Some(
            (places(fields, pos + name.len() + 2), pos + line_text(name, fields).len()),
        ),
        places(fields, pos + name.len() + 2).len() == fields.len(),
        forall|i: int|
            0 <= i < fields.len() ==> word_at(
                s,
                #[trigger] places(fields, pos + name.len() + 2)[i],
            ) == fields[i] && places(fields, pos + name.len() + 2)[i].within(s.len()),
{
    let p = pos + name.len() + 2;
    let run = joined(fields, 10);
    lemma_word_parts(s, pos, name + seq![58u8, 32u8], run);
    lemma_word_parts(s, pos, name, seq![58u8, 32u8]);
    assert(is_plain(fields[0]));
    assert(run[0] == if fields[0].len() > 0 {
        fields[0][0]
    } else if fields.len() == 1 {
        10u8
    } else {
        44u8
    });
    lemma_word_byte(s, p, run, 0);
    lemma_heading(s, pos, name);
    lemma_fields(s, p, fields, 10);
}

/// What is written as a line platform does not read as a box.
proof fn lemma_line_is_no_box(s: Seq<u8>, pos: int)
    requires
        has_word(s, pos, "platform.line".spec_bytes()),
    ensures
        box_at(s, pos) is None,
{
    lemma_names();
    lemma_word_byte(s, pos, "platform.line".spec_bytes(), 9);
    if has_word(s, pos, "platform.box".spec_bytes()) {
        lemma_word_byte(s, pos, "platform.box".spec_bytes(), 9);
    }
}

/// The fields of a line platform's line are two fields that commas end,
/// the letter of the direction with its comma, and one last field.
proof fn lemma_line_item_parts(x: Seq<u8>, y: Seq<u8>, letter: Seq<u8>, length: Seq<u8>, p: int)
    ensures
        joined(seq![x, y, letter, length], 10) == joined(seq![x, y], 44) + ((letter + seq![44u8])
            + joined(seq![length], 10)),
        joined(seq![x, y], 44).len() == x.len() + 1 + y.len() + 1,
        places(seq![x, y], p)[0] == places(seq![x, y, letter, length], p)[0],
        places(seq![x, y], p)[1] == places(seq![x, y, letter, length], p)[1],
        places(seq![length], p + x.len() + 1 + y.len() + 1 + letter.len() + 1)[0] == places(
            seq![x, y, letter, length],
            p,
        )[3],
{
    let fields = seq![x, y, letter, length];
    let front = seq![x, y];
    let back = seq![length];
    assert(fields.drop_first() == seq![y, letter, length]);
    assert(seq![y, letter, length].drop_first() == seq![letter, length]);
    assert(seq![letter, length].drop_first() == back);
    assert(back.drop_first() == Seq::<Seq<u8>>::empty());
    assert(front.drop_first() == seq![y]);
    assert(seq![y].drop_first() == Seq::<Seq<u8>>::empty());
    assert(joined(fields, 10) == joined(front, 44) + ((letter + seq![44u8]) + joined(back, 10)))
        by {
        reveal_with_fuel(joined, 5);
    }
    assert(joined(front, 44).len() == x.len() + 1 + y.len() + 1) by {
        reveal_with_fuel(joined, 3);
    }
    assert(places(front, p)[0] == places(fields, p)[0] && places(front, p)[1] == places(
        fields,
        p,
    )[1] && places(back, p + x.len() + 1 + y.len() + 1 + letter.len() + 1)[0] == places(
        fields,
        p,
    )[3]) by {
        reveal_with_fuel(places, 5);
    }
}

/// The line of a box is found where it lies, and its fields hold the texts
/// that were written.
proof fn lemma_box_item(s: Seq<u8>, pos: int, item: ItemWords)
    requires
        0 <= pos,
        item is Box,
        has_word(s, pos, item_text(item)),
        item.is_plain(),
        s.len() <= usize::MAX,
    ensures
        item_at(s, pos) == Some((item_places(item, pos), pos + item_text(item).len())),
        item_words(s, item_places(item, pos)) == item,
        item_places(item, pos).within(s.len()),
{
    lemma_names();
    match item {
        ItemWords::Box { x, y, width, height } => {
            let fields = seq![x, y, width, height];
            lemma_line(s, pos, "platform.box".spec_bytes(), fields);
            let f = places(fields, pos + 14);
            assert(word_at(s, f[0]) == fields[0]);
            assert(word_at(s, f[1]) == fields[1]);
            assert(word_at(s, f[2]) == fields[2]);
            assert(word_at(s, f[3]) == fields[3]);
        },
        _ => {},
    }
}

/// The line of a line platform is found where it lies, and its fields hold
/// the texts that were written.
proof fn lemma_line_item(s: Seq<u8>, pos: int, item: ItemWords)
    requires
        0 <= pos,
        item is Line,
        has_word(s, pos, item_text(item)),
        item.is_plain(),
        s.len() <= usize::MAX,
    ensures
        item_at(s, pos) == Some((item_places(item, pos), pos + item_text(item).len())),
        item_words(s, item_places(item, pos)) == item,
        item_places(item, pos).within(s.len()),
{
    lemma_names();
    match item {
        ItemWords::Line { x, y, direction, length } => {
            let letter = direction_word(direction);
            let fields = seq![x, y, letter, length];
            let name = "platform.line".spec_bytes();
            let p = pos + 15;
            let q = p + x.len() + 1 + y.len() + 1;
            let front = seq![x, y];
            let back = seq![length];
            assert(is_plain(letter));
            lemma_line(s, pos, name, fields);
            lemma_line_is_no_box(s, pos);
            lemma_line_item_parts(x, y, letter, length, p);
            lemma_word_parts(
                s,
                p,
                joined(front, 44),
                (letter + seq![44u8]) + joined(back, 10),
            );
            lemma_word_parts(s, q, letter + seq![44u8], joined(back, 10));
            lemma_fields(s, p, front, 44);
            lemma_word_byte(s, q, letter + seq![44u8], 0);
            lemma_word_byte(s, q, letter + seq![44u8], 1);
            assert(direction_at(s, q) == Some(direction));
            lemma_fields(s, q + 2, back, 10);
            let f = places(fields, p);
            assert(word_at(s, f[0]) == fields[0]);
            assert(word_at(s, f[1]) == fields[1]);
            assert(word_at(s, f[3]) == fields[3]);
        },
        _ => {},
    }
}

/// The line of a platform is found where it lies, and its fields hold the
/// texts that were written.
proof fn lemma_item(s: Seq<u8>, pos: int, item: ItemWords)
    requires
        0 <= pos,
        has_word(s, pos, item_text(item)),
        item.is_plain(),
        s.len() <= usize::MAX,
    ensures
        item_at(s, pos) == Some((item_places(item, pos), pos + item_text(item).len())),
        item_words(s, item_places(item, pos)) == item,
        item_places(item, pos).within(s.len()),
        item_text(item).len() > 0,
        item_text(item)[0] == 112,
{
    lemma_names();
    match item {
        ItemWords::Box { .. } => lemma_box_item(s, pos, item),
        ItemWords::Line { .. } => lemma_line_item(s, pos, item),
    }
}

/// The lines of the platforms are found where they lie, up to the end of
/// the text, and their fields hold the texts that were written.
proof fn lemma_items(s: Seq<u8>, pos: int, items: Seq<ItemWords>)
    requires
        0 <= pos,
        has_word(s, pos, items_text(items)),
        pos + items_text(items).len() == s.len(),
        forall|i: int| 0 <= i < items.len() ==> (#[trigger] items[i]).is_plain(),
        s.len() <= usize::MAX,
    ensures
        items_at(s, pos) == (items_places(items, pos), s.len() as int),
        items_places(items, pos).len() == items.len(),
        forall|i: int|
            0 <= i < items.len() ==> item_words(s, #[trigger] items_places(items, pos)[i])
                == items[i] && items_places(items, pos)[i].within(s.len()),
    decreases items.len(),
{
    lemma_names();
    if items.len() == 0 {
        assert(!has_word(s, pos, "platform.box".spec_bytes()));
        assert(!has_word(s, pos, "platform.line".spec_bytes()));
        assert(item_at(s, pos) is None);
    } else {
        let first = items[0];
        let rest = items.drop_first();
        let next = pos + item_text(first).len();
        assert(first.is_plain());
        lemma_word_parts(s, pos, item_text(first), items_text(rest));
        lemma_item(s, pos, first);
        assert forall|i: int| 0 <= i < rest.len() implies (#[trigger] rest[i]).is_plain() by {
            assert(rest[i] == items[i + 1]);
        }
        lemma_items(s, next, rest);
        assert forall|i: int| 0 <= i < items.len() implies item_words(
            s,
            #[trigger] items_places(items, pos)[i],
        ) == items[i] && items_places(items, pos)[i].within(s.len()) by {
            if i > 0 {
                assert(items_places(items, pos)[i] == items_places(rest, next)[i - 1]);
                assert(rest[i - 1] == items[i]);
            }
        }
    }
}

/// A blank line is passed over, up to the next line or the end of the
/// text.
proof fn lemma_blank_line(s: Seq<u8>, pos: int)
    requires
        0 <= pos < s.len(),
        s[pos] == 10,
        pos + 1 < s.len() ==> !is_blank(s[pos + 1], true),
    ensures
        after_blanks(s, pos, true) == pos + 1,
{
    reveal_with_fuel(after_blanks, 3);
}

/// Where the fields of a written level lie.
pub open spec fn level_places(level: LevelWords) -> LevelLayout {
    let first = line_text("start".spec_bytes(), seq![level.initial_x, level.initial_y]);
    let second = line_text(
        "bounds".spec_bytes(),
        seq![
            level.west_boundary,
            level.south_boundary,
            level.east_boundary,
            level.north_boundary,
        ],
    );
    let start = places(seq![level.initial_x, level.initial_y], 7);
    let bounds = places(
        seq![
            level.west_boundary,
            level.south_boundary,
            level.east_boundary,
            level.north_boundary,
        ],
        (first.len() + 1 + 8) as int,
    );
    LevelLayout {
        initial_x: start[0],
        initial_y: start[1],
        west_boundary: bounds[0],
        south_boundary: bounds[1],
        east_boundary: bounds[2],
        north_boundary: bounds[3],
        items: items_places(level.items, (first.len() + 1 + second.len() + 1) as int),
    }
}

/// The parts of a written level lie one behind the other.
proof fn lemma_level_parts(level: LevelWords)
    ensures
        ({
            let s = level_text(level);
            let first = line_text("start".spec_bytes(), seq![level.initial_x, level.initial_y]);
            let second = line_text(
                "bounds".spec_bytes(),
                seq![
                    level.west_boundary,
                    level.south_boundary,
                    level.east_boundary,
                    level.north_boundary,
                ],
            );
            let q = first.len() as int;
            let t = q + 1 + second.len();
            &&& has_word(s, 0, first)
            &&& has_word(s, q, seq![10u8])
            &&& has_word(s, q + 1, second)
            &&& has_word(s, t, seq![10u8])
            &&& has_word(s, t + 1, items_text(level.items))
            &&& t + 1 + items_text(level.items).len() == s.len()
        }),
{
    let s = level_text(level);
    let first = line_text("start".spec_bytes(), seq![level.initial_x, level.initial_y]);
    let second = line_text(
        "bounds".spec_bytes(),
        seq![level.west_boundary, level.south_boundary, level.east_boundary, level.north_boundary],
    );
    let platforms = items_text(level.items);
    let feed = seq![10u8];
    assert(s == (((first + feed) + second) + feed) + platforms);
    assert(s.subrange(0, s.len() as int) == s);
    lemma_word_parts(s, 0, ((first + feed) + second) + feed, platforms);
    lemma_word_parts(s, 0, (first + feed) + second, feed);
    lemma_word_parts(s, 0, first + feed, second);
    lemma_word_parts(s, 0, first, feed);
}

/// A line that a line feed and a byte that is no blank precede is found
/// behind the blank line.
proof fn lemma_next_line(s: Seq<u8>, pos: int, name: Seq<u8>, fields: Seq<Seq<u8>>)
    requires
        0 <= pos,
        fields.len() > 0,
        name.len() > 0,
        !is_blank(name[0], true),
        has_word(s, pos, seq![10u8]),
        has_word(s, pos + 1, line_text(name, fields)),
        forall|i: int| 0 <= i < fields.len() ==> is_plain(#[trigger] fields[i]),
        s.len() <= usize::MAX,
    ensures
        after_blanks(s, pos, true) == pos + 1,
        heading_at(s, pos + 1, name) == Some(pos + 1 + name.len() + 2),
        fields_at(s, pos + 1 + name.len() + 2, fields.len(), 10) == Some(
            (places(fields, pos + 1 + name.len() + 2), pos + 1 + line_text(name, fields).len()),
        ),
        places(fields, pos + 1 + name.len() + 2).len() == fields.len(),
        forall|i: int|
            0 <= i < fields.len() ==> word_at(
                s,
                #[trigger] places(fields, pos + 1 + name.len() + 2)[i],
            ) == fields[i] && places(fields, pos + 1 + name.len() + 2)[i].within(s.len()),
{
    lemma_line(s, pos + 1, name, fields);
    lemma_word_byte(s, pos, seq![10u8], 0);
    lemma_word_byte(s, pos + 1, name, 0);
    lemma_blank_line(s, pos);
}

/// The lines of the platforms are found behind the blank line that
/// precedes them, and nothing but the end of the text follows them.
proof fn lemma_platform_lines(s: Seq<u8>, pos: int, items: Seq<ItemWords>)
    requires
        0 <= pos,
        has_word(s, pos, seq![10u8]),
        has_word(s, pos + 1, items_text(items)),
        pos + 1 + items_text(items).len() == s.len(),
        forall|i: int| 0 <= i < items.len() ==> (#[trigger] items[i]).is_plain(),
        s.len() <= usize::MAX,
    ensures
        after_blanks(s, pos, true) == pos + 1,
        items_at(s, pos + 1) == (items_places(items, pos + 1), s.len() as int),
        after_blanks(s, s.len() as int, true) == s.len(),
        items_places(items, pos + 1).len() == items.len(),
        forall|i: int|
            0 <= i < items.len() ==> item_words(s, #[trigger] items_places(items, pos + 1)[i])
                == items[i] && items_places(items, pos + 1)[i].within(s.len()),
{
    lemma_word_byte(s, pos, seq![10u8], 0);
    if items.len() > 0 {
        assert(items[0].is_plain());
        lemma_word_parts(s, pos + 1, item_text(items[0]), items_text(items.drop_first()));
        lemma_item(s, pos + 1, items[0]);
        lemma_word_byte(s, pos + 1, item_text(items[0]), 0);
    }
    lemma_blank_line(s, pos);
    lemma_items(s, pos + 1, items);
}

/// What is written reads back. The file that is written for a level
/// whose numbers have plain texts is a level file, and each of its fields
/// holds the text that was written for it: the same numbers of the same
/// platforms, in the same order.
pub proof fn lemma_written_level_reads_back(level: LevelWords)
    requires
        level.is_plain(),
        level_text(level).len() <= usize::MAX,
    ensures
        level_layout(level_text(level)) == Some(level_places(level)),
        level_places(level).within(level_text(level).len()),
        level_words(level_text(level), level_places(level)) == level,
{
    lemma_names();
    let s = level_text(level);
    let start = seq![level.initial_x, level.initial_y];
    let bounds = seq![
        level.west_boundary,
        level.south_boundary,
        level.east_boundary,
        level.north_boundary,
    ];
    let first = line_text("start".spec_bytes(), start);
    let second = line_text("bounds".spec_bytes(), bounds);
    let q = first.len() as int;
    let t = q + 1 + second.len();
    lemma_level_parts(level);
    lemma_line(s, 0, "start".spec_bytes(), start);
    lemma_next_line(s, q, "bounds".spec_bytes(), bounds);
    lemma_platform_lines(s, t, level.items);
    let layout = level_places(level);
    assert(level_layout(s) == Some(layout));
    assert(level_words(s, layout).items =~= level.items);
}

} // verus!
