use bw_adventures::level_serialization::{split_level, Direction, Field, ItemFields, LevelFields};

fn text<'a>(input: &'a [u8], f: Field) -> &'a str {
    std::str::from_utf8(&input[f.start..f.end]).unwrap()
}

fn split(input: &str) -> Option<LevelFields> {
    split_level(input.as_bytes())
}

fn item_texts(input: &[u8], item: &ItemFields) -> Vec<String> {
    match *item {
        ItemFields::Box { x, y, width, height } => vec![
            "box".to_string(),
            text(input, x).to_string(),
            text(input, y).to_string(),
            text(input, width).to_string(),
            text(input, height).to_string(),
        ],
        ItemFields::Line { x, y, direction, length } => vec![
            "line".to_string(),
            text(input, x).to_string(),
            text(input, y).to_string(),
            direction.to_string(),
            text(input, length).to_string(),
        ],
    }
}

#[test]
fn a_level_file_is_split_into_its_fields() {
    let input = "start: 10.0,20.5\n\nbounds: -100.0,0.0,500.0,300.0\n\n\
                 platform.box: 0.0,1.0,50.0,10.0\n\
                 platform.line: 60.0,2.0,e,25.0\n\
                 platform.line: 61.0,3.0,n,26.0\n";
    let bytes = input.as_bytes();
    let f = split_level(bytes).unwrap();
    assert_eq!(text(bytes, f.initial_x), "10.0");
    assert_eq!(text(bytes, f.initial_y), "20.5");
    assert_eq!(text(bytes, f.west_boundary), "-100.0");
    assert_eq!(text(bytes, f.south_boundary), "0.0");
    assert_eq!(text(bytes, f.east_boundary), "500.0");
    assert_eq!(text(bytes, f.north_boundary), "300.0");
    assert_eq!(f.items.len(), 3);
    assert_eq!(item_texts(bytes, &f.items[0]), vec!["box", "0.0", "1.0", "50.0", "10.0"]);
    assert_eq!(item_texts(bytes, &f.items[1]), vec!["line", "60.0", "2.0", "e", "25.0"]);
    assert_eq!(item_texts(bytes, &f.items[2]), vec!["line", "61.0", "3.0", "n", "26.0"]);
    match f.items[1] {
        ItemFields::Line { direction: Direction::East, .. } => {}
        _ => panic!("the second item runs east"),
    }
}

#[test]
fn fields_are_byte_ranges_of_the_input() {
    let input = b"start:1,2\nbounds:3,4,5,6\n";
    let f = split_level(input).unwrap();
    assert_eq!(f.initial_x, Field { start: 6, end: 7 });
    assert_eq!(f.initial_y, Field { start: 8, end: 9 });
    assert_eq!(f.west_boundary, Field { start: 17, end: 18 });
    assert_eq!(f.south_boundary, Field { start: 19, end: 20 });
    assert_eq!(f.east_boundary, Field { start: 21, end: 22 });
    assert_eq!(f.north_boundary, Field { start: 23, end: 24 });
    assert!(f.items.is_empty());
}

#[test]
fn a_level_without_platforms() {
    let f = split("start: 1,2\nbounds: 3,4,5,6\n").unwrap();
    assert!(f.items.is_empty());
}

#[test]
fn blanks_may_stand_around_the_colon() {
    let input = "start \t: \t 1,2\nbounds\t:3,4,5,6\nplatform.box  :  7,8,9,10\n";
    let bytes = input.as_bytes();
    let f = split_level(bytes).unwrap();
    assert_eq!(text(bytes, f.initial_x), "1");
    assert_eq!(text(bytes, f.west_boundary), "3");
    assert_eq!(item_texts(bytes, &f.items[0]), vec!["box", "7", "8", "9", "10"]);
}

#[test]
fn line_breaks_may_not_stand_around_the_colon() {
    assert!(split("start\n: 1,2\nbounds: 3,4,5,6\n").is_none());
}

#[test]
fn blanks_inside_a_line_belong_to_the_fields() {
    let input = "start: 1 , 2 \nbounds: 3,4,5,6\n";
    let bytes = input.as_bytes();
    let f = split_level(bytes).unwrap();
    assert_eq!(text(bytes, f.initial_x), "1 ");
    assert_eq!(text(bytes, f.initial_y), " 2 ");
}

#[test]
fn fields_may_be_empty() {
    let input = "start: ,\nbounds: ,,,\n";
    let bytes = input.as_bytes();
    let f = split_level(bytes).unwrap();
    assert_eq!(text(bytes, f.initial_x), "");
    assert_eq!(text(bytes, f.initial_y), "");
    assert_eq!(text(bytes, f.north_boundary), "");
}

#[test]
fn blank_lines_may_stand_around_the_bounds_and_at_the_end() {
    let input = "start: 1,2\n \r\n\t\nbounds: 3,4,5,6\n\n \n\nplatform.box: 7,8,9,10\n\n\r\n  \t";
    let f = split(input).unwrap();
    assert_eq!(f.items.len(), 1);
}

#[test]
fn blank_lines_may_not_stand_before_the_start() {
    assert!(split("\nstart: 1,2\nbounds: 3,4,5,6\n").is_none());
    assert!(split(" start: 1,2\nbounds: 3,4,5,6\n").is_none());
}

#[test]
fn blank_lines_may_not_stand_between_platforms() {
    let input = "start: 1,2\nbounds: 3,4,5,6\nplatform.box: 7,8,9,10\n\nplatform.box: 7,8,9,10\n";
    assert!(split(input).is_none());
}

#[test]
fn the_last_line_needs_its_line_feed() {
    assert!(split("start: 1,2\nbounds: 3,4,5,6").is_none());
    assert!(split("start: 1,2\nbounds: 3,4,5,6\nplatform.box: 7,8,9,10").is_none());
    assert!(split("start: 1,2").is_none());
}

#[test]
fn what_is_no_level_file() {
    assert!(split("").is_none());
    assert!(split("start").is_none());
    assert!(split("star: 1,2\nbounds: 3,4,5,6\n").is_none());
    assert!(split("start 1,2\nbounds: 3,4,5,6\n").is_none());
    assert!(split("bounds: 3,4,5,6\nstart: 1,2\n").is_none());
    assert!(split("start: 1,2\nbound: 3,4,5,6\n").is_none());
    assert!(split("start: 1,2\nbounds: 3,4,5\n").is_none());
    assert!(split("start: 1,2\nbounds: 3,4,5,6\nplatform.circle: 1,2,3\n").is_none());
    assert!(split("start: 1,2\nbounds: 3,4,5,6\nplatform.box: 7,8,9\n").is_none());
    assert!(split("start: 1,2\nbounds: 3,4,5,6\nplatform.box: 7,8,9,10\nrest").is_none());
    assert!(split("start: 1,2\nbounds: 3,4,5,6\nplat").is_none());
}

#[test]
fn a_line_platform_needs_a_known_direction() {
    assert!(split("start: 1,2\nbounds: 3,4,5,6\nplatform.line: 7,8,n,9\n").is_some());
    assert!(split("start: 1,2\nbounds: 3,4,5,6\nplatform.line: 7,8,e,9\n").is_some());
    assert!(split("start: 1,2\nbounds: 3,4,5,6\nplatform.line: 7,8,s,9\n").is_none());
    assert!(split("start: 1,2\nbounds: 3,4,5,6\nplatform.line: 7,8,w,9\n").is_none());
    assert!(split("start: 1,2\nbounds: 3,4,5,6\nplatform.line: 7,8, n,9\n").is_none());
    assert!(split("start: 1,2\nbounds: 3,4,5,6\nplatform.line: 7,8,n ,9\n").is_none());
    assert!(split("start: 1,2\nbounds: 3,4,5,6\nplatform.line: 7,8,n\n").is_none());
    assert!(split("start: 1,2\nbounds: 3,4,5,6\nplatform.line: 7,8,").is_none());
}

#[test]
fn a_field_runs_to_the_next_separator_whatever_lies_between() {
    // The first line has no comma: its first field runs into the second line.
    let input = "start: 1\nbounds: 3,4\nbounds: 5,6,7,8\n";
    let bytes = input.as_bytes();
    let f = split_level(bytes).unwrap();
    assert_eq!(text(bytes, f.initial_x), "1\nbounds: 3");
    assert_eq!(text(bytes, f.initial_y), "4");
    assert_eq!(text(bytes, f.west_boundary), "5");
    // A box line with five fields: the last field holds the rest of the line.
    let input = "start: 1,2\nbounds: 3,4,5,6\nplatform.box: 7,8,9,10,11\n";
    let bytes = input.as_bytes();
    let f = split_level(bytes).unwrap();
    assert_eq!(item_texts(bytes, &f.items[0]), vec!["box", "7", "8", "9", "10,11"]);
}

#[test]
fn bytes_that_are_no_text_are_framed_all_the_same() {
    let input = b"start: \xff,\xfe\nbounds: 3,4,5,6\n";
    let f = split_level(input).unwrap();
    assert_eq!(&input[f.initial_x.start..f.initial_x.end], b"\xff");
    assert_eq!(&input[f.initial_y.start..f.initial_y.end], b"\xfe");
}
