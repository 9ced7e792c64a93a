use jotspot::annotation::{Annotation, AnnotationsData, ParseError};
use jotspot::store::{annotate, get_annotations_filename, read_annotations, save_annotations};

fn note(created_at: u64, content: &str) -> Annotation {
    Annotation { content: content.to_string(), created_at }
}

fn pairs(notes: &[Annotation]) -> Vec<(u64, String)> {
    notes.iter().map(|n| (n.created_at, n.content.clone())).collect()
}

fn by_lines(text: &str) -> Vec<(u64, String)> {
    text.lines()
        .filter(|line| !line.is_empty())
        .map(|line| {
            let n = Annotation::parse(line).unwrap();
            (n.created_at, n.content)
        })
        .collect()
}

#[test]
fn an_empty_store_holds_no_note() {
    assert_eq!(read_annotations("").unwrap().len(), 0);
}

#[test]
fn blank_lines_are_passed_over() {
    assert_eq!(read_annotations("\n\n\r\n").unwrap().len(), 0);
    let notes = read_annotations("\n1 a\n\n\n2 b\n\n").unwrap();
    assert_eq!(pairs(&notes), vec![(1, "a".to_string()), (2, "b".to_string())]);
}

#[test]
fn two_lines_are_two_notes() {
    let notes = read_annotations("1000 hello\n2000 world\n").unwrap();
    assert_eq!(notes.len(), 2);
    assert_eq!(notes[0].content, "hello");
    assert_eq!(notes[0].created_at, 1000);
    assert_eq!(notes[1].content, "world");
    assert_eq!(notes[1].created_at, 2000);
}

#[test]
fn the_last_line_needs_no_line_end() {
    let notes = read_annotations("1000 hello\n2000 world").unwrap();
    assert_eq!(pairs(&notes), vec![(1000, "hello".to_string()), (2000, "world".to_string())]);
}

#[test]
fn a_carriage_return_before_the_line_feed_is_part_of_the_line_end() {
    let notes = read_annotations("1 a\r\n2 b\r\n").unwrap();
    assert_eq!(pairs(&notes), vec![(1, "a".to_string()), (2, "b".to_string())]);
}

#[test]
fn a_carriage_return_elsewhere_is_part_of_the_content() {
    let notes = read_annotations("1 a\rb\n2 c\r").unwrap();
    assert_eq!(pairs(&notes), vec![(1, "a\rb".to_string()), (2, "c\r".to_string())]);
    let doubled = read_annotations("1 a\r\r\n").unwrap();
    assert_eq!(pairs(&doubled), vec![(1, "a\r".to_string())]);
}

#[test]
fn a_line_that_is_no_note_fails_the_whole_load() {
    assert_eq!(read_annotations("helloworld").unwrap_err(), ParseError::MissingDelimiter);
    assert_eq!(
        read_annotations("1000 hello\nhelloworld\n2000 world\n").unwrap_err(),
        ParseError::MissingDelimiter
    );
    assert_eq!(
        read_annotations("1000 hello\nx y\nhelloworld\n").unwrap_err(),
        ParseError::InvalidTimestamp
    );
    assert_eq!(read_annotations("1000 hello\n\r").unwrap_err(), ParseError::MissingDelimiter);
}

#[test]
fn lines_are_taken_as_the_standard_line_iterator_takes_them() {
    let samples = [
        "",
        "1 a",
        "1 a\n",
        "1 a\r\n",
        "1 a\r",
        "1 a\n\n2 b",
        "1 a\r\n\r\n2 b\r\n",
        "\n\n1 a",
        "1 a \r\r\n2  b\n",
        "1 \n2 \n",
        "3 é\n4 ü ö\n",
    ];
    for sample in samples {
        assert_eq!(pairs(&read_annotations(sample).unwrap()), by_lines(sample), "{:?}", sample);
    }
}

#[test]
fn saving_writes_one_line_for_each_note() {
    let data = AnnotationsData::new(vec![note(1000, "hello"), note(2000, "world")]);
    assert_eq!(save_annotations(&data), "1000 hello\n2000 world\n");
    assert_eq!(save_annotations(&AnnotationsData::new(Vec::new())), "");
}

#[test]
fn saved_then_loaded_is_the_same_collection() {
    let written = vec![note(3, "c"), note(1, "a b c"), note(u64::MAX, ""), note(0, "  x  ")];
    let text = save_annotations(&AnnotationsData::new(written.clone()));
    assert_eq!(pairs(&read_annotations(&text).unwrap()), pairs(&written));
}

#[test]
fn appended_notes_are_loaded_in_the_order_of_appending() {
    let mut text = String::new();
    let mut written = Vec::new();
    for i in 0..20u64 {
        let n = note(1000 + i, &format!("note number {}", i));
        text.push_str(&n.serialize());
        text.push('\n');
        written.push(n);
        assert_eq!(pairs(&read_annotations(&text).unwrap()), pairs(&written));
    }
}

#[test]
fn content_with_a_line_feed_does_not_come_back() {
    let data = AnnotationsData::new(vec![note(1, "a\n2 b")]);
    let text = save_annotations(&data);
    let back = read_annotations(&text).unwrap();
    assert_eq!(pairs(&back), vec![(1, "a".to_string()), (2, "b".to_string())]);
}

#[test]
fn annotate_gives_the_line_to_append() {
    let line = annotate("buy milk");
    assert!(line.ends_with(" buy milk\n"), "{:?}", line);
    let notes = read_annotations(&line).unwrap();
    assert_eq!(notes.len(), 1);
    assert_eq!(notes[0].content, "buy milk");
    assert_eq!(line, format!("{} buy milk\n", notes[0].created_at));
    assert!(notes[0].created_at > 1_600_000_000_000);
}

#[test]
fn the_store_lies_in_the_home_directory() {
    assert_eq!(get_annotations_filename("/home/ann"), "/home/ann/.annotations");
    assert_eq!(get_annotations_filename(""), "/.annotations");
}
