use gitdiff_view::diff::{aggregate, aggregate_lines, decode_event, AggregateError, ChangeEvent, Diff, Direction, Line, LineEvent};
use gitdiff_view::order::name_before;

fn event(direction: Direction, path: &str, old: Option<u32>, new: Option<u32>, content: &[u8]) -> ChangeEvent {
    ChangeEvent {
        direction,
        path_for_added: path.to_string(),
        path_for_removed: path.to_string(),
        old_line_number: old,
        new_line_number: new,
        raw_content: content.to_vec(),
    }
}

fn line(n: Option<u32>, s: &str) -> Line {
    Line { line_number: n, content: s.to_string() }
}

#[test]
fn three_events_two_files() {
    let events = vec![
        event(Direction::Added, "a.txt", None, Some(1), b"x"),
        event(Direction::Removed, "a.txt", Some(1), None, b"y"),
        event(Direction::Added, "b.txt", None, Some(5), b"z"),
    ];
    let s = aggregate(&events).unwrap();
    assert_eq!(s.len(), 2);
    assert_eq!(s[0].file_name, "a.txt");
    assert_eq!(s[0].removed, vec![line(Some(1), "y")]);
    assert_eq!(s[0].added, vec![line(Some(1), "x")]);
    assert_eq!(s[1].file_name, "b.txt");
    assert_eq!(s[1].removed, vec![]);
    assert_eq!(s[1].added, vec![line(Some(5), "z")]);
}

#[test]
fn other_events_record_nothing() {
    let events = vec![
        event(Direction::Other, "a.txt", Some(3), Some(3), b"context"),
        event(Direction::Added, "a.txt", None, Some(4), b"new"),
        event(Direction::Other, "c.txt", Some(1), Some(1), b"header"),
    ];
    let s = aggregate(&events).unwrap();
    assert_eq!(s.len(), 1);
    assert_eq!(s[0].file_name, "a.txt");
    assert_eq!(s[0].added, vec![line(Some(4), "new")]);
    assert!(s[0].removed.is_empty());
}

#[test]
fn only_other_events_give_no_files() {
    let events = vec![event(Direction::Other, "a.txt", Some(1), Some(1), b"same")];
    assert_eq!(aggregate(&events).unwrap(), vec![]);
}

#[test]
fn empty_stream_gives_no_files() {
    assert_eq!(aggregate(&vec![]).unwrap(), vec![]);
}

#[test]
fn order_within_file_kept_across_interleaving() {
    let events = vec![
        event(Direction::Added, "p", None, Some(9), b"first"),
        event(Direction::Added, "q", None, Some(1), b"other"),
        event(Direction::Removed, "p", Some(2), None, b"gone"),
        event(Direction::Added, "p", None, Some(3), b"second"),
        event(Direction::Added, "q", None, Some(2), b"other2"),
        event(Direction::Added, "p", None, Some(1), b"third"),
    ];
    let s = aggregate(&events).unwrap();
    assert_eq!(s.len(), 2);
    assert_eq!(s[0].file_name, "p");
    assert_eq!(
        s[0].added,
        vec![line(Some(9), "first"), line(Some(3), "second"), line(Some(1), "third")]
    );
    assert_eq!(s[0].removed, vec![line(Some(2), "gone")]);
    assert_eq!(s[1].added, vec![line(Some(1), "other"), line(Some(2), "other2")]);
}

#[test]
fn rerun_gives_equal_snapshot() {
    let events = vec![
        event(Direction::Added, "z.rs", None, Some(1), b"a"),
        event(Direction::Removed, "m.rs", Some(4), None, b"b"),
        event(Direction::Added, "a.rs", None, Some(2), b"c"),
        event(Direction::Removed, "z.rs", Some(7), None, b"d"),
    ];
    let first = aggregate(&events).unwrap();
    let second = aggregate(&events).unwrap();
    assert_eq!(first, second);
}

#[test]
fn files_listed_by_name() {
    let events = vec![
        event(Direction::Added, "src/main.rs", None, Some(1), b"m"),
        event(Direction::Added, "README", None, Some(1), b"r"),
        event(Direction::Removed, "build.rs", Some(1), None, b"b"),
        event(Direction::Added, "src/lib.rs", None, Some(1), b"l"),
    ];
    let s = aggregate(&events).unwrap();
    let names: Vec<&str> = s.iter().map(|d| d.file_name.as_str()).collect();
    assert_eq!(names, vec!["README", "build.rs", "src/lib.rs", "src/main.rs"]);
}

#[test]
fn removed_path_governs_removals() {
    let e = ChangeEvent {
        direction: Direction::Removed,
        path_for_added: "new_name.txt".to_string(),
        path_for_removed: "old_name.txt".to_string(),
        old_line_number: Some(2),
        new_line_number: None,
        raw_content: b"bye".to_vec(),
    };
    let s = aggregate(&vec![e]).unwrap();
    assert_eq!(s.len(), 1);
    assert_eq!(s[0].file_name, "old_name.txt");
    assert_eq!(s[0].removed, vec![line(Some(2), "bye")]);
}

#[test]
fn absent_line_number_is_distinct() {
    let events = vec![
        event(Direction::Added, "f", None, None, b"no number"),
        event(Direction::Added, "f", None, Some(0), b"zero"),
        event(Direction::Added, "f", None, Some(1), b"one"),
    ];
    let s = aggregate(&events).unwrap();
    assert_eq!(s[0].added[0].line_number, None);
    assert_eq!(s[0].added[1].line_number, Some(0));
    assert_eq!(s[0].added[2].line_number, Some(1));
    assert_ne!(s[0].added[0], s[0].added[1]);
    assert_ne!(s[0].added[0], s[0].added[2]);
}

#[test]
fn content_is_trimmed() {
    let events = vec![event(Direction::Added, "f", None, Some(1), b"  let x = 1;\t\n")];
    let s = aggregate(&events).unwrap();
    assert_eq!(s[0].added[0].content, "let x = 1;");
}

#[test]
fn content_decodes_utf8() {
    let events = vec![event(Direction::Removed, "f", Some(1), None, "caf\u{e9} \u{2713}\n".as_bytes())];
    let s = aggregate(&events).unwrap();
    assert_eq!(s[0].removed[0].content, "caf\u{e9} \u{2713}");
}

#[test]
fn malformed_content_stops_run() {
    let events = vec![
        event(Direction::Added, "f", None, Some(1), b"ok"),
        event(Direction::Other, "f", None, None, &[0xff, 0xfe]),
        event(Direction::Added, "g", None, Some(1), &[0xc3]),
    ];
    assert_eq!(aggregate(&events), Err(AggregateError::MalformedContent { index: 1 }));
}

#[test]
fn decode_event_rejects_malformed() {
    assert!(decode_event(&event(Direction::Added, "f", None, Some(1), &[0x80])).is_none());
    let d = decode_event(&event(Direction::Added, "f", None, Some(1), b" a ")).unwrap();
    assert_eq!(d.content, "a");
    assert_eq!(d.path_for_added, "f");
    assert_eq!(d.new_line_number, Some(1));
}

#[test]
fn aggregate_lines_on_text_events() {
    let e = LineEvent {
        direction: Direction::Added,
        path_for_added: "k".to_string(),
        path_for_removed: "k".to_string(),
        old_line_number: None,
        new_line_number: Some(8),
        content: " kept as given ".to_string(),
    };
    let s = aggregate_lines(&vec![e]);
    assert_eq!(
        s,
        vec![Diff { file_name: "k".to_string(), removed: vec![], added: vec![line(Some(8), " kept as given ")] }]
    );
}

#[test]
fn clones_are_equal() {
    let d = Diff {
        file_name: "x".to_string(),
        removed: vec![line(Some(1), "a")],
        added: vec![line(None, "b"), line(Some(2), "c")],
    };
    assert_eq!(d.clone(), d);
    assert_eq!(d.added[1].clone(), line(Some(2), "c"));
}

#[test]
fn names_compare_by_character() {
    assert!(name_before(&"a".to_string(), &"b".to_string()));
    assert!(name_before(&"a".to_string(), &"ab".to_string()));
    assert!(!name_before(&"ab".to_string(), &"a".to_string()));
    assert!(!name_before(&"same".to_string(), &"same".to_string()));
    assert!(name_before(&"Z".to_string(), &"a".to_string()));
    assert!(name_before(&"".to_string(), &"a".to_string()));
}
