use daily_todo::{Item, ParseError};

#[test]
fn encodes_open_item() {
    let item = Item::new("read".to_string());
    assert_eq!(item.to_string(), "- [ ] read");
}

#[test]
fn encodes_done_item() {
    let mut item = Item::new("read".to_string());
    item.toggle();
    assert!(item.completed());
    assert_eq!(item.to_string(), "- [x] read");
}

#[test]
fn toggle_twice_restores() {
    let mut item = Item::new("a".to_string());
    item.toggle();
    item.toggle();
    assert!(!item.completed());
    assert_eq!(item.text(), "a");
}

#[test]
fn decodes_done_and_open_lines() {
    let done = Item::from_str("- [x] stretch").unwrap();
    assert_eq!(done.text(), "stretch");
    assert!(done.completed());
    let open = Item::from_str("- [ ] read").unwrap();
    assert_eq!(open.text(), "read");
    assert!(!open.completed());
}

#[test]
fn decode_keeps_trailing_whitespace_and_empty_text() {
    let item = Item::from_str("- [ ] spaced  ").unwrap();
    assert_eq!(item.text(), "spaced  ");
    let empty = Item::from_str("- [x] ").unwrap();
    assert_eq!(empty.text(), "");
    assert!(empty.completed());
}

#[test]
fn decode_rejects_malformed_lines() {
    assert_eq!(Item::from_str("").err(), Some(ParseError));
    assert_eq!(Item::from_str("- [ ]").err(), Some(ParseError));
    assert_eq!(Item::from_str("- [x]no space").err(), Some(ParseError));
    assert_eq!(Item::from_str("- [X] upper").err(), Some(ParseError));
    assert_eq!(Item::from_str("* [ ] star").err(), Some(ParseError));
    assert_eq!(Item::from_str("plain text").err(), Some(ParseError));
}

#[test]
fn decode_handles_non_ascii_text() {
    let item = Item::from_str("- [x] café ☕").unwrap();
    assert_eq!(item.text(), "café ☕");
    assert_eq!(item.to_string(), "- [x] café ☕");
}

#[test]
fn round_trip_of_items() {
    for (text, done) in [("", false), ("x", true), ("- [ ] nested", false), ("tab\there", true)] {
        let mut item = Item::new(text.to_string());
        if done {
            item.toggle();
        }
        let back = Item::from_str(&item.to_string()).unwrap();
        assert_eq!(back.text(), text);
        assert_eq!(back.completed(), done);
    }
}
