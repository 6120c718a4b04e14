use daily_todo::{count_completed, day_file_name, load_items, parse_items, render_items, Item};

fn strings(v: &[&str]) -> Vec<String> {
    v.iter().map(|s| s.to_string()).collect()
}

fn pairs(items: &[Item]) -> Vec<(String, bool)> {
    items.iter().map(|i| (i.text().to_string(), i.completed())).collect()
}

#[test]
fn render_joins_lines_without_trailing_newline() {
    let mut a = Item::new("a".to_string());
    a.toggle();
    let items = vec![a, Item::new("b".to_string())];
    assert_eq!(render_items(&items), "- [x] a\n- [ ] b");
    assert_eq!(render_items(&Vec::new()), "");
}

#[test]
fn parse_skips_malformed_and_blank_lines() {
    let items = parse_items("- [x] a\n\njunk\n- [ ] b\n- [ ]\n");
    assert_eq!(pairs(&items), vec![("a".to_string(), true), ("b".to_string(), false)]);
}

#[test]
fn parse_strips_crlf() {
    let items = parse_items("- [ ] a\r\n- [x] b\r\n");
    assert_eq!(pairs(&items), vec![("a".to_string(), false), ("b".to_string(), true)]);
}

#[test]
fn parse_of_empty_text_is_empty() {
    assert!(parse_items("").is_empty());
}

#[test]
fn load_of_missing_file_seeds_defaults() {
    let items = load_items(false, "", &strings(&["A", "B"]));
    assert_eq!(pairs(&items), vec![("A".to_string(), false), ("B".to_string(), false)]);
}

#[test]
fn load_of_existing_empty_file_has_no_defaults() {
    let items = load_items(true, "", &strings(&["A", "B"]));
    assert!(items.is_empty());
}

#[test]
fn load_of_missing_file_puts_defaults_first() {
    let items = load_items(false, "- [x] C", &strings(&["A"]));
    assert_eq!(pairs(&items), vec![("A".to_string(), false), ("C".to_string(), true)]);
}

#[test]
fn save_then_reload_gives_same_items() {
    let mut b = Item::new("b  ".to_string());
    b.toggle();
    let items = vec![Item::new("a".to_string()), b, Item::new("".to_string())];
    let data = render_items(&items);
    let back = load_items(true, &data, &strings(&["ignored"]));
    assert_eq!(pairs(&back), pairs(&items));
}

#[test]
fn end_to_end_scenario() {
    let defaults = strings(&["stretch", "read"]);
    let mut items = load_items(false, "", &defaults);
    assert_eq!(pairs(&items), vec![("stretch".to_string(), false), ("read".to_string(), false)]);
    items[0].toggle();
    let data = render_items(&items);
    assert_eq!(data.lines().collect::<Vec<_>>(), vec!["- [x] stretch", "- [ ] read"]);
    let back = load_items(true, &data, &defaults);
    assert_eq!(back.len(), 2);
    assert_eq!(pairs(&back), vec![("stretch".to_string(), true), ("read".to_string(), false)]);
}

#[test]
fn counts_completed_items() {
    let items = parse_items("- [x] a\n- [ ] b\n- [x] c");
    assert_eq!(count_completed(&items), 2);
    assert_eq!(items.len(), 3);
    assert_eq!(count_completed(&Vec::new()), 0);
}

#[test]
fn day_file_name_appends_extension() {
    assert_eq!(day_file_name("2024-01-31"), "2024-01-31.md");
}
