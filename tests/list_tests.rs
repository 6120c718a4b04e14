use daily_todo::{Item, SelectableList};

fn list_of(n: usize) -> SelectableList {
    SelectableList::new((0..n).map(|i| Item::new(format!("item {}", i))).collect())
}

#[test]
fn new_selects_first_item() {
    assert_eq!(list_of(3).selected(), Some(0));
    assert_eq!(list_of(0).selected(), None);
}

#[test]
fn push_on_empty_selects_it() {
    let mut l = list_of(0);
    l.push(Item::new("a".to_string()));
    assert_eq!(l.selected(), Some(0));
    l.next();
    l.push(Item::new("b".to_string()));
    assert_eq!(l.selected(), Some(0));
    assert_eq!(l.len(), 2);
}

#[test]
fn next_and_prev_wrap_around() {
    let mut l = list_of(3);
    l.prev();
    assert_eq!(l.selected(), Some(2));
    l.next();
    assert_eq!(l.selected(), Some(0));
    l.next();
    l.next();
    assert_eq!(l.selected(), Some(2));
}

#[test]
fn n_moves_return_to_start() {
    let mut l = list_of(4);
    l.next();
    for _ in 0..4 {
        l.next();
    }
    assert_eq!(l.selected(), Some(1));
    for _ in 0..4 {
        l.prev();
    }
    assert_eq!(l.selected(), Some(1));
}

#[test]
fn moves_on_empty_list_do_nothing() {
    let mut l = list_of(0);
    l.next();
    l.prev();
    l.remove_selected();
    l.toggle_selected();
    assert_eq!(l.selected(), None);
    assert_eq!(l.len(), 0);
}

#[test]
fn removing_last_of_three_selects_previous() {
    let mut l = list_of(3);
    l.prev();
    assert_eq!(l.selected(), Some(2));
    l.remove_selected();
    assert_eq!(l.selected(), Some(1));
    assert_eq!(l.len(), 2);
}

#[test]
fn removing_first_selects_last() {
    let mut l = list_of(3);
    l.remove_selected();
    assert_eq!(l.selected(), Some(1));
    assert_eq!(l.items()[0].text(), "item 1");
}

#[test]
fn removing_sole_item_clears_selection() {
    let mut l = list_of(1);
    l.remove_selected();
    assert_eq!(l.selected(), None);
    assert_eq!(l.len(), 0);
}

#[test]
fn toggle_flips_selected_item_only() {
    let mut l = list_of(2);
    l.next();
    l.toggle_selected();
    assert!(!l.items()[0].completed());
    assert!(l.items()[1].completed());
}
