use spautofy::selection::{list_format, ActionSelectionList};

static NAMES: &[&str] = &["first action", "second action", "third action"];
static PICKS: &[bool] = &[true, true, false];

#[test]
fn lines_show_the_checkbox_and_the_name() {
    assert_eq!(list_format("first action", true), "[X] first action");
    assert_eq!(list_format("first action", false), "[ ] first action");
}

#[test]
fn a_new_list_mirrors_its_inputs() {
    let list = ActionSelectionList::new(NAMES, PICKS);
    assert_eq!(list.index, 0);
    assert_eq!(list.selected, vec![true, true, false]);
    assert_eq!(
        list.list_strings,
        vec!["[X] first action", "[X] second action", "[ ] third action"]
    );
}

#[test]
fn select_toggles_the_entry_under_the_cursor() {
    let mut list = ActionSelectionList::new(NAMES, PICKS);
    list.select();
    assert_eq!(list.selected, vec![false, true, false]);
    assert_eq!(list.list_strings[0], "[ ] first action");
    list.select();
    assert_eq!(list.selected, vec![true, true, false]);
    assert_eq!(list.list_strings[0], "[X] first action");
}

#[test]
fn the_cursor_stays_inside_the_list() {
    let mut list = ActionSelectionList::new(NAMES, PICKS);
    list.previous();
    assert_eq!(list.index, 0);
    list.next();
    assert_eq!(list.index, 1);
    list.next();
    assert_eq!(list.index, 2);
    list.next();
    assert_eq!(list.index, 2);
    list.previous();
    assert_eq!(list.index, 1);
}
