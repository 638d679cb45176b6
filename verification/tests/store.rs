use dpad_todo::error::NavError;
use dpad_todo::item::{Row, SelectableItem, TodoItem};
use dpad_todo::registry::SelectableRegistry;

fn task(index: usize, text: &str, completed: bool) -> SelectableItem {
    SelectableItem {
        selected: false,
        index,
        row: Row::TodoRow(TodoItem { text: text.to_string(), completed }),
    }
}

fn focused_input() -> SelectableItem {
    SelectableItem { selected: true, index: 0, row: Row::InputRow }
}

#[test]
fn new_registry_holds_the_selected_input_row() {
    let registry = SelectableRegistry::new();
    assert_eq!(registry.items, vec![focused_input()]);
    assert_eq!(registry.count(), 1);
    assert_eq!(registry.get_all_selectable(), &vec![focused_input()]);
    assert_eq!(registry.get_index_of_current_selected(), Ok(0));
}

#[test]
fn new_task_is_not_completed() {
    let item = TodoItem::new("Buy milk".to_string());
    assert_eq!(item, TodoItem { text: "Buy milk".to_string(), completed: false });
}

#[test]
fn add_appends_behind_the_existing_tasks() {
    let mut registry = SelectableRegistry::new();
    assert_eq!(registry.add_todo("one".to_string()), Ok(1));
    assert_eq!(registry.add_todo("two".to_string()), Ok(2));
    assert_eq!(registry.add_todo(String::new()), Ok(3));
    assert_eq!(
        registry.items,
        vec![focused_input(), task(1, "one", false), task(2, "two", false), task(3, "", false)]
    );
}

#[test]
fn add_rebuilds_stale_indexes() {
    let mut registry = SelectableRegistry::new();
    registry.add_todo("one".to_string()).unwrap();
    registry.items[0].index = 5;
    registry.items[1].index = 5;
    assert_eq!(registry.add_todo("two".to_string()), Ok(2));
    let indexes: Vec<usize> = registry.items.iter().map(|item| item.index).collect();
    assert_eq!(indexes, vec![0, 1, 2]);
}

#[test]
fn add_without_an_input_row_is_element_not_found() {
    let mut registry = SelectableRegistry { items: Vec::new() };
    assert_eq!(registry.add_todo("one".to_string()), Err(NavError::ElementNotFound));
    assert_eq!(registry.items.len(), 0);
}

#[test]
fn toggle_flips_the_completed_flag() {
    let mut registry = SelectableRegistry::new();
    registry.add_todo("one".to_string()).unwrap();
    registry.add_todo("two".to_string()).unwrap();
    assert_eq!(registry.toggle_todo(2), Some(true));
    assert_eq!(
        registry.items,
        vec![focused_input(), task(1, "one", false), task(2, "two", true)]
    );
    assert_eq!(registry.toggle_todo(2), Some(false));
    assert_eq!(registry.toggle_todo(1), Some(true));
    assert_eq!(
        registry.items,
        vec![focused_input(), task(1, "one", true), task(2, "two", false)]
    );
}

#[test]
fn toggle_is_rejected_on_the_input_row_and_beyond_the_list() {
    let mut registry = SelectableRegistry::new();
    registry.add_todo("one".to_string()).unwrap();
    let before = registry.clone();
    assert_eq!(registry.toggle_todo(0), None);
    assert_eq!(registry, before);
    assert_eq!(registry.toggle_todo(2), None);
    assert_eq!(registry, before);
    assert_eq!(registry.toggle_todo(usize::MAX), None);
    assert_eq!(registry, before);
}

#[test]
fn toggle_is_rejected_at_position_zero_whatever_stands_there() {
    let mut registry = SelectableRegistry { items: vec![task(0, "stray", false)] };
    let before = registry.clone();
    assert_eq!(registry.toggle_todo(0), None);
    assert_eq!(registry, before);
    assert_eq!(registry.remove_todo(0), None);
    assert_eq!(registry, before);
}

#[test]
fn remove_takes_the_task_out_and_leaves_indexes_stale() {
    let mut registry = SelectableRegistry::new();
    registry.add_todo("one".to_string()).unwrap();
    registry.add_todo("two".to_string()).unwrap();
    registry.add_todo("three".to_string()).unwrap();
    registry.toggle_todo(2).unwrap();
    assert_eq!(
        registry.remove_todo(2),
        Some(TodoItem { text: "two".to_string(), completed: true })
    );
    assert_eq!(
        registry.items,
        vec![focused_input(), task(1, "one", false), task(3, "three", false)]
    );
    registry.rebuild_selectable_indexes();
    assert_eq!(
        registry.items,
        vec![focused_input(), task(1, "one", false), task(2, "three", false)]
    );
}

#[test]
fn remove_is_rejected_on_the_input_row_and_beyond_the_list() {
    let mut registry = SelectableRegistry::new();
    registry.add_todo("one".to_string()).unwrap();
    let before = registry.clone();
    assert_eq!(registry.remove_todo(0), None);
    assert_eq!(registry, before);
    assert_eq!(registry.remove_todo(2), None);
    assert_eq!(registry, before);
}

#[test]
fn tasks_are_left_alone_where_a_second_input_row_stands() {
    let mut registry = SelectableRegistry::new();
    registry.items.push(SelectableItem { selected: false, index: 1, row: Row::InputRow });
    let before = registry.clone();
    assert_eq!(registry.toggle_todo(1), None);
    assert_eq!(registry.remove_todo(1), None);
    assert_eq!(registry, before);
}

#[test]
fn rebuild_gives_every_item_its_position() {
    let mut registry = SelectableRegistry {
        items: vec![
            SelectableItem { selected: false, index: 7, row: Row::InputRow },
            task(7, "one", true),
            task(0, "two", false),
            task(2, "three", false),
        ],
    };
    registry.items[2].selected = true;
    registry.rebuild_selectable_indexes();
    let mut expected = vec![
        SelectableItem { selected: false, index: 0, row: Row::InputRow },
        task(1, "one", true),
        task(2, "two", false),
        task(3, "three", false),
    ];
    expected[2].selected = true;
    assert_eq!(registry.items, expected);
}

#[test]
fn rebuild_twice_is_rebuild_once() {
    let mut registry = SelectableRegistry {
        items: vec![task(4, "a", false), task(4, "b", true), task(1, "c", false)],
    };
    registry.rebuild_selectable_indexes();
    let once = registry.clone();
    registry.rebuild_selectable_indexes();
    assert_eq!(registry, once);
}

#[test]
fn rebuild_of_an_empty_registry_is_empty() {
    let mut registry = SelectableRegistry { items: Vec::new() };
    registry.rebuild_selectable_indexes();
    assert_eq!(registry.count(), 0);
}
