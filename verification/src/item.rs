//! The records behind the rendered list: the input row, the todo rows, and the
//! navigation attributes each of them carries.

use vstd::prelude::*;

verus! {

/// One task: its text, fixed at creation, and whether it is done.
#[derive(Clone, Debug, PartialEq, Eq)]
pub struct TodoItem {
    pub text: String,
    pub completed: bool,
}

/// The mathematical value of a [`TodoItem`].
pub struct TodoItemView {
    pub text: Seq<char>,
    pub completed: bool,
}

impl View for TodoItem {
    type V = TodoItemView;

    open spec fn view(&self) -> TodoItemView {
        TodoItemView { text: self.text@, completed: self.completed }
    }
}

impl TodoItem {
    /// A task that is not yet done.
    pub fn new(text: String) -> (item: TodoItem)
        ensures
            item@ == (TodoItemView { text: text@, completed: false }),
    {
        TodoItem { text, completed: false }
    }
}

/// What a selectable element is: the text-entry control or a task.
#[derive(Clone, Debug, PartialEq, Eq)]
pub enum Row {
    InputRow,
    TodoRow(TodoItem),
}

/// The mathematical value of a [`Row`].
pub enum RowView {
    InputRow,
    TodoRow(TodoItemView),
}

impl View for Row {
    type V = RowView;

    open spec fn view(&self) -> RowView {
        match self {
            Row::InputRow => RowView::InputRow,
            Row::TodoRow(item) => RowView::TodoRow(item@),
        }
    }
}

/// An element that can receive the focus, with its navigation attributes.
#[derive(Clone, Debug, PartialEq, Eq)]
pub struct SelectableItem {
    /// Whether the focus rests on this element.
    pub selected: bool,
    /// The ordinal the element was last given.
    pub index: usize,
    pub row: Row,
}

/// The mathematical value of a [`SelectableItem`].
pub struct ItemView {
    pub selected: bool,
    pub index: nat,
    pub row: RowView,
}

impl View for SelectableItem {
    type V = ItemView;

    open spec fn view(&self) -> ItemView {
        ItemView { selected: self.selected, index: self.index as nat, row: self.row@ }
    }
}

} // verus!
