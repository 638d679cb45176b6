//! The todo store: adding, toggling and removing the tasks that follow the
//! input row.

use vstd::prelude::*;
use crate::error::NavError;
use crate::item::{ItemView, Row, RowView, SelectableItem, TodoItem, TodoItemView};
use crate::registry::{indexes_in_order, reindexed, SelectableRegistry};

verus! {

/// The position `index` lies behind the input row and holds a task.
pub open spec fn is_todo_at(s: Seq<ItemView>, index: int) -> bool {
    1 <= index < s.len() && s[index].row is TodoRow
}

/// A fresh, unselected task with the given text, as it stands at `position`.
pub open spec fn new_todo(text: Seq<char>, position: nat) -> ItemView {
    ItemView {
        selected: false,
        index: position,
        row: RowView::TodoRow(TodoItemView { text, completed: false }),
    }
}

/// Whether `row` holds a task that is done.
pub open spec fn is_completed(row: RowView) -> bool {
    match row {
        RowView::InputRow => false,
        RowView::TodoRow(item) => item.completed,
    }
}

/// `row` with the completed flag of its task flipped; the input row as it is.
pub open spec fn toggled_row(row: RowView) -> RowView {
    match row {
        RowView::InputRow => RowView::InputRow,
        RowView::TodoRow(item) => RowView::TodoRow(
            TodoItemView { text: item.text, completed: !item.completed },
        ),
    }
}

/// `s` with a new task appended and all indexes rebuilt; `s` itself where not
/// even the input row exists.
pub open spec fn spec_add(s: Seq<ItemView>, text: Seq<char>) -> Seq<ItemView> {
    if s.len() == 0 {
        s
    } else {
        reindexed(s.push(new_todo(text, s.len())))
    }
}

/// `s` with the task at `index` toggled; `s` itself where `index` holds no task.
pub open spec fn spec_toggle(s: Seq<ItemView>, index: int) -> Seq<ItemView> {
    if is_todo_at(s, index) {
        s.update(
            index,
            ItemView {
                selected: s[index].selected,
                index: s[index].index,
                row: toggled_row(s[index].row),
            },
        )
    } else {
        s
    }
}

/// `s` without the task at `index`; `s` itself where `index` holds no task.
pub open spec fn spec_remove(s: Seq<ItemView>, index: int) -> Seq<ItemView> {
    if is_todo_at(s, index) {
        s.remove(index)
    } else {
        s
    }
}

/// A new task goes behind everything the list holds and never in front of
/// position one: the items before it keep their place, their selection and
/// their content.
pub proof fn lemma_add_appends(s: Seq<ItemView>, text: Seq<char>)
    ensures
        s.len() == 0 ==> spec_add(s, text) == s,
        s.len() > 0 ==> {
            &&& spec_add(s, text).len() == s.len() + 1
            &&& spec_add(s, text)[s.len() as int] == new_todo(text, s.len())
            &&& forall|i: int|
                0 <= i < s.len() ==> (#[trigger] spec_add(s, text)[i]).row == s[i].row
                    && spec_add(s, text)[i].selected == s[i].selected
        },
{
}

/// The input row is no task: toggling or removing at position zero changes
/// nothing.
pub proof fn lemma_input_row_is_kept(s: Seq<ItemView>)
    ensures
        spec_toggle(s, 0) == s,
        spec_remove(s, 0) == s,
{
}

/// After a task is added or removed and the indexes are rebuilt, every item
/// carries its position as its index.
pub proof fn lemma_indexes_in_order_after_change(s: Seq<ItemView>, text: Seq<char>, index: int)
    ensures
        indexes_in_order(reindexed(spec_add(s, text))),
        indexes_in_order(reindexed(spec_remove(s, index))),
{
}

impl SelectableRegistry {
    /// Appends a task with the given text behind all existing items and
    /// rebuilds the indexes. Returns the position of the new task. A registry
    /// without an input row takes no task.
    pub fn add_todo(&mut self, text: String) -> (added: Result<usize, NavError>)
        ensures
            final(self)@ == spec_add(old(self)@, text@),
            old(self)@.len() > 0 ==> indexes_in_order(final(self)@),
            match added {
                Ok(position) => old(self)@.len() > 0 && position == old(self)@.len(),
                Err(e) => e == NavError::ElementNotFound && old(self)@.len() == 0,
            },
    {
        let position: usize = self.items.len();
        if position == 0 {
            return Err(NavError::ElementNotFound);
        }
        let item = SelectableItem {
            selected: false,
            index: position,
            row: Row::TodoRow(TodoItem::new(text)),
        };
        self.items.push(item);
        assert(self@ =~= old(self)@.push(new_todo(text@, position as nat)));
        self.rebuild_selectable_indexes();
        Ok(position)
    }

    /// Flips the completed flag of the task at `index` and returns its new
    /// value. A position that holds no task, the input row among them, is
    /// left alone.
    pub fn toggle_todo(&mut self, index: usize) -> (toggled: Option<bool>)
        ensures
            final(self)@ == spec_toggle(old(self)@, index as int),
            match toggled {
                Some(completed) => is_todo_at(old(self)@, index as int) && completed
                    == !is_completed(old(self)@[index as int].row),
                None => !is_todo_at(old(self)@, index as int),
            },
    {
        if index == 0 || index >= self.items.len() {
            return None;
        }
        match &mut self.items[index].row {
            Row::InputRow => None,
            Row::TodoRow(item) => {
                let completed: bool = !item.completed;
                item.completed = completed;
                assert(self@ =~= spec_toggle(old(self)@, index as int));
                Some(completed)
            },
        }
    }

    /// Takes the task at `index` out of the list and returns it. A position
    /// that holds no task, the input row among them, is left alone. The
    /// indexes of the items behind it are stale until they are rebuilt.
    pub fn remove_todo(&mut self, index: usize) -> (removed: Option<TodoItem>)
        ensures
            final(self)@ == spec_remove(old(self)@, index as int),
            match removed {
                Some(item) => is_todo_at(old(self)@, index as int) && old(self)@[index as int].row
                    == RowView::TodoRow(item@),
                None => !is_todo_at(old(self)@, index as int),
            },
    {
        if index == 0 || index >= self.items.len() {
            return None;
        }
        let is_todo: bool = match self.items[index].row {
            Row::InputRow => false,
            Row::TodoRow(_) => true,
        };
        if !is_todo {
            return None;
        }
        let item = self.items.remove(index);
        assert(self@ =~= spec_remove(old(self)@, index as int));
        match item.row {
            Row::InputRow => None,
            Row::TodoRow(todo) => Some(todo),
        }
    }
}

} // verus!
