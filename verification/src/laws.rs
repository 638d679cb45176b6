//! What every key press keeps true of the state.

use vstd::prelude::*;
use crate::cursor::{
    cursor, cursor_or_fallback, has_cursor, is_cursor, is_first_selected, lemma_cursor_unique,
    lemma_first_selected_unique, lemma_step_within, spec_move_to, spec_step, spec_unselect,
    Direction,
};
use crate::dispatch::{
    dispatcher_well_formed, spec_fault, spec_handle_key, spec_select_move, DispatcherView,
};
use crate::item::ItemView;
use crate::key::Key;
use crate::registry::{indexes_in_order, input_row_first, reindexed, well_formed};
use crate::store::{is_todo_at, spec_add, spec_remove, spec_toggle};

verus! {

/// The state after the keys of `keys` are handled one after the other,
/// starting in state `s`.
pub open spec fn spec_run(s: DispatcherView, keys: Seq<Key>) -> DispatcherView
    decreases keys.len(),
{
    if keys.len() == 0 {
        s
    } else {
        spec_handle_key(spec_run(s, keys.drop_last()), keys.last())
    }
}

/// Where one item is selected, taking the selection away leaves none
/// selected.
pub proof fn lemma_unselect_clears_cursor(s: Seq<ItemView>)
    requires
        has_cursor(s),
    ensures
        spec_unselect(s).len() == s.len(),
        forall|j: int| 0 <= j < s.len() ==> !(#[trigger] spec_unselect(s)[j]).selected,
        forall|j: int|
            0 <= j < s.len() ==> (#[trigger] spec_unselect(s)[j]).index == s[j].index
                && spec_unselect(s)[j].row == s[j].row,
{
    let c = cursor(s);
    assert(is_first_selected(s, c)) by {
        assert forall|j: int| 0 <= j < c implies !(#[trigger] s[j]).selected by {}
    }
    let first = choose|i: int| is_first_selected(s, i);
    lemma_first_selected_unique(s, c, first);
}

/// Moving the selection inside a well-formed list leaves the list well
/// formed, with the cursor at the target.
pub proof fn lemma_move_keeps_well_formed(s: Seq<ItemView>, target: int)
    requires
        well_formed(s),
        0 <= target < s.len(),
    ensures
        well_formed(spec_move_to(s, target)),
        cursor(spec_move_to(s, target)) == target,
{
    lemma_unselect_clears_cursor(s);
    let after = spec_move_to(s, target);
    assert(is_cursor(after, target));
    lemma_cursor_unique(after, target, cursor(after));
}

/// Adding a task to a well-formed list leaves the list well formed and the
/// cursor where it was.
pub proof fn lemma_add_keeps_well_formed(s: Seq<ItemView>, text: Seq<char>)
    requires
        well_formed(s),
    ensures
        well_formed(spec_add(s, text)),
        cursor(spec_add(s, text)) == cursor(s),
{
    let after = spec_add(s, text);
    let c = cursor(s);
    assert(is_cursor(after, c)) by {
        assert forall|j: int| 0 <= j < after.len() && j != c implies !(#[trigger] after[j]).selected by {
            if j < s.len() {
                assert(!s[j].selected);
            }
        }
    }
    lemma_cursor_unique(after, c, cursor(after));
    assert(input_row_first(after)) by {
        assert forall|i: int| 1 <= i < after.len() implies (#[trigger] after[i]).row is TodoRow by {
            if i < s.len() {
                assert(s[i].row is TodoRow);
            }
        }
    }
}

/// Toggling a task of a well-formed list leaves the list well formed and the
/// cursor where it was.
pub proof fn lemma_toggle_keeps_well_formed(s: Seq<ItemView>, index: int)
    requires
        well_formed(s),
    ensures
        well_formed(spec_toggle(s, index)),
        cursor(spec_toggle(s, index)) == cursor(s),
{
    let after = spec_toggle(s, index);
    let c = cursor(s);
    assert(is_cursor(after, c)) by {
        assert forall|j: int| 0 <= j < after.len() && j != c implies !(#[trigger] after[j]).selected by {
            assert(!s[j].selected);
        }
    }
    lemma_cursor_unique(after, c, cursor(after));
    assert(input_row_first(after)) by {
        assert forall|i: int| 1 <= i < after.len() implies (#[trigger] after[i]).row is TodoRow by {
            assert(s[i].row is TodoRow);
        }
    }
    assert(indexes_in_order(after)) by {
        assert forall|i: int| 0 <= i < after.len() implies (#[trigger] after[i]).index == i by {
            assert(s[i].index == i);
        }
    }
}

/// Removing a task other than the selected item from a well-formed list and
/// rebuilding the indexes leaves the list well formed; the cursor follows
/// its item.
pub proof fn lemma_remove_keeps_well_formed(s: Seq<ItemView>, index: int)
    requires
        well_formed(s),
        index != cursor(s),
    ensures
        well_formed(reindexed(spec_remove(s, index))),
        cursor(reindexed(spec_remove(s, index))) == if is_todo_at(s, index) && index < cursor(s) {
            cursor(s) - 1
        } else {
            cursor(s)
        },
{
    let after = reindexed(spec_remove(s, index));
    let c = cursor(s);
    let moved = if is_todo_at(s, index) && index < c {
        c - 1
    } else {
        c
    };
    assert(is_cursor(after, moved)) by {
        assert forall|j: int| 0 <= j < after.len() && j != moved implies !(#[trigger] after[j]).selected by {
            if is_todo_at(s, index) {
                if j < index {
                    assert(!s[j].selected);
                } else {
                    assert(!s[j + 1].selected);
                }
            } else {
                assert(!s[j].selected);
            }
        }
    }
    lemma_cursor_unique(after, moved, cursor(after));
    assert(input_row_first(after)) by {
        assert forall|i: int| 1 <= i < after.len() implies (#[trigger] after[i]).row is TodoRow by {
            if is_todo_at(s, index) {
                if i < index {
                    assert(s[i].row is TodoRow);
                } else {
                    assert(s[i + 1].row is TodoRow);
                }
            } else {
                assert(s[i].row is TodoRow);
            }
        }
    }
}

/// A key press in a well-formed state leads to a well-formed state: exactly
/// one item is selected, at a position inside the list; every index is its
/// item's position; the input row leads; the soft keys carry the labels of
/// the cursor's position. No condition had to be recovered from.
pub proof fn lemma_key_keeps_well_formed(s: DispatcherView, key: Key)
    requires
        dispatcher_well_formed(s),
    ensures
        dispatcher_well_formed(spec_handle_key(s, key)),
        is_cursor(
            spec_handle_key(s, key).items,
            cursor_or_fallback(spec_handle_key(s, key).items),
        ),
        spec_fault(s, key) is None,
{
    let n = s.items.len() as int;
    let c = cursor(s.items);
    match key {
        Key::Enter => {
            if c == 0 {
                lemma_add_keeps_well_formed(s.items, s.input);
            } else {
                lemma_toggle_keeps_well_formed(s.items, c);
            }
        },
        Key::ArrowDown => {
            lemma_step_within(c, Direction::Down, n);
            lemma_move_keeps_well_formed(s.items, spec_step(c, Direction::Down, n));
        },
        Key::ArrowUp => {
            lemma_step_within(c, Direction::Up, n);
            lemma_move_keeps_well_formed(s.items, spec_step(c, Direction::Up, n));
        },
        Key::SoftRight => {
            if c != 0 {
                lemma_step_within(c, Direction::Up, n);
                lemma_move_keeps_well_formed(s.items, c - 1);
                let moved = spec_select_move(s, Direction::Up);
                assert(moved.items == spec_move_to(s.items, c - 1));
                lemma_remove_keeps_well_formed(moved.items, c);
            }
        },
        Key::SoftLeft => {},
        Key::Other => {},
    }
}

/// An arrow key in a well-formed state takes the cursor one step along the
/// circular list: up from the input row to the last item, down from the last
/// item to the input row, and to the neighbour everywhere else.
pub proof fn lemma_arrows_wrap_around(s: DispatcherView)
    requires
        dispatcher_well_formed(s),
    ensures
        cursor(spec_handle_key(s, Key::ArrowUp).items) == if cursor(s.items) == 0 {
            s.items.len() - 1
        } else {
            cursor(s.items) - 1
        },
        cursor(spec_handle_key(s, Key::ArrowDown).items) == if cursor(s.items) == s.items.len() - 1 {
            0
        } else {
            cursor(s.items) + 1
        },
{
    let n = s.items.len() as int;
    let c = cursor(s.items);
    lemma_step_within(c, Direction::Up, n);
    lemma_move_keeps_well_formed(s.items, spec_step(c, Direction::Up, n));
    lemma_move_keeps_well_formed(s.items, spec_step(c, Direction::Down, n));
}

/// Any sequence of key presses, starting in a well-formed state, ends in a
/// well-formed state.
pub proof fn lemma_run_keeps_well_formed(s: DispatcherView, keys: Seq<Key>)
    requires
        dispatcher_well_formed(s),
    ensures
        dispatcher_well_formed(spec_run(s, keys)),
        is_cursor(spec_run(s, keys).items, cursor_or_fallback(spec_run(s, keys).items)),
    decreases keys.len(),
{
    if keys.len() > 0 {
        lemma_run_keeps_well_formed(s, keys.drop_last());
        lemma_key_keeps_well_formed(spec_run(s, keys.drop_last()), keys.last());
    }
}

/// Keys the engine has no use for change nothing: an unknown key and the
/// left soft key in every state, the right soft key while the cursor rests
/// on the input row.
pub proof fn lemma_ignored_keys_change_nothing(s: DispatcherView)
    ensures
        spec_handle_key(s, Key::Other) == s,
        spec_handle_key(s, Key::SoftLeft) == s,
        cursor_or_fallback(s.items) == 0 ==> spec_handle_key(s, Key::SoftRight) == s,
{
}

} // verus!
