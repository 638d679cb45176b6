//! The focus cursor: which element is selected, and where a step of the
//! directional pad takes the selection.

use vstd::prelude::*;
use vstd::arithmetic::div_mod::lemma_fundamental_div_mod;
use vstd::arithmetic::div_mod::lemma_fundamental_div_mod_converse;
use crate::error::NavError;
use crate::item::ItemView;
use crate::registry::SelectableRegistry;

verus! {

/// A step of the directional pad along the list.
#[derive(Clone, Copy, Debug, PartialEq, Eq, Structural)]
pub enum Direction {
    /// Towards the start of the list.
    Up,
    /// Towards the end of the list.
    Down,
}

/// The change of position that a step in the given direction asks for.
pub open spec fn delta(direction: Direction) -> int {
    match direction {
        Direction::Up => -1,
        Direction::Down => 1,
    }
}

/// The position reached from `current` by one step on a circular list of
/// `wrap_count` elements.
pub open spec fn spec_step(current: int, direction: Direction, wrap_count: int) -> int {
    (current + delta(direction) + wrap_count) % wrap_count
}

/// The position `i` holds the one and only selected item of `s`.
pub open spec fn is_cursor(s: Seq<ItemView>, i: int) -> bool {
    &&& 0 <= i < s.len()
    &&& s[i].selected
    &&& forall|j: int| 0 <= j < s.len() && j != i ==> !(#[trigger] s[j]).selected
}

/// Exactly one item of `s` is selected.
pub open spec fn has_cursor(s: Seq<ItemView>) -> bool {
    exists|i: int| is_cursor(s, i)
}

/// The position of the selected item, where exactly one item is selected.
pub open spec fn cursor(s: Seq<ItemView>) -> int
    recommends
        has_cursor(s),
{
    choose|i: int| is_cursor(s, i)
}

/// The position the engine works with: the cursor, or the input row when no
/// single item is selected.
pub open spec fn cursor_or_fallback(s: Seq<ItemView>) -> int {
    if has_cursor(s) {
        cursor(s)
    } else {
        0
    }
}

/// The position `i` holds the first selected item of `s` in document order.
pub open spec fn is_first_selected(s: Seq<ItemView>, i: int) -> bool {
    &&& 0 <= i < s.len()
    &&& s[i].selected
    &&& forall|j: int| 0 <= j < i ==> !(#[trigger] s[j]).selected
}

/// `s` with the flag of its first selected item cleared; `s` itself where no
/// item is selected.
pub open spec fn spec_unselect(s: Seq<ItemView>) -> Seq<ItemView> {
    if exists|i: int| is_first_selected(s, i) {
        let i = choose|i: int| is_first_selected(s, i);
        s.update(i, ItemView { selected: false, index: s[i].index, row: s[i].row })
    } else {
        s
    }
}

/// `s` with the item at `nth` selected and carrying `nth` as its index; `s`
/// itself where there is no such item.
pub open spec fn spec_focus(s: Seq<ItemView>, nth: int) -> Seq<ItemView> {
    if 0 <= nth < s.len() {
        s.update(nth, ItemView { selected: true, index: nth as nat, row: s[nth].row })
    } else {
        s
    }
}

/// The selection taken from the current item and given to the item at `target`.
pub open spec fn spec_move_to(s: Seq<ItemView>, target: int) -> Seq<ItemView> {
    spec_focus(spec_unselect(s), target)
}

/// The valid position nearest to `index` in a list of `count` elements.
pub open spec fn spec_clamp_index(index: int, count: int) -> int {
    if index < count {
        index
    } else if count > 0 {
        count - 1
    } else {
        0
    }
}

/// A sequence has at most one cursor.
pub proof fn lemma_cursor_unique(s: Seq<ItemView>, i: int, j: int)
    requires
        is_cursor(s, i),
        is_cursor(s, j),
    ensures
        i == j,
{
    if i != j {
        assert(!s[j].selected);
    }
}

/// A sequence has at most one first selected item.
pub proof fn lemma_first_selected_unique(s: Seq<ItemView>, i: int, j: int)
    requires
        is_first_selected(s, i),
        is_first_selected(s, j),
    ensures
        i == j,
{
    if i < j {
        assert(!s[i].selected);
    } else if j < i {
        assert(!s[j].selected);
    }
}

/// On a list of `wrap_count` elements a step from a position inside the list
/// goes to the neighbour, and from either end to the other end.
pub proof fn lemma_step_within(current: int, direction: Direction, wrap_count: int)
    requires
        0 <= current < wrap_count,
    ensures
        spec_step(current, Direction::Up, wrap_count) == if current == 0 {
            wrap_count - 1
        } else {
            current - 1
        },
        spec_step(current, Direction::Down, wrap_count) == if current == wrap_count - 1 {
            0
        } else {
            current + 1
        },
{
    let w = wrap_count;
    assert(0 * w == 0) by (nonlinear_arith);
    assert(1 * w == w) by (nonlinear_arith);
    assert(2 * w == w + w) by (nonlinear_arith);
    if current == 0 {
        lemma_fundamental_div_mod_converse(current - 1 + w, w, 0, w - 1);
    } else {
        lemma_fundamental_div_mod_converse(current - 1 + w, w, 1, current - 1);
    }
    if current == w - 1 {
        lemma_fundamental_div_mod_converse(current + 1 + w, w, 2, 0);
    } else {
        lemma_fundamental_div_mod_converse(current + 1 + w, w, 1, current + 1);
    }
}

/// The list is circular: one step up from the first of `n` positions lands
/// on the last, and one step down from the last lands on the first.
pub proof fn lemma_step_wraps_around(n: int)
    requires
        n > 0,
    ensures
        spec_step(0, Direction::Up, n) == n - 1,
        spec_step(n - 1, Direction::Down, n) == 0,
{
    lemma_step_within(0, Direction::Up, n);
    lemma_step_within(n - 1, Direction::Down, n);
}

/// Computes the position one step away from `current`, wrapping around at
/// both ends of a list of `wrap_count` elements.
pub fn step(current: usize, direction: Direction, wrap_count: usize) -> (next: usize)
    requires
        wrap_count > 0,
    ensures
        next == spec_step(current as int, direction, wrap_count as int),
        next < wrap_count,
{
    let within: usize = current % wrap_count;
    let ghost w = wrap_count as int;
    let ghost q = current as int / w;
    proof {
        lemma_fundamental_div_mod(current as int, w);
        assert((q + 1) * w == q * w + w) by (nonlinear_arith);
        assert((q + 2) * w == q * w + 2 * w) by (nonlinear_arith);
        assert(w * q == q * w) by (nonlinear_arith);
    }
    match direction {
        Direction::Up => {
            if within == 0 {
                proof {
                    lemma_fundamental_div_mod_converse(current as int - 1 + w, w, q, w - 1);
                }
                wrap_count - 1
            } else {
                proof {
                    lemma_fundamental_div_mod_converse(current as int - 1 + w, w, q + 1, within as int - 1);
                }
                within - 1
            }
        },
        Direction::Down => {
            if within == wrap_count - 1 {
                proof {
                    lemma_fundamental_div_mod_converse(current as int + 1 + w, w, q + 2, 0);
                }
                0
            } else {
                proof {
                    lemma_fundamental_div_mod_converse(current as int + 1 + w, w, q + 1, within as int + 1);
                }
                within + 1
            }
        },
    }
}

/// Brings a computed position back into a list of `count` elements.
pub fn clamp_index(index: usize, count: usize) -> (clamped: usize)
    ensures
        clamped == spec_clamp_index(index as int, count as int),
        count > 0 ==> clamped < count,
{
    if index < count {
        index
    } else if count > 0 {
        count - 1
    } else {
        0
    }
}

impl SelectableRegistry {
    /// Resolves the cursor: the position of the selected item, provided that
    /// exactly one item is selected.
    pub fn get_index_of_current_selected(&self) -> (resolved: Result<usize, NavError>)
        ensures
            match resolved {
                Ok(i) => is_cursor(self@, i as int),
                Err(e) => e == NavError::SelectionInvariantViolated && !has_cursor(self@),
            },
    {
        let n: usize = self.items.len();
        let mut found: Option<usize> = None;
        let mut i: usize = 0;
        while i < n
            invariant
                n == self.items@.len(),
                i <= n,
                match found {
                    Some(f) => f < i && self@[f as int].selected && forall|j: int|
                        0 <= j < i && j != f ==> !(#[trigger] self@[j]).selected,
                    None => forall|j: int| 0 <= j < i ==> !(#[trigger] self@[j]).selected,
                },
            decreases n - i,
        {
            if self.items[i].selected {
                match found {
                    Some(f) => {
                        proof {
                            assert forall|k: int| !is_cursor(self@, k) by {
                                if k != f as int {
                                    assert(self@[f as int].selected);
                                } else {
                                    assert(self@[i as int].selected);
                                }
                            }
                        }
                        return Err(NavError::SelectionInvariantViolated);
                    },
                    None => {
                        found = Some(i);
                    },
                }
            }
            i = i + 1;
        }
        match found {
            Some(f) => Ok(f),
            None => {
                proof {
                    assert forall|k: int| !is_cursor(self@, k) by {
                        if 0 <= k < n {
                            assert(!self@[k].selected);
                        }
                    }
                }
                Err(NavError::SelectionInvariantViolated)
            },
        }
    }

    /// Takes the selection from the first item that carries it.
    pub fn unselect_element(&mut self)
        ensures
            final(self)@ == spec_unselect(old(self)@),
    {
        let n: usize = self.items.len();
        let mut i: usize = 0;
        while i < n
            invariant
                n == self.items@.len(),
                i <= n,
                *self == *old(self),
                forall|j: int| 0 <= j < i ==> !(#[trigger] self@[j]).selected,
            decreases n - i,
        {
            if self.items[i].selected {
                proof {
                    let first = choose|k: int| is_first_selected(self@, k);
                    assert(is_first_selected(self@, i as int));
                    lemma_first_selected_unique(self@, i as int, first);
                }
                self.items[i].selected = false;
                assert(self@ =~= spec_unselect(old(self)@));
                return ;
            }
            i = i + 1;
        }
        proof {
            assert forall|k: int| !is_first_selected(self@, k) by {
                if 0 <= k < n {
                    assert(!self@[k].selected);
                }
            }
        }
    }

    /// Selects the item at `nth`, or the last item where `nth` lies beyond
    /// the end of the list, and gives it its position as index. Returns the
    /// position that was selected. Only an empty list has nothing to select.
    pub fn focus_nth_selectable(&mut self, nth: usize) -> (done: Result<usize, NavError>)
        ensures
            final(self)@ == spec_focus(
                old(self)@,
                spec_clamp_index(nth as int, old(self)@.len() as int),
            ),
            match done {
                Ok(target) => old(self)@.len() > 0 && target == spec_clamp_index(
                    nth as int,
                    old(self)@.len() as int,
                ),
                Err(e) => e == NavError::ElementNotFound && old(self)@.len() == 0,
            },
    {
        let count: usize = self.items.len();
        if count == 0 {
            return Err(NavError::ElementNotFound);
        }
        let target: usize = clamp_index(nth, count);
        self.items[target].selected = true;
        self.items[target].index = target;
        assert(self@ =~= spec_focus(old(self)@, target as int));
        Ok(target)
    }

    /// Moves the selection to `new_index`, brought back into the list where it
    /// lies beyond its end, and returns the position that now holds it.
    pub fn move_to(&mut self, new_index: usize) -> (moved: Result<usize, NavError>)
        ensures
            match moved {
                Ok(target) => {
                    &&& old(self)@.len() > 0
                    &&& target == spec_clamp_index(new_index as int, old(self)@.len() as int)
                    &&& final(self)@ == spec_move_to(old(self)@, target as int)
                },
                Err(e) => {
                    &&& e == NavError::ElementNotFound
                    &&& old(self)@.len() == 0
                    &&& final(self)@ == old(self)@
                },
            },
    {
        if self.items.len() == 0 {
            return Err(NavError::ElementNotFound);
        }
        self.unselect_element();
        self.focus_nth_selectable(new_index)
    }
}

} // verus!
