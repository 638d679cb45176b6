//! The selectable registry: every focusable element in document order.

use vstd::prelude::*;
use crate::cursor::{has_cursor, is_cursor};
use crate::item::{ItemView, Row, RowView, SelectableItem};

verus! {

/// Every item carries its own position as its index.
pub open spec fn indexes_in_order(s: Seq<ItemView>) -> bool {
    forall|i: int| 0 <= i < s.len() ==> (#[trigger] s[i]).index == i
}

/// The sequence with every index overwritten by the item's position.
pub open spec fn reindexed(s: Seq<ItemView>) -> Seq<ItemView> {
    Seq::new(s.len(), |i: int| ItemView { selected: s[i].selected, index: i as nat, row: s[i].row })
}

/// Rebuilding the indexes gives every item its position, whatever the
/// indexes were before.
pub proof fn lemma_reindexed_in_order(s: Seq<ItemView>)
    ensures
        indexes_in_order(reindexed(s)),
        reindexed(s).len() == s.len(),
        forall|i: int|
            0 <= i < s.len() ==> (#[trigger] reindexed(s)[i]).selected == s[i].selected
                && reindexed(s)[i].row == s[i].row,
{
}

/// Rebuilding the indexes twice in a row gives what rebuilding them once
/// gives.
pub proof fn lemma_reindexed_idempotent(s: Seq<ItemView>)
    ensures
        reindexed(reindexed(s)) == reindexed(s),
{
    assert(reindexed(reindexed(s)) =~= reindexed(s));
}

/// The input row comes first and every item behind it is a task.
pub open spec fn input_row_first(s: Seq<ItemView>) -> bool {
    &&& s.len() >= 1
    &&& s[0].row is InputRow
    &&& forall|i: int| 1 <= i < s.len() ==> (#[trigger] s[i]).row is TodoRow
}

/// What holds of the list between two key presses: exactly one item is
/// selected, every index is the item's position, and the input row leads.
pub open spec fn well_formed(s: Seq<ItemView>) -> bool {
    &&& has_cursor(s)
    &&& indexes_in_order(s)
    &&& input_row_first(s)
}

/// The list as it stands at the start: the input row alone, selected.
pub open spec fn initial_items() -> Seq<ItemView> {
    seq![ItemView { selected: true, index: 0, row: RowView::InputRow }]
}

/// The focusable elements, in document order.
#[derive(Clone, Debug, PartialEq, Eq)]
pub struct SelectableRegistry {
    pub items: Vec<SelectableItem>,
}

impl View for SelectableRegistry {
    type V = Seq<ItemView>;

    open spec fn view(&self) -> Seq<ItemView> {
        Seq::new(self.items@.len(), |i: int| self.items@[i]@)
    }
}

impl SelectableRegistry {
    /// A registry that holds the input row and nothing else, with the focus
    /// on it.
    pub fn new() -> (registry: SelectableRegistry)
        ensures
            registry@ == initial_items(),
            well_formed(registry@),
    {
        let mut items: Vec<SelectableItem> = Vec::new();
        items.push(SelectableItem { selected: true, index: 0, row: Row::InputRow });
        let registry = SelectableRegistry { items };
        proof {
            assert(registry@ =~= initial_items());
            assert(is_cursor(registry@, 0));
        }
        registry
    }

    /// The elements in document order.
    pub fn get_all_selectable(&self) -> (all: &Vec<SelectableItem>)
        ensures
            all@ == self.items@,
    {
        &self.items
    }

    /// How many elements can receive the focus.
    pub fn count(&self) -> (n: usize)
        ensures
            n == self@.len(),
    {
        self.items.len()
    }

    /// Gives every element its position as index, whatever it carried before.
    pub fn rebuild_selectable_indexes(&mut self)
        ensures
            final(self)@ == reindexed(old(self)@),
            indexes_in_order(final(self)@),
    {
        let n: usize = self.items.len();
        let mut i: usize = 0;
        while i < n
            invariant
                n == self.items@.len(),
                n == old(self).items@.len(),
                i <= n,
                forall|j: int|
                    0 <= j < i ==> (#[trigger] self.items@[j])@ == reindexed(old(self)@)[j],
                forall|j: int| i <= j < n ==> (#[trigger] self.items@[j]) == old(self).items@[j],
            decreases n - i,
        {
            self.items[i].index = i;
            i = i + 1;
        }
        assert(self@ =~= reindexed(old(self)@));
    }
}

} // verus!
