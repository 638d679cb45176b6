//! The soft-key presenter: the three button labels that go with the position
//! of the cursor.

use vstd::prelude::*;

verus! {

/// The labels of the left, centre and right soft key.
#[derive(Clone, Debug, PartialEq, Eq)]
pub struct SoftKeyLabels {
    pub left: String,
    pub center: String,
    pub right: String,
}

/// The mathematical value of [`SoftKeyLabels`].
pub struct SoftKeyLabelsView {
    pub left: Seq<char>,
    pub center: Seq<char>,
    pub right: Seq<char>,
}

impl View for SoftKeyLabels {
    type V = SoftKeyLabelsView;

    open spec fn view(&self) -> SoftKeyLabelsView {
        SoftKeyLabelsView { left: self.left@, center: self.center@, right: self.right@ }
    }
}

/// The labels shown while the cursor rests at `index`: the input row offers
/// to insert, a task offers to toggle and to delete.
pub open spec fn spec_labels_for(index: int) -> SoftKeyLabelsView {
    if index == 0 {
        SoftKeyLabelsView { left: ""@, center: "Insert"@, right: ""@ }
    } else {
        SoftKeyLabelsView { left: ""@, center: "Toggle"@, right: "Delete"@ }
    }
}

/// Fills the three label slots.
pub fn softkey_set_label(left: &str, center: &str, right: &str) -> (labels: SoftKeyLabels)
    ensures
        labels@ == (SoftKeyLabelsView { left: left@, center: center@, right: right@ }),
{
    SoftKeyLabels { left: left.to_owned(), center: center.to_owned(), right: right.to_owned() }
}

/// The labels for a cursor at `current_index`.
pub fn render(current_index: usize) -> (labels: SoftKeyLabels)
    ensures
        labels@ == spec_labels_for(current_index as int),
{
    if current_index == 0 {
        softkey_set_label("", "Insert", "")
    } else {
        softkey_set_label("", "Toggle", "Delete")
    }
}

} // verus!
