//! The keys of the device, as the event source names them.

use vstd::prelude::*;
use vstd::string::StrSliceExecFns;

verus! {

/// A key press, told apart by what the engine does with it.
#[derive(Clone, Copy, Debug, PartialEq, Eq, Structural)]
pub enum Key {
    Enter,
    ArrowUp,
    ArrowDown,
    SoftLeft,
    SoftRight,
    /// Any key the engine has no use for.
    Other,
}

/// The key that an event names.
pub open spec fn spec_key_from_name(name: Seq<char>) -> Key {
    if name == "Enter"@ {
        Key::Enter
    } else if name == "ArrowDown"@ {
        Key::ArrowDown
    } else if name == "ArrowUp"@ {
        Key::ArrowUp
    } else if name == "SoftRight"@ {
        Key::SoftRight
    } else if name == "SoftLeft"@ {
        Key::SoftLeft
    } else {
        Key::Other
    }
}

/// Whether two texts hold the same characters.
pub fn same_text(a: &str, b: &str) -> (same: bool)
    ensures
        same == (a@ == b@),
{
    let n: usize = a.unicode_len();
    if n != b.unicode_len() {
        return false;
    }
    let mut i: usize = 0;
    while i < n
        invariant
            n == a@.len(),
            n == b@.len(),
            i <= n,
            forall|j: int| 0 <= j < i ==> a@[j] == b@[j],
        decreases n - i,
    {
        if a.get_char(i) != b.get_char(i) {
            return false;
        }
        i = i + 1;
    }
    assert(a@ =~= b@);
    true
}

/// Reads the symbolic name that a key event carries.
pub fn key_from_name(name: &str) -> (key: Key)
    ensures
        key == spec_key_from_name(name@),
{
    if same_text(name, "Enter") {
        Key::Enter
    } else if same_text(name, "ArrowDown") {
        Key::ArrowDown
    } else if same_text(name, "ArrowUp") {
        Key::ArrowUp
    } else if same_text(name, "SoftRight") {
        Key::SoftRight
    } else if same_text(name, "SoftLeft") {
        Key::SoftLeft
    } else {
        Key::Other
    }
}

} // verus!
