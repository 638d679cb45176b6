//! Focus navigation and todo bookkeeping for a list driven by a directional pad.
//!
//! The list is a sequence of records: the input row first, the tasks behind
//! it. Exactly one record is selected. Key presses move the selection around
//! the list, turn the text of the input row into a new task, toggle a task or
//! remove it. Every function says in its contract what it does to the list,
//! and the laws proved beside them say what every key press keeps true.

pub mod attribute;
pub mod cursor;
pub mod dispatch;
pub mod error;
pub mod item;
pub mod key;
pub mod laws;
pub mod registry;
pub mod softkey;
pub mod store;
