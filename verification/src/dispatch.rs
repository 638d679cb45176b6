//! The input dispatcher: one key press in, one change of state out.

use vstd::prelude::*;
use crate::cursor::{
    cursor_or_fallback, has_cursor, is_cursor, lemma_cursor_unique, spec_move_to, spec_step, step,
    Direction,
};
use crate::error::{index_or_fallback, NavError};
use crate::item::ItemView;
use crate::key::{key_from_name, spec_key_from_name, Key};
use crate::registry::{initial_items, reindexed, well_formed, SelectableRegistry};
use crate::softkey::{render, spec_labels_for, SoftKeyLabels, SoftKeyLabelsView};
use crate::store::{is_completed, is_todo_at, spec_add, spec_remove, spec_toggle};

verus! {

/// What a key press did, for whoever shows the list.
#[derive(Clone, Copy, Debug, PartialEq, Eq, Structural)]
pub enum Effect {
    /// Nothing changed.
    Nothing,
    /// Nothing changed, and the key is none the engine knows.
    Unknown,
    /// The selection went from one position to another.
    Moved { from: usize, to: usize },
    /// A task was appended at `index` and the input row was emptied.
    Added { index: usize },
    /// The task at `index` now has the given completed flag.
    Toggled { index: usize, completed: bool },
    /// The task at `index` is gone and the selection rests at `cursor`.
    Removed { index: usize, cursor: usize },
}

/// The result of handling one key press.
#[derive(Clone, Copy, Debug, PartialEq, Eq, Structural)]
pub struct Outcome {
    pub effect: Effect,
    /// The condition that was met and recovered from, for the log.
    pub fault: Option<NavError>,
}

/// The whole state that key presses act on.
#[derive(Clone, Debug, PartialEq, Eq)]
pub struct Dispatcher {
    pub registry: SelectableRegistry,
    /// The text that the input row holds.
    pub input: String,
    pub softkeys: SoftKeyLabels,
}

/// The mathematical value of a [`Dispatcher`].
pub struct DispatcherView {
    pub items: Seq<ItemView>,
    pub input: Seq<char>,
    pub softkeys: SoftKeyLabelsView,
}

impl View for Dispatcher {
    type V = DispatcherView;

    open spec fn view(&self) -> DispatcherView {
        DispatcherView { items: self.registry@, input: self.input@, softkeys: self.softkeys@ }
    }
}

/// What holds of the state between two key presses: the list is well formed
/// and the soft keys show the labels of the cursor's position.
pub open spec fn dispatcher_well_formed(s: DispatcherView) -> bool {
    &&& well_formed(s.items)
    &&& s.softkeys == spec_labels_for(cursor_or_fallback(s.items))
}

/// The condition that resolving the cursor of `items` meets, if any.
pub open spec fn spec_cursor_fault(items: Seq<ItemView>) -> Option<NavError> {
    if has_cursor(items) {
        None
    } else {
        Some(NavError::SelectionInvariantViolated)
    }
}

/// The condition that handling `key` in state `s` recovers from: a key that
/// needs the cursor may find it unresolved.
pub open spec fn spec_fault(s: DispatcherView, key: Key) -> Option<NavError> {
    match key {
        Key::SoftLeft | Key::Other => None,
        _ => spec_cursor_fault(s.items),
    }
}

/// The state after a step of the cursor in the given direction.
pub open spec fn spec_select_move(s: DispatcherView, direction: Direction) -> DispatcherView {
    if s.items.len() == 0 {
        s
    } else {
        let target = spec_step(cursor_or_fallback(s.items), direction, s.items.len() as int);
        DispatcherView {
            items: spec_move_to(s.items, target),
            input: s.input,
            softkeys: spec_labels_for(target),
        }
    }
}

/// What a step of the cursor in the given direction does.
pub open spec fn spec_select_move_effect(s: DispatcherView, direction: Direction) -> Effect {
    if s.items.len() == 0 {
        Effect::Nothing
    } else {
        let from = cursor_or_fallback(s.items);
        Effect::Moved {
            from: from as usize,
            to: spec_step(from, direction, s.items.len() as int) as usize,
        }
    }
}

/// The state after Enter: on the input row its text becomes a new task, on a
/// task the task is toggled.
pub open spec fn spec_event_enter(s: DispatcherView) -> DispatcherView {
    let current = cursor_or_fallback(s.items);
    if current == 0 {
        if s.items.len() == 0 {
            s
        } else {
            DispatcherView {
                items: spec_add(s.items, s.input),
                input: Seq::empty(),
                softkeys: s.softkeys,
            }
        }
    } else {
        DispatcherView {
            items: spec_toggle(s.items, current),
            input: s.input,
            softkeys: s.softkeys,
        }
    }
}

/// What Enter does.
pub open spec fn spec_event_enter_effect(s: DispatcherView) -> Effect {
    let current = cursor_or_fallback(s.items);
    if current == 0 {
        if s.items.len() == 0 {
            Effect::Nothing
        } else {
            Effect::Added { index: s.items.len() as usize }
        }
    } else if is_todo_at(s.items, current) {
        Effect::Toggled {
            index: current as usize,
            completed: !is_completed(s.items[current].row),
        }
    } else {
        Effect::Nothing
    }
}

/// The state after the right soft key: on a task the cursor steps up, the
/// task goes and the indexes are rebuilt; on the input row nothing happens.
pub open spec fn spec_event_soft_right(s: DispatcherView) -> DispatcherView {
    let current = cursor_or_fallback(s.items);
    if current == 0 {
        s
    } else {
        let moved = spec_select_move(s, Direction::Up);
        DispatcherView {
            items: reindexed(spec_remove(moved.items, current)),
            input: moved.input,
            softkeys: moved.softkeys,
        }
    }
}

/// What the right soft key does.
pub open spec fn spec_event_soft_right_effect(s: DispatcherView) -> Effect {
    let current = cursor_or_fallback(s.items);
    if current == 0 {
        Effect::Nothing
    } else if is_todo_at(s.items, current) {
        Effect::Removed {
            index: current as usize,
            cursor: spec_step(current, Direction::Up, s.items.len() as int) as usize,
        }
    } else {
        spec_select_move_effect(s, Direction::Up)
    }
}

/// The state after `key` is handled in state `s`.
pub open spec fn spec_handle_key(s: DispatcherView, key: Key) -> DispatcherView {
    match key {
        Key::Enter => spec_event_enter(s),
        Key::ArrowDown => spec_select_move(s, Direction::Down),
        Key::ArrowUp => spec_select_move(s, Direction::Up),
        Key::SoftRight => spec_event_soft_right(s),
        Key::SoftLeft => s,
        Key::Other => s,
    }
}

/// What handling `key` in state `s` does.
pub open spec fn spec_effect(s: DispatcherView, key: Key) -> Effect {
    match key {
        Key::Enter => spec_event_enter_effect(s),
        Key::ArrowDown => spec_select_move_effect(s, Direction::Down),
        Key::ArrowUp => spec_select_move_effect(s, Direction::Up),
        Key::SoftRight => spec_event_soft_right_effect(s),
        Key::SoftLeft => Effect::Nothing,
        Key::Other => Effect::Unknown,
    }
}

impl Dispatcher {
    /// The state at the start: the input row alone, selected and empty, and
    /// the soft keys labelled for it.
    pub fn new() -> (dispatcher: Dispatcher)
        ensures
            dispatcher@.items == initial_items(),
            dispatcher@.input == Seq::<char>::empty(),
            dispatcher@.softkeys == spec_labels_for(0),
            dispatcher_well_formed(dispatcher@),
    {
        let dispatcher = Dispatcher {
            registry: SelectableRegistry::new(),
            input: String::new(),
            softkeys: render(0),
        };
        proof {
            assert(is_cursor(dispatcher@.items, 0));
            lemma_cursor_unique(dispatcher@.items, 0, cursor_or_fallback(dispatcher@.items));
        }
        dispatcher
    }

    /// Records what has been typed into the input row.
    pub fn set_input(&mut self, text: String)
        ensures
            final(self)@ == (DispatcherView {
                items: old(self)@.items,
                input: text@,
                softkeys: old(self)@.softkeys,
            }),
    {
        self.input = text;
    }

    /// The position the next key press acts on: the cursor, or the input row
    /// where the cursor cannot be resolved.
    pub fn current_index(&self) -> (current: usize)
        ensures
            current == cursor_or_fallback(self@.items),
    {
        self.resolve().0
    }

    /// Resolves the cursor once, for the position to act on and for the
    /// condition to log.
    fn resolve(&self) -> (resolved: (usize, Option<NavError>))
        ensures
            resolved.0 == cursor_or_fallback(self@.items),
            resolved.1 == spec_cursor_fault(self@.items),
    {
        let found = self.registry.get_index_of_current_selected();
        proof {
            if let Ok(i) = found {
                lemma_cursor_unique(self@.items, i as int, cursor_or_fallback(self@.items));
            }
        }
        match found {
            Ok(_) => (index_or_fallback(found), None),
            Err(e) => (index_or_fallback(found), Some(e)),
        }
    }

    /// Moves the selection one step in the given direction, around the ends
    /// of the list, and labels the soft keys for the new position.
    pub fn select_move(&mut self, direction: Direction) -> (outcome: Outcome)
        ensures
            final(self)@ == spec_select_move(old(self)@, direction),
            outcome.effect == spec_select_move_effect(old(self)@, direction),
            outcome.fault == spec_cursor_fault(old(self)@.items),
    {
        let (current, fault) = self.resolve();
        let count: usize = self.registry.count();
        if count == 0 {
            return Outcome { effect: Effect::Nothing, fault };
        }
        let target: usize = step(current, direction, count);
        let _ = self.registry.move_to(target);
        self.softkeys = render(target);
        Outcome { effect: Effect::Moved { from: current, to: target }, fault }
    }

    /// Handles Enter: on the input row its text becomes a new task and the
    /// row is emptied; on a task the task is toggled.
    pub fn event_enter(&mut self) -> (outcome: Outcome)
        ensures
            final(self)@ == spec_event_enter(old(self)@),
            outcome.effect == spec_event_enter_effect(old(self)@),
            outcome.fault == spec_cursor_fault(old(self)@.items),
    {
        let (current, fault) = self.resolve();
        if current == 0 {
            let text = self.input.clone();
            match self.registry.add_todo(text) {
                Ok(index) => {
                    self.input = String::new();
                    Outcome { effect: Effect::Added { index }, fault }
                },
                Err(_) => Outcome { effect: Effect::Nothing, fault },
            }
        } else {
            match self.registry.toggle_todo(current) {
                Some(completed) => Outcome {
                    effect: Effect::Toggled { index: current, completed },
                    fault,
                },
                None => Outcome { effect: Effect::Nothing, fault },
            }
        }
    }

    /// Handles the right soft key: on a task the selection steps up, the task
    /// is removed and the indexes are rebuilt; on the input row nothing
    /// happens.
    pub fn event_soft_right(&mut self) -> (outcome: Outcome)
        ensures
            final(self)@ == spec_event_soft_right(old(self)@),
            outcome.effect == spec_event_soft_right_effect(old(self)@),
            outcome.fault == spec_cursor_fault(old(self)@.items),
    {
        let (current, fault) = self.resolve();
        if current == 0 {
            return Outcome { effect: Effect::Nothing, fault };
        }
        let moved = self.select_move(Direction::Up);
        let removed = self.registry.remove_todo(current);
        self.registry.rebuild_selectable_indexes();
        match (removed, moved.effect) {
            (Some(_), Effect::Moved { to, .. }) => Outcome {
                effect: Effect::Removed { index: current, cursor: to },
                fault,
            },
            _ => Outcome { effect: moved.effect, fault },
        }
    }

    /// Handles one key.
    pub fn dispatch(&mut self, key: Key) -> (outcome: Outcome)
        ensures
            final(self)@ == spec_handle_key(old(self)@, key),
            outcome.effect == spec_effect(old(self)@, key),
            outcome.fault == spec_fault(old(self)@, key),
    {
        match key {
            Key::Enter => self.event_enter(),
            Key::ArrowDown => self.select_move(Direction::Down),
            Key::ArrowUp => self.select_move(Direction::Up),
            Key::SoftRight => self.event_soft_right(),
            Key::SoftLeft => Outcome { effect: Effect::Nothing, fault: None },
            Key::Other => Outcome { effect: Effect::Unknown, fault: None },
        }
    }

    /// Handles the key that an event names. A name the engine does not know
    /// changes nothing.
    pub fn handle_key(&mut self, name: &str) -> (outcome: Outcome)
        ensures
            final(self)@ == spec_handle_key(old(self)@, spec_key_from_name(name@)),
            outcome.effect == spec_effect(old(self)@, spec_key_from_name(name@)),
            outcome.fault == spec_fault(old(self)@, spec_key_from_name(name@)),
    {
        self.dispatch(key_from_name(name))
    }
}

} // verus!
