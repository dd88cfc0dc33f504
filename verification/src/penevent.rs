//! The event envelope shared by pen tools: pointer elements, keyboard and
//! modifier keys, the per-event result, and the UI-refresh flags handed back
//! to the caller.

use vstd::prelude::*;
use crate::geom::Vector2;

verus! {

/// Whether the toolkit should keep dispatching the event after the tool.
#[derive(Clone, Copy, Debug, PartialEq, Eq, Structural)]
pub enum EventPropagation {
    Stop,
    Proceed,
}

/// Where the tool stands in its current gesture.
#[derive(Clone, Copy, Debug, PartialEq, Eq, Structural)]
pub enum PenProgress {
    Idle,
    InProgress,
    Finished,
}

/// What a single event did.
#[derive(Clone, Copy, Debug, PartialEq, Eq, Structural)]
pub struct EventResult {
    pub handled: bool,
    pub propagate: EventPropagation,
    pub progress: PenProgress,
}

/// A pointer sample: its position on the document.
#[derive(Clone, Copy, Debug, PartialEq, Eq, Structural)]
pub struct Element {
    pub pos: Vector2,
}

impl Element {
    pub open spec fn wf(self) -> bool {
        self.pos.wf()
    }

    pub fn new(pos: Vector2) -> (r: Element)
        ensures
            r.pos == pos,
    {
        Element { pos }
    }
}

/// Modifier keys held while an event arrives.
#[derive(Clone, Copy, Debug, PartialEq, Eq, Structural)]
pub enum ModifierKey {
    KeyboardShift,
    KeyboardCtrl,
    KeyboardAlt,
}

/// Whether a modifier is among the held keys.
pub fn contains_modifier(keys: &Vec<ModifierKey>, m: ModifierKey) -> (r: bool)
    ensures
        r == keys@.contains(m),
{
    let n: usize = keys.len();
    let mut i: usize = 0;
    while i < n
        invariant
            i <= n,
            n == keys@.len(),
            forall|k: int| 0 <= k < i ==> keys@[k] != m,
        decreases n - i,
    {
        if keys[i] == m {
            return true;
        }
        i = i + 1;
    }
    false
}

/// Keyboard keys the selector reacts to; everything else is `Other`.
#[derive(Clone, Copy, Debug, PartialEq, Eq, Structural)]
pub enum KeyboardKey {
    Unicode(char),
    Escape,
    Delete,
    BackSpace,
    Other,
}

/// UI refresh requests accumulated while an event is processed; the caller
/// applies them after the handler returns. Flags combine by disjunction.
#[derive(Clone, Copy, Debug, PartialEq, Eq, Structural)]
pub struct WidgetFlags {
    pub store_modified: bool,
    pub resize: bool,
    pub deselect_color_setters: bool,
    pub redraw: bool,
    pub refresh_ui: bool,
}

impl WidgetFlags {
    pub open spec fn none_spec() -> WidgetFlags {
        WidgetFlags {
            store_modified: false,
            resize: false,
            deselect_color_setters: false,
            redraw: false,
            refresh_ui: false,
        }
    }

    pub open spec fn merged_spec(self, o: WidgetFlags) -> WidgetFlags {
        WidgetFlags {
            store_modified: self.store_modified || o.store_modified,
            resize: self.resize || o.resize,
            deselect_color_setters: self.deselect_color_setters || o.deselect_color_setters,
            redraw: self.redraw || o.redraw,
            refresh_ui: self.refresh_ui || o.refresh_ui,
        }
    }

    /// All flags cleared.
    pub fn none() -> (r: WidgetFlags)
        ensures
            r == WidgetFlags::none_spec(),
    {
        WidgetFlags {
            store_modified: false,
            resize: false,
            deselect_color_setters: false,
            redraw: false,
            refresh_ui: false,
        }
    }

    /// Ors another set of flags into this one.
    pub fn merge(&mut self, o: WidgetFlags)
        ensures
            *final(self) == old(self).merged_spec(o),
    {
        self.store_modified = self.store_modified || o.store_modified;
        self.resize = self.resize || o.resize;
        self.deselect_color_setters = self.deselect_color_setters || o.deselect_color_setters;
        self.redraw = self.redraw || o.redraw;
        self.refresh_ui = self.refresh_ui || o.refresh_ui;
    }
}

impl Default for WidgetFlags {
    /// All flags cleared.
    fn default() -> (r: WidgetFlags)
        ensures
            r == WidgetFlags::none_spec(),
    {
        WidgetFlags::none()
    }
}

} // verus!
