//! Checkbox with tri-state support, and tabbed navigation.

use vstd::prelude::*;
use crate::aria::{AriaProperties, AriaRole};
use crate::callback::Handler;
use crate::interactive::button::{activation_key, is_activation_key};

verus! {

/// The state of a checkbox.
#[derive(Clone, Copy, PartialEq, Eq, Structural)]
pub enum CheckboxState {
    Unchecked,
    Checked,
    Indeterminate,
}

/// Checkbox with a change callback and an optional label.
#[derive(Clone)]
pub struct Checkbox {
    pub state: CheckboxState,
    pub label: Option<String>,
    pub on_change: Handler<bool>,
}

/// The value a key press on a checkbox reports: checked, unless it is
/// checked already.
pub open spec fn toggled_value(state: CheckboxState) -> bool {
    state != CheckboxState::Checked
}

impl Checkbox {
    /// Create a new Checkbox.
    pub fn new(is_checked: bool, on_change: impl Fn(bool) + Send + Sync + 'static) -> (r: Self)
        requires
            forall|a: bool| call_requires(on_change, (a,)),
        ensures
            r.state == (if is_checked { CheckboxState::Checked } else { CheckboxState::Unchecked }),
            r.label is None,
            forall|a: bool| #[trigger] r.on_change.promises(a) == call_ensures(on_change, (a,), ()),
    {
        Checkbox {
            state: if is_checked { CheckboxState::Checked } else { CheckboxState::Unchecked },
            label: None,
            on_change: Handler::new(on_change),
        }
    }

    /// Set the checkbox to an indeterminate state (`false` leaves it as it is).
    pub fn indeterminate(self, is_indeterminate: bool) -> (r: Self)
        ensures
            r.state == (if is_indeterminate { CheckboxState::Indeterminate } else { self.state }),
            r.label == self.label,
            r == (Checkbox { state: r.state, ..self }),
    {
        if is_indeterminate {
            Checkbox { state: CheckboxState::Indeterminate, ..self }
        } else {
            self
        }
    }

    /// Set the label for the checkbox.
    pub fn label(self, label: &str) -> (r: Self)
        ensures
            r.state == self.state,
            r.label is Some && r.label->0@ == label@,
            r == (Checkbox { label: r.label, ..self }),
    {
        Checkbox { label: Some(label.to_string()), ..self }
    }

    /// The value a key press reports to the change callback, if the key is
    /// Enter or Space.
    pub fn key_target(&self, key: &str) -> (r: Option<bool>)
        ensures
            r == (if is_activation_key(key@) { Some(toggled_value(self.state)) } else { None::<bool> }),
    {
        if activation_key(key) {
            Some(match self.state {
                CheckboxState::Checked => false,
                CheckboxState::Unchecked | CheckboxState::Indeterminate => true,
            })
        } else {
            None
        }
    }

    /// Handles a key press: Enter or Space report the toggled value to the
    /// change callback. Returns whether the key was handled.
    pub fn on_key_event(&self, key: &str) -> (r: bool)
        ensures
            r == is_activation_key(key@),
            r ==> self.on_change.promises(toggled_value(self.state)),
    {
        match self.key_target(key) {
            Some(v) => {
                self.on_change.call(v);
                true
            },
            None => false,
        }
    }
}

/// The checked state announced for a checkbox state: none when mixed.
pub open spec fn aria_checked(state: CheckboxState) -> Option<bool> {
    match state {
        CheckboxState::Checked => Some(true),
        CheckboxState::Unchecked => Some(false),
        CheckboxState::Indeterminate => None,
    }
}

impl Checkbox {
    /// The accessibility description: a checkbox with its label ("Checkbox"
    /// when it has none), checked or unchecked, and no checked state when
    /// indeterminate.
    pub fn aria_properties(&self) -> (r: Option<AriaProperties>)
        ensures
            r is Some,
            r->0.role == AriaRole::Checkbox,
            r->0.label@ == (match self.label {
                Some(l) => l@,
                None => "Checkbox"@,
            }),
            r->0.checked == aria_checked(self.state),
            r->0.value is None,
            r->0.expanded is None,
            !r->0.disabled,
            !r->0.focused,
    {
        let label: &str = match &self.label {
            Some(l) => l.as_str(),
            None => "Checkbox",
        };
        let aria = AriaProperties::new(AriaRole::Checkbox, label);
        match self.state {
            CheckboxState::Checked => Some(aria.checked(true)),
            CheckboxState::Unchecked => Some(aria.checked(false)),
            CheckboxState::Indeterminate => Some(aria),
        }
    }
}

/// Tabs component for tabbed navigation.
#[derive(Clone)]
pub struct Tabs<V> {
    pub tabs: Vec<(String, V)>,
    pub selected_index: usize,
}

impl<V> Tabs<V> {
    pub fn new() -> (r: Self)
        ensures
            r.tabs@.len() == 0,
            r.selected_index == 0,
    {
        Tabs { tabs: Vec::new(), selected_index: 0 }
    }

    pub fn tab(self, label: &str, content: V) -> (r: Self)
        ensures
            r.tabs@.len() == self.tabs@.len() + 1,
            r.tabs@.drop_last() == self.tabs@,
            r.tabs@.last().0@ == label@,
            r.tabs@.last().1 == content,
            r.selected_index == self.selected_index,
    {
        let mut tabs = self.tabs;
        tabs.push((label.to_string(), content));
        assert(tabs@.drop_last() =~= self.tabs@);
        Tabs { tabs, selected_index: self.selected_index }
    }

    /// Select a tab, clamped to the last tab (0 when there are none).
    pub fn selected(self, index: usize) -> (r: Self)
        ensures
            r.tabs == self.tabs,
            r.selected_index == (if self.tabs@.len() == 0 {
                0
            } else if index < self.tabs@.len() {
                index as int
            } else {
                self.tabs@.len() - 1
            }),
            r == (Tabs { selected_index: r.selected_index, ..self }),
    {
        let last = if self.tabs.len() == 0 { 0 } else { self.tabs.len() - 1 };
        let selected_index = if index < last { index } else { last };
        Tabs { selected_index, ..self }
    }
}

impl<V> Default for Tabs<V> {
    fn default() -> (r: Self)
        ensures
            r.tabs@.len() == 0,
            r.selected_index == 0,
    {
        Self::new()
    }
}

} // verus!
