//! Accessibility descriptions of the controls: the role that assistive
//! technology announces, the accessible label, and the control's state.

use vstd::prelude::*;

verus! {

/// The accessibility role of a control.
#[derive(Debug, Clone, Copy, PartialEq, Eq, Structural)]
pub enum AriaRole {
    Button,
    Switch,
    Checkbox,
    Textbox,
    Combobox,
}

/// What assistive technology is told about a control.
#[derive(Debug, Clone)]
pub struct AriaProperties {
    pub role: AriaRole,
    pub label: String,
    /// Checked state, for checkable controls (none when mixed or not
    /// checkable).
    pub checked: Option<bool>,
    /// The current value, as text.
    pub value: Option<String>,
    /// Whether a popup of the control is open.
    pub expanded: Option<bool>,
    pub disabled: bool,
    pub focused: bool,
}

impl AriaProperties {
    /// A description with a role and a label and no state.
    pub fn new(role: AriaRole, label: &str) -> (r: Self)
        ensures
            r.role == role,
            r.label@ == label@,
            r.checked is None,
            r.value is None,
            r.expanded is None,
            !r.disabled,
            !r.focused,
    {
        AriaProperties {
            role,
            label: label.to_string(),
            checked: None,
            value: None,
            expanded: None,
            disabled: false,
            focused: false,
        }
    }

    /// Sets the checked state.
    pub fn checked(self, checked: bool) -> (r: Self)
        ensures
            r == (AriaProperties { checked: Some(checked), ..self }),
    {
        AriaProperties { checked: Some(checked), ..self }
    }

    /// Sets the value text.
    pub fn value(self, value: String) -> (r: Self)
        ensures
            r == (AriaProperties { value: Some(value), ..self }),
    {
        AriaProperties { value: Some(value), ..self }
    }

    /// Sets whether the control's popup is open.
    pub fn expanded(self, expanded: bool) -> (r: Self)
        ensures
            r == (AriaProperties { expanded: Some(expanded), ..self }),
    {
        AriaProperties { expanded: Some(expanded), ..self }
    }

    /// Sets whether the control is disabled.
    pub fn disabled(self, disabled: bool) -> (r: Self)
        ensures
            r == (AriaProperties { disabled, ..self }),
    {
        AriaProperties { disabled, ..self }
    }

    /// Sets whether the control has focus.
    pub fn focused(self, focused: bool) -> (r: Self)
        ensures
            r == (AriaProperties { focused, ..self }),
    {
        AriaProperties { focused, ..self }
    }
}

} // verus!
