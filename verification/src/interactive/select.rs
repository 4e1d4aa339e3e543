//! Select (with validation), dropdown and picker.

use vstd::prelude::*;
use crate::aria::{AriaProperties, AriaRole};
use crate::callback::Handler;
use crate::text::str_eq;

verus! {

/// A validation rule a form control can carry.
#[derive(Debug, Clone, Copy, PartialEq, Eq, Structural)]
pub enum ValidationRule {
    /// A value must be given (for a select: an option must be selected).
    Required,
}

/// Select/Dropdown component with a placeholder, options, an optional
/// selection and validation rules.
#[derive(Clone)]
#[verifier::reject_recursive_types(V)]
pub struct Select<V> {
    pub placeholder: String,
    pub options: Vec<(String, V)>,
    pub selected_index: Option<usize>,
    pub is_open: bool,
    pub hover_index: Option<usize>,
    pub on_change: Option<Handler<V>>,
    /// Validation rules for this select.
    pub rules: Vec<ValidationRule>,
    /// Error message when validation fails.
    pub error_message: Option<String>,
}

/// Validation of a select fails when a rule requires a selection and none is
/// made.
pub open spec fn select_fails(rules: Seq<ValidationRule>, selected: Option<usize>) -> bool {
    rules.contains(ValidationRule::Required) && selected is None
}

/// The keyboard-driven state of an open select: whether it is open, the
/// highlighted option and the selected one.
#[derive(Debug, Clone, Copy, PartialEq, Eq, Structural)]
pub struct SelectUiState {
    pub is_open: bool,
    pub hover_index: Option<usize>,
    pub selected_index: Option<usize>,
}

/// What a key does to a select with `count` options: the new state, and the
/// option to report to the change callback. On a closed select Enter or Space
/// opens it. Down and Up move the highlight (from the first option when none
/// is highlighted), staying within the options; on an open select Enter
/// closes it, selects the highlighted option and reports it when it exists;
/// Escape closes; other keys change nothing.
pub open spec fn select_key_step(count: usize, s: SelectUiState, key: Seq<char>) -> (SelectUiState, Option<usize>) {
    let current: int = match s.hover_index {
        Some(h) => h as int,
        None => 0,
    };
    if key == "ArrowDown"@ {
        let last: int = if count == 0 { 0 } else { count - 1 };
        let next: int = if current + 1 < last { current + 1 } else { last };
        (SelectUiState { hover_index: Some(next as usize), ..s }, None)
    } else if key == "ArrowUp"@ {
        let next: int = if current == 0 { 0 } else { current - 1 };
        (SelectUiState { hover_index: Some(next as usize), ..s }, None)
    } else if !s.is_open && (key == "Enter"@ || key == " "@) {
        (SelectUiState { is_open: true, ..s }, None)
    } else if key == "Enter"@ {
        match s.hover_index {
            Some(h) => (SelectUiState { is_open: false, selected_index: Some(h), ..s }, if h < count { Some(h) } else { None }),
            None => (SelectUiState { is_open: false, ..s }, None),
        }
    } else if key == "Escape"@ {
        (SelectUiState { is_open: false, ..s }, None)
    } else {
        (s, None)
    }
}

/// Escape closes a select and touches nothing else: the highlight and the
/// selection stay, and no option is reported.
pub proof fn law_escape_only_closes(count: usize, s: SelectUiState)
    ensures
        select_key_step(count, s, "Escape"@).0.selected_index == s.selected_index,
        select_key_step(count, s, "Escape"@).0.hover_index == s.hover_index,
        !select_key_step(count, s, "Escape"@).0.is_open,
        select_key_step(count, s, "Escape"@).1 is None,
{
    reveal_strlit("Escape");
    reveal_strlit("ArrowDown");
    reveal_strlit("ArrowUp");
    reveal_strlit("Enter");
    reveal_strlit(" ");
    assert("Escape"@ != "ArrowDown"@) by { assert("Escape"@.len() != "ArrowDown"@.len()); }
    assert("Escape"@ != "ArrowUp"@) by { assert("Escape"@.len() != "ArrowUp"@.len()); }
    assert("Escape"@ != "Enter"@) by { assert("Escape"@.len() != "Enter"@.len()); }
    assert("Escape"@ != " "@) by { assert("Escape"@.len() != " "@.len()); }
}

/// The selection changes only when Enter commits the highlighted option of
/// an open select; whatever is reported is an existing option and is the new
/// selection.
pub proof fn law_selection_changes_only_by_commit(count: usize, s: SelectUiState, key: Seq<char>)
    ensures
        select_key_step(count, s, key).0.selected_index != s.selected_index ==> {
            &&& key == "Enter"@
            &&& s.is_open
            &&& select_key_step(count, s, key).0.selected_index == s.hover_index
            &&& !select_key_step(count, s, key).0.is_open
        },
        select_key_step(count, s, key).1 matches Some(h) ==> {
            &&& h < count
            &&& select_key_step(count, s, key).0.selected_index == Some(h)
            &&& s.hover_index == Some(h)
        },
{
}

/// Applies a key to the keyboard state of a select with `count` options.
pub fn select_key_transition(count: usize, s: SelectUiState, key: &str) -> (r: (SelectUiState, Option<usize>))
    requires
        s.hover_index matches Some(h) ==> h < usize::MAX,
    ensures
        r == select_key_step(count, s, key@),
{
    let current: usize = match s.hover_index {
        Some(h) => h,
        None => 0,
    };
    if str_eq(key, "ArrowDown") {
        let last: usize = if count == 0 { 0 } else { count - 1 };
        let next: usize = if current + 1 < last { current + 1 } else { last };
        (SelectUiState { hover_index: Some(next), ..s }, None)
    } else if str_eq(key, "ArrowUp") {
        let next: usize = if current == 0 { 0 } else { current - 1 };
        (SelectUiState { hover_index: Some(next), ..s }, None)
    } else if !s.is_open && (str_eq(key, "Enter") || str_eq(key, " ")) {
        (SelectUiState { is_open: true, ..s }, None)
    } else if str_eq(key, "Enter") {
        match s.hover_index {
            Some(h) => (SelectUiState { is_open: false, selected_index: Some(h), ..s }, if h < count { Some(h) } else { None }),
            None => (SelectUiState { is_open: false, ..s }, None),
        }
    } else if str_eq(key, "Escape") {
        (SelectUiState { is_open: false, ..s }, None)
    } else {
        (s, None)
    }
}

impl<V> Select<V> {
    /// The keyboard state of the select.
    pub open spec fn ui_state(&self) -> SelectUiState {
        SelectUiState { is_open: self.is_open, hover_index: self.hover_index, selected_index: self.selected_index }
    }

    /// Handles a key press: updates the open state, highlight and selection,
    /// and reports a committed option's value to the change callback.
    /// Returns the index of the committed option, if one was.
    pub fn handle_key(&mut self, key: &str) -> (r: Option<usize>)
        where V: Clone,
        requires
            old(self).hover_index matches Some(h) ==> h < usize::MAX,
        ensures
            (final(self).ui_state(), r) == select_key_step(old(self).options@.len() as usize, old(self).ui_state(), key@),
            final(self).options == old(self).options,
            final(self).placeholder == old(self).placeholder,
            final(self).rules == old(self).rules,
            final(self).error_message == old(self).error_message,
            r matches Some(h) ==> (old(self).on_change matches Some(cb) ==> exists|v: V|
                cloned::<V>(old(self).options@[h as int].1, v) && #[trigger] cb.promises(v)),
    {
        let s = SelectUiState { is_open: self.is_open, hover_index: self.hover_index, selected_index: self.selected_index };
        let (next, commit) = select_key_transition(self.options.len(), s, key);
        self.is_open = next.is_open;
        self.hover_index = next.hover_index;
        self.selected_index = next.selected_index;
        if let Some(h) = commit {
            if let Some(cb) = &self.on_change {
                cb.call(self.options[h].1.clone());
            }
        }
        commit
    }

    /// A click on the select box: opens it when closed, closes it when open.
    pub fn toggle_open(&mut self)
        ensures
            *final(self) == (Select { is_open: !old(self).is_open, ..*old(self) }),
    {
        self.is_open = !self.is_open;
    }

    /// A click on option `idx` of the open popover: closes the select,
    /// selects the option and reports its value to the change callback.
    /// Returns whether the click hit an option; a closed select or an index
    /// past the options changes nothing.
    pub fn click_option(&mut self, idx: usize) -> (r: bool)
        where V: Clone,
        ensures
            r == (old(self).is_open && idx < old(self).options@.len()),
            r ==> *final(self) == (Select { is_open: false, selected_index: Some(idx), ..*old(self) }),
            !r ==> *final(self) == *old(self),
            r ==> (old(self).on_change matches Some(cb) ==> exists|v: V|
                cloned::<V>(old(self).options@[idx as int].1, v) && #[trigger] cb.promises(v)),
    {
        if !self.is_open || idx >= self.options.len() {
            return false;
        }
        self.is_open = false;
        self.selected_index = Some(idx);
        if let Some(cb) = &self.on_change {
            let v = self.options[idx].1.clone();
            let ghost g = v;
            cb.call(v);
            assert(cb.promises(g));
        }
        true
    }

    /// Create a new Select with a placeholder label: no options, nothing
    /// selected, closed, no rules.
    pub fn new(placeholder: &str) -> (r: Self)
        ensures
            r.placeholder@ == placeholder@,
            r.options@.len() == 0,
            r.selected_index is None,
            !r.is_open,
            r.hover_index is None,
            r.on_change is None,
            r.rules@.len() == 0,
            r.error_message is None,
    {
        Select {
            placeholder: placeholder.to_string(),
            options: Vec::new(),
            selected_index: None,
            is_open: false,
            hover_index: None,
            on_change: None,
            rules: Vec::new(),
            error_message: None,
        }
    }

    /// Add an option.
    pub fn option(self, label: &str, value: V) -> (r: Self)
        ensures
            r.options@.len() == self.options@.len() + 1,
            r.options@.drop_last() == self.options@,
            r.options@.last().0@ == label@,
            r.options@.last().1 == value,
            r == (Select { options: r.options, ..self }),
    {
        let mut options = self.options;
        options.push((label.to_string(), value));
        assert(options@.drop_last() =~= self.options@);
        Select { options, ..self }
    }

    pub fn selected(self, index: usize) -> (r: Self)
        ensures
            r == (Select { selected_index: Some(index), ..self }),
    {
        Select { selected_index: Some(index), ..self }
    }

    pub fn on_change(self, cb: impl Fn(V) + Send + Sync + 'static) -> (r: Self)
        requires
            forall|a: V| call_requires(cb, (a,)),
        ensures
            r.on_change is Some,
            r == (Select { on_change: r.on_change, ..self }),
            forall|a: V| #[trigger] r.on_change->0.promises(a) == call_ensures(cb, (a,), ()),
    {
        Select { on_change: Some(Handler::new(cb)), ..self }
    }

    /// Attach validation rules to this select.
    pub fn rules(self, rules: Vec<ValidationRule>) -> (r: Self)
        ensures
            r == (Select { rules, ..self }),
    {
        Select { rules, ..self }
    }

    /// Run all attached validation rules. For selects, `Required` means an
    /// option must be selected. The error message is kept for display.
    pub fn validate(&mut self) -> (r: Result<(), String>)
        ensures
            select_fails(old(self).rules@, old(self).selected_index) ==> r is Err
                && r->Err_0@ == "Please make a selection"@
                && final(self).error_message is Some
                && final(self).error_message->0@ == "Please make a selection"@,
            !select_fails(old(self).rules@, old(self).selected_index) ==> r is Ok && final(self).error_message is None,
            *final(self) == (Select { error_message: final(self).error_message, ..*old(self) }),
    {
        let n = self.rules.len();
        let mut i: usize = 0;
        while i < n
            invariant
                n == self.rules@.len(),
                i <= n,
                *self == *old(self),
                self.selected_index is Some || forall|k: int| 0 <= k < i ==> self.rules@[k] != ValidationRule::Required,
            decreases n - i,
        {
            match self.rules[i] {
                ValidationRule::Required => {
                    if self.selected_index.is_none() {
                        let msg = "Please make a selection".to_string();
                        self.error_message = Some(msg.clone());
                        assert(self.rules@[i as int] == ValidationRule::Required);
                        return Err(msg);
                    }
                },
            }
            i = i + 1;
        }
        assert(!self.rules@.contains(ValidationRule::Required) || self.selected_index is Some);
        self.error_message = None;
        Ok(())
    }
}

/// A compact dropdown over a list of option labels.
#[derive(Clone)]
pub struct Dropdown {
    pub selection: usize,
    pub options: Vec<String>,
    pub on_change: Handler<usize>,
}

/// The selection an arrow key moves to among `len` options: down goes to the
/// next one and up to the previous one, both wrapping around; other keys,
/// and an empty list, move nothing.
pub open spec fn arrow_selection(selection: usize, len: nat, key: Seq<char>) -> Option<usize> {
    if len == 0 {
        None
    } else if key == "ArrowDown"@ {
        Some(((selection + 1) % (len as int)) as usize)
    } else if key == "ArrowUp"@ {
        Some(if selection == 0 { (len - 1) as usize } else { (selection - 1) as usize })
    } else {
        None
    }
}

/// The label of option `selection`, or empty when there is none.
pub open spec fn option_label(options: Seq<String>, selection: usize) -> Seq<char> {
    if selection < options.len() {
        options[selection as int]@
    } else {
        Seq::empty()
    }
}

impl Dropdown {
    pub fn new(selection: usize, options: Vec<String>, on_change: impl Fn(usize) + Send + Sync + 'static) -> (r: Self)
        requires
            forall|a: usize| call_requires(on_change, (a,)),
        ensures
            r.selection == selection,
            r.options == options,
            forall|a: usize| #[trigger] r.on_change.promises(a) == call_ensures(on_change, (a,), ()),
    {
        Dropdown { selection, options, on_change: Handler::new(on_change) }
    }

    /// The label shown for the current selection.
    pub fn selected_label(&self) -> (r: String)
        ensures
            r@ == option_label(self.options@, self.selection),
    {
        if self.selection < self.options.len() {
            self.options[self.selection].clone()
        } else {
            String::new()
        }
    }

    /// The selection an arrow key moves to.
    pub fn key_target(&self, key: &str) -> (r: Option<usize>)
        requires
            self.selection < usize::MAX,
        ensures
            r == arrow_selection(self.selection, self.options@.len(), key@),
    {
        let len = self.options.len();
        if len == 0 {
            return None;
        }
        if str_eq(key, "ArrowDown") {
            Some((self.selection + 1) % len)
        } else if str_eq(key, "ArrowUp") {
            Some(if self.selection == 0 { len - 1 } else { self.selection - 1 })
        } else {
            None
        }
    }

    /// Handles a key press: an arrow key reports the new selection to the
    /// change callback. Returns whether the key was handled.
    pub fn on_key_event(&self, key: &str) -> (r: bool)
        requires
            self.selection < usize::MAX,
        ensures
            r == (arrow_selection(self.selection, self.options@.len(), key@) is Some),
            arrow_selection(self.selection, self.options@.len(), key@) matches Some(s) ==> self.on_change.promises(s),
    {
        match self.key_target(key) {
            Some(s) => {
                self.on_change.call(s);
                true
            },
            None => false,
        }
    }
}

/// Moving down and then up in a dropdown comes back to the selection it
/// started from, when that selection is one of the options.
pub proof fn law_dropdown_down_then_up(selection: usize, len: nat)
    requires
        selection < len,
        len <= usize::MAX,
    ensures
        arrow_selection(arrow_selection(selection, len, "ArrowDown"@)->0, len, "ArrowUp"@) == Some(selection),
{
    reveal_strlit("ArrowDown");
    reveal_strlit("ArrowUp");
    assert("ArrowDown"@.len() != "ArrowUp"@.len());
    let next = ((selection + 1) % (len as int)) as usize;
    if selection + 1 < len {
        vstd::arithmetic::div_mod::lemma_small_mod((selection + 1) as nat, len);
        assert(next == selection + 1);
    } else {
        vstd::arithmetic::div_mod::lemma_mod_self_0(len as int);
        assert(next == 0);
    }
}

/// Picker for selection from a list of options.
#[derive(Clone)]
pub struct Picker {
    pub selection: usize,
    pub options: Vec<String>,
    pub on_change: Handler<usize>,
}

impl Picker {
    pub fn new(selection: usize, options: Vec<String>, on_change: impl Fn(usize) + Send + Sync + 'static) -> (r: Self)
        requires
            forall|a: usize| call_requires(on_change, (a,)),
        ensures
            r.selection == selection,
            r.options == options,
            forall|a: usize| #[trigger] r.on_change.promises(a) == call_ensures(on_change, (a,), ()),
    {
        Picker { selection, options, on_change: Handler::new(on_change) }
    }

    /// The label shown for the current selection.
    pub fn selected_label(&self) -> (r: String)
        ensures
            r@ == option_label(self.options@, self.selection),
    {
        if self.selection < self.options.len() {
            self.options[self.selection].clone()
        } else {
            String::new()
        }
    }
}

impl<V> Select<V> {
    /// The accessibility description: a combo box labelled by its
    /// placeholder.
    pub fn aria_properties(&self) -> (r: Option<AriaProperties>)
        ensures
            r is Some,
            r->0.role == AriaRole::Combobox,
            r->0.label@ == self.placeholder@,
            r->0.checked is None,
            r->0.value is None,
            r->0.expanded is None,
            !r->0.disabled,
            !r->0.focused,
    {
        Some(AriaProperties::new(AriaRole::Combobox, self.placeholder.as_str()))
    }
}

/// The accessible label of a dropdown: the selected option, or "Select" when
/// the selection is out of range.
pub open spec fn dropdown_aria_label(options: Seq<String>, selection: usize) -> Seq<char> {
    if selection < options.len() {
        options[selection as int]@
    } else {
        "Select"@
    }
}

impl Dropdown {
    /// The accessibility description: a closed combo box labelled, and valued,
    /// by the selected option ("Select" when there is none).
    pub fn aria_properties(&self) -> (r: Option<AriaProperties>)
        ensures
            r is Some,
            r->0.role == AriaRole::Combobox,
            r->0.label@ == dropdown_aria_label(self.options@, self.selection),
            r->0.expanded == Some(false),
            r->0.value is Some,
            r->0.value->0@ == dropdown_aria_label(self.options@, self.selection),
            r->0.checked is None,
            !r->0.disabled,
            !r->0.focused,
    {
        let label: &str = if self.selection < self.options.len() {
            self.options[self.selection].as_str()
        } else {
            "Select"
        };
        Some(AriaProperties::new(AriaRole::Combobox, label).expanded(false).value(label.to_string()))
    }
}

} // verus!
