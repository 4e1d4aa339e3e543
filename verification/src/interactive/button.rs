//! Button, toggle switch, stepper and secure (password) field.

use vstd::prelude::*;
use crate::aria::{AriaProperties, AriaRole};
use crate::callback::{Action, Handler};
use crate::text::{str_eq, utf8_byte_len, utf8_len};
use crate::{ButtonSize, ButtonVariant};

verus! {

/// The keys that activate a focused control: Enter and Space.
pub open spec fn is_activation_key(key: Seq<char>) -> bool {
    key == "Enter"@ || key == " "@
}

/// Whether `key` activates a focused control (Enter or Space).
pub fn activation_key(key: &str) -> (r: bool)
    ensures
        r == is_activation_key(key@),
{
    str_eq(key, "Enter") || str_eq(key, " ")
}

/// Button with action callback, variant styling, size options, and disabled state.
#[derive(Clone)]
pub struct Button {
    pub label: String,
    pub on_click: Action,
    pub variant: ButtonVariant,
    pub size: ButtonSize,
    pub disabled: bool,
    pub loading: bool,
}

impl Button {
    /// Create a new Button with a label and an action callback.
    pub fn new(label: &str, on_click: impl Fn() + Send + Sync + 'static) -> (r: Self)
        requires
            call_requires(on_click, ()),
        ensures
            r.label@ == label@,
            r.variant == ButtonVariant::Default,
            r.size == ButtonSize::Default,
            !r.disabled,
            !r.loading,
            r.on_click.promises() == call_ensures(on_click, (), ()),
    {
        Button {
            label: label.to_string(),
            on_click: Action::new(on_click),
            variant: ButtonVariant::Default,
            size: ButtonSize::Default,
            disabled: false,
            loading: false,
        }
    }

    /// Set the button variant.
    pub fn variant(self, variant: ButtonVariant) -> (r: Self)
        ensures
            r == (Button { variant, ..self }),
    {
        Button { variant, ..self }
    }

    /// Set the button size.
    pub fn size(self, size: ButtonSize) -> (r: Self)
        ensures
            r == (Button { size, ..self }),
    {
        Button { size, ..self }
    }

    /// Set the disabled state.
    pub fn disabled(self, disabled: bool) -> (r: Self)
        ensures
            r == (Button { disabled, ..self }),
    {
        Button { disabled, ..self }
    }

    /// Set the loading state. When loading, the button shows a spinner
    /// and click events are suppressed.
    pub fn loading(self, loading: bool) -> (r: Self)
        ensures
            r == (Button { loading, ..self }),
    {
        Button { loading, ..self }
    }

    /// Whether a key press activates the button: Enter or Space, unless the
    /// button is disabled or loading.
    pub open spec fn activates_on(&self, key: Seq<char>) -> bool {
        !self.disabled && !self.loading && is_activation_key(key)
    }

    /// Handles a pointer click: the click action runs unless the button is
    /// disabled or loading. Returns whether it ran.
    pub fn click(&self) -> (r: bool)
        ensures
            r == (!self.disabled && !self.loading),
            r ==> self.on_click.promises(),
    {
        if self.disabled || self.loading {
            return false;
        }
        self.on_click.call();
        true
    }

    /// Handles a key press: on activation the click action runs. Returns
    /// whether the key was handled.
    pub fn on_key_event(&self, key: &str) -> (r: bool)
        ensures
            r == self.activates_on(key@),
            r ==> self.on_click.promises(),
    {
        if self.disabled || self.loading {
            return false;
        }
        if activation_key(key) {
            self.on_click.call();
            true
        } else {
            false
        }
    }
}

impl Button {
    /// The accessibility description: a button with its label, disabled while
    /// disabled or loading.
    pub fn aria_properties(&self) -> (r: Option<AriaProperties>)
        ensures
            r is Some,
            r->0.role == AriaRole::Button,
            r->0.label@ == self.label@,
            r->0.disabled == (self.disabled || self.loading),
            r->0.checked is None,
            r->0.value is None,
            r->0.expanded is None,
            !r->0.focused,
    {
        Some(AriaProperties::new(AriaRole::Button, self.label.as_str()).disabled(self.disabled || self.loading))
    }
}

/// Toggle switch.
#[derive(Clone)]
pub struct Toggle {
    pub label: String,
    pub is_on: bool,
    pub on_change: Handler<bool>,
}

impl Toggle {
    /// Create a new Toggle switch.
    pub fn new(label: &str, is_on: bool, on_change: impl Fn(bool) + Send + Sync + 'static) -> (r: Self)
        requires
            forall|a: bool| call_requires(on_change, (a,)),
        ensures
            r.label@ == label@,
            r.is_on == is_on,
            forall|a: bool| #[trigger] r.on_change.promises(a) == call_ensures(on_change, (a,), ()),
    {
        Toggle { label: label.to_string(), is_on, on_change: Handler::new(on_change) }
    }

    /// The state a key press switches to: the opposite one for Enter or
    /// Space, none for other keys.
    pub fn key_target(&self, key: &str) -> (r: Option<bool>)
        ensures
            r == (if is_activation_key(key@) { Some(!self.is_on) } else { None::<bool> }),
    {
        if activation_key(key) {
            Some(!self.is_on)
        } else {
            None
        }
    }

    /// Handles a pointer click: reports the opposite state to the change
    /// callback.
    pub fn click(&self)
        ensures
            self.on_change.promises(!self.is_on),
    {
        self.on_change.call(!self.is_on);
    }

    /// Handles a key press: Enter or Space report the opposite state to the
    /// change callback. Returns whether the key was handled.
    pub fn on_key_event(&self, key: &str) -> (r: bool)
        ensures
            r == is_activation_key(key@),
            r ==> self.on_change.promises(!self.is_on),
    {
        match self.key_target(key) {
            Some(v) => {
                self.on_change.call(v);
                true
            },
            None => false,
        }
    }
}

impl Toggle {
    /// The accessibility description: a switch with its label, checked when
    /// on, with the value "on" or "off".
    pub fn aria_properties(&self) -> (r: Option<AriaProperties>)
        ensures
            r is Some,
            r->0.role == AriaRole::Switch,
            r->0.label@ == self.label@,
            r->0.checked == Some(self.is_on),
            r->0.value is Some,
            r->0.value->0@ == (if self.is_on { "on"@ } else { "off"@ }),
            r->0.expanded is None,
            !r->0.disabled,
            !r->0.focused,
    {
        let v = if self.is_on { "on".to_string() } else { "off".to_string() };
        Some(AriaProperties::new(AriaRole::Switch, self.label.as_str()).checked(self.is_on).value(v))
    }
}

/// Stepper for discrete increment/decrement.
#[derive(Clone)]
pub struct Stepper {
    pub label: String,
    pub value: i32,
    pub on_change: Handler<i32>,
}

impl Stepper {
    pub fn new(label: &str, value: i32, on_change: impl Fn(i32) + Send + Sync + 'static) -> (r: Self)
        requires
            forall|a: i32| call_requires(on_change, (a,)),
        ensures
            r.label@ == label@,
            r.value == value,
            forall|a: i32| #[trigger] r.on_change.promises(a) == call_ensures(on_change, (a,), ()),
    {
        Stepper { label: label.to_string(), value, on_change: Handler::new(on_change) }
    }

    /// The minus button: reports the value less one to the change callback.
    pub fn decrement(&self)
        requires
            self.value > i32::MIN,
        ensures
            self.on_change.promises((self.value - 1) as i32),
    {
        self.on_change.call(self.value - 1);
    }

    /// The plus button: reports the value plus one to the change callback.
    pub fn increment(&self)
        requires
            self.value < i32::MAX,
        ensures
            self.on_change.promises((self.value + 1) as i32),
    {
        self.on_change.call(self.value + 1);
    }
}

/// Password field: shows one `*` per byte of the text, or the placeholder
/// when empty.
#[derive(Clone)]
pub struct SecureField {
    pub placeholder: String,
    pub text: String,
    pub on_change: Handler<String>,
}

/// The text a secure field shows: the placeholder when empty, else one `*`
/// for each byte of the text.
pub open spec fn masked_text(placeholder: Seq<char>, text: Seq<char>) -> Seq<char> {
    if text.len() == 0 {
        placeholder
    } else {
        Seq::new(utf8_len(text), |i: int| '*')
    }
}

/// The text after a key press: a key of one byte is appended, Backspace
/// removes the last character, other keys change nothing.
pub open spec fn text_after_key(text: Seq<char>, key: Seq<char>) -> Option<Seq<char>> {
    if utf8_len(key) == 1 {
        Some(text + key)
    } else if key == "Backspace"@ {
        Some(if text.len() == 0 { text } else { text.drop_last() })
    } else {
        None
    }
}

impl SecureField {
    pub fn new(placeholder: &str, text: &str, on_change: impl Fn(String) + Send + Sync + 'static) -> (r: Self)
        requires
            forall|a: String| call_requires(on_change, (a,)),
        ensures
            r.placeholder@ == placeholder@,
            r.text@ == text@,
            forall|a: String| #[trigger] r.on_change.promises(a) == call_ensures(on_change, (a,), ()),
    {
        SecureField { placeholder: placeholder.to_string(), text: text.to_string(), on_change: Handler::new(on_change) }
    }

    /// The text the field displays.
    pub fn display_text(&self) -> (r: String)
        requires
            utf8_len(self.text@) <= u64::MAX,
        ensures
            r@ == masked_text(self.placeholder@, self.text@),
    {
        if self.text.as_str().unicode_len() == 0 {
            return self.placeholder.clone();
        }
        let n = utf8_byte_len(self.text.as_str());
        let mut r = String::new();
        let mut i: u64 = 0;
        while i < n
            invariant
                i <= n,
                r@ == Seq::new(i as nat, |k: int| '*'),
            decreases n - i,
        {
            r.append("*");
            proof { reveal_strlit("*"); }
            assert(r@ =~= Seq::new((i + 1) as nat, |k: int| '*'));
            i = i + 1;
        }
        r
    }

    /// The text after a key press, if the key edits it.
    pub fn edit_for_key(&self, key: &str) -> (r: Option<String>)
        ensures
            r is Some <==> text_after_key(self.text@, key@) is Some,
            r is Some ==> r->0@ == text_after_key(self.text@, key@)->0,
    {
        let kn = key.unicode_len();
        if kn == 1 {
            let c = key.get_char(0);
            assert(key@.drop_first() =~= Seq::<char>::empty());
            assert(vstd::utf8::encode_utf8(key@) == vstd::utf8::encode_scalar(c as u32) + vstd::utf8::encode_utf8(key@.drop_first()));
            if (c as u32) < 0x80 {
                assert(utf8_len(key@) == 1);
                let mut t = self.text.clone();
                t.append(key);
                return Some(t);
            }
            assert(utf8_len(key@) != 1);
        } else if kn > 1 {
            proof { lemma_utf8_len_at_least_len(key@); }
        }
        if str_eq(key, "Backspace") {
            let n = self.text.as_str().unicode_len();
            if n == 0 {
                return Some(self.text.clone());
            }
            let s = self.text.as_str().substring_char(0, n - 1);
            assert(s@ =~= self.text@.drop_last());
            return Some(s.to_string());
        }
        None
    }
}

/// Each character takes at least one byte.
pub(crate) proof fn lemma_utf8_len_at_least_len(s: Seq<char>)
    ensures
        utf8_len(s) >= s.len(),
    decreases s.len(),
{
    if s.len() > 0 {
        lemma_utf8_len_at_least_len(s.drop_first());
    }
}

} // verus!
