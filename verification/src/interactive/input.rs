//! Single-line text input: value, validation state and callbacks.

use vstd::prelude::*;
use crate::aria::{AriaProperties, AriaRole};
use crate::callback::Handler;
use crate::keyboard_nav::{arrow_for_key, ArrowDirection};
use crate::text::{str_eq, utf8_len};

verus! {

/// Input validation state.
#[derive(Debug, Clone, Copy, PartialEq, Eq, Structural)]
pub enum InputState {
    Default,
    Focused,
    Error,
    Success,
    Disabled,
}

/// Single-line text input.
#[derive(Clone)]
pub struct Input {
    pub placeholder: String,
    pub text: String,
    pub on_change: Handler<String>,
    pub on_commit: Handler<String>,
    pub is_focused: bool,
    pub input_state: InputState,
    pub error_message: Option<String>,
}

impl Input {
    /// Create a new Input field with no text, unfocused, in the default
    /// state, with callbacks that do nothing.
    pub fn new(placeholder: &str) -> (r: Self)
        ensures
            r.placeholder@ == placeholder@,
            r.text@.len() == 0,
            !r.is_focused,
            r.input_state == InputState::Default,
            r.error_message is None,
    {
        Input {
            placeholder: placeholder.to_string(),
            text: String::new(),
            on_change: Handler::new(|_s: String| {}),
            on_commit: Handler::new(|_s: String| {}),
            is_focused: false,
            input_state: InputState::Default,
            error_message: None,
        }
    }

    pub fn value(self, value: &str) -> (r: Self)
        ensures
            r.text@ == value@,
            r.placeholder == self.placeholder,
            r.is_focused == self.is_focused,
            r.input_state == self.input_state,
            r.error_message == self.error_message,
            r == (Input { text: r.text, ..self }),
    {
        Input { text: value.to_string(), ..self }
    }

    pub fn on_change(self, callback: impl Fn(String) + Send + Sync + 'static) -> (r: Self)
        requires
            forall|a: String| call_requires(callback, (a,)),
        ensures
            r == (Input { on_change: r.on_change, ..self }),
            forall|s: String| #[trigger] r.on_change.promises(s) == call_ensures(callback, (s,), ()),
    {
        Input { on_change: Handler::new(callback), ..self }
    }

    pub fn on_commit(self, callback: impl Fn(String) + Send + Sync + 'static) -> (r: Self)
        requires
            forall|a: String| call_requires(callback, (a,)),
        ensures
            r == (Input { on_commit: r.on_commit, ..self }),
            forall|s: String| #[trigger] r.on_commit.promises(s) == call_ensures(callback, (s,), ()),
    {
        Input { on_commit: Handler::new(callback), ..self }
    }

    /// Set the focus; focusing also puts the input in the focused state.
    pub fn focused(self, is_focused: bool) -> (r: Self)
        ensures
            r == (Input {
                is_focused,
                input_state: if is_focused { InputState::Focused } else { self.input_state },
                ..self
            }),
    {
        let input_state = if is_focused { InputState::Focused } else { self.input_state };
        Input { is_focused, input_state, ..self }
    }

    /// Put the input in the error state with a message.
    pub fn error(self, message: &str) -> (r: Self)
        ensures
            r.input_state == InputState::Error,
            r.error_message is Some && r.error_message->0@ == message@,
            r.placeholder == self.placeholder,
            r.text == self.text,
            r.is_focused == self.is_focused,
            r == (Input { input_state: r.input_state, error_message: r.error_message, ..self }),
    {
        Input { input_state: InputState::Error, error_message: Some(message.to_string()), ..self }
    }

    /// Put the input in the success state.
    pub fn success(self) -> (r: Self)
        ensures
            r == (Input { input_state: InputState::Success, ..self }),
    {
        Input { input_state: InputState::Success, ..self }
    }

    /// The display text: the placeholder when the text is empty.
    pub fn display_text(&self) -> (r: &str)
        ensures
            r@ == (if self.text@.len() == 0 { self.placeholder@ } else { self.text@ }),
    {
        if self.text.as_str().unicode_len() == 0 {
            self.placeholder.as_str()
        } else {
            self.text.as_str()
        }
    }
}


/// What a key press does to a focused input's text.
#[derive(Debug, Clone, PartialEq, Eq)]
pub enum InputKeyAction {
    /// Insert the typed character.
    Insert(String),
    /// Delete the character before the cursor.
    DeleteBackward,
    /// Delete the character after the cursor.
    DeleteForward,
    /// Move the cursor one character left.
    MoveLeft,
    /// Move the cursor one character right.
    MoveRight,
    /// Move the cursor to the start of the line.
    LineStart,
    /// Move the cursor to the end of the line.
    LineEnd,
    /// Commit the value.
    Commit,
    /// Nothing.
    Ignore,
}

/// A key that types a character: one byte long and not a control character.
pub open spec fn is_typed_key(key: Seq<char>) -> bool {
    utf8_len(key) == 1 && key.len() == 1 && !((key[0] as u32) < 0x20 || key[0] as u32 == 0x7F)
}

/// The action of a key press on a focused input.
pub open spec fn input_key_action(key: Seq<char>) -> InputKeyActionView {
    if is_typed_key(key) {
        InputKeyActionView::Insert(key)
    } else if key == "Back"@ || key == "Backspace"@ {
        InputKeyActionView::DeleteBackward
    } else if key == "Delete"@ {
        InputKeyActionView::DeleteForward
    } else if key == "ArrowLeft"@ {
        InputKeyActionView::MoveLeft
    } else if key == "ArrowRight"@ {
        InputKeyActionView::MoveRight
    } else if key == "ArrowUp"@ || key == "Home"@ {
        InputKeyActionView::LineStart
    } else if key == "ArrowDown"@ || key == "End"@ {
        InputKeyActionView::LineEnd
    } else if key == "Enter"@ || key == "Return"@ {
        InputKeyActionView::Commit
    } else {
        InputKeyActionView::Ignore
    }
}

/// [`InputKeyAction`] with its text as a character sequence.
pub enum InputKeyActionView {
    Insert(Seq<char>),
    DeleteBackward,
    DeleteForward,
    MoveLeft,
    MoveRight,
    LineStart,
    LineEnd,
    Commit,
    Ignore,
}

impl View for InputKeyAction {
    type V = InputKeyActionView;

    open spec fn view(&self) -> InputKeyActionView {
        match self {
            InputKeyAction::Insert(s) => InputKeyActionView::Insert(s@),
            InputKeyAction::DeleteBackward => InputKeyActionView::DeleteBackward,
            InputKeyAction::DeleteForward => InputKeyActionView::DeleteForward,
            InputKeyAction::MoveLeft => InputKeyActionView::MoveLeft,
            InputKeyAction::MoveRight => InputKeyActionView::MoveRight,
            InputKeyAction::LineStart => InputKeyActionView::LineStart,
            InputKeyAction::LineEnd => InputKeyActionView::LineEnd,
            InputKeyAction::Commit => InputKeyActionView::Commit,
            InputKeyAction::Ignore => InputKeyActionView::Ignore,
        }
    }
}

/// Each character takes at least one byte.
proof fn lemma_utf8_len_ge_len(s: Seq<char>)
    ensures
        utf8_len(s) >= s.len(),
    decreases s.len(),
{
    if s.len() > 0 {
        lemma_utf8_len_ge_len(s.drop_first());
    }
}

/// Classifies a key press on a focused input.
pub fn key_action(key: &str) -> (r: InputKeyAction)
    ensures
        r@ == input_key_action(key@),
{
    let n = key.unicode_len();
    if n == 1 {
        let c = key.get_char(0);
        assert(key@.drop_first() =~= Seq::<char>::empty());
        assert(vstd::utf8::encode_utf8(key@) == vstd::utf8::encode_scalar(c as u32) + vstd::utf8::encode_utf8(key@.drop_first()));
        let v = c as u32;
        if v < 0x80 && !(v < 0x20 || v == 0x7F) {
            return InputKeyAction::Insert(key.to_string());
        }
    } else if n > 1 {
        proof { lemma_utf8_len_ge_len(key@); }
    }
    assert(!is_typed_key(key@));
    if str_eq(key, "Back") || str_eq(key, "Backspace") {
        InputKeyAction::DeleteBackward
    } else if str_eq(key, "Delete") {
        InputKeyAction::DeleteForward
    } else if str_eq(key, "ArrowLeft") {
        InputKeyAction::MoveLeft
    } else if str_eq(key, "ArrowRight") {
        InputKeyAction::MoveRight
    } else if str_eq(key, "ArrowUp") || str_eq(key, "Home") {
        InputKeyAction::LineStart
    } else if str_eq(key, "ArrowDown") || str_eq(key, "End") {
        InputKeyAction::LineEnd
    } else if str_eq(key, "Enter") || str_eq(key, "Return") {
        InputKeyAction::Commit
    } else {
        InputKeyAction::Ignore
    }
}

/// The label an edit is recorded under in the undo history.
pub open spec fn edit_label(key: Seq<char>) -> Seq<char> {
    if key == "Back"@ || key == "Backspace"@ || key == "Delete"@ {
        "Delete"@
    } else {
        "Type"@
    }
}

/// The label under which the edit a key makes is recorded for undo.
pub fn undo_label(key: &str) -> (r: &'static str)
    ensures
        r@ == edit_label(key@),
{
    if str_eq(key, "Back") || str_eq(key, "Backspace") || str_eq(key, "Delete") {
        "Delete"
    } else {
        "Type"
    }
}

impl Input {
    /// The accessibility description: a text box labelled by its placeholder,
    /// with the text as its value and whether it has focus.
    pub fn aria_properties(&self) -> (r: Option<AriaProperties>)
        ensures
            r is Some,
            r->0.role == AriaRole::Textbox,
            r->0.label@ == self.placeholder@,
            r->0.value is Some,
            r->0.value->0@ == self.text@,
            r->0.focused == self.is_focused,
            r->0.checked is None,
            r->0.expanded is None,
            !r->0.disabled,
    {
        Some(AriaProperties::new(AriaRole::Textbox, self.placeholder.as_str()).value(self.text.clone()).focused(self.is_focused))
    }
}

/// The left and right arrows move an input's cursor the way they point: a
/// key moves it one character left exactly when it is the arrow pointing
/// left, and one character right exactly when it is the arrow pointing right.
pub proof fn law_arrows_move_the_cursor_their_way(key: Seq<char>)
    ensures
        (input_key_action(key) is MoveLeft) <==> arrow_for_key(key) == Some(ArrowDirection::Left),
        (input_key_action(key) is MoveRight) <==> arrow_for_key(key) == Some(ArrowDirection::Right),
        (input_key_action(key) is MoveLeft) <==> key == "ArrowLeft"@,
        (input_key_action(key) is MoveRight) <==> key == "ArrowRight"@,
{
    reveal_strlit("ArrowLeft");
    reveal_strlit("ArrowRight");
    reveal_strlit("ArrowUp");
    reveal_strlit("ArrowDown");
    reveal_strlit("Back");
    reveal_strlit("Backspace");
    reveal_strlit("Delete");
    if key == "ArrowLeft"@ || key == "ArrowRight"@ {
        assert(!is_typed_key(key));
        assert(key != "Back"@ && key != "Backspace"@ && key != "Delete"@) by {
            if key == "Back"@ { assert(key.len() == 4); }
            if key == "Delete"@ { assert(key.len() == 6); }
            if key == "Backspace"@ { assert(key[0] == 'B'); }
        }
        assert("ArrowLeft"@ != "ArrowRight"@) by { assert("ArrowLeft"@.len() != "ArrowRight"@.len()); }
    }
    if key == "ArrowLeft"@ || key == "ArrowRight"@ {
        assert(key != "ArrowUp"@ && key != "ArrowDown"@) by {
            if key == "ArrowUp"@ { assert(key.len() == 7); }
            if key == "ArrowDown"@ { assert(key[5] == 'D'); }
        }
    }
}

} // verus!
