//! Copy, Cut and Paste buttons: their labels, feedback state and callbacks.

use vstd::prelude::*;
use crate::callback::{Action, Handler};
use crate::text::join3;

verus! {

/// The text a clipboard button shows: a check mark and the feedback word
/// right after the operation, else its icon and label.
pub open spec fn clipboard_label(feedback: bool, done_word: Seq<char>, icon: Seq<char>, label: Seq<char>) -> Seq<char> {
    if feedback {
        "✓"@ + " "@ + done_word
    } else {
        icon + " "@ + label
    }
}

/// Button that copies text to the system clipboard.
#[derive(Clone)]
pub struct CopyButton {
    pub label: String,
    pub on_click: Action,
    pub disabled: bool,
    pub copied_feedback: bool,
}

impl CopyButton {
    /// Create a new CopyButton. The `on_click` callback is fired after a
    /// successful copy.
    pub fn new(label: &str, on_click: impl Fn() + Send + Sync + 'static) -> (r: Self)
        requires
            call_requires(on_click, ()),
        ensures
            r.label@ == label@,
            !r.disabled,
            !r.copied_feedback,
            r.on_click.promises() == call_ensures(on_click, (), ()),
    {
        CopyButton { label: label.to_string(), on_click: Action::new(on_click), disabled: false, copied_feedback: false }
    }

    /// Set the disabled state.
    pub fn disabled(self, disabled: bool) -> (r: Self)
        ensures
            r.label == self.label,
            r.disabled == disabled,
            r.copied_feedback == self.copied_feedback,
            r == (CopyButton { disabled: r.disabled, ..self }),
    {
        CopyButton { disabled, ..self }
    }

    /// The text the button shows.
    pub fn full_label(&self) -> (r: String)
        ensures
            r@ == clipboard_label(self.copied_feedback, "Copied!"@, "⎘"@, self.label@),
    {
        if self.copied_feedback {
            join3("✓", " ", "Copied!")
        } else {
            join3("⎘", " ", self.label.as_str())
        }
    }

    /// The accessible name of the button.
    pub fn a11y_label(&self) -> (r: String)
        ensures
            r@ == "Copy "@ + self.label@,
    {
        let mut r = "Copy ".to_string();
        r.append(self.label.as_str());
        r
    }

    /// Handles a click: the click callback runs unless the button is
    /// disabled. Returns whether it ran.
    pub fn click(&self) -> (r: bool)
        ensures
            r == !self.disabled,
            r ==> self.on_click.promises(),
    {
        if self.disabled {
            return false;
        }
        self.on_click.call();
        true
    }
}

/// Button that cuts text to the system clipboard.
#[derive(Clone)]
pub struct CutButton {
    pub label: String,
    pub on_click: Action,
    pub disabled: bool,
    pub cut_feedback: bool,
}

impl CutButton {
    /// Create a new CutButton. The `on_click` callback is fired after text is
    /// cut to the clipboard.
    pub fn new(label: &str, on_click: impl Fn() + Send + Sync + 'static) -> (r: Self)
        requires
            call_requires(on_click, ()),
        ensures
            r.label@ == label@,
            !r.disabled,
            !r.cut_feedback,
            r.on_click.promises() == call_ensures(on_click, (), ()),
    {
        CutButton { label: label.to_string(), on_click: Action::new(on_click), disabled: false, cut_feedback: false }
    }

    /// Set the disabled state.
    pub fn disabled(self, disabled: bool) -> (r: Self)
        ensures
            r.label == self.label,
            r.disabled == disabled,
            r.cut_feedback == self.cut_feedback,
            r == (CutButton { disabled: r.disabled, ..self }),
    {
        CutButton { disabled, ..self }
    }

    /// The text the button shows.
    pub fn full_label(&self) -> (r: String)
        ensures
            r@ == clipboard_label(self.cut_feedback, "Cut!"@, "✂"@, self.label@),
    {
        if self.cut_feedback {
            join3("✓", " ", "Cut!")
        } else {
            join3("✂", " ", self.label.as_str())
        }
    }

    /// The accessible name of the button.
    pub fn a11y_label(&self) -> (r: String)
        ensures
            r@ == "Cut "@ + self.label@,
    {
        let mut r = "Cut ".to_string();
        r.append(self.label.as_str());
        r
    }

    /// Handles a click: the click callback runs unless the button is
    /// disabled. Returns whether it ran.
    pub fn click(&self) -> (r: bool)
        ensures
            r == !self.disabled,
            r ==> self.on_click.promises(),
    {
        if self.disabled {
            return false;
        }
        self.on_click.call();
        true
    }
}

/// Button that pastes text from the system clipboard.
#[derive(Clone)]
pub struct PasteButton {
    pub label: String,
    pub on_paste: Handler<String>,
    pub disabled: bool,
    pub pasted_feedback: bool,
}

impl PasteButton {
    /// Create a new PasteButton. The `on_paste` callback receives the text
    /// that was pasted from the clipboard.
    pub fn new(on_paste: impl Fn(String) + Send + Sync + 'static) -> (r: Self)
        requires
            forall|a: String| call_requires(on_paste, (a,)),
        ensures
            r.label@ == "Paste"@,
            !r.disabled,
            !r.pasted_feedback,
            forall|a: String| #[trigger] r.on_paste.promises(a) == call_ensures(on_paste, (a,), ()),
    {
        PasteButton { label: "Paste".to_string(), on_paste: Handler::new(on_paste), disabled: false, pasted_feedback: false }
    }

    /// Set a custom label.
    pub fn label(self, label: &str) -> (r: Self)
        ensures
            r.label@ == label@,
            r.disabled == self.disabled,
            r.pasted_feedback == self.pasted_feedback,
            r == (PasteButton { label: r.label, ..self }),
    {
        PasteButton { label: label.to_string(), ..self }
    }

    /// Set the disabled state.
    pub fn disabled(self, disabled: bool) -> (r: Self)
        ensures
            r.label == self.label,
            r.disabled == disabled,
            r.pasted_feedback == self.pasted_feedback,
            r == (PasteButton { disabled: r.disabled, ..self }),
    {
        PasteButton { disabled, ..self }
    }

    /// The text the button shows.
    pub fn full_label(&self) -> (r: String)
        ensures
            r@ == clipboard_label(self.pasted_feedback, "Pasted!"@, "📋"@, self.label@),
    {
        if self.pasted_feedback {
            join3("✓", " ", "Pasted!")
        } else {
            join3("📋", " ", self.label.as_str())
        }
    }

    /// The accessible name of the button.
    pub fn a11y_label(&self) -> (r: String)
        ensures
            r@ == "Paste "@ + self.label@,
    {
        let mut r = "Paste ".to_string();
        r.append(self.label.as_str());
        r
    }

    /// Hands text read from the clipboard to the paste callback, unless the
    /// button is disabled. Returns whether the text was handed on.
    pub fn paste(&self, text: String) -> (r: bool)
        ensures
            r == !self.disabled,
            r ==> self.on_paste.promises(text),
    {
        if self.disabled {
            return false;
        }
        self.on_paste.call(text);
        true
    }
}

} // verus!
