//! Multi-line text area.

use vstd::prelude::*;
use crate::callback::Handler;
use crate::interactive::button::lemma_utf8_len_at_least_len;
use crate::text::{str_eq, utf8_len};

verus! {

/// Multi-line text area.
#[derive(Clone)]
pub struct Textarea {
    pub placeholder: String,
    pub text: String,
    pub rows: usize,
    pub on_change: Handler<String>,
}

/// Whether a key press edits a text area: a key of one byte, Back or
/// Backspace, Enter or Return.
pub open spec fn textarea_key(key: Seq<char>) -> bool {
    utf8_len(key) == 1 || key == "Back"@ || key == "Backspace"@ || key == "Return"@ || key == "Enter"@
}

/// The text of a text area after a key press that edits it: a key of one
/// byte is appended, Back or Backspace removes the last character (if any),
/// Enter or Return appends a line break.
pub open spec fn textarea_edit(text: Seq<char>, key: Seq<char>) -> Seq<char> {
    if utf8_len(key) == 1 {
        text + key
    } else if key == "Back"@ || key == "Backspace"@ {
        if text.len() == 0 { text } else { text.drop_last() }
    } else {
        text.push('\n')
    }
}

impl Textarea {
    /// A text area with no text, three rows and a change callback that does
    /// nothing.
    pub fn new(placeholder: &str) -> (r: Self)
        ensures
            r.placeholder@ == placeholder@,
            r.text@.len() == 0,
            r.rows == 3,
    {
        Textarea { placeholder: placeholder.to_string(), text: String::new(), rows: 3, on_change: Handler::new(|_s: String| {}) }
    }

    pub fn value(self, value: &str) -> (r: Self)
        ensures
            r.text@ == value@,
            r.placeholder == self.placeholder,
            r.rows == self.rows,
            r == (Textarea { text: r.text, ..self }),
    {
        Textarea { text: value.to_string(), ..self }
    }

    pub fn rows(self, rows: usize) -> (r: Self)
        ensures
            r == (Textarea { rows, ..self }),
    {
        Textarea { rows, ..self }
    }

    pub fn on_change(self, callback: impl Fn(String) + Send + Sync + 'static) -> (r: Self)
        requires
            forall|a: String| call_requires(callback, (a,)),
        ensures
            r == (Textarea { on_change: r.on_change, ..self }),
            forall|s: String| #[trigger] r.on_change.promises(s) == call_ensures(callback, (s,), ()),
    {
        Textarea { on_change: Handler::new(callback), ..self }
    }

    /// The text after a key press, if the key edits it.
    pub fn edit_for_key(&self, key: &str) -> (r: Option<String>)
        ensures
            r is None <==> !textarea_key(key@),
            r matches Some(t) ==> t@ == textarea_edit(self.text@, key@),
    {
        let kn = key.unicode_len();
        if kn == 1 {
            let c = key.get_char(0);
            assert(key@.drop_first() =~= Seq::<char>::empty());
            assert(vstd::utf8::encode_utf8(key@) == vstd::utf8::encode_scalar(c as u32) + vstd::utf8::encode_utf8(key@.drop_first()));
            if (c as u32) < 0x80 {
                assert(utf8_len(key@) == 1);
                let mut t = self.text.clone();
                t.append(key);
                return Some(t);
            }
            assert(utf8_len(key@) != 1);
        } else if kn > 1 {
            proof { lemma_utf8_len_at_least_len(key@); }
        }
        if str_eq(key, "Back") || str_eq(key, "Backspace") {
            let n = self.text.as_str().unicode_len();
            if n == 0 {
                return Some(self.text.clone());
            }
            let s = self.text.as_str().substring_char(0, n - 1);
            assert(s@ =~= self.text@.drop_last());
            return Some(s.to_string());
        }
        if str_eq(key, "Return") || str_eq(key, "Enter") {
            let mut t = self.text.clone();
            t.append("\n");
            proof { reveal_strlit("\n"); }
            assert(t@ =~= self.text@.push('\n'));
            return Some(t);
        }
        None
    }

    /// The text after an input-method composition is committed: the
    /// composition appended.
    pub fn with_ime(&self, composition: &str) -> (r: String)
        ensures
            r@ == self.text@ + composition@,
    {
        let mut t = self.text.clone();
        t.append(composition);
        t
    }

    /// Handles a key press: a key that edits the text reports the new text
    /// to the change callback. Returns whether the key was handled.
    pub fn on_key_event(&self, key: &str) -> (r: bool)
        ensures
            r == textarea_key(key@),
            r ==> exists|t: String| t@ == textarea_edit(self.text@, key@) && #[trigger] self.on_change.promises(t),
    {
        match self.edit_for_key(key) {
            Some(t) => {
                let ghost g = t;
                self.on_change.call(t);
                assert(self.on_change.promises(g));
                true
            },
            None => false,
        }
    }

    /// Handles a committed input-method composition: reports the text with
    /// the composition appended to the change callback.
    pub fn on_ime(&self, composition: &str)
        ensures
            exists|t: String| t@ == self.text@ + composition@ && #[trigger] self.on_change.promises(t),
    {
        let t = self.with_ime(composition);
        let ghost g = t;
        self.on_change.call(t);
        assert(self.on_change.promises(g));
    }
}

} // verus!
