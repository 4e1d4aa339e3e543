//! MentionInput: a text input that offers suggestions after '@' (users) or
//! '#' (topics).

use vstd::prelude::*;
use crate::callback::Handler;

verus! {

/// A text input with '@' user and '#' topic suggestions.
#[derive(Clone)]
pub struct MentionInput {
    /// The current input text.
    pub text: String,
    /// List of user suggestions to match against '@'.
    pub users: Vec<String>,
    /// List of topic suggestions to match against '#'.
    pub topics: Vec<String>,
    /// Callback when value updates.
    pub on_change: Handler<String>,
}

/// Which suggestion list is open: users after a trailing '@', topics after a
/// trailing '#', none otherwise.
pub open spec fn open_suggestions(text: Seq<char>) -> Option<bool> {
    if text.len() > 0 && text.last() == '@' {
        Some(true)
    } else if text.len() > 0 && text.last() == '#' {
        Some(false)
    } else {
        None
    }
}

fn seeded(a: &str, b: &str, c: &str) -> (r: Vec<String>)
    ensures
        r@.len() == 3,
        r@[0]@ == a@,
        r@[1]@ == b@,
        r@[2]@ == c@,
{
    let mut v: Vec<String> = Vec::new();
    v.push(a.to_string());
    v.push(b.to_string());
    v.push(c.to_string());
    v
}

impl MentionInput {
    /// Create a new MentionInput with sample users and topics.
    pub fn new() -> (r: Self)
        ensures
            r.text@.len() == 0,
            r.users@.len() == 3,
            r.users@[0]@ == "alice"@ && r.users@[1]@ == "bob"@ && r.users@[2]@ == "charlie"@,
            r.topics@.len() == 3,
            r.topics@[0]@ == "rust"@ && r.topics@[1]@ == "ui"@ && r.topics@[2]@ == "gpu"@,
    {
        MentionInput {
            text: String::new(),
            users: seeded("alice", "bob", "charlie"),
            topics: seeded("rust", "ui", "gpu"),
            on_change: Handler::new(|_s: String| {}),
        }
    }

    /// Set input text value.
    pub fn value(self, text: &str) -> (r: Self)
        ensures
            r.text@ == text@,
            r.users == self.users,
            r.topics == self.topics,
            r == (MentionInput { text: r.text, ..self }),
    {
        MentionInput { text: text.to_string(), ..self }
    }

    /// Set list of user suggestions.
    pub fn users(self, users: Vec<String>) -> (r: Self)
        ensures
            r == (MentionInput { users, ..self }),
    {
        MentionInput { users, ..self }
    }

    /// Set list of topic suggestions.
    pub fn topics(self, topics: Vec<String>) -> (r: Self)
        ensures
            r == (MentionInput { topics, ..self }),
    {
        MentionInput { topics, ..self }
    }

    /// Set the callback for value updates.
    pub fn on_change(self, callback: impl Fn(String) + Send + Sync + 'static) -> (r: Self)
        requires
            forall|a: String| call_requires(callback, (a,)),
        ensures
            r == (MentionInput { on_change: r.on_change, ..self }),
            forall|s: String| #[trigger] r.on_change.promises(s) == call_ensures(callback, (s,), ()),
    {
        MentionInput { on_change: Handler::new(callback), ..self }
    }

    /// The suggestion list shown for the current text, if any.
    pub fn suggestions(&self) -> (r: Option<&Vec<String>>)
        ensures
            open_suggestions(self.text@) is None ==> r is None,
            open_suggestions(self.text@) == Some(true) ==> r == Some(&self.users),
            open_suggestions(self.text@) == Some(false) ==> r == Some(&self.topics),
    {
        let n = self.text.as_str().unicode_len();
        if n == 0 {
            return None;
        }
        let c = self.text.as_str().get_char(n - 1);
        if c == '@' {
            Some(&self.users)
        } else if c == '#' {
            Some(&self.topics)
        } else {
            None
        }
    }

    /// The text after choosing a suggestion: the trailing '@' or '#' is
    /// replaced by the suggestion and a space.
    pub fn with_suggestion(&self, suggestion: &str) -> (r: String)
        requires
            open_suggestions(self.text@) is Some,
        ensures
            r@ == self.text@.drop_last() + suggestion@ + " "@,
    {
        let n = self.text.as_str().unicode_len();
        let base = self.text.as_str().substring_char(0, n - 1);
        assert(base@ =~= self.text@.drop_last());
        let mut r = base.to_string();
        r.append(suggestion);
        r.append(" ");
        r
    }
}

} // verus!
