//! NativeSelect: a dropdown over (value, label) options.

use vstd::prelude::*;
use crate::callback::Handler;
use crate::text::str_eq;

verus! {

/// A dropdown select over (value, label) options.
#[derive(Clone)]
pub struct NativeSelect {
    /// The available options as (value, label) pairs.
    pub options: Vec<(String, String)>,
    /// The currently selected value.
    pub value: String,
    /// Callback invoked when the selection changes.
    pub on_change: Handler<String>,
    /// Whether the select is disabled.
    pub disabled: bool,
    /// Whether the dropdown is currently expanded.
    pub is_open: bool,
}

/// The label of the first option whose value is `value`, else the value.
pub open spec fn label_for(options: Seq<(String, String)>, value: Seq<char>) -> Seq<char>
    decreases options.len(),
{
    if options.len() == 0 {
        value
    } else if options[0].0@ == value {
        options[0].1@
    } else {
        label_for(options.drop_first(), value)
    }
}

impl NativeSelect {
    /// Create a new NativeSelect with options, a selected value and a change
    /// callback; enabled and closed.
    pub fn new(options: Vec<(String, String)>, value: &str, on_change: impl Fn(String) + Send + Sync + 'static) -> (r: Self)
        requires
            forall|a: String| call_requires(on_change, (a,)),
        ensures
            r.options == options,
            r.value@ == value@,
            !r.disabled,
            !r.is_open,
            forall|a: String| #[trigger] r.on_change.promises(a) == call_ensures(on_change, (a,), ()),
    {
        NativeSelect { options, value: value.to_string(), on_change: Handler::new(on_change), disabled: false, is_open: false }
    }

    /// Set the currently selected value.
    pub fn value(self, val: &str) -> (r: Self)
        ensures
            r.value@ == val@,
            r.options == self.options,
            r.disabled == self.disabled,
            r.is_open == self.is_open,
            r == (NativeSelect { value: r.value, ..self }),
    {
        NativeSelect { value: val.to_string(), ..self }
    }

    /// Set whether the select is disabled.
    pub fn disabled(self, disabled: bool) -> (r: Self)
        ensures
            r == (NativeSelect { disabled, ..self }),
    {
        NativeSelect { disabled, ..self }
    }

    /// Set whether the dropdown is expanded.
    pub fn open(self, open: bool) -> (r: Self)
        ensures
            r == (NativeSelect { is_open: open, ..self }),
    {
        NativeSelect { is_open: open, ..self }
    }

    /// Find the label for the current value.
    pub fn selected_label(&self) -> (r: String)
        ensures
            r@ == label_for(self.options@, self.value@),
    {
        let n = self.options.len();
        let mut i: usize = 0;
        assert(self.options@.skip(0) =~= self.options@);
        while i < n
            invariant
                n == self.options@.len(),
                i <= n,
                label_for(self.options@, self.value@) == label_for(self.options@.skip(i as int), self.value@),
            decreases n - i,
        {
            assert(self.options@.skip(i as int).drop_first() =~= self.options@.skip(i + 1));
            if str_eq(self.options[i].0.as_str(), self.value.as_str()) {
                return self.options[i].1.clone();
            }
            i = i + 1;
        }
        self.value.clone()
    }
}

} // verus!
