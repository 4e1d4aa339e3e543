//! Item component for generic list items: a title with optional subtitle,
//! leading and trailing elements, click handler and disabled state.

use vstd::prelude::*;
use crate::callback::Action;

verus! {

/// A generic list item.
#[derive(Clone)]
pub struct Item {
    /// Primary title text.
    pub title: String,
    /// Optional subtitle text displayed below the title.
    pub subtitle: Option<String>,
    /// Optional leading element (icon, avatar, etc.).
    pub leading: Option<String>,
    /// Optional trailing element (badge, arrow, etc.).
    pub trailing: Option<String>,
    /// Optional click callback.
    pub on_click: Option<Action>,
    /// Whether this item is disabled.
    pub disabled: bool,
}

impl Item {
    /// Create a new Item with the given title.
    pub fn new(title: &str) -> (r: Self)
        ensures
            r.title@ == title@,
            r.subtitle is None,
            r.leading is None,
            r.trailing is None,
            r.on_click is None,
            !r.disabled,
    {
        Item { title: title.to_string(), subtitle: None, leading: None, trailing: None, on_click: None, disabled: false }
    }

    /// Set the subtitle text.
    pub fn subtitle(self, subtitle: &str) -> (r: Self)
        ensures
            r.subtitle is Some && r.subtitle->0@ == subtitle@,
            r == (Item { subtitle: r.subtitle, ..self }),
    {
        Item { subtitle: Some(subtitle.to_string()), ..self }
    }

    /// Set the leading element text.
    pub fn leading(self, leading: &str) -> (r: Self)
        ensures
            r.leading is Some && r.leading->0@ == leading@,
            r == (Item { leading: r.leading, ..self }),
    {
        Item { leading: Some(leading.to_string()), ..self }
    }

    /// Set the trailing element text.
    pub fn trailing(self, trailing: &str) -> (r: Self)
        ensures
            r.trailing is Some && r.trailing->0@ == trailing@,
            r == (Item { trailing: r.trailing, ..self }),
    {
        Item { trailing: Some(trailing.to_string()), ..self }
    }

    /// Set the click callback.
    pub fn on_click(self, callback: impl Fn() + Send + Sync + 'static) -> (r: Self)
        requires
            call_requires(callback, ()),
        ensures
            r.on_click is Some,
            r == (Item { on_click: r.on_click, ..self }),
            r.on_click->0.promises() == call_ensures(callback, (), ()),
    {
        Item { on_click: Some(Action::new(callback)), ..self }
    }

    /// Set whether this item is disabled.
    pub fn disabled(self, disabled: bool) -> (r: Self)
        ensures
            r == (Item { disabled, ..self }),
    {
        Item { disabled, ..self }
    }

    /// Handles a click: the callback runs unless the item is disabled or has
    /// none. Returns whether it ran.
    pub fn click(&self) -> (r: bool)
        ensures
            r == (!self.disabled && self.on_click is Some),
            r ==> self.on_click->0.promises(),
    {
        if self.disabled {
            return false;
        }
        match &self.on_click {
            Some(a) => {
                a.call();
                true
            },
            None => false,
        }
    }
}

} // verus!
