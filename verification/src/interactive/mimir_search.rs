//! MimirSearch: standalone glass search bar.

use vstd::prelude::*;

verus! {

/// A search bar with a query, a placeholder and a style.
pub struct MimirSearch {
    pub query: String,
    pub placeholder: String,
    pub style: SearchBarStyle,
    pub searching: bool,
}

/// The look of a search bar.
pub enum SearchBarStyle {
    Compact,
    Expanded,
}

impl MimirSearch {
    pub fn new() -> (r: Self)
        ensures
            r.query@.len() == 0,
            r.placeholder@ == "Search..."@,
            r.style is Compact,
            !r.searching,
    {
        MimirSearch { query: String::new(), placeholder: "Search...".to_string(), style: SearchBarStyle::Compact, searching: false }
    }

    pub fn placeholder(self, text: &str) -> (r: Self)
        ensures
            r.query == self.query,
            r.placeholder@ == text@,
            r.style == self.style,
            r.searching == self.searching,
            r == (MimirSearch { placeholder: r.placeholder, ..self }),
    {
        MimirSearch { placeholder: text.to_string(), ..self }
    }

    pub fn style(self, style: SearchBarStyle) -> (r: Self)
        ensures
            r.query == self.query,
            r.placeholder == self.placeholder,
            r.style == style,
            r.searching == self.searching,
            r == (MimirSearch { style: r.style, ..self }),
    {
        MimirSearch { style, ..self }
    }

    pub fn query(self, query: &str) -> (r: Self)
        ensures
            r.query@ == query@,
            r.placeholder == self.placeholder,
            r.style == self.style,
            r.searching == self.searching,
            r == (MimirSearch { query: r.query, ..self }),
    {
        MimirSearch { query: query.to_string(), ..self }
    }

    /// The text the bar shows: the query, or the placeholder when empty.
    pub fn shown_text(&self) -> (r: &str)
        ensures
            r@ == (if self.query@.len() == 0 { self.placeholder@ } else { self.query@ }),
    {
        if self.query.as_str().unicode_len() == 0 {
            self.placeholder.as_str()
        } else {
            self.query.as_str()
        }
    }
}

impl Default for MimirSearch {
    fn default() -> (r: Self)
        ensures
            r.query@.len() == 0,
            r.placeholder@ == "Search..."@,
            r.style is Compact,
            !r.searching,
    {
        Self::new()
    }
}

} // verus!
