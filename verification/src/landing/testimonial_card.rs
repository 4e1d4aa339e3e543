//! Customer testimonials.

use vstd::prelude::*;

verus! {

/// Testimonial quote item.
#[derive(Clone)]
pub struct TestimonialItem {
    pub quote: String,
    pub author: String,
    /// A URL or placeholder.
    pub avatar: Option<String>,
}

impl TestimonialItem {
    /// Create a new TestimonialItem.
    pub fn new(quote: &str, author: &str) -> (r: Self)
        ensures
            r.quote@ == quote@,
            r.author@ == author@,
            r.avatar is None,
    {
        TestimonialItem { quote: quote.to_string(), author: author.to_string(), avatar: None }
    }

    /// Set the avatar (URL or placeholder).
    pub fn avatar(self, avatar: &str) -> (r: Self)
        ensures
            r.quote == self.quote,
            r.author == self.author,
            r.avatar is Some && r.avatar->0@ == avatar@,
            r == (TestimonialItem { avatar: r.avatar, ..self }),
    {
        TestimonialItem { avatar: Some(avatar.to_string()), ..self }
    }
}

/// TestimonialCard for displaying customer testimonials.
pub struct TestimonialCard {
    pub items: Vec<TestimonialItem>,
}

impl TestimonialCard {
    /// Create a new TestimonialCard.
    pub fn new() -> (r: Self)
        ensures
            r.items@.len() == 0,
    {
        TestimonialCard { items: Vec::new() }
    }

    /// Add a testimonial item.
    pub fn item(self, item: TestimonialItem) -> (r: Self)
        ensures
            r.items@ == self.items@.push(item),
    {
        let mut items = self.items;
        items.push(item);
        TestimonialCard { items }
    }
}

impl Default for TestimonialCard {
    fn default() -> (r: Self)
        ensures
            r.items@.len() == 0,
    {
        Self::new()
    }
}

} // verus!
