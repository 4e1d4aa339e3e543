//! Hero section: title, subtitle and call to action.

use vstd::prelude::*;
use crate::callback::Action;

verus! {

/// Hero section for landing pages with title, subtitle, and call-to-action.
pub struct Hero {
    pub title: String,
    pub subtitle: String,
    pub cta_text: String,
    pub on_cta: Option<Action>,
}

impl Hero {
    /// Create a new Hero component with the call to action "Get Started".
    pub fn new(title: &str, subtitle: &str) -> (r: Self)
        ensures
            r.title@ == title@,
            r.subtitle@ == subtitle@,
            r.cta_text@ == "Get Started"@,
            r.on_cta is None,
    {
        Hero { title: title.to_string(), subtitle: subtitle.to_string(), cta_text: "Get Started".to_string(), on_cta: None }
    }

    /// Set the CTA button text.
    pub fn cta_text(self, text: &str) -> (r: Self)
        ensures
            r.cta_text@ == text@,
            r.title == self.title,
            r.subtitle == self.subtitle,
            r == (Hero { cta_text: r.cta_text, ..self }),
    {
        Hero { cta_text: text.to_string(), ..self }
    }

    /// Set the CTA click handler.
    pub fn on_cta(self, callback: impl Fn() + Send + Sync + 'static) -> (r: Self)
        requires
            call_requires(callback, ()),
        ensures
            r.on_cta is Some,
            r.title == self.title,
            r.subtitle == self.subtitle,
            r.cta_text == self.cta_text,
            r.on_cta->0.promises() == call_ensures(callback, (), ()),
            r == (Hero { on_cta: r.on_cta, ..self }),
    {
        Hero { on_cta: Some(Action::new(callback)), ..self }
    }
}

} // verus!
