//! Pricing cards and the table that lays them out.

use vstd::prelude::*;

verus! {

/// Pricing card for displaying a single pricing option.
#[derive(Clone)]
pub struct PricingCard {
    pub title: String,
    pub price: String,
    pub features: Vec<String>,
    pub cta_text: String,
}

impl PricingCard {
    /// Create a new PricingCard with no features and the call to action
    /// "Choose Plan".
    pub fn new(title: &str, price: &str) -> (r: Self)
        ensures
            r.title@ == title@,
            r.price@ == price@,
            r.features@.len() == 0,
            r.cta_text@ == "Choose Plan"@,
    {
        PricingCard { title: title.to_string(), price: price.to_string(), features: Vec::new(), cta_text: "Choose Plan".to_string() }
    }

    /// Add a feature to the card.
    pub fn feature(self, feature: &str) -> (r: Self)
        ensures
            r.features@.len() == self.features@.len() + 1,
            r.features@.drop_last() == self.features@,
            r.features@.last()@ == feature@,
            r.title == self.title,
            r.price == self.price,
            r.cta_text == self.cta_text,
            r == (PricingCard { features: r.features, ..self }),
    {
        let mut features = self.features;
        features.push(feature.to_string());
        assert(features@.drop_last() =~= self.features@);
        PricingCard { features, ..self }
    }

    /// Set the CTA button text.
    pub fn cta_text(self, text: &str) -> (r: Self)
        ensures
            r.cta_text@ == text@,
            r.title == self.title,
            r.price == self.price,
            r.features == self.features,
            r == (PricingCard { cta_text: r.cta_text, ..self }),
    {
        PricingCard { cta_text: text.to_string(), ..self }
    }
}

/// PricingTable for displaying multiple pricing options.
pub struct PricingTable {
    pub cards: Vec<PricingCard>,
}

impl PricingTable {
    /// Create a new PricingTable.
    pub fn new() -> (r: Self)
        ensures
            r.cards@.len() == 0,
    {
        PricingTable { cards: Vec::new() }
    }

    /// Add a pricing card.
    pub fn card(self, card: PricingCard) -> (r: Self)
        ensures
            r.cards@ == self.cards@.push(card),
    {
        let mut cards = self.cards;
        cards.push(card);
        PricingTable { cards }
    }
}

impl Default for PricingTable {
    fn default() -> (r: Self)
        ensures
            r.cards@.len() == 0,
    {
        Self::new()
    }
}

} // verus!
