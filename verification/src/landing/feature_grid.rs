//! A grid of feature cards.

use vstd::prelude::*;

verus! {

/// Feature item for the grid.
#[derive(Clone)]
pub struct FeatureItem {
    pub icon: String,
    pub title: String,
    pub description: String,
}

impl FeatureItem {
    /// Create a new FeatureItem.
    pub fn new(icon: &str, title: &str, description: &str) -> (r: Self)
        ensures
            r.icon@ == icon@,
            r.title@ == title@,
            r.description@ == description@,
    {
        FeatureItem { icon: icon.to_string(), title: title.to_string(), description: description.to_string() }
    }
}

/// FeatureGrid for displaying features in a grid layout.
pub struct FeatureGrid {
    pub items: Vec<FeatureItem>,
    pub columns: usize,
}

impl FeatureGrid {
    /// Create a new FeatureGrid with three columns.
    pub fn new() -> (r: Self)
        ensures
            r.items@.len() == 0,
            r.columns == 3,
    {
        FeatureGrid { items: Vec::new(), columns: 3 }
    }

    /// Add a feature item.
    pub fn item(self, item: FeatureItem) -> (r: Self)
        ensures
            r.items@ == self.items@.push(item),
            r.columns == self.columns,
    {
        let mut items = self.items;
        items.push(item);
        FeatureGrid { items, columns: self.columns }
    }

    /// Set the number of columns (at least one).
    pub fn columns(self, cols: usize) -> (r: Self)
        ensures
            r.items == self.items,
            r.columns == (if cols < 1 { 1 } else { cols }),
    {
        FeatureGrid { columns: if cols < 1 { 1 } else { cols }, ..self }
    }
}

impl Default for FeatureGrid {
    fn default() -> (r: Self)
        ensures
            r.items@.len() == 0,
            r.columns == 3,
    {
        Self::new()
    }
}

} // verus!
