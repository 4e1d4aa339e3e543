//! Layout component settings: loaders and the floating navigation bar (their
//! sizes, floats, are the renderer's).

use vstd::prelude::*;

verus! {

/// Loader variant.
#[derive(Debug, Clone, Copy, PartialEq, Eq)]
pub enum LoaderVariant {
    Spinner,
    Dots,
    Pulse,
    Bar,
}

/// A floating navigation bar.
#[derive(Debug, Clone)]
pub struct FloatingNavbar {
    /// Navigation item labels.
    pub items: Vec<String>,
    /// Selected index.
    pub selected: usize,
    /// Whether to show the glass backdrop.
    pub glass: bool,
}

/// The labels of a list of strings.
pub open spec fn labels_of(v: Seq<String>) -> Seq<Seq<char>> {
    v.map_values(|s: String| s@)
}

impl FloatingNavbar {
    /// A bar with Home, Explore and Settings, the first selected, over glass.
    pub fn new() -> (r: Self)
        ensures
            labels_of(r.items@) == seq!["Home"@, "Explore"@, "Settings"@],
            r.selected == 0,
            r.glass,
    {
        let mut items: Vec<String> = Vec::new();
        items.push("Home".to_string());
        items.push("Explore".to_string());
        items.push("Settings".to_string());
        assert(labels_of(items@) =~= seq!["Home"@, "Explore"@, "Settings"@]);
        FloatingNavbar { items, selected: 0, glass: true }
    }

    /// Set the nav items.
    pub fn items(self, items: Vec<String>) -> (r: Self)
        ensures
            r == (FloatingNavbar { items, ..self }),
    {
        FloatingNavbar { items, ..self }
    }

    /// Set the selected index.
    pub fn selected(self, idx: usize) -> (r: Self)
        ensures
            r == (FloatingNavbar { selected: idx, ..self }),
    {
        FloatingNavbar { selected: idx, ..self }
    }

    /// Enable or disable the glass backdrop.
    pub fn glass(self, g: bool) -> (r: Self)
        ensures
            r == (FloatingNavbar { glass: g, ..self }),
    {
        FloatingNavbar { glass: g, ..self }
    }
}

} // verus!
