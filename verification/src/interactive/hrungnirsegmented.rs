//! A horizontal group of mutually exclusive options with glass styling.

use vstd::prelude::*;

verus! {

/// The look of a segmented control.
pub enum SegmentedStyle {
    Glass,
    Capsule,
    Iconic,
    Labeled,
}

/// A horizontal group of mutually exclusive options.
pub struct HrungnirSegmented {
    pub segments: Vec<String>,
    pub selected: usize,
    pub style: SegmentedStyle,
}

impl HrungnirSegmented {
    pub fn new(segments: Vec<String>, selected: usize) -> (r: Self)
        ensures
            r.segments == segments,
            r.selected == selected,
            r.style is Glass,
    {
        HrungnirSegmented { segments, selected, style: SegmentedStyle::Glass }
    }

    pub fn style(self, style: SegmentedStyle) -> (r: Self)
        ensures
            r.segments == self.segments,
            r.selected == self.selected,
            r.style == style,
            r == (HrungnirSegmented { style: r.style, ..self }),
    {
        HrungnirSegmented { style, ..self }
    }

    /// Select a segment.
    pub fn on_select(&mut self, index: usize)
        ensures
            final(self).selected == index,
            final(self).segments == old(self).segments,
            final(self).style == old(self).style,
    {
        self.selected = index;
    }
}

} // verus!
