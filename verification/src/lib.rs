//! Component logic of the CVKG component library: the state, selection,
//! navigation, localisation and workflow-execution rules behind the widgets,
//! with their contracts proved by Verus.

use vstd::prelude::*;

pub mod aria;
pub mod callback;
pub mod interactive;
pub mod item;
pub mod landing;
pub mod layer_system;
pub mod layout_components;
pub mod m3_components;
pub mod motion;
pub mod njord_theme;
pub mod mention_input;
pub mod native_select;
pub mod keyboard_nav;
pub mod lingua_tong;
pub mod multi_agent_orchestrator;
pub mod text;

verus! {

/// Font weight for text rendering.
#[derive(Debug, Clone, Copy, PartialEq, Eq)]
pub enum FontWeight {
    Regular,
    Bold,
    Italic,
}

/// Button visual variants.
#[derive(Debug, Clone, Copy, PartialEq, Eq)]
pub enum ButtonVariant {
    /// Primary action button.
    Default,
    /// Destructive/danger action button.
    Destructive,
    /// Outlined/ghost button.
    Secondary,
    /// Subtle background button (the "ghost" style).
    GhostStyle,
    /// Link-styled button.
    Link,
    /// Glass button: frosted background, no border, subtle backdrop.
    Glass,
    /// Tinted glass: glass base with accent color tint.
    TintedGlass,
    /// Capsule button: pill-shaped, solid fill, high contrast.
    Capsule,
}

/// Button size variants.
#[derive(Debug, Clone, Copy, PartialEq, Eq)]
pub enum ButtonSize {
    Small,
    Default,
    Large,
    Icon,
}

} // verus!
