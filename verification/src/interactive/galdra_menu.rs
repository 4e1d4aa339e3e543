//! Context menu entries.

use vstd::prelude::*;
use crate::callback::Action;

verus! {

/// An entry of a context menu: an action, a submenu or a separator.
pub enum GaldraMenuItem {
    Action { label: String, shortcut: Option<String>, enabled: bool, action: Action },
    Submenu { label: String, items: Vec<GaldraMenuItem> },
    Separator,
}

} // verus!
