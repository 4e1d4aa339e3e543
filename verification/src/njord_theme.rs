//! Theme design tokens.

use vstd::prelude::*;

verus! {

/// Design token for theme values.
#[derive(Debug, Clone)]
pub struct DesignToken {
    pub name: String,
    pub value: String,
}

} // verus!
