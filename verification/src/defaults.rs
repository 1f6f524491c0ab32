//! Field defaults that a layout document falls back to when a saved file
//! omits them.
use vstd::prelude::*;

verus! {

/// Text blocks wrap their content unless a document says otherwise.
pub fn default_multiline() -> (r: bool)
    ensures
        r,
{
    true
}

/// The snapping grid is shown unless a document says otherwise.
pub fn default_grid_enabled() -> (r: bool)
    ensures
        r,
{
    true
}

/// Grid spacing is measured in pixels (the first unit) unless a document
/// says otherwise.
pub fn default_grid_units() -> (r: usize)
    ensures
        r == 0,
{
    0
}

/// Rulers are hidden unless a document says otherwise.
pub fn default_rulers_enabled() -> (r: bool)
    ensures
        !r,
{
    false
}

/// Rulers count in pixels (the first unit) unless a document says
/// otherwise.
pub fn default_ruler_units() -> (r: usize)
    ensures
        r == 0,
{
    0
}

} // verus!
