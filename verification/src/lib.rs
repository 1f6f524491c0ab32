//! The logic of a page layout editor: the elements on the page and their
//! selection, the recent documents, the font families, page presets,
//! units, dropdown entries and the texts the sidebar shows, with their
//! contracts proved by Verus.
use vstd::prelude::*;

pub mod defaults;
pub mod text;
pub mod fonts;
pub mod recent;
pub mod choice;
pub mod canvas;
pub mod styles;
pub mod units;
pub mod presets;
pub mod labels;
pub mod controls;
pub mod panel;
pub mod display;

verus! {
} // verus!
