//! Measurement units chosen in the sidebar's unit dropdowns ("Pixels",
//! "Inches", "Centimeters", "Millimeters") and the texts that name them.
use vstd::prelude::*;

verus! {

/// The abbreviation of unit `units`; an entry past the list reads as
/// pixels.
pub open spec fn unit_suffix_of(units: usize) -> Seq<char> {
    if units == 1 {
        "in"@
    } else if units == 2 {
        "cm"@
    } else if units == 3 {
        "mm"@
    } else {
        "px"@
    }
}

/// The snapping step of the grid in unit `units`; an entry past the list
/// reads as pixels.
pub open spec fn snap_step_of(units: usize) -> Seq<char> {
    if units == 1 {
        "0.25in"@
    } else if units == 2 {
        "0.5cm"@
    } else if units == 3 {
        "5mm"@
    } else {
        "20px"@
    }
}

/// The abbreviation shown after values in unit `units`.
pub fn unit_suffix(units: usize) -> (s: &'static str)
    ensures
        s@ == unit_suffix_of(units),
{
    if units == 1 {
        "in"
    } else if units == 2 {
        "cm"
    } else if units == 3 {
        "mm"
    } else {
        "px"
    }
}

/// The grid's snapping step as shown for unit `units`.
pub fn snap_step(units: usize) -> (s: &'static str)
    ensures
        s@ == snap_step_of(units),
{
    if units == 1 {
        "0.25in"
    } else if units == 2 {
        "0.5cm"
    } else if units == 3 {
        "5mm"
    } else {
        "20px"
    }
}

/// The text of the grid snapping switch: "Grid Snapping: ON (<step>)" or
/// "Grid Snapping: OFF".
pub fn grid_snap_label(enabled: bool, units: usize) -> (s: String)
    ensures
        s@ == if enabled {
            "Grid Snapping: ON ("@ + snap_step_of(units) + ")"@
        } else {
            "Grid Snapping: OFF"@
        },
{
    if enabled {
        let mut s = String::from_str("Grid Snapping: ON (");
        s.append(snap_step(units));
        s.append(")");
        s
    } else {
        String::from_str("Grid Snapping: OFF")
    }
}

/// The captions of the page and margin sliders, which name the unit the
/// page is measured in.
pub struct UnitLabels {
    pub margin_x: String,
    pub margin_y: String,
    pub page_x: String,
    pub page_y: String,
}

/// `base`, then the unit abbreviation in parentheses.
pub open spec fn with_unit(base: Seq<char>, units: usize) -> Seq<char> {
    base + " ("@ + unit_suffix_of(units) + ")"@
}

fn caption(base: &str, units: usize) -> (s: String)
    ensures
        s@ == with_unit(base@, units),
{
    let mut s = String::from_str(base);
    s.append(" (");
    s.append(unit_suffix(units));
    s.append(")");
    s
}

/// The slider captions for unit `units`, as "Margin Width (X) (in)" and
/// the like.
pub fn unit_labels(units: usize) -> (l: UnitLabels)
    ensures
        l.margin_x@ == with_unit("Margin Width (X)"@, units),
        l.margin_y@ == with_unit("Margin Height (Y)"@, units),
        l.page_x@ == with_unit("Page Width (X)"@, units),
        l.page_y@ == with_unit("Page Height (Y)"@, units),
{
    UnitLabels {
        margin_x: caption("Margin Width (X)", units),
        margin_y: caption("Margin Height (Y)", units),
        page_x: caption("Page Width (X)", units),
        page_y: caption("Page Height (Y)", units),
    }
}

} // verus!
