//! The page size presets offered by the "Page Size Preset" dropdown. The
//! last entry, "Custom", stands for any size the sliders set.
use vstd::prelude::*;

verus! {

/// How many entries the preset dropdown lists.
pub const PRESET_COUNT: usize = 13;

/// The entry that stands for a size of the user's own.
pub const CUSTOM_PRESET: usize = 12;

/// The name of preset `i`.
pub open spec fn preset_name_of(i: usize) -> Seq<char> {
    if i == 0 {
        "Letter (8.5\" x 11\")"@
    } else if i == 1 {
        "Legal (8.5\" x 14\")"@
    } else if i == 2 {
        "Tabloid (11\" x 17\")"@
    } else if i == 3 {
        "Executive (7.25\" x 10.5\")"@
    } else if i == 4 {
        "A3 (297 x 420 mm)"@
    } else if i == 5 {
        "A4 (210 x 297 mm)"@
    } else if i == 6 {
        "A5 (148 x 210 mm)"@
    } else if i == 7 {
        "A6 (105 x 148 mm)"@
    } else if i == 8 {
        "B5 (JIS) (182 x 257 mm)"@
    } else if i == 9 {
        "Business Card (3.5\" x 2\")"@
    } else if i == 10 {
        "Presentation (16:9)"@
    } else if i == 11 {
        "Square Poster (12\" x 12\")"@
    } else {
        "Custom"@
    }
}

/// The page width and height of preset `i`, in pixels.
pub open spec fn preset_size_of(i: usize) -> (u32, u32) {
    if i == 0 {
        (510u32, 660u32)
    } else if i == 1 {
        (510u32, 840u32)
    } else if i == 2 {
        (660u32, 1020u32)
    } else if i == 3 {
        (435u32, 630u32)
    } else if i == 4 {
        (701u32, 992u32)
    } else if i == 5 {
        (496u32, 701u32)
    } else if i == 6 {
        (350u32, 496u32)
    } else if i == 7 {
        (248u32, 350u32)
    } else if i == 8 {
        (430u32, 607u32)
    } else if i == 9 {
        (210u32, 120u32)
    } else if i == 10 {
        (800u32, 450u32)
    } else if i == 11 {
        (720u32, 720u32)
    } else {
        (510u32, 660u32)
    }
}

/// The name that the dropdown shows for preset `i`.
pub fn preset_name(i: usize) -> (s: &'static str)
    requires
        i < PRESET_COUNT,
    ensures
        s@ == preset_name_of(i),
{
    if i == 0 {
        "Letter (8.5\" x 11\")"
    } else if i == 1 {
        "Legal (8.5\" x 14\")"
    } else if i == 2 {
        "Tabloid (11\" x 17\")"
    } else if i == 3 {
        "Executive (7.25\" x 10.5\")"
    } else if i == 4 {
        "A3 (297 x 420 mm)"
    } else if i == 5 {
        "A4 (210 x 297 mm)"
    } else if i == 6 {
        "A5 (148 x 210 mm)"
    } else if i == 7 {
        "A6 (105 x 148 mm)"
    } else if i == 8 {
        "B5 (JIS) (182 x 257 mm)"
    } else if i == 9 {
        "Business Card (3.5\" x 2\")"
    } else if i == 10 {
        "Presentation (16:9)"
    } else if i == 11 {
        "Square Poster (12\" x 12\")"
    } else {
        "Custom"
    }
}

/// The page width and height of preset `i`, in pixels.
pub fn preset_size(i: usize) -> (wh: (u32, u32))
    requires
        i < PRESET_COUNT,
    ensures
        wh == preset_size_of(i),
{
    if i == 0 {
        (510u32, 660u32)
    } else if i == 1 {
        (510u32, 840u32)
    } else if i == 2 {
        (660u32, 1020u32)
    } else if i == 3 {
        (435u32, 630u32)
    } else if i == 4 {
        (701u32, 992u32)
    } else if i == 5 {
        (496u32, 701u32)
    } else if i == 6 {
        (350u32, 496u32)
    } else if i == 7 {
        (248u32, 350u32)
    } else if i == 8 {
        (430u32, 607u32)
    } else if i == 9 {
        (210u32, 120u32)
    } else if i == 10 {
        (800u32, 450u32)
    } else if i == 11 {
        (720u32, 720u32)
    } else {
        (510u32, 660u32)
    }
}

/// The names of all presets, in dropdown order.
pub fn preset_names() -> (names: Vec<String>)
    ensures
        names@.len() == PRESET_COUNT,
        forall|i: int| 0 <= i < PRESET_COUNT ==> #[trigger] names@[i]@ == preset_name_of(i as usize),
{
    let mut names: Vec<String> = Vec::new();
    let mut i: usize = 0;
    while i < PRESET_COUNT
        invariant
            i <= PRESET_COUNT,
            names@.len() == i,
            forall|k: int| 0 <= k < i ==> #[trigger] names@[k]@ == preset_name_of(k as usize),
        decreases PRESET_COUNT - i,
    {
        names.push(String::from_str(preset_name(i)));
        i = i + 1;
    }
    names
}

/// The size that choosing entry `sel` in the dropdown gives the page:
/// that of the preset, or none for "Custom" and entries past the list,
/// which leave the page as it is.
pub fn preset_to_apply(sel: usize) -> (wh: Option<(u32, u32)>)
    ensures
        wh == if sel < CUSTOM_PRESET {
            Some(preset_size_of(sel))
        } else {
            None
        },
{
    if sel < CUSTOM_PRESET {
        Some(preset_size(sel))
    } else {
        None
    }
}

/// The entry the dropdown shows for a page of a given size, where
/// `matches[i]` tells whether the page has the size of preset `i`: the
/// first preset that matches, or "Custom" when none before it does.
pub fn matching_preset(matches: &Vec<bool>) -> (i: usize)
    ensures
        i < PRESET_COUNT,
        forall|j: int| 0 <= j < i && j < matches@.len() ==> !#[trigger] matches@[j],
        i < CUSTOM_PRESET ==> i < matches@.len() && matches@[i as int],
{
    let mut k: usize = 0;
    while k < CUSTOM_PRESET
        invariant
            k <= CUSTOM_PRESET,
            forall|j: int| 0 <= j < k && j < matches@.len() ==> !#[trigger] matches@[j],
        decreases CUSTOM_PRESET - k,
    {
        if k < matches.len() && matches[k] {
            return k;
        }
        k = k + 1;
    }
    CUSTOM_PRESET
}

/// The named presets (all but "Custom") have pairwise different sizes, so
/// a page given a preset's size is shown under that preset again.
pub proof fn lemma_preset_sizes_distinct(i: usize, j: usize)
    requires
        i < CUSTOM_PRESET,
        j < CUSTOM_PRESET,
        i != j,
    ensures
        preset_size_of(i) != preset_size_of(j),
{
}

/// Applying preset `i` and then asking which preset the page's size
/// matches gives `i` back, for every named preset.
pub proof fn lemma_preset_round_trip(i: usize, matches: Seq<bool>, shown: usize)
    requires
        i < CUSTOM_PRESET,
        matches.len() == PRESET_COUNT,
        forall|k: int| 0 <= k < PRESET_COUNT ==> #[trigger] matches[k] == (preset_size_of(k as usize) == preset_size_of(i)),
        shown < PRESET_COUNT,
        forall|j: int| 0 <= j < shown && j < matches.len() ==> !#[trigger] matches[j],
        shown < CUSTOM_PRESET ==> shown < matches.len() && matches[shown as int],
    ensures
        shown == i,
{
    assert(matches[i as int]);
    if shown < CUSTOM_PRESET && shown != i {
        lemma_preset_sizes_distinct(shown, i);
    }
}

/// The paper a preset's name states: a width and height in hundredths of
/// an inch, or in millimetres, or only an aspect ratio; "Custom" states
/// none.
pub enum PaperSize {
    Inches { w100: u32, h100: u32 },
    Millimetres { w: u32, h: u32 },
    AspectRatio { w: u32, h: u32 },
    Free,
}

/// The paper named by preset `i`, as read off its name: "Legal (8.5\" x
/// 14\")" is 8.5 by 14 inches, "A4 (210 x 297 mm)" is 210 by 297 mm,
/// "Presentation (16:9)" is 16 by 9.
pub open spec fn preset_paper(i: usize) -> PaperSize {
    if i == 0 {
        PaperSize::Inches { w100: 850, h100: 1100 }
    } else if i == 1 {
        PaperSize::Inches { w100: 850, h100: 1400 }
    } else if i == 2 {
        PaperSize::Inches { w100: 1100, h100: 1700 }
    } else if i == 3 {
        PaperSize::Inches { w100: 725, h100: 1050 }
    } else if i == 4 {
        PaperSize::Millimetres { w: 297, h: 420 }
    } else if i == 5 {
        PaperSize::Millimetres { w: 210, h: 297 }
    } else if i == 6 {
        PaperSize::Millimetres { w: 148, h: 210 }
    } else if i == 7 {
        PaperSize::Millimetres { w: 105, h: 148 }
    } else if i == 8 {
        PaperSize::Millimetres { w: 182, h: 257 }
    } else if i == 9 {
        PaperSize::Inches { w100: 350, h100: 200 }
    } else if i == 10 {
        PaperSize::AspectRatio { w: 16, h: 9 }
    } else if i == 11 {
        PaperSize::Inches { w100: 1200, h100: 1200 }
    } else {
        PaperSize::Free
    }
}

/// The pages are drawn at 60 pixels to the inch.
pub open spec fn pixels_per_inch() -> int {
    60
}

/// A page of `w` by `h` pixels has the paper's size at 60 pixels to the
/// inch: exactly for inch sizes, to within a pixel for millimetre sizes
/// (25.4 mm to the inch), and in the right proportion for a ratio.
pub open spec fn size_fits_paper(w: int, h: int, paper: PaperSize) -> bool {
    match paper {
        PaperSize::Inches { w100, h100 } => {
            &&& w * 100 == w100 * pixels_per_inch()
            &&& h * 100 == h100 * pixels_per_inch()
        },
        PaperSize::Millimetres { w: mw, h: mh } => {
            &&& -254 < w * 254 - mw * pixels_per_inch() * 10 < 254
            &&& -254 < h * 254 - mh * pixels_per_inch() * 10 < 254
        },
        PaperSize::AspectRatio { w: rw, h: rh } => w * rh == h * rw && w > 0,
        PaperSize::Free => true,
    }
}

/// Every named preset gives the page the paper size its name states, and
/// only "Custom" names none.
pub proof fn lemma_preset_sizes_match_names(i: usize)
    requires
        i < PRESET_COUNT,
    ensures
        size_fits_paper(preset_size_of(i).0 as int, preset_size_of(i).1 as int, preset_paper(i)),
        preset_paper(i) is Free <==> i == CUSTOM_PRESET,
{
}

} // verus!
