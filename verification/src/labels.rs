//! The texts that name elements, the selection and the window.
use vstd::prelude::*;
use crate::styles::{ShapeType, shape_name};
use crate::text::{decimal, append_decimal};
use crate::recent::file_name;

verus! {

/// How many characters of a text element the layers list shows.
pub const LAYER_TEXT_CHARS: usize = 20;

/// The first `n` characters of `s`, or all of `s` when it is shorter.
pub open spec fn first_chars(s: Seq<char>, n: nat) -> Seq<char> {
    if s.len() <= n {
        s
    } else {
        s.take(n as int)
    }
}

/// The layers list entry of the text element at `index`:
/// `<index + 1>. Text: "<first twenty characters>"`.
pub fn layer_label_text(index: usize, text: &str) -> (s: String)
    requires
        index < usize::MAX,
    ensures
        s@ == decimal(index as nat + 1) + ". Text: \""@ + first_chars(text@, LAYER_TEXT_CHARS as nat)
            + "\""@,
{
    let n = text.unicode_len();
    let cut = if n <= LAYER_TEXT_CHARS {
        n
    } else {
        LAYER_TEXT_CHARS
    };
    let shown = text.substring_char(0, cut);
    assert(text@.subrange(0, cut as int) =~= first_chars(text@, LAYER_TEXT_CHARS as nat));
    let mut s = String::new();
    append_decimal(&mut s, index + 1);
    s.append(". Text: \"");
    s.append(shown);
    s.append("\"");
    assert(s@ =~= decimal(index as nat + 1) + ". Text: \""@ + first_chars(
        text@,
        LAYER_TEXT_CHARS as nat,
    ) + "\""@);
    s
}

/// The layers list entry of the shape at `index`: `<index + 1>. <kind>`.
pub fn layer_label_shape(index: usize, shape: ShapeType) -> (s: String)
    requires
        index < usize::MAX,
    ensures
        s@ == decimal(index as nat + 1) + ". "@ + shape_name(shape),
{
    let mut s = String::new();
    append_decimal(&mut s, index + 1);
    s.append(". ");
    s.append(shape.name());
    assert(s@ =~= decimal(index as nat + 1) + ". "@ + shape_name(shape));
    s
}

/// The caption drawn on the shape at `index`: `<kind> #<index + 1>`.
pub fn shape_caption(index: usize, shape: ShapeType) -> (s: String)
    requires
        index < usize::MAX,
    ensures
        s@ == shape_name(shape) + " #"@ + decimal(index as nat + 1),
{
    let mut s = String::from_str(shape.name());
    s.append(" #");
    append_decimal(&mut s, index + 1);
    s
}

/// The caption drawn at the start of the line at `index`:
/// `Line #<index + 1>`.
pub fn line_caption(index: usize) -> (s: String)
    requires
        index < usize::MAX,
    ensures
        s@ == "Line #"@ + decimal(index as nat + 1),
{
    let mut s = String::from_str("Line #");
    append_decimal(&mut s, index + 1);
    s
}

/// The count shown under the "Add Elements" buttons:
/// `Total Elements: <count>`.
pub fn total_elements_label(count: usize) -> (s: String)
    ensures
        s@ == "Total Elements: "@ + decimal(count as nat),
{
    let mut s = String::from_str("Total Elements: ");
    append_decimal(&mut s, count);
    s
}

/// The three lines of the properties panel when nothing or something is
/// selected, and the color of the first.
pub struct SelectionLabels {
    pub status: String,
    pub detail1: String,
    pub detail2: String,
    pub status_color: [u8; 3],
}

/// The color of the status line with a selection.
pub open spec fn selected_color() -> [u8; 3] {
    [0x3b, 0x82, 0xf6]
}

/// The color of the status line without a selection.
pub open spec fn unselected_color() -> [u8; 3] {
    [0x83, 0x83, 0x8a]
}

/// The properties panel texts: `Selected Element #<index + 1>` with empty
/// details, or `No Selection` with a hint to click an element.
pub fn selection_labels(selected: Option<usize>) -> (l: SelectionLabels)
    requires
        selected matches Some(i) ==> i < usize::MAX,
    ensures
        match selected {
            Some(i) => {
                &&& l.status@ == "Selected Element #"@ + decimal(i as nat + 1)
                &&& l.detail1@ == Seq::<char>::empty()
                &&& l.detail2@ == Seq::<char>::empty()
                &&& l.status_color == selected_color()
            },
            None => {
                &&& l.status@ == "No Selection"@
                &&& l.detail1@ == "Click canvas elements"@
                &&& l.detail2@ == "to edit properties."@
                &&& l.status_color == unselected_color()
            },
        },
{
    match selected {
        Some(i) => {
            let mut status = String::from_str("Selected Element #");
            append_decimal(&mut status, i + 1);
            SelectionLabels {
                status,
                detail1: String::new(),
                detail2: String::new(),
                status_color: [0x3b, 0x82, 0xf6],
            }
        },
        None => SelectionLabels {
            status: String::from_str("No Selection"),
            detail1: String::from_str("Click canvas elements"),
            detail2: String::from_str("to edit properties."),
            status_color: [0x83, 0x83, 0x8a],
        },
    }
}

/// The window title: the application's name, the file name of the open
/// document (or "None"), and a note while there are unsaved changes.
pub open spec fn title_of(path: Option<Seq<char>>, unsaved: bool) -> Seq<char> {
    let name = match path {
        Some(p) => match file_name(p) {
            Some(n) => n,
            None => "None"@,
        },
        None => "None"@,
    };
    "Clear Layout Interface - "@ + name + if unsaved {
        " (Unsaved Changes)"@
    } else {
        Seq::<char>::empty()
    }
}

/// The window title for the document at `path` (none before the first
/// save), with a note while there are unsaved changes.
pub fn window_title(path: Option<&str>, unsaved: bool) -> (s: String)
    ensures
        s@ == title_of(
            match path {
                Some(p) => Some(p@),
                None => None,
            },
            unsaved,
        ),
{
    let mut s = String::from_str("Clear Layout Interface - ");
    let ghost start = s@;
    match path {
        Some(p) => match crate::recent::path_file_name(p) {
            Some(n) => s.append(n.as_str()),
            None => s.append("None"),
        },
        None => s.append("None"),
    }
    if unsaved {
        s.append(" (Unsaved Changes)");
    } else {
        assert(s@ + Seq::<char>::empty() =~= s@);
    }
    s
}

} // verus!
