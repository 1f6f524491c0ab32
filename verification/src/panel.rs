//! What the "Element" tab of the sidebar shows: which set of fields, and
//! what the geometry fields are called for each kind of element.
use vstd::prelude::*;

verus! {

/// The kinds of element on a page.
#[derive(Debug, Clone, Copy, PartialEq, Eq, Structural)]
pub enum ElementKind {
    Text,
    Shape,
    Line,
}

/// The sets of fields the "Element" tab can show.
#[derive(Debug, Clone, Copy, PartialEq, Eq, Structural)]
pub enum PropertiesPanel {
    /// Font, size and color of the word processor's text.
    WordProcessor,
    /// Geometry, alignment, text, font, size and color of a text element.
    TextElement,
    /// Geometry, alignment, thickness, line end and color of a line.
    LineElement,
    /// Geometry, alignment and fill color of a shape.
    ShapeElement,
    /// A hint that nothing is selected.
    NoSelection,
}

/// The panel for the editor's mode and the kind of the selected element:
/// the word processor's fields in that mode, otherwise the selected
/// element's, otherwise the hint.
pub open spec fn panel_for(word_processor: bool, selected: Option<ElementKind>) -> PropertiesPanel {
    if word_processor {
        PropertiesPanel::WordProcessor
    } else {
        match selected {
            Some(ElementKind::Text) => PropertiesPanel::TextElement,
            Some(ElementKind::Line) => PropertiesPanel::LineElement,
            Some(ElementKind::Shape) => PropertiesPanel::ShapeElement,
            None => PropertiesPanel::NoSelection,
        }
    }
}

/// The panel the "Element" tab shows.
pub fn properties_panel(word_processor: bool, selected: Option<ElementKind>) -> (p: PropertiesPanel)
    ensures
        p == panel_for(word_processor, selected),
{
    if word_processor {
        PropertiesPanel::WordProcessor
    } else {
        match selected {
            Some(ElementKind::Text) => PropertiesPanel::TextElement,
            Some(ElementKind::Line) => PropertiesPanel::LineElement,
            Some(ElementKind::Shape) => PropertiesPanel::ShapeElement,
            None => PropertiesPanel::NoSelection,
        }
    }
}

/// The names of the four geometry fields and, where the kind sets them,
/// of the size field and the text shown in the text field.
pub struct GeometryCaptions {
    pub x: String,
    pub y: String,
    pub w: String,
    pub h: String,
    pub size: Option<String>,
    pub text_placeholder: Option<String>,
}

/// The field names for an element of kind `kind`: position and size for
/// boxes, start and end points for lines.
pub fn geometry_captions(kind: ElementKind) -> (c: GeometryCaptions)
    ensures
        match kind {
            ElementKind::Text => {
                &&& c.x@ == "X Position"@ && c.y@ == "Y Position"@
                &&& c.w@ == "Width"@ && c.h@ == "Height"@
                &&& c.size matches Some(s) && s@ == "Text Size"@
                &&& c.text_placeholder is None
            },
            ElementKind::Shape => {
                &&& c.x@ == "X Position"@ && c.y@ == "Y Position"@
                &&& c.w@ == "Width"@ && c.h@ == "Height"@
                &&& c.size is None
                &&& c.text_placeholder matches Some(t) && t@ == "Shape Mode"@
            },
            ElementKind::Line => {
                &&& c.x@ == "Start X"@ && c.y@ == "Start Y"@
                &&& c.w@ == "End X"@ && c.h@ == "End Y"@
                &&& c.size matches Some(s) && s@ == "Thickness"@
                &&& c.text_placeholder matches Some(t) && t@ == "Line Mode"@
            },
        },
{
    match kind {
        ElementKind::Text => GeometryCaptions {
            x: String::from_str("X Position"),
            y: String::from_str("Y Position"),
            w: String::from_str("Width"),
            h: String::from_str("Height"),
            size: Some(String::from_str("Text Size")),
            text_placeholder: None,
        },
        ElementKind::Shape => GeometryCaptions {
            x: String::from_str("X Position"),
            y: String::from_str("Y Position"),
            w: String::from_str("Width"),
            h: String::from_str("Height"),
            size: None,
            text_placeholder: Some(String::from_str("Shape Mode")),
        },
        ElementKind::Line => GeometryCaptions {
            x: String::from_str("Start X"),
            y: String::from_str("Start Y"),
            w: String::from_str("End X"),
            h: String::from_str("End Y"),
            size: Some(String::from_str("Thickness")),
            text_placeholder: Some(String::from_str("Line Mode")),
        },
    }
}

} // verus!
