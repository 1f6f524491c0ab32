use layout_interface::panel::{geometry_captions, properties_panel, ElementKind, PropertiesPanel};

#[test]
fn word_processor_panel_wins() {
    assert_eq!(properties_panel(true, Some(ElementKind::Line)), PropertiesPanel::WordProcessor);
    assert_eq!(properties_panel(true, None), PropertiesPanel::WordProcessor);
}

#[test]
fn panel_follows_selected_kind() {
    assert_eq!(properties_panel(false, Some(ElementKind::Text)), PropertiesPanel::TextElement);
    assert_eq!(properties_panel(false, Some(ElementKind::Shape)), PropertiesPanel::ShapeElement);
    assert_eq!(properties_panel(false, Some(ElementKind::Line)), PropertiesPanel::LineElement);
    assert_eq!(properties_panel(false, None), PropertiesPanel::NoSelection);
}

#[test]
fn captions_for_boxes_and_lines() {
    let t = geometry_captions(ElementKind::Text);
    assert_eq!((t.x.as_str(), t.y.as_str(), t.w.as_str(), t.h.as_str()), ("X Position", "Y Position", "Width", "Height"));
    assert_eq!(t.size.as_deref(), Some("Text Size"));
    assert_eq!(t.text_placeholder, None);

    let s = geometry_captions(ElementKind::Shape);
    assert_eq!(s.w, "Width");
    assert_eq!(s.size, None);
    assert_eq!(s.text_placeholder.as_deref(), Some("Shape Mode"));

    let l = geometry_captions(ElementKind::Line);
    assert_eq!((l.x.as_str(), l.y.as_str(), l.w.as_str(), l.h.as_str()), ("Start X", "Start Y", "End X", "End Y"));
    assert_eq!(l.size.as_deref(), Some("Thickness"));
    assert_eq!(l.text_placeholder.as_deref(), Some("Line Mode"));
}
