use layout_interface::labels::{
    layer_label_shape, layer_label_text, line_caption, selection_labels, shape_caption,
    total_elements_label, window_title,
};
use layout_interface::styles::ShapeType;

#[test]
fn layer_label_for_text_counts_from_one() {
    assert_eq!(layer_label_text(0, "New Text Block"), "1. Text: \"New Text Block\"");
    assert_eq!(layer_label_text(9, ""), "10. Text: \"\"");
}

#[test]
fn layer_label_for_text_shows_twenty_characters() {
    assert_eq!(
        layer_label_text(2, "abcdefghijklmnopqrstuvwxyz"),
        "3. Text: \"abcdefghijklmnopqrst\""
    );
    let accented = "éééééééééééééééééééééééé";
    let shown: String = accented.chars().take(20).collect();
    assert_eq!(layer_label_text(0, accented), format!("1. Text: \"{}\"", shown));
}

#[test]
fn layer_label_for_shapes() {
    assert_eq!(layer_label_shape(0, ShapeType::Rectangle), "1. Rectangle");
    assert_eq!(layer_label_shape(4, ShapeType::Banner), "5. Banner");
}

#[test]
fn canvas_captions() {
    assert_eq!(shape_caption(1, ShapeType::Rectangle), "Rectangle #2");
    assert_eq!(shape_caption(11, ShapeType::Banner), "Banner #12");
    assert_eq!(line_caption(0), "Line #1");
    assert_eq!(line_caption(99), "Line #100");
}

#[test]
fn total_elements_counts() {
    assert_eq!(total_elements_label(0), "Total Elements: 0");
    assert_eq!(total_elements_label(23), "Total Elements: 23");
}

#[test]
fn selection_panel_texts() {
    let l = selection_labels(Some(3));
    assert_eq!(l.status, "Selected Element #4");
    assert_eq!(l.detail1, "");
    assert_eq!(l.detail2, "");
    assert_eq!(l.status_color, [0x3b, 0x82, 0xf6]);
    let l = selection_labels(None);
    assert_eq!(l.status, "No Selection");
    assert_eq!(l.detail1, "Click canvas elements");
    assert_eq!(l.detail2, "to edit properties.");
    assert_eq!(l.status_color, [0x83, 0x83, 0x8a]);
}

#[test]
fn window_titles() {
    assert_eq!(window_title(None, false), "Clear Layout Interface - None");
    assert_eq!(window_title(None, true), "Clear Layout Interface - None (Unsaved Changes)");
    assert_eq!(
        window_title(Some("/home/u/poster.json"), false),
        "Clear Layout Interface - poster.json"
    );
    assert_eq!(
        window_title(Some("/home/u/poster.json"), true),
        "Clear Layout Interface - poster.json (Unsaved Changes)"
    );
    assert_eq!(window_title(Some("/"), false), "Clear Layout Interface - None");
}
