use layout_interface::defaults::{
    default_grid_enabled, default_grid_units, default_multiline, default_ruler_units,
    default_rulers_enabled,
};
use layout_interface::styles::{
    default_line_cap, page_align_from_index, page_align_index, LineCap, PageAlign, ShapeType,
    TextAlignH, TextAlignV,
};

#[test]
fn document_defaults() {
    assert!(default_multiline());
    assert!(default_grid_enabled());
    assert_eq!(default_grid_units(), 0);
    assert!(!default_rulers_enabled());
    assert_eq!(default_ruler_units(), 0);
    assert_eq!(default_line_cap(), LineCap::Arrow);
    assert_eq!(TextAlignH::default(), TextAlignH::Left);
    assert_eq!(TextAlignV::default(), TextAlignV::Top);
}

#[test]
fn text_alignment_dropdowns_round_trip() {
    for a in [TextAlignH::Left, TextAlignH::Center, TextAlignH::Right] {
        assert_eq!(TextAlignH::from_index(a.to_index()), a);
    }
    for a in [TextAlignV::Top, TextAlignV::Middle, TextAlignV::Bottom] {
        assert_eq!(TextAlignV::from_index(a.to_index()), a);
    }
    for i in 0..3 {
        assert_eq!(TextAlignH::from_index(i).to_index(), i);
        assert_eq!(TextAlignV::from_index(i).to_index(), i);
        assert_eq!(LineCap::from_index(i).to_index(), i);
    }
    assert_eq!(TextAlignH::Center.to_index(), 1);
    assert_eq!(TextAlignV::Bottom.to_index(), 2);
    assert_eq!(TextAlignH::from_index(7), TextAlignH::Left);
    assert_eq!(TextAlignV::from_index(3), TextAlignV::Top);
}

#[test]
fn line_cap_dropdown() {
    assert_eq!(LineCap::from_index(0), LineCap::Arrow);
    assert_eq!(LineCap::from_index(1), LineCap::Round);
    assert_eq!(LineCap::from_index(2), LineCap::Flat);
    assert_eq!(LineCap::from_index(5), LineCap::Arrow);
    assert_eq!(LineCap::Flat.to_index(), 2);
}

#[test]
fn shape_names() {
    assert_eq!(ShapeType::Rectangle.name(), "Rectangle");
    assert_eq!(ShapeType::Banner.name(), "Banner");
}

#[test]
fn page_alignment_dropdowns() {
    assert_eq!(page_align_from_index(0), None);
    assert_eq!(page_align_from_index(1), Some(PageAlign::Start));
    assert_eq!(page_align_from_index(2), Some(PageAlign::Center));
    assert_eq!(page_align_from_index(3), Some(PageAlign::End));
    assert_eq!(page_align_from_index(4), None);
    assert_eq!(page_align_index(true, true, false), 1);
    assert_eq!(page_align_index(false, true, true), 2);
    assert_eq!(page_align_index(false, false, true), 3);
    assert_eq!(page_align_index(false, false, false), 0);
}
