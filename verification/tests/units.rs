use layout_interface::units::{grid_snap_label, snap_step, unit_labels, unit_suffix};

#[test]
fn unit_abbreviations() {
    assert_eq!(unit_suffix(0), "px");
    assert_eq!(unit_suffix(1), "in");
    assert_eq!(unit_suffix(2), "cm");
    assert_eq!(unit_suffix(3), "mm");
    assert_eq!(unit_suffix(9), "px");
    assert_eq!(snap_step(0), "20px");
    assert_eq!(snap_step(1), "0.25in");
    assert_eq!(snap_step(2), "0.5cm");
    assert_eq!(snap_step(3), "5mm");
    assert_eq!(snap_step(4), "20px");
}

#[test]
fn grid_snap_labels() {
    assert_eq!(grid_snap_label(true, 0), "Grid Snapping: ON (20px)");
    assert_eq!(grid_snap_label(true, 2), "Grid Snapping: ON (0.5cm)");
    assert_eq!(grid_snap_label(false, 3), "Grid Snapping: OFF");
}

#[test]
fn slider_captions() {
    let l = unit_labels(1);
    assert_eq!(l.margin_x, "Margin Width (X) (in)");
    assert_eq!(l.margin_y, "Margin Height (Y) (in)");
    assert_eq!(l.page_x, "Page Width (X) (in)");
    assert_eq!(l.page_y, "Page Height (Y) (in)");
    assert_eq!(unit_labels(0).page_y, "Page Height (Y) (px)");
}
