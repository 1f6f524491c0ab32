use layout_interface::canvas::Canvas;

fn page(items: &[&'static str]) -> Canvas<&'static str, (i32, i32)> {
    let mut c = Canvas::new();
    c.replace_elements(items.to_vec());
    c
}

#[test]
fn canvas_starts_empty() {
    let c: Canvas<u8, ()> = Canvas::new();
    assert_eq!(c.len(), 0);
    assert_eq!(c.selected(), None);
}

#[test]
fn canvas_add_selects_new_element() {
    let mut c = page(&["a", "b"]);
    c.add_element("c");
    assert_eq!(c.elements(), &vec!["a", "b", "c"]);
    assert_eq!(c.selected(), Some(2));
    assert!(c.is_selected(2));
    assert!(!c.is_selected(0));
}

#[test]
fn canvas_delete_removes_selected() {
    let mut c = page(&["a", "b", "c"]);
    let mut clicks = vec![false, true, false];
    assert!(c.select_clicked(&clicks));
    c.grab((1, 2));
    assert!(c.delete_selected());
    assert_eq!(c.elements(), &vec!["a", "c"]);
    assert_eq!(c.selected(), None);
    assert_eq!(c.dragging(), None);
    assert!(!c.delete_selected());
    assert_eq!(c.elements(), &vec!["a", "c"]);
    clicks.clear();
    assert!(!c.select_clicked(&clicks));
}

#[test]
fn canvas_add_then_delete_restores() {
    let mut c = page(&["a", "b"]);
    c.add_element("x");
    assert!(c.delete_selected());
    assert_eq!(c.elements(), &vec!["a", "b"]);
}

#[test]
fn canvas_press_selects_topmost_hit() {
    let mut c = page(&["bottom", "middle", "top"]);
    assert_eq!(c.press(&vec![true, true, false]), Some(1));
    assert_eq!(c.selected(), Some(1));
    c.grab((5, 6));
    assert_eq!(c.dragging(), Some((1, (5, 6))));
    assert_eq!(c.press(&vec![true, true, true, true]), Some(2));
    assert_eq!(c.dragging(), None);
    assert_eq!(c.press(&vec![false, false, false]), None);
    assert_eq!(c.selected(), None);
    c.grab((0, 0));
    assert_eq!(c.dragging(), None);
}

#[test]
fn canvas_release_keeps_selection() {
    let mut c = page(&["a"]);
    c.press(&vec![true]);
    c.grab((3, 4));
    c.release();
    assert_eq!(c.dragging(), None);
    assert_eq!(c.selected(), Some(0));
}

#[test]
fn canvas_layer_click_last_wins() {
    let mut c = page(&["a", "b", "c"]);
    assert!(c.select_clicked(&vec![true, false, true]));
    assert_eq!(c.selected(), Some(2));
    assert!(!c.select_clicked(&vec![false, false, false]));
    assert_eq!(c.selected(), Some(2));
    assert!(!c.select_clicked(&vec![false, false, false, true]));
}

#[test]
fn canvas_set_element_replaces_in_place() {
    let mut c = page(&["a", "b"]);
    c.press(&vec![false, true]);
    c.set_element(0, "z");
    assert_eq!(c.element(0), &"z");
    assert_eq!(c.selected(), Some(1));
}

#[test]
fn canvas_clear_and_replace_drop_selection() {
    let mut c = page(&["a", "b"]);
    c.add_element("c");
    c.clear();
    assert_eq!(c.len(), 0);
    assert_eq!(c.selected(), None);
    c.add_element("d");
    c.replace_elements(vec!["e", "f"]);
    assert_eq!(c.elements(), &vec!["e", "f"]);
    assert_eq!(c.selected(), None);
    c.press(&vec![true]);
    c.deselect();
    assert_eq!(c.selected(), None);
}
