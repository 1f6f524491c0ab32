use layout_interface::controls::{
    add_page_message, delete_requested, file_page_message, save_requested, sync_grid_enabled,
    AppMessage,
};

#[test]
fn file_page_last_button_wins() {
    assert_eq!(file_page_message(false, false, false, false, false), None);
    assert_eq!(file_page_message(true, false, false, false, false), Some(AppMessage::NewDocument));
    assert_eq!(file_page_message(false, true, false, false, false), Some(AppMessage::Open));
    assert_eq!(file_page_message(false, false, true, false, false), Some(AppMessage::Save));
    assert_eq!(file_page_message(false, false, false, true, false), Some(AppMessage::SaveAs));
    assert_eq!(file_page_message(false, false, false, false, true), Some(AppMessage::Exit));
    assert_eq!(file_page_message(true, true, true, false, false), Some(AppMessage::Save));
    assert_eq!(file_page_message(true, false, false, true, true), Some(AppMessage::Exit));
}

#[test]
fn add_page_last_button_wins() {
    assert_eq!(add_page_message(false, false, false, false), None);
    assert_eq!(add_page_message(true, false, false, false), Some(AppMessage::AddText));
    assert_eq!(add_page_message(false, true, false, false), Some(AppMessage::AddRectangle));
    assert_eq!(add_page_message(false, false, true, false), Some(AppMessage::AddBanner));
    assert_eq!(add_page_message(false, false, false, true), Some(AppMessage::AddVector));
    assert_eq!(add_page_message(true, true, false, false), Some(AppMessage::AddRectangle));
}

#[test]
fn save_key_by_shortcut() {
    assert!(save_requested(true, true, "ctrl+shift+s", false, None));
    assert!(!save_requested(false, true, "ctrl+s", true, Some("\u{13}")));
    assert!(!save_requested(true, false, "ctrl+s", true, Some("s")));
}

#[test]
fn save_key_by_control_character() {
    assert!(save_requested(true, false, "ctrl+s", true, Some("\u{13}")));
    assert!(!save_requested(true, false, "ctrl+s", false, Some("\u{13}")));
    assert!(!save_requested(true, false, "ctrl+w", true, Some("\u{13}")));
    assert!(!save_requested(true, false, "ctrl+s", true, None));
}

#[test]
fn delete_key_only_when_unhandled() {
    assert!(delete_requested(false, false, true, true));
    assert!(!delete_requested(true, false, true, true));
    assert!(!delete_requested(false, true, true, true));
    assert!(!delete_requested(false, false, false, true));
    assert!(!delete_requested(false, false, true, false));
}

#[test]
fn grid_switches() {
    assert!(!sync_grid_enabled(true, false, true));
    assert!(!sync_grid_enabled(true, true, false));
    assert!(sync_grid_enabled(false, true, false));
    assert!(sync_grid_enabled(false, false, true));
    assert!(sync_grid_enabled(true, true, true));
    assert!(!sync_grid_enabled(false, false, false));
    for e in [false, true] {
        for g in [false, true] {
            let r = sync_grid_enabled(e, g, g);
            assert_eq!(r, g);
            assert_eq!(sync_grid_enabled(r, r, r), r);
        }
    }
}
