use layout_interface::display::{edid_width_cm, first_mode_width, is_connected};

fn mode_width_by_std(modes: &str) -> Option<String> {
    modes.lines().next().and_then(|l| l.split('x').next()).map(|s| s.to_string())
}

#[test]
fn connected_status() {
    assert!(is_connected("connected\n"));
    assert!(is_connected("  connected "));
    assert!(!is_connected("disconnected\n"));
    assert!(!is_connected("connected2"));
    assert!(!is_connected(""));
}

#[test]
fn edid_width_needs_length_and_value() {
    let mut edid = vec![0u8; 23];
    assert_eq!(edid_width_cm(&edid), None);
    edid[21] = 34;
    assert_eq!(edid_width_cm(&edid), Some(34));
    assert_eq!(edid_width_cm(&edid[..22]), None);
}

#[test]
fn first_mode_width_of_mode_list() {
    assert_eq!(first_mode_width("3840x2400\n1920x1200\n"), Some("3840".to_string()));
    assert_eq!(first_mode_width("1280x800"), Some("1280".to_string()));
    assert_eq!(first_mode_width("weird\r\nnext"), Some("weird".to_string()));
    assert_eq!(first_mode_width("\n1920x1080"), Some(String::new()));
    assert_eq!(first_mode_width("1280x800\r"), Some("1280".to_string()));
    assert_eq!(first_mode_width("odd\r"), Some("odd\r".to_string()));
    assert_eq!(first_mode_width(""), None);
}

#[test]
fn first_mode_width_matches_std() {
    for s in ["3840x2400\n", "a\r\n", "x\n", "abc", "\r\n", "ab\rx\n", "12x34x56", "\n\n", "\r"] {
        assert_eq!(first_mode_width(s), mode_width_by_std(s), "{:?}", s);
    }
}
