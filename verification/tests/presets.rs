use layout_interface::presets::{
    matching_preset, preset_name, preset_names, preset_size, preset_to_apply, CUSTOM_PRESET,
    PRESET_COUNT,
};

#[test]
fn preset_table() {
    assert_eq!(PRESET_COUNT, 13);
    assert_eq!(preset_name(0), "Letter (8.5\" x 11\")");
    assert_eq!(preset_size(0), (510, 660));
    assert_eq!(preset_name(5), "A4 (210 x 297 mm)");
    assert_eq!(preset_size(5), (496, 701));
    assert_eq!(preset_name(9), "Business Card (3.5\" x 2\")");
    assert_eq!(preset_size(9), (210, 120));
    assert_eq!(preset_name(CUSTOM_PRESET), "Custom");
    assert_eq!(preset_size(CUSTOM_PRESET), (510, 660));
    let names = preset_names();
    assert_eq!(names.len(), 13);
    assert_eq!(names[10], "Presentation (16:9)");
}

#[test]
fn choosing_presets() {
    assert_eq!(preset_to_apply(2), Some((660, 1020)));
    assert_eq!(preset_to_apply(11), Some((720, 720)));
    assert_eq!(preset_to_apply(CUSTOM_PRESET), None);
    assert_eq!(preset_to_apply(40), None);
}

#[test]
fn matching_page_sizes() {
    assert_eq!(matching_preset(&vec![false; 13]), CUSTOM_PRESET);
    assert_eq!(matching_preset(&vec![]), CUSTOM_PRESET);
    let mut m = vec![false; 13];
    m[4] = true;
    m[7] = true;
    assert_eq!(matching_preset(&m), 4);
}

#[test]
fn presets_round_trip() {
    for i in 0..CUSTOM_PRESET {
        let (w, h) = preset_to_apply(i).unwrap();
        let matches: Vec<bool> = (0..PRESET_COUNT).map(|k| preset_size(k) == (w, h)).collect();
        assert_eq!(matching_preset(&matches), i);
    }
}
