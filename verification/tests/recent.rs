use layout_interface::recent::{add_recent_file, picked_path, recent_file_label, MAX_RECENT_FILES};

fn strings(v: &[&str]) -> Vec<String> {
    v.iter().map(|s| s.to_string()).collect()
}

#[test]
fn recent_new_path_goes_first() {
    let mut list = strings(&["/a.json", "/b.json"]);
    add_recent_file(&mut list, "/c.json".to_string());
    assert_eq!(list, strings(&["/c.json", "/a.json", "/b.json"]));
}

#[test]
fn recent_known_path_moves_first() {
    let mut list = strings(&["/a.json", "/b.json", "/c.json"]);
    add_recent_file(&mut list, "/b.json".to_string());
    assert_eq!(list, strings(&["/b.json", "/a.json", "/c.json"]));
}

#[test]
fn recent_paths_compare_by_components() {
    let mut list = strings(&["/docs//a.json", "/docs/b.json/", "/docs/./c.json"]);
    add_recent_file(&mut list, "/docs/b.json".to_string());
    assert_eq!(list, strings(&["/docs/b.json", "/docs//a.json", "/docs/./c.json"]));
    add_recent_file(&mut list, "/docs/a.json".to_string());
    assert_eq!(list, strings(&["/docs/a.json", "/docs/b.json", "/docs/./c.json"]));
}

#[test]
fn recent_list_is_cut_to_ten() {
    let mut list: Vec<String> = (0..12).map(|i| format!("/f{}.json", i)).collect();
    add_recent_file(&mut list, "/new.json".to_string());
    assert_eq!(list.len(), MAX_RECENT_FILES);
    assert_eq!(list[0], "/new.json");
    assert_eq!(list[9], "/f8.json");
}

#[test]
fn recent_adding_twice_is_adding_once() {
    let mut once = strings(&["/x", "/y", "/z"]);
    add_recent_file(&mut once, "/y".to_string());
    let mut twice = once.clone();
    add_recent_file(&mut twice, "/y".to_string());
    assert_eq!(once, twice);
}

#[test]
fn recent_never_names_a_path_twice() {
    let mut list = Vec::new();
    for p in ["/a", "/b", "/a", "/c", "/b", "/a"] {
        add_recent_file(&mut list, p.to_string());
    }
    assert_eq!(list, strings(&["/a", "/b", "/c"]));
}

#[test]
fn recent_label_is_file_name() {
    assert_eq!(recent_file_label("/home/user/layouts/poster.json"), "poster.json");
    assert_eq!(recent_file_label("flyer.json"), "flyer.json");
    assert_eq!(recent_file_label("/home/user/"), "user");
}

#[test]
fn recent_label_without_file_name_is_path() {
    assert_eq!(recent_file_label("/"), "/");
    assert_eq!(recent_file_label("/tmp/.."), "/tmp/..");
    assert_eq!(recent_file_label(""), "");
}

#[test]
fn picked_path_trims_output() {
    assert_eq!(picked_path(true, "  /home/u/page.json\n"), Some("/home/u/page.json".to_string()));
}

#[test]
fn picked_path_none_on_failure_or_blank() {
    assert_eq!(picked_path(false, "/home/u/page.json\n"), None);
    assert_eq!(picked_path(true, " \n\t"), None);
    assert_eq!(picked_path(true, ""), None);
}

#[test]
fn recent_twice_same_as_once() {
    let mut once = strings(&["/a.json", "/b.json", "/c.json"]);
    add_recent_file(&mut once, "/b.json".to_string());
    let mut twice = once.clone();
    add_recent_file(&mut twice, "/b.json".to_string());
    assert_eq!(twice, once);
}
