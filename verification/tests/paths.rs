use wargo::paths::{file_name, join, normalize_path, parent, strip_prefix};

#[test]
fn normalize_drops_dots_and_doubled_separators() {
    assert_eq!(normalize_path("/home//user/./tmp/../proj/"), "/home/user/proj");
    assert_eq!(normalize_path("a/b/../../c"), "c");
    assert_eq!(normalize_path("./a/./b"), "a/b");
}

#[test]
fn normalize_stops_at_the_start() {
    assert_eq!(normalize_path("/.."), "/");
    assert_eq!(normalize_path("/../a"), "/a");
    assert_eq!(normalize_path("../a"), "a");
    assert_eq!(normalize_path("a/.."), "");
    assert_eq!(normalize_path(""), "");
    assert_eq!(normalize_path("/"), "/");
    assert_eq!(normalize_path("."), "");
}

#[test]
fn normalize_is_idempotent_on_samples() {
    for sample in ["/a//b/../c/", "x/./y/../../..", "/", "", "///a"] {
        let once = normalize_path(sample);
        assert_eq!(normalize_path(&once), once);
    }
}

#[test]
fn join_puts_one_separator_between() {
    assert_eq!(join("/a/b", "c/d"), "/a/b/c/d");
    assert_eq!(join("/a/b/", "c/d"), "/a/b/c/d");
    assert_eq!(join("/", "c"), "/c");
    assert_eq!(join("a", ""), "a/");
}

#[test]
fn join_lets_an_absolute_path_stand_alone() {
    assert_eq!(join("/a/b", "/c"), "/c");
    assert_eq!(join("", "c"), "c");
    assert_eq!(join("", ""), "");
}

#[test]
fn strip_prefix_gives_names_below() {
    assert_eq!(strip_prefix("/a/b/c", "/a"), Some(String::from("b/c")));
    assert_eq!(strip_prefix("/a/b//c/", "/a/"), Some(String::from("b/c")));
    assert_eq!(strip_prefix("/a/b", "/a/b"), Some(String::new()));
    assert_eq!(strip_prefix("a/b", "a"), Some(String::from("b")));
    assert_eq!(strip_prefix("/a", "/"), Some(String::from("a")));
}

#[test]
fn strip_prefix_refuses_what_is_not_below() {
    assert_eq!(strip_prefix("/a/b/c", "/x"), None);
    assert_eq!(strip_prefix("/a", "/a/b"), None);
    assert_eq!(strip_prefix("/ab/c", "/a"), None);
    assert_eq!(strip_prefix("a/b", "/a"), None);
    assert_eq!(strip_prefix("/a/b", "a"), None);
}

#[test]
fn parent_is_one_name_shorter() {
    assert_eq!(parent("/a/b/c"), Some(String::from("/a/b")));
    assert_eq!(parent("/a"), Some(String::from("/")));
    assert_eq!(parent("a"), Some(String::new()));
    assert_eq!(parent("a/b/"), Some(String::from("a")));
    assert_eq!(parent("/"), None);
    assert_eq!(parent(""), None);
}

#[test]
fn file_name_is_the_last_name() {
    assert_eq!(file_name("/home/user/proj"), Some(String::from("proj")));
    assert_eq!(file_name("/home/user/proj/"), Some(String::from("proj")));
    assert_eq!(file_name("proj"), Some(String::from("proj")));
    assert_eq!(file_name("/"), None);
    assert_eq!(file_name(""), None);
}

#[test]
fn paths_keep_characters_outside_ascii() {
    assert_eq!(join("/höme/üser", "prøj"), "/höme/üser/prøj");
    assert_eq!(strip_prefix("/höme/üser/prøj", "/höme"), Some(String::from("üser/prøj")));
}
