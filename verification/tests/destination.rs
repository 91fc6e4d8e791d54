use wargo::config::{load_config, resolve_config, RawConfig};
use wargo::destination::{
    destination_root, get_destination_dir, get_project_dir, starts_at_home, untilde,
    DestinationError,
};

#[test]
fn project_is_named_by_the_workspace_root() {
    let cfg = resolve_config(RawConfig::empty());
    assert_eq!(get_project_dir(&cfg, "/mnt/c/work/demo"), Some(String::from("demo")));
    assert_eq!(get_project_dir(&cfg, "/mnt/c/work/demo/"), Some(String::from("demo")));
    assert_eq!(get_project_dir(&cfg, "/"), None);
}

#[test]
fn project_name_from_the_settings_wins() {
    let cfg = load_config(Some("project_dir = \"other\"")).unwrap();
    assert_eq!(get_project_dir(&cfg, "/mnt/c/work/demo"), Some(String::from("other")));
    assert_eq!(get_project_dir(&cfg, "/"), Some(String::from("other")));
}

#[test]
fn tilde_is_replaced_by_home() {
    assert_eq!(untilde("~", "/home/u"), "/home/u");
    assert_eq!(untilde("~/mirror", "/home/u"), "/home/u/mirror");
    assert_eq!(untilde("~//mirror", "/home/u"), "/home/u//mirror");
    assert_eq!(untilde("~other/x", "/home/u"), "~other/x");
    assert_eq!(untilde("/abs/~", "/home/u"), "/abs/~");
    assert_eq!(untilde("", "/home/u"), "");
    assert!(starts_at_home("~"));
    assert!(starts_at_home("~/x"));
    assert!(!starts_at_home("~x"));
    assert!(!starts_at_home("x/~"));
}

#[test]
fn default_destination_lies_in_tmp_under_home() {
    let cfg = resolve_config(RawConfig::empty());
    assert_eq!(
        destination_root(&cfg, "/mnt/c/work/demo", Some("/home/u")),
        Ok(String::from("/home/u/tmp/demo"))
    );
}

#[test]
fn destination_is_normalized() {
    let cfg = load_config(Some("dest_base_dir = \"/fast//builds/./x/..\"\nproject_dir = \"p/../q\"")).unwrap();
    assert_eq!(destination_root(&cfg, "/mnt/c/work/demo", None), Ok(String::from("/fast/builds/q")));
    let cfg = load_config(Some("dest_base_dir = \"~/mirror/\"")).unwrap();
    assert_eq!(
        destination_root(&cfg, "/mnt/c/work/demo", Some("/home/u/")),
        Ok(String::from("/home/u/mirror/demo"))
    );
}

#[test]
fn unknown_home_is_an_error_where_home_is_needed() {
    let cfg = resolve_config(RawConfig::empty());
    assert_eq!(
        destination_root(&cfg, "/mnt/c/work/demo", None),
        Err(DestinationError::HomeUnknown)
    );
    let cfg = load_config(Some("dest_base_dir = \"~/mirror\"")).unwrap();
    assert_eq!(
        destination_root(&cfg, "/mnt/c/work/demo", None),
        Err(DestinationError::HomeUnknown)
    );
    let cfg = load_config(Some("dest_base_dir = \"/fast\"")).unwrap();
    assert_eq!(destination_root(&cfg, "/mnt/c/work/demo", None), Ok(String::from("/fast/demo")));
}

#[test]
fn workspace_root_without_a_name_is_an_error() {
    let cfg = resolve_config(RawConfig::empty());
    assert_eq!(
        destination_root(&cfg, "/", Some("/home/u")),
        Err(DestinationError::NoProjectName)
    );
}

#[test]
fn destination_with_the_home_of_this_process() {
    let cfg = load_config(Some("dest_base_dir = \"/fast\"")).unwrap();
    assert_eq!(get_destination_dir(&cfg, "/mnt/c/work/demo"), Ok(String::from("/fast/demo")));
    let cfg = resolve_config(RawConfig::empty());
    match get_destination_dir(&cfg, "/mnt/c/work/demo") {
        Ok(root) => {
            assert!(root.ends_with("/tmp/demo"));
            assert!(root.starts_with('/'));
        }
        Err(e) => assert_eq!(e, DestinationError::HomeUnknown),
    }
}
