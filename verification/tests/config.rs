use wargo::config::{
    absorb_entry, config_from_entries, decide_inclusion, load_config, resolve_config,
    ConfigEntry, ConfigError, ConfigValue, RawConfig,
};

fn flag(key: &str, value: bool) -> ConfigEntry {
    ConfigEntry { key: String::from(key), value: ConfigValue::Flag(value) }
}

fn text(key: &str, value: &str) -> ConfigEntry {
    ConfigEntry { key: String::from(key), value: ConfigValue::Text(String::from(value)) }
}

#[test]
fn current_flag_wins_over_legacy_flag() {
    assert_eq!(decide_inclusion(Some(true), Some(true)), true);
    assert_eq!(decide_inclusion(Some(false), Some(false)), false);
    assert_eq!(decide_inclusion(Some(true), Some(false)), true);
    assert_eq!(decide_inclusion(Some(false), Some(true)), false);
}

#[test]
fn legacy_flag_decides_alone_inverted() {
    assert_eq!(decide_inclusion(None, Some(true)), false);
    assert_eq!(decide_inclusion(None, Some(false)), true);
}

#[test]
fn unset_flags_exclude_both_directories() {
    let cfg = resolve_config(RawConfig::empty());
    assert!(!cfg.include_git);
    assert!(!cfg.include_target);
    assert!(!cfg.clean);
    assert!(!cfg.clean_git);
    assert_eq!(cfg.project_dir_override, None);
    assert_eq!(cfg.dest_base_dir, None);
    assert_eq!(cfg.run_cwd, None);
}

#[test]
fn missing_document_gives_default_settings() {
    let cfg = load_config(None).unwrap();
    assert_eq!(cfg, resolve_config(RawConfig::empty()));
}

#[test]
fn clean_git_follows_explicit_inclusion() {
    let mut raw = RawConfig::empty();
    raw.include_git = Some(true);
    let cfg = resolve_config(raw);
    assert!(cfg.include_git);
    assert!(cfg.clean_git);

    let mut raw = RawConfig::empty();
    raw.ignore_git = Some(false);
    let cfg = resolve_config(raw);
    assert!(cfg.include_git);
    assert!(cfg.clean_git);

    let mut raw = RawConfig::empty();
    raw.include_git = Some(false);
    raw.ignore_git = Some(false);
    let cfg = resolve_config(raw);
    assert!(!cfg.include_git);
    assert!(!cfg.clean_git);
}

#[test]
fn document_is_read_through_the_parser() {
    let doc = "project_dir = \"demo\"\ndest_base_dir = \"~/mirror\"\ninclude_git = true\nignore_git = true\ninclude_target = false\nclean = true\nrun_cwd = \"scripts\"\n";
    let cfg = load_config(Some(doc)).unwrap();
    assert_eq!(cfg.project_dir_override, Some(String::from("demo")));
    assert_eq!(cfg.dest_base_dir, Some(String::from("~/mirror")));
    assert!(cfg.include_git);
    assert!(cfg.clean_git);
    assert!(!cfg.include_target);
    assert!(cfg.clean);
    assert_eq!(cfg.run_cwd, Some(String::from("scripts")));
}

#[test]
fn empty_document_gives_default_settings() {
    assert_eq!(load_config(Some("")).unwrap(), resolve_config(RawConfig::empty()));
}

#[test]
fn unknown_field_is_refused() {
    assert_eq!(
        load_config(Some("includ_git = true\n")),
        Err(ConfigError::UnknownField(String::from("includ_git")))
    );
    assert_eq!(
        load_config(Some("clean_git = true\n")),
        Err(ConfigError::UnknownField(String::from("clean_git")))
    );
}

#[test]
fn value_of_wrong_kind_is_refused() {
    assert_eq!(
        load_config(Some("clean = \"yes\"\n")),
        Err(ConfigError::InvalidValue(String::from("clean")))
    );
    assert_eq!(
        load_config(Some("project_dir = 3\n")),
        Err(ConfigError::InvalidValue(String::from("project_dir")))
    );
    assert_eq!(
        load_config(Some("run_cwd = true\n")),
        Err(ConfigError::InvalidValue(String::from("run_cwd")))
    );
}

#[test]
fn malformed_document_is_refused() {
    match load_config(Some("clean = = true")) {
        Err(ConfigError::Malformed(message)) => assert!(!message.is_empty()),
        other => panic!("expected a malformed document, got {:?}", other),
    }
}

#[test]
fn entries_fill_the_settings_in_order() {
    let entries = vec![
        flag("ignore_target", true),
        flag("include_target", true),
        text("project_dir", "first"),
        text("project_dir", "second"),
    ];
    let raw = config_from_entries(&entries).unwrap();
    assert_eq!(raw.ignore_target, Some(true));
    assert_eq!(raw.include_target, Some(true));
    assert_eq!(raw.project_dir, Some(String::from("second")));
    assert_eq!(raw.include_git, None);
    assert!(!raw.clean);
}

#[test]
fn first_refused_entry_decides_the_error() {
    let entries = vec![
        flag("clean", true),
        text("bogus", "x"),
        text("clean", "x"),
    ];
    assert_eq!(
        config_from_entries(&entries),
        Err(ConfigError::UnknownField(String::from("bogus")))
    );
}

#[test]
fn other_kinds_of_value_are_refused_for_known_keys() {
    let entry = ConfigEntry { key: String::from("clean"), value: ConfigValue::Other };
    assert_eq!(
        absorb_entry(RawConfig::empty(), &entry),
        Err(ConfigError::InvalidValue(String::from("clean")))
    );
    let entry = ConfigEntry { key: String::from("nothing"), value: ConfigValue::Other };
    assert_eq!(
        absorb_entry(RawConfig::empty(), &entry),
        Err(ConfigError::UnknownField(String::from("nothing")))
    );
}
