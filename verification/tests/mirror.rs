use wargo::actions::{FsAction, Timestamp};
use wargo::config::{load_config, resolve_config, EffectiveConfig, RawConfig};
use wargo::mirror::{
    entry_actions, mirror_patterns, plan_mirror, prepare_destination, selects, MirrorEntry,
};

fn stamp(seconds: i64, nanos: u32) -> Timestamp {
    Timestamp { seconds, nanos }
}

fn dir(path: &str, n: i64) -> MirrorEntry {
    MirrorEntry {
        relative_path: String::from(path),
        is_directory: true,
        modified: stamp(1000 + n, 1),
        accessed: stamp(2000 + n, 2),
    }
}

fn file(path: &str, n: i64) -> MirrorEntry {
    MirrorEntry {
        relative_path: String::from(path),
        is_directory: false,
        modified: stamp(1000 + n, 3),
        accessed: stamp(2000 + n, 4),
    }
}

fn settings(doc: &str) -> EffectiveConfig {
    load_config(Some(doc)).unwrap()
}

fn defaults() -> EffectiveConfig {
    resolve_config(RawConfig::empty())
}

#[test]
fn patterns_subtract_what_stays_out() {
    assert_eq!(mirror_patterns(&defaults()), vec!["**", "!/.git", "!/target"]);
    assert_eq!(mirror_patterns(&settings("include_git = true")), vec!["**", "!/target"]);
    assert_eq!(mirror_patterns(&settings("include_target = true")), vec!["**", "!/.git"]);
    assert_eq!(
        mirror_patterns(&settings("ignore_git = false\nignore_target = false")),
        vec!["**"]
    );
}

#[test]
fn only_top_level_names_are_special() {
    let cfg = defaults();
    assert!(!selects(&cfg, ".git"));
    assert!(!selects(&cfg, ".git/HEAD"));
    assert!(!selects(&cfg, "target"));
    assert!(!selects(&cfg, "target/debug/out"));
    assert!(!selects(&cfg, "./target/debug"));
    assert!(selects(&cfg, "src/main.x"));
    assert!(selects(&cfg, "sub/.git/HEAD"));
    assert!(selects(&cfg, "sub/target/debug"));
    assert!(selects(&cfg, ".gitignore"));
    assert!(selects(&cfg, "targets"));
}

#[test]
fn what_lies_outside_the_tree_is_not_selected() {
    let cfg = settings("include_git = true\ninclude_target = true");
    assert!(selects(&cfg, ".git/HEAD"));
    assert!(selects(&cfg, "target/debug/out"));
    assert!(!selects(&cfg, "/etc/passwd"));
    assert!(!selects(&cfg, ""));
    assert!(!selects(&cfg, "."));
}

#[test]
fn mirror_leaves_out_git_and_target() {
    let cfg = settings("include_git = false");
    let entries = vec![
        dir(".git", 0),
        file(".git/HEAD", 1),
        dir("src", 2),
        file("src/main.x", 3),
        dir("target", 4),
        dir("target/debug", 5),
        file("target/debug/out", 6),
    ];
    let plan = plan_mirror(&cfg, "/win/proj", "/home/u/tmp/proj", &entries);
    assert_eq!(
        plan,
        vec![
            FsAction::CreateDirAll(String::from("/home/u/tmp/proj/src")),
            FsAction::SetTimes {
                path: String::from("/home/u/tmp/proj/src"),
                accessed: stamp(2002, 2),
                modified: stamp(1002, 1),
            },
            FsAction::CopyFile {
                from: String::from("/win/proj/src/main.x"),
                to: String::from("/home/u/tmp/proj/src/main.x"),
            },
            FsAction::SetTimes {
                path: String::from("/home/u/tmp/proj/src/main.x"),
                accessed: stamp(2003, 4),
                modified: stamp(1003, 3),
            },
        ]
    );
}

#[test]
fn every_copy_is_followed_by_the_times_of_its_source() {
    let cfg = settings("include_git = true\ninclude_target = true");
    let entries = vec![
        dir(".git", 0),
        file(".git/HEAD", 1),
        file("a", 2),
        dir("target", 3),
        file("target/out", 4),
    ];
    let plan = plan_mirror(&cfg, "/w", "/d", &entries);
    assert_eq!(plan.len(), 2 * entries.len());
    for (i, entry) in entries.iter().enumerate() {
        let to = format!("/d/{}", entry.relative_path);
        match &plan[2 * i] {
            FsAction::CreateDirAll(path) => {
                assert!(entry.is_directory);
                assert_eq!(path, &to);
            }
            FsAction::CopyFile { from, to: target } => {
                assert!(!entry.is_directory);
                assert_eq!(from, &format!("/w/{}", entry.relative_path));
                assert_eq!(target, &to);
            }
            other => panic!("unexpected step {:?}", other),
        }
        assert_eq!(
            plan[2 * i + 1],
            FsAction::SetTimes { path: to, accessed: entry.accessed, modified: entry.modified }
        );
    }
}

#[test]
fn planning_twice_gives_the_same_plan() {
    let cfg = defaults();
    let entries = vec![dir("src", 0), file("src/lib.x", 1), file("README", 2)];
    let first = plan_mirror(&cfg, "/w", "/d", &entries);
    let second = plan_mirror(&cfg, "/w", "/d", &entries);
    assert_eq!(first, second);
    assert_eq!(first.len(), 6);
}

#[test]
fn entry_steps_for_a_directory_and_a_file() {
    assert_eq!(
        entry_actions("/w", "/d/", &dir("a/b", 7)),
        vec![
            FsAction::CreateDirAll(String::from("/d/a/b")),
            FsAction::SetTimes {
                path: String::from("/d/a/b"),
                accessed: stamp(2007, 2),
                modified: stamp(1007, 1),
            },
        ]
    );
    assert_eq!(
        entry_actions("/w", "/d", &file("x", -5)),
        vec![
            FsAction::CopyFile { from: String::from("/w/x"), to: String::from("/d/x") },
            FsAction::SetTimes {
                path: String::from("/d/x"),
                accessed: stamp(1995, 4),
                modified: stamp(995, 3),
            },
        ]
    );
}

#[test]
fn clean_start_removes_a_stale_destination() {
    let cfg = settings("clean = true");
    assert_eq!(
        prepare_destination(&cfg, "/d/proj", true, false),
        vec![
            FsAction::RemoveTree(String::from("/d/proj")),
            FsAction::CreateDirAll(String::from("/d/proj")),
        ]
    );
    assert_eq!(
        prepare_destination(&cfg, "/d/proj", false, false),
        vec![FsAction::CreateDirAll(String::from("/d/proj"))]
    );
}

#[test]
fn without_clean_the_destination_is_kept() {
    assert_eq!(
        prepare_destination(&defaults(), "/d/proj", true, true),
        vec![FsAction::CreateDirAll(String::from("/d/proj"))]
    );
}

#[test]
fn stale_git_directory_is_purged_before_a_fresh_copy() {
    let cfg = settings("include_git = true");
    assert_eq!(
        prepare_destination(&cfg, "/d/proj", true, true),
        vec![
            FsAction::CreateDirAll(String::from("/d/proj")),
            FsAction::RemoveTree(String::from("/d/proj/.git")),
        ]
    );
    assert_eq!(
        prepare_destination(&cfg, "/d/proj", true, false),
        vec![FsAction::CreateDirAll(String::from("/d/proj"))]
    );
    let cfg = settings("include_git = true\nclean = true");
    assert_eq!(
        prepare_destination(&cfg, "/d/proj", true, true),
        vec![
            FsAction::RemoveTree(String::from("/d/proj")),
            FsAction::CreateDirAll(String::from("/d/proj")),
        ]
    );
}
