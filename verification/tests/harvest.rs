use wargo::actions::FsAction;
use wargo::args::{parse_args, Subcommand};
use wargo::context::build_context;
use wargo::harvest::{
    artifact_kind, artifacts_of_line, harvest, is_decodable, ArtifactKind, ArtifactPath,
    BuildMessage, MAX_NESTING,
};
use wargo::repatriate::{artifact_actions, copy_artifacts, RepatriateError, Repatriation};
use wargo::runner::{execution_directory, exit_status, plan_command, CommandPlan};

fn strings(items: &[&str]) -> Vec<String> {
    items.iter().map(|s| String::from(*s)).collect()
}

fn artifact_line(kinds: &str, files: &str) -> String {
    format!(
        "{{\"reason\":\"compiler-artifact\",\"package_id\":\"demo 0.1.0 (path+file:///d/proj)\",\"manifest_path\":\"/d/proj/Cargo.toml\",\"target\":{{\"kind\":[{}],\"crate_types\":[\"bin\"],\"name\":\"demo\",\"src_path\":\"/d/proj/src/main.rs\",\"edition\":\"2021\",\"doctest\":false}},\"profile\":{{\"opt_level\":\"0\",\"debuginfo\":2,\"debug_assertions\":true,\"overflow_checks\":true,\"test\":false}},\"features\":[],\"filenames\":[{}],\"executable\":null,\"fresh\":false}}",
        kinds, files
    )
}

#[test]
fn kinds_that_are_brought_back() {
    assert_eq!(artifact_kind("bin"), Some(ArtifactKind::Executable));
    assert_eq!(artifact_kind("dylib"), Some(ArtifactKind::DynamicLibrary));
    assert_eq!(artifact_kind("cdylib"), Some(ArtifactKind::CDynamicLibrary));
    assert_eq!(artifact_kind("staticlib"), Some(ArtifactKind::StaticLibrary));
    assert_eq!(artifact_kind("lib"), None);
    assert_eq!(artifact_kind("rlib"), None);
    assert_eq!(artifact_kind("proc-macro"), None);
    assert_eq!(artifact_kind("example"), None);
    assert_eq!(artifact_kind(""), None);
}

#[test]
fn executable_artifact_is_harvested() {
    let line = artifact_line("\"bin\"", "\"/d/proj/target/debug/demo\",\"/d/proj/target/debug/demo.d\"");
    assert_eq!(
        artifacts_of_line(&line),
        vec![
            ArtifactPath {
                path: String::from("/d/proj/target/debug/demo"),
                kind: ArtifactKind::Executable,
            },
            ArtifactPath {
                path: String::from("/d/proj/target/debug/demo.d"),
                kind: ArtifactKind::Executable,
            },
        ]
    );
}

#[test]
fn library_artifact_is_not_harvested() {
    let line = artifact_line("\"lib\"", "\"/d/proj/target/debug/libdemo.rlib\"");
    assert_eq!(artifacts_of_line(&line), vec![]);
}

#[test]
fn first_kind_alone_decides() {
    let line = artifact_line("\"lib\",\"cdylib\"", "\"/d/proj/target/debug/libdemo.so\"");
    assert_eq!(artifacts_of_line(&line), vec![]);
    let line = artifact_line("\"cdylib\",\"lib\"", "\"/d/proj/target/debug/libdemo.so\"");
    assert_eq!(
        artifacts_of_line(&line),
        vec![ArtifactPath {
            path: String::from("/d/proj/target/debug/libdemo.so"),
            kind: ArtifactKind::CDynamicLibrary,
        }]
    );
}

#[test]
fn target_without_kind_is_skipped() {
    let line = artifact_line("", "\"/d/proj/target/debug/demo\"");
    assert_eq!(artifacts_of_line(&line), vec![]);
}

#[test]
fn lines_that_are_no_artifact_messages_are_skipped() {
    assert_eq!(artifacts_of_line("{\"reason\":\"build-finished\",\"success\":true}"), vec![]);
    assert_eq!(artifacts_of_line("   Compiling demo v0.1.0"), vec![]);
    assert_eq!(artifacts_of_line("{\"reason\":\"compiler-artifact\""), vec![]);
    assert_eq!(artifacts_of_line("{\"reason\":\"something-new\",\"x\":1}"), vec![]);
    assert_eq!(artifacts_of_line(""), vec![]);
}

#[test]
fn harvest_reads_a_message_given_by_hand() {
    let message = BuildMessage::Artifact {
        kinds: strings(&["staticlib"]),
        files: strings(&["/d/p/target/libx.a"]),
    };
    assert_eq!(
        harvest(&message),
        vec![ArtifactPath {
            path: String::from("/d/p/target/libx.a"),
            kind: ArtifactKind::StaticLibrary,
        }]
    );
    assert_eq!(harvest(&BuildMessage::Other), vec![]);
    let message = BuildMessage::Artifact { kinds: strings(&["bin"]), files: strings(&[]) };
    assert_eq!(harvest(&message), vec![]);
}

#[test]
fn artifact_returns_to_its_place_in_the_workspace() {
    assert_eq!(
        artifact_actions("/d/proj/target/debug/demo", "/d/proj", "/win/proj"),
        Ok(vec![
            FsAction::CreateDirAll(String::from("/win/proj/target/debug")),
            FsAction::CopyFile {
                from: String::from("/d/proj/target/debug/demo"),
                to: String::from("/win/proj/target/debug/demo"),
            },
        ])
    );
}

#[test]
fn artifact_outside_the_mirror_is_refused() {
    assert_eq!(
        artifact_actions("/elsewhere/demo", "/d/proj", "/win/proj"),
        Err(RepatriateError::OutsideMirror(String::from("/elsewhere/demo")))
    );
}

#[test]
fn no_artifacts_no_steps() {
    assert_eq!(
        copy_artifacts("/d/proj", "/win/proj", &vec![]),
        Repatriation { steps: vec![], failure: None }
    );
}

#[test]
fn artifacts_return_in_their_order() {
    let artifacts = vec![
        ArtifactPath { path: String::from("/d/proj/target/a"), kind: ArtifactKind::Executable },
        ArtifactPath { path: String::from("/d/proj/b"), kind: ArtifactKind::StaticLibrary },
    ];
    assert_eq!(
        copy_artifacts("/d/proj", "/win/proj", &artifacts),
        Repatriation {
            steps: vec![
                FsAction::CreateDirAll(String::from("/win/proj/target")),
                FsAction::CopyFile {
                    from: String::from("/d/proj/target/a"),
                    to: String::from("/win/proj/target/a"),
                },
                FsAction::CreateDirAll(String::from("/win/proj")),
                FsAction::CopyFile {
                    from: String::from("/d/proj/b"),
                    to: String::from("/win/proj/b"),
                },
            ],
            failure: None,
        }
    );
}

#[test]
fn first_artifact_outside_the_mirror_decides_the_error() {
    let artifacts = vec![
        ArtifactPath { path: String::from("/d/proj/a"), kind: ArtifactKind::Executable },
        ArtifactPath { path: String::from("/x/b"), kind: ArtifactKind::Executable },
        ArtifactPath { path: String::from("/y/c"), kind: ArtifactKind::Executable },
    ];
    assert_eq!(
        copy_artifacts("/d/proj", "/win/proj", &artifacts),
        Repatriation {
            steps: vec![
                FsAction::CreateDirAll(String::from("/win/proj")),
                FsAction::CopyFile {
                    from: String::from("/d/proj/a"),
                    to: String::from("/win/proj/a"),
                },
            ],
            failure: Some(RepatriateError::OutsideMirror(String::from("/x/b"))),
        }
    );
}

#[test]
fn artifacts_before_a_failure_are_still_brought_back() {
    let artifacts = vec![
        ArtifactPath { path: String::from("/d/proj/target/a"), kind: ArtifactKind::Executable },
        ArtifactPath { path: String::from("/d/proj/target/b"), kind: ArtifactKind::Executable },
        ArtifactPath { path: String::from("/elsewhere/c"), kind: ArtifactKind::Executable },
        ArtifactPath { path: String::from("/d/proj/target/d"), kind: ArtifactKind::Executable },
    ];
    let out = copy_artifacts("/d/proj", "/win/proj", &artifacts);
    assert_eq!(out.failure, Some(RepatriateError::OutsideMirror(String::from("/elsewhere/c"))));
    assert_eq!(
        out.steps,
        copy_artifacts("/d/proj", "/win/proj", &artifacts[..2].to_vec()).steps
    );
    assert_eq!(out.steps.len(), 4);
    assert!(!out.steps.iter().any(|step| match step {
        FsAction::CopyFile { to, .. } => to.ends_with("/c") || to.ends_with("/d"),
        _ => false,
    }));
}

#[test]
fn failure_at_the_first_artifact_leaves_no_steps() {
    let artifacts = vec![
        ArtifactPath { path: String::from("/x/a"), kind: ArtifactKind::Executable },
        ArtifactPath { path: String::from("/d/proj/b"), kind: ArtifactKind::Executable },
    ];
    assert_eq!(
        copy_artifacts("/d/proj", "/win/proj", &artifacts),
        Repatriation {
            steps: vec![],
            failure: Some(RepatriateError::OutsideMirror(String::from("/x/a"))),
        }
    );
}

#[test]
fn mirror_root_itself_has_no_place_to_return_to() {
    assert_eq!(artifact_actions("/d/proj", "/d/proj", "/"), Ok(vec![]));
}

#[test]
fn build_brings_the_executable_back_and_keeps_the_exit_code() {
    let parsed = parse_args(&strings(&["wargo", "build"])).unwrap();
    let ctx = build_context(parsed, None).unwrap();
    assert_eq!(ctx.subcommand, Subcommand::Build);
    let exec_dir = execution_directory("/win/proj", "/win/proj", "/home/u/tmp/proj").unwrap();
    assert_eq!(
        plan_command(&ctx.args, ctx.subcommand, &exec_dir, None),
        Some(CommandPlan {
            args: strings(&["build", "--message-format=json-render-diagnostics"]),
            cwd: String::from("/home/u/tmp/proj/"),
            capture_output: true,
        })
    );
    let line = artifact_line("\"bin\"", "\"/home/u/tmp/proj/target/debug/demo\"");
    let artifacts = artifacts_of_line(&line);
    assert_eq!(
        copy_artifacts("/home/u/tmp/proj", "/win/proj", &artifacts),
        Repatriation {
            steps: vec![
                FsAction::CreateDirAll(String::from("/win/proj/target/debug")),
                FsAction::CopyFile {
                    from: String::from("/home/u/tmp/proj/target/debug/demo"),
                    to: String::from("/win/proj/target/debug/demo"),
                },
            ],
            failure: None,
        }
    );
    assert_eq!(exit_status(Some(101)), 101);
}

#[test]
fn lines_that_nest_too_deep_are_not_decoded() {
    assert_eq!(MAX_NESTING, 128);
    assert!(is_decodable(""));
    assert!(is_decodable(&"[".repeat(128)));
    assert!(!is_decodable(&"[".repeat(129)));
    assert!(!is_decodable(&"{\"a\":[".repeat(65)));
    assert!(is_decodable(&"{\"a\":[".repeat(64)));
    assert!(is_decodable(&"]}".repeat(500)));
    assert_eq!(artifacts_of_line(&"[".repeat(100_000)), vec![]);
}

#[test]
fn nesting_is_counted_level_by_level() {
    assert!(is_decodable(&"[]".repeat(10_000)));
    assert!(is_decodable(&format!("{}{}{}", "[".repeat(128), "]".repeat(128), "[".repeat(128))));
    assert!(!is_decodable(&format!("{}{}{}", "[".repeat(100), "]".repeat(50), "{".repeat(79))));
    assert!(is_decodable(&format!("{}{}{}", "[".repeat(100), "]".repeat(50), "{".repeat(78))));
}

#[test]
fn brackets_inside_strings_do_not_nest() {
    assert!(is_decodable(&format!("\"{}\"", "[".repeat(1000))));
    assert!(is_decodable(&format!("\"a\\\"{}\"", "{".repeat(1000))));
    assert!(!is_decodable(&format!("\"a\\\\\"{}", "{".repeat(129))));
    assert!(!is_decodable(&format!("\"a\"{}", "[".repeat(129))));
}

#[test]
fn brackets_in_file_names_do_not_hide_an_artifact() {
    let line = artifact_line("\"dylib\"", "\"/d/proj [old]/target/debug/libdemo.so\"");
    assert!(is_decodable(&line));
    assert_eq!(
        artifacts_of_line(&line),
        vec![ArtifactPath {
            path: String::from("/d/proj [old]/target/debug/libdemo.so"),
            kind: ArtifactKind::DynamicLibrary,
        }]
    );
    let crowded = artifact_line("\"bin\"", &format!("\"/d/{}/demo\"", "[".repeat(700)));
    assert!(is_decodable(&crowded));
    assert_eq!(
        artifacts_of_line(&crowded),
        vec![ArtifactPath {
            path: format!("/d/{}/demo", "[".repeat(700)),
            kind: ArtifactKind::Executable,
        }]
    );
}

#[test]
fn artifact_message_with_many_files_is_harvested() {
    let files: Vec<String> = (0..200).map(|n| format!("\"/d/proj/target/f{}\"", n)).collect();
    let line = artifact_line("\"staticlib\"", &files.join(","));
    let found = artifacts_of_line(&line);
    assert_eq!(found.len(), 200);
    assert_eq!(found[199].path, "/d/proj/target/f199");
    assert_eq!(found[0].kind, ArtifactKind::StaticLibrary);
}

#[test]
fn artifact_message_with_deep_extra_field_is_skipped() {
    let line = artifact_line("\"bin\"", "\"/d/proj/target/debug/demo\"");
    let deep = format!("{}{}", "[".repeat(200), "]".repeat(200));
    let line = line.replacen("\"fresh\":false", &format!("\"fresh\":false,\"extra\":{}", deep), 1);
    assert!(!is_decodable(&line));
    assert_eq!(artifacts_of_line(&line), vec![]);
    let shallow = format!("{}{}", "[".repeat(100), "]".repeat(100));
    let line = artifact_line("\"bin\"", "\"/d/proj/target/debug/demo\"")
        .replacen("\"fresh\":false", &format!("\"fresh\":false,\"extra\":{}", shallow), 1);
    assert!(is_decodable(&line));
    assert_eq!(artifacts_of_line(&line).len(), 1);
}

#[test]
fn lines_at_the_deepest_nesting_are_decoded() {
    assert_eq!(artifacts_of_line(&"[".repeat(128)), vec![]);
    assert_eq!(artifacts_of_line(&format!("{}{}", "[".repeat(128), "]".repeat(128))), vec![]);
    let deep = format!("{}{}", "[".repeat(127), "]".repeat(127));
    let line = artifact_line("\"bin\"", "\"/d/proj/target/debug/demo\"")
        .replacen("\"fresh\":false", &format!("\"fresh\":false,\"extra\":{}", deep), 1);
    assert!(is_decodable(&line));
    assert_eq!(
        artifacts_of_line(&line),
        vec![ArtifactPath {
            path: String::from("/d/proj/target/debug/demo"),
            kind: ArtifactKind::Executable,
        }]
    );
}
