use wargo::args::{parse_args, Subcommand};
use wargo::context::{build_context, RunCwd};
use wargo::runner::{
    choose_manifest, execution_directory, exit_status, insert_after_first,
    list_manifest_candidates, plan_command, resolve_run_cwd, run_cwd_candidate, CommandPlan,
    Probe, Provenance, Redirect, RunCwdError, RunCwdFault, RunError,
};

fn strings(items: &[&str]) -> Vec<String> {
    items.iter().map(|s| String::from(*s)).collect()
}

#[test]
fn execution_directory_mirrors_the_callers_place() {
    assert_eq!(
        execution_directory("/win/proj/crates/a", "/win/proj", "/home/u/tmp/proj"),
        Ok(String::from("/home/u/tmp/proj/crates/a"))
    );
    assert_eq!(
        execution_directory("/win/proj", "/win/proj", "/home/u/tmp/proj"),
        Ok(String::from("/home/u/tmp/proj/"))
    );
}

#[test]
fn caller_outside_the_workspace_is_refused() {
    assert_eq!(
        execution_directory("/win/other", "/win/proj", "/home/u/tmp/proj"),
        Err(RunError::OutsideWorkspace)
    );
    assert_eq!(
        execution_directory("/win", "/win/proj", "/home/u/tmp/proj"),
        Err(RunError::OutsideWorkspace)
    );
}

#[test]
fn exit_status_is_that_of_the_child() {
    assert_eq!(exit_status(Some(101)), 101);
    assert_eq!(exit_status(Some(0)), 0);
    assert_eq!(exit_status(Some(-1)), -1);
    assert_eq!(exit_status(None), 0);
}

#[test]
fn extra_arguments_go_behind_the_first() {
    assert_eq!(
        insert_after_first(&strings(&["a", "b", "c"]), strings(&["x", "y"])),
        strings(&["a", "x", "y", "b", "c"])
    );
    assert_eq!(insert_after_first(&strings(&["a"]), strings(&["x"])), strings(&["a", "x"]));
    assert_eq!(insert_after_first(&strings(&[]), strings(&["x"])), strings(&["x"]));
}

#[test]
fn build_asks_for_streamed_messages() {
    assert_eq!(
        plan_command(&strings(&["build", "--release"]), Subcommand::Build, "/d/proj", None),
        Some(CommandPlan {
            args: strings(&["build", "--message-format=json-render-diagnostics", "--release"]),
            cwd: String::from("/d/proj"),
            capture_output: true,
        })
    );
}

#[test]
fn build_ignores_a_redirect() {
    let redirect = Redirect { run_dir: String::from("/x"), manifest: String::from("/m") };
    assert_eq!(
        plan_command(&strings(&["build"]), Subcommand::Build, "/d/proj", Some(redirect)),
        Some(CommandPlan {
            args: strings(&["build", "--message-format=json-render-diagnostics"]),
            cwd: String::from("/d/proj"),
            capture_output: true,
        })
    );
}

#[test]
fn run_with_redirect_names_the_manifest() {
    let redirect = Redirect {
        run_dir: String::from("/d/proj/scripts"),
        manifest: String::from("/d/proj/Cargo.toml"),
    };
    assert_eq!(
        plan_command(&strings(&["run", "--", "x"]), Subcommand::Run, "/d/proj/sub", Some(redirect)),
        Some(CommandPlan {
            args: strings(&["run", "--manifest-path", "/d/proj/Cargo.toml", "--", "x"]),
            cwd: String::from("/d/proj/scripts"),
            capture_output: false,
        })
    );
}

#[test]
fn other_runs_pass_through() {
    assert_eq!(
        plan_command(&strings(&["run", "-q"]), Subcommand::Run, "/d/proj", None),
        Some(CommandPlan {
            args: strings(&["run", "-q"]),
            cwd: String::from("/d/proj"),
            capture_output: false,
        })
    );
    let redirect = Redirect { run_dir: String::from("/x"), manifest: String::from("/m") };
    assert_eq!(
        plan_command(&strings(&["test"]), Subcommand::Other, "/d/proj", Some(redirect)),
        Some(CommandPlan {
            args: strings(&["test"]),
            cwd: String::from("/d/proj"),
            capture_output: false,
        })
    );
}

#[test]
fn nothing_is_started_without_arguments() {
    assert_eq!(plan_command(&strings(&[]), Subcommand::Other, "/d/proj", None), None);
}

#[test]
fn manifest_is_looked_for_upward_to_the_mirror_root() {
    assert_eq!(
        list_manifest_candidates("/d/proj/crates/a", "/d/proj"),
        strings(&[
            "/d/proj/crates/a/Cargo.toml",
            "/d/proj/crates/Cargo.toml",
            "/d/proj/Cargo.toml",
        ])
    );
    assert_eq!(list_manifest_candidates("/d/proj/", "/d/proj"), strings(&["/d/proj/Cargo.toml"]));
    assert_eq!(list_manifest_candidates("/a", "/"), strings(&["/a/Cargo.toml", "/Cargo.toml"]));
}

#[test]
fn no_candidates_outside_the_mirror() {
    assert_eq!(list_manifest_candidates("/d/other", "/d/proj"), strings(&[]));
    assert_eq!(list_manifest_candidates("/d", "/d/proj"), strings(&[]));
}

#[test]
fn nearest_manifest_is_chosen() {
    let candidates = strings(&["/d/p/a/b/Cargo.toml", "/d/p/a/Cargo.toml", "/d/p/Cargo.toml"]);
    assert_eq!(
        choose_manifest(&candidates, &vec![false, true, true]),
        Ok(String::from("/d/p/a/Cargo.toml"))
    );
    assert_eq!(
        choose_manifest(&candidates, &vec![true, false, false]),
        Ok(String::from("/d/p/a/b/Cargo.toml"))
    );
    assert_eq!(
        choose_manifest(&candidates, &vec![false, false, true]),
        Ok(String::from("/d/p/Cargo.toml"))
    );
}

#[test]
fn missing_manifest_is_an_error() {
    let candidates = strings(&["/d/p/a/Cargo.toml", "/d/p/Cargo.toml"]);
    assert_eq!(choose_manifest(&candidates, &vec![false, false]), Err(RunError::ManifestNotFound));
    assert_eq!(choose_manifest(&candidates, &vec![]), Err(RunError::ManifestNotFound));
    assert_eq!(choose_manifest(&strings(&[]), &vec![true]), Err(RunError::ManifestNotFound));
}

#[test]
fn override_is_looked_for_below_its_base() {
    assert_eq!(
        run_cwd_candidate(&RunCwd::Cli(String::from("scripts")), "/d/proj"),
        Some(String::from("/d/proj/scripts"))
    );
    assert_eq!(
        run_cwd_candidate(&RunCwd::Config(String::from("/abs/dir")), "/d/proj"),
        Some(String::from("/abs/dir"))
    );
    assert_eq!(run_cwd_candidate(&RunCwd::Unset, "/d/proj"), None);
}

#[test]
fn no_override_resolves_to_none() {
    assert_eq!(resolve_run_cwd(&RunCwd::Unset, Probe::Missing), Ok(None));
    assert_eq!(resolve_run_cwd(&RunCwd::Unset, Probe::Directory(String::from("/x"))), Ok(None));
}

#[test]
fn override_resolves_to_its_canonical_directory() {
    assert_eq!(
        resolve_run_cwd(&RunCwd::Cli(String::from("s")), Probe::Directory(String::from("/d/p/s"))),
        Ok(Some(String::from("/d/p/s")))
    );
}

#[test]
fn bad_override_names_its_source() {
    assert_eq!(
        resolve_run_cwd(&RunCwd::Cli(String::from("s")), Probe::Missing),
        Err(RunCwdError {
            source: Provenance::Cli,
            fault: RunCwdFault::Missing,
            path: String::from("s"),
        })
    );
    assert_eq!(
        resolve_run_cwd(&RunCwd::Config(String::from("f")), Probe::NotDirectory),
        Err(RunCwdError {
            source: Provenance::Config,
            fault: RunCwdFault::NotDirectory,
            path: String::from("f"),
        })
    );
}

#[test]
fn run_with_override_from_the_command_line() {
    let parsed = parse_args(&strings(&["wargo", "run", "--run-cwd", "scripts"])).unwrap();
    let ctx = build_context(parsed, None).unwrap();
    assert_eq!(ctx.subcommand, Subcommand::Run);
    assert_eq!(ctx.run_cwd, RunCwd::Cli(String::from("scripts")));
    let exec_dir = execution_directory("/win/proj/app", "/win/proj", "/home/u/tmp/proj").unwrap();
    assert_eq!(exec_dir, "/home/u/tmp/proj/app");
    let place = run_cwd_candidate(&ctx.run_cwd, &exec_dir).unwrap();
    assert_eq!(place, "/home/u/tmp/proj/app/scripts");
    let run_dir = resolve_run_cwd(&ctx.run_cwd, Probe::Directory(place)).unwrap().unwrap();
    let candidates = list_manifest_candidates(&exec_dir, "/home/u/tmp/proj");
    assert_eq!(
        candidates,
        strings(&["/home/u/tmp/proj/app/Cargo.toml", "/home/u/tmp/proj/Cargo.toml"])
    );
    let manifest = choose_manifest(&candidates, &vec![true, true]).unwrap();
    let plan = plan_command(
        &ctx.args,
        ctx.subcommand,
        &exec_dir,
        Some(Redirect { run_dir, manifest }),
    );
    assert_eq!(
        plan,
        Some(CommandPlan {
            args: strings(&["run", "--manifest-path", "/home/u/tmp/proj/app/Cargo.toml"]),
            cwd: String::from("/home/u/tmp/proj/app/scripts"),
            capture_output: false,
        })
    );
}
