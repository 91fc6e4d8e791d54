//! Running the wrapped tool: where it runs, with which arguments, and what
//! becomes of its exit code.

use vstd::prelude::*;
use vstd::string::*;
use crate::args::Subcommand;
use crate::context::{RunCwd, RunCwdModel};
use crate::paths::{
    ancestor_chars, components, is_absolute, is_under, join, join_chars, joined_path, model,
    names_open_with, read_path, relative_to, rendered, strip_prefix, PathModel,
};
use crate::path_laws::{
    lemma_components_are_plain, lemma_join_appends_names, lemma_joined_lies_under_base,
    lemma_names_of_single, lemma_relative_reads_back, lemma_rendered_reads_back,
    lemma_segments_of_plain,
};
use crate::paths::{all_plain, is_plain_name};
use crate::text::{from_chars, optional_text, string_rows, to_chars};

verus! {

/// Why the wrapped tool cannot be run.
#[derive(Clone, Copy, Debug, PartialEq, Eq)]
pub enum RunError {
    /// The caller's directory does not lie in the workspace.
    OutsideWorkspace,
    /// No build manifest between the execution directory and the mirror's
    /// root.
    ManifestNotFound,
}

/// What the file system holds at the place of an override.
#[derive(Clone, Debug, PartialEq, Eq)]
pub enum Probe {
    /// Nothing: the path cannot be made canonical.
    Missing,
    /// Something that is no directory.
    NotDirectory,
    /// A directory, with its canonical path.
    Directory(String),
}

/// What is wrong with an override.
#[derive(Clone, Copy, Debug, PartialEq, Eq)]
pub enum RunCwdFault {
    Missing,
    NotDirectory,
}

/// Where an override was given.
#[derive(Clone, Copy, Debug, PartialEq, Eq)]
pub enum Provenance {
    Cli,
    Config,
}

/// An override that cannot be used.
#[derive(Clone, Debug, PartialEq, Eq)]
pub struct RunCwdError {
    /// Where the override was given.
    pub source: Provenance,
    /// What is wrong with it.
    pub fault: RunCwdFault,
    /// The path as it was given.
    pub path: String,
}

/// A run of the wrapped tool from another directory than the execution
/// directory.
#[derive(Clone, Debug, PartialEq, Eq)]
pub struct Redirect {
    /// The directory to run from.
    pub run_dir: String,
    /// The manifest of the project to run.
    pub manifest: String,
}

/// How to start the wrapped tool.
#[derive(Clone, Debug, PartialEq, Eq)]
pub struct CommandPlan {
    pub args: Vec<String>,
    /// The working directory of the child.
    pub cwd: String,
    /// Whether the child's standard output is read as a stream of messages.
    pub capture_output: bool,
}

/// What a [`CommandPlan`] means.
pub struct PlanModel {
    pub args: Seq<Seq<char>>,
    pub cwd: Seq<char>,
    pub capture_output: bool,
}

impl View for CommandPlan {
    type V = PlanModel;

    open spec fn view(&self) -> PlanModel {
        PlanModel {
            args: string_rows(self.args@),
            cwd: self.cwd@,
            capture_output: self.capture_output,
        }
    }
}

/// The directory inside the mirror that stands where the caller stands
/// inside the workspace; none where the caller stands outside of it.
pub open spec fn execution_dir(
    current_dir: Seq<char>,
    workspace_root: Seq<char>,
    dest_root: Seq<char>,
) -> Option<Seq<char>> {
    match relative_to(current_dir, workspace_root) {
        Some(rel) => Some(joined_path(dest_root, rel)),
        None => None,
    }
}

/// The ancestor of `path` that keeps its first `count` names.
pub open spec fn ancestor(path: Seq<char>, count: int) -> Seq<char> {
    rendered(PathModel { absolute: is_absolute(path), names: components(path).take(count) })
}

/// The build manifest of the directory `dir`.
pub open spec fn manifest_in(dir: Seq<char>) -> Seq<char> {
    joined_path(dir, "Cargo.toml"@)
}

/// The places where a build manifest is looked for, nearest first: in the
/// execution directory and in each directory above it up to the mirror's
/// root. None where the execution directory does not lie in the mirror.
pub open spec fn manifest_candidates(exec_dir: Seq<char>, dest_root: Seq<char>) -> Seq<Seq<char>> {
    if is_under(exec_dir, dest_root) {
        Seq::new(
            (components(exec_dir).len() - components(dest_root).len() + 1) as nat,
            |j: int| manifest_in(ancestor(exec_dir, components(exec_dir).len() - j)),
        )
    } else {
        Seq::<Seq<char>>::empty()
    }
}

/// Whether candidate `i` was found on the file system.
pub open spec fn found_at(count: nat, present: Seq<bool>, i: int) -> bool {
    0 <= i < count && i < present.len() && present[i]
}

/// `args` with `extra` put in behind the first argument.
pub open spec fn with_inserted(args: Seq<Seq<char>>, extra: Seq<Seq<char>>) -> Seq<Seq<char>> {
    if args.len() == 0 {
        extra
    } else {
        seq![args[0]] + extra + args.skip(1)
    }
}

/// How the wrapped tool is started. A build-style run asks for streamed
/// machine-readable messages behind its first argument and has its output
/// read. A run-style run with a redirect names the manifest behind its
/// first argument and starts in the redirect's directory. Every other run
/// takes the arguments as they are and starts in the execution directory.
/// Without arguments there is nothing to start.
pub open spec fn planned(
    args: Seq<Seq<char>>,
    subcommand: Subcommand,
    exec_dir: Seq<char>,
    redirect: Option<(Seq<char>, Seq<char>)>,
) -> Option<PlanModel> {
    if args.len() == 0 {
        None
    } else if subcommand == Subcommand::Build {
        Some(
            PlanModel {
                args: with_inserted(args, seq!["--message-format=json-render-diagnostics"@]),
                cwd: exec_dir,
                capture_output: true,
            },
        )
    } else {
        match redirect {
            Some((run_dir, manifest)) if subcommand == Subcommand::Run => Some(
                PlanModel {
                    args: with_inserted(args, seq!["--manifest-path"@, manifest]),
                    cwd: run_dir,
                    capture_output: false,
                },
            ),
            _ => Some(PlanModel { args: args, cwd: exec_dir, capture_output: false }),
        }
    }
}

/// The exit status of the whole run: that of the child, or success where
/// no child was started.
pub open spec fn final_status(child: Option<i32>) -> i32 {
    match child {
        Some(code) => code,
        None => 0,
    }
}

/// The directory inside the mirror that stands where the caller stands
/// inside the workspace.
pub fn execution_directory(current_dir: &str, workspace_root: &str, dest_root: &str) -> (out:
    Result<String, RunError>)
    ensures
        match out {
            Ok(dir) => execution_dir(current_dir@, workspace_root@, dest_root@) == Some(dir@),
            Err(e) => e == RunError::OutsideWorkspace && execution_dir(
                current_dir@,
                workspace_root@,
                dest_root@,
            ) is None,
        },
{
    match strip_prefix(current_dir, workspace_root) {
        Some(rel) => Ok(join(dest_root, rel.as_str())),
        None => Err(RunError::OutsideWorkspace),
    }
}

/// The exit status of the whole run.
pub fn exit_status(child: Option<i32>) -> (status: i32)
    ensures
        status == final_status(child),
{
    match child {
        Some(code) => code,
        None => 0,
    }
}

/// Copies `args` with `extra` put in behind the first argument.
pub fn insert_after_first(args: &Vec<String>, extra: Vec<String>) -> (out: Vec<String>)
    ensures
        string_rows(out@) == with_inserted(string_rows(args@), string_rows(extra@)),
{
    let mut extra = extra;
    let ghost added = string_rows(extra@);
    if args.len() == 0 {
        return extra;
    }
    let mut out: Vec<String> = Vec::new();
    out.push(args[0].clone());
    out.append(&mut extra);
    assert(string_rows(out@) =~= seq![args@[0]@] + added);
    let mut i: usize = 1;
    while i < args.len()
        invariant
            1 <= i <= args.len(),
            string_rows(out@) == seq![args@[0]@] + added + string_rows(args@).subrange(
                1,
                i as int,
            ),
        decreases args.len() - i,
    {
        let ghost before = string_rows(out@);
        out.push(args[i].clone());
        i += 1;
        assert(string_rows(out@) =~= before.push(args@[i - 1]@));
        assert(string_rows(args@).subrange(1, i as int) =~= string_rows(args@).subrange(
            1,
            i - 1,
        ).push(args@[i - 1]@));
    }
    assert(string_rows(args@).subrange(1, args.len() as int) =~= string_rows(args@).skip(1));
    out
}

/// Copies a vector of strings.
pub fn copy_strings(args: &Vec<String>) -> (out: Vec<String>)
    ensures
        string_rows(out@) == string_rows(args@),
{
    let mut out: Vec<String> = Vec::new();
    let mut i: usize = 0;
    while i < args.len()
        invariant
            i <= args.len(),
            string_rows(out@) == string_rows(args@).take(i as int),
        decreases args.len() - i,
    {
        let ghost before = string_rows(out@);
        out.push(args[i].clone());
        i += 1;
        assert(string_rows(out@) =~= before.push(args@[i - 1]@));
        assert(string_rows(args@).take(i as int) =~= string_rows(args@).take(i - 1).push(
            args@[i - 1]@,
        ));
    }
    assert(string_rows(args@).take(args.len() as int) =~= string_rows(args@));
    out
}

/// The view of an optional redirect.
pub open spec fn redirect_model(redirect: Option<Redirect>) -> Option<(Seq<char>, Seq<char>)> {
    match redirect {
        Some(r) => Some((r.run_dir@, r.manifest@)),
        None => None,
    }
}

/// Decides how the wrapped tool is started.
pub fn plan_command(
    args: &Vec<String>,
    subcommand: Subcommand,
    exec_dir: &str,
    redirect: Option<Redirect>,
) -> (plan: Option<CommandPlan>)
    ensures
        match plan {
            Some(p) => planned(string_rows(args@), subcommand, exec_dir@, redirect_model(redirect))
                == Some(p@),
            None => planned(string_rows(args@), subcommand, exec_dir@, redirect_model(redirect))
                is None,
        },
{
    if args.len() == 0 {
        return None;
    }
    match subcommand {
        Subcommand::Build => {
            let mut extra: Vec<String> = Vec::new();
            extra.push(String::from_str("--message-format=json-render-diagnostics"));
            assert(string_rows(extra@) =~= seq!["--message-format=json-render-diagnostics"@]);
            Some(
                CommandPlan {
                    args: insert_after_first(args, extra),
                    cwd: String::from_str(exec_dir),
                    capture_output: true,
                },
            )
        },
        Subcommand::Run => match redirect {
            Some(r) => {
                let mut extra: Vec<String> = Vec::new();
                extra.push(String::from_str("--manifest-path"));
                extra.push(r.manifest);
                assert(string_rows(extra@) =~= seq!["--manifest-path"@, r.manifest@]);
                Some(
                    CommandPlan {
                        args: insert_after_first(args, extra),
                        cwd: r.run_dir,
                        capture_output: false,
                    },
                )
            },
            None => Some(
                CommandPlan {
                    args: copy_strings(args),
                    cwd: String::from_str(exec_dir),
                    capture_output: false,
                },
            ),
        },
        Subcommand::Other => Some(
            CommandPlan {
                args: copy_strings(args),
                cwd: String::from_str(exec_dir),
                capture_output: false,
            },
        ),
    }
}

/// Lists the places where a build manifest is looked for, nearest first.
pub fn list_manifest_candidates(exec_dir: &str, dest_root: &str) -> (out: Vec<String>)
    ensures
        string_rows(out@) == manifest_candidates(exec_dir@, dest_root@),
{
    let e = read_path(&to_chars(exec_dir));
    let d = read_path(&to_chars(dest_root));
    let mut out: Vec<String> = Vec::new();
    if e.absolute != d.absolute || !names_open_with(&e.names, &d.names) {
        assert(string_rows(out@) =~= manifest_candidates(exec_dir@, dest_root@));
        return out;
    }
    let file = to_chars("Cargo.toml");
    let mut count: usize = e.names.len();
    let mut done = false;
    while !done
        invariant
            d.names@.len() <= count <= e.names@.len(),
            e@ == model(exec_dir@),
            file@ == "Cargo.toml"@,
            done ==> count == d.names@.len(),
            out@.len() == e.names@.len() - count + if done {
                1int
            } else {
                0int
            },
            forall|k: int|
                0 <= k < out@.len() ==> (#[trigger] out@[k])@ == manifest_in(
                    ancestor(exec_dir@, components(exec_dir@).len() - k),
                ),
        decreases
                count - d.names@.len() + if done {
                    0int
                } else {
                    1int
                },
    {
        let dir = ancestor_chars(&e, count);
        let place = from_chars(&join_chars(&dir, &file));
        out.push(place);
        if count == d.names.len() {
            done = true;
        } else {
            count -= 1;
        }
    }
    assert(string_rows(out@) =~= manifest_candidates(exec_dir@, dest_root@));
    out
}

/// Picks the nearest place at which a build manifest was found. `present`
/// answers, place by place, whether the file system holds a file there.
pub fn choose_manifest(candidates: &Vec<String>, present: &Vec<bool>) -> (out: Result<
    String,
    RunError,
>)
    ensures
        match out {
            Ok(manifest) => exists|i: int|
                {
                    &&& #[trigger] found_at(candidates@.len(), present@, i)
                    &&& manifest@ == candidates@[i]@
                    &&& forall|k: int|
                        0 <= k < i ==> !#[trigger] found_at(candidates@.len(), present@, k)
                },
            Err(e) => e == RunError::ManifestNotFound && forall|i: int|
                !#[trigger] found_at(candidates@.len(), present@, i),
        },
{
    let mut i: usize = 0;
    while i < candidates.len() && i < present.len()
        invariant
            i <= candidates.len(),
            i <= present.len(),
            forall|k: int| 0 <= k < i ==> !#[trigger] found_at(candidates@.len(), present@, k),
        decreases candidates.len() - i,
    {
        if present[i] {
            assert(found_at(candidates@.len(), present@, i as int));
            return Ok(candidates[i].clone());
        }
        i += 1;
    }
    Err(RunError::ManifestNotFound)
}

/// What a [`Probe`] means.
pub enum ProbeModel {
    Missing,
    NotDirectory,
    Directory(Seq<char>),
}

impl View for Probe {
    type V = ProbeModel;

    open spec fn view(&self) -> ProbeModel {
        match self {
            Probe::Missing => ProbeModel::Missing,
            Probe::NotDirectory => ProbeModel::NotDirectory,
            Probe::Directory(p) => ProbeModel::Directory(p@),
        }
    }
}

/// What a [`RunCwdError`] means.
pub struct RunCwdErrorModel {
    pub source: Provenance,
    pub fault: RunCwdFault,
    pub path: Seq<char>,
}

impl View for RunCwdError {
    type V = RunCwdErrorModel;

    open spec fn view(&self) -> RunCwdErrorModel {
        RunCwdErrorModel { source: self.source, fault: self.fault, path: self.path@ }
    }
}

/// The path at which an override is looked for: the override itself where
/// it starts at the root, else the override below `base`; none without an
/// override.
pub open spec fn override_place(wish: RunCwdModel, base: Seq<char>) -> Option<Seq<char>> {
    match wish {
        RunCwdModel::Unset => None,
        RunCwdModel::Cli(p) => Some(joined_path(base, p)),
        RunCwdModel::Config(p) => Some(joined_path(base, p)),
    }
}

/// What becomes of an override once the file system has been asked: its
/// canonical directory where it is one, else an error that names where the
/// override was given. Without an override there is neither.
pub open spec fn settled(wish: RunCwdModel, probe: ProbeModel) -> Result<
    Option<Seq<char>>,
    RunCwdErrorModel,
> {
    match wish {
        RunCwdModel::Unset => Ok(None),
        RunCwdModel::Cli(p) => judged(Provenance::Cli, p, probe),
        RunCwdModel::Config(p) => judged(Provenance::Config, p, probe),
    }
}

/// The judgement on an override given in `source` as `path`.
pub open spec fn judged(source: Provenance, path: Seq<char>, probe: ProbeModel) -> Result<
    Option<Seq<char>>,
    RunCwdErrorModel,
> {
    match probe {
        ProbeModel::Directory(dir) => Ok(Some(dir)),
        ProbeModel::Missing => Err(
            RunCwdErrorModel { source, fault: RunCwdFault::Missing, path },
        ),
        ProbeModel::NotDirectory => Err(
            RunCwdErrorModel { source, fault: RunCwdFault::NotDirectory, path },
        ),
    }
}

/// The path at which an override is looked for.
pub fn run_cwd_candidate(wish: &RunCwd, base: &str) -> (place: Option<String>)
    ensures
        match place {
            Some(p) => override_place(wish@, base@) == Some(p@),
            None => override_place(wish@, base@) is None,
        },
{
    match wish {
        RunCwd::Unset => None,
        RunCwd::Cli(p) => Some(join(base, p.as_str())),
        RunCwd::Config(p) => Some(join(base, p.as_str())),
    }
}

/// Judges an override by what the file system holds at its place.
fn judge(source: Provenance, path: &String, probe: Probe) -> (out: Result<
    Option<String>,
    RunCwdError,
>)
    ensures
        match out {
            Ok(dir) => judged(source, path@, probe@) == Ok::<
                Option<Seq<char>>,
                RunCwdErrorModel,
            >(optional_text(dir)),
            Err(e) => judged(source, path@, probe@) == Err::<Option<Seq<char>>, RunCwdErrorModel>(
                e@,
            ),
        },
{
    match probe {
        Probe::Directory(dir) => Ok(Some(dir)),
        Probe::Missing => Err(
            RunCwdError { source, fault: RunCwdFault::Missing, path: path.clone() },
        ),
        Probe::NotDirectory => Err(
            RunCwdError { source, fault: RunCwdFault::NotDirectory, path: path.clone() },
        ),
    }
}

/// Settles an override once the file system has been asked about its place.
pub fn resolve_run_cwd(wish: &RunCwd, probe: Probe) -> (out: Result<Option<String>, RunCwdError>)
    ensures
        match out {
            Ok(dir) => settled(wish@, probe@) == Ok::<Option<Seq<char>>, RunCwdErrorModel>(
                optional_text(dir),
            ),
            Err(e) => settled(wish@, probe@) == Err::<Option<Seq<char>>, RunCwdErrorModel>(e@),
        },
{
    match wish {
        RunCwd::Unset => Ok(None),
        RunCwd::Cli(p) => judge(Provenance::Cli, p, probe),
        RunCwd::Config(p) => judge(Provenance::Config, p, probe),
    }
}

/// The search for a build manifest stays inside the mirror: every place
/// that is looked at lies under the mirror's root, the first one in the
/// execution directory and the last one in the mirror's root itself.
pub proof fn lemma_candidates_lie_in_mirror(exec_dir: Seq<char>, dest_root: Seq<char>, j: int)
    requires
        0 <= j < manifest_candidates(exec_dir, dest_root).len(),
    ensures
        is_under(exec_dir, dest_root),
        is_under(manifest_candidates(exec_dir, dest_root)[j], dest_root),
        components(manifest_candidates(exec_dir, dest_root)[j]) == components(exec_dir).take(
            components(exec_dir).len() - j,
        ).push("Cargo.toml"@),
        manifest_candidates(exec_dir, dest_root).len() == components(exec_dir).len()
            - components(dest_root).len() + 1,
{
    let names = components(exec_dir);
    let count = names.len() - j;
    let kept = names.take(count);
    let up = PathModel { absolute: is_absolute(exec_dir), names: kept };
    let file = "Cargo.toml"@;
    lemma_components_are_plain(exec_dir);
    assert(all_plain(kept)) by {
        assert forall|i: int| 0 <= i < kept.len() implies is_plain_name(#[trigger] kept[i]) by {
            assert(kept[i] == names[i]);
        }
    }
    lemma_rendered_reads_back(up);
    reveal_strlit("Cargo.toml");
    assert(file.len() == 10);
    assert(seq!['.'].len() == 1);
    lemma_segments_of_plain(file);
    lemma_names_of_single(file);
    assert(!is_absolute(file));
    lemma_join_appends_names(rendered(up), file);
    assert(kept + seq![file] =~= kept.push(file));
    let whole = kept.push(file);
    let base = components(dest_root);
    assert(whole.take(base.len() as int) =~= names.take(base.len() as int));
    if rendered(up).len() == 0 {
        assert(!up.absolute);
    }
}

/// The execution directory lies in the mirror as the caller's directory
/// lies in the workspace: seen from the mirror's root it is what the
/// caller's directory is seen from the workspace root.
pub proof fn lemma_execution_dir_keeps_vantage(
    current_dir: Seq<char>,
    workspace_root: Seq<char>,
    dest_root: Seq<char>,
)
    requires
        is_under(current_dir, workspace_root),
    ensures
        execution_dir(current_dir, workspace_root, dest_root) is Some,
        is_under(execution_dir(current_dir, workspace_root, dest_root)->0, dest_root),
        relative_to(execution_dir(current_dir, workspace_root, dest_root)->0, dest_root)
            == relative_to(current_dir, workspace_root),
{
    lemma_relative_reads_back(current_dir, workspace_root);
    lemma_joined_lies_under_base(dest_root, relative_to(current_dir, workspace_root)->0);
}

} // verus!
