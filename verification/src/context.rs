//! The context of one invocation: what is forwarded, which subcommand it
//! is, and from where the wrapped tool is to run.

use vstd::prelude::*;
use crate::args::{
    classify, has_manifest_path, names_manifest, subcommand_of, ParsedArgs, Subcommand,
};
use crate::text::{optional_text, string_rows};

verus! {

/// A run-working-directory override with the place that it was given in.
#[derive(Clone, Debug, PartialEq, Eq)]
pub enum RunCwd {
    /// No override.
    Unset,
    /// Given on the command line.
    Cli(String),
    /// Given in the configuration.
    Config(String),
}

/// What a [`RunCwd`] means.
pub enum RunCwdModel {
    Unset,
    Cli(Seq<char>),
    Config(Seq<char>),
}

impl View for RunCwd {
    type V = RunCwdModel;

    open spec fn view(&self) -> RunCwdModel {
        match self {
            RunCwd::Unset => RunCwdModel::Unset,
            RunCwd::Cli(p) => RunCwdModel::Cli(p@),
            RunCwd::Config(p) => RunCwdModel::Config(p@),
        }
    }
}

/// The context of one invocation.
#[derive(Debug, PartialEq, Eq)]
pub struct RunContext {
    /// The arguments for the wrapped tool.
    pub args: Vec<String>,
    /// What the first of them asks for.
    pub subcommand: Subcommand,
    /// The override that applies to this invocation.
    pub run_cwd: RunCwd,
}

/// What a [`RunContext`] means.
pub struct ContextModel {
    pub args: Seq<Seq<char>>,
    pub subcommand: Subcommand,
    pub run_cwd: RunCwdModel,
}

impl View for RunContext {
    type V = ContextModel;

    open spec fn view(&self) -> ContextModel {
        ContextModel {
            args: string_rows(self.args@),
            subcommand: self.subcommand,
            run_cwd: self.run_cwd@,
        }
    }
}

/// Why an invocation is refused before anything is run.
#[derive(Clone, Copy, Debug, PartialEq, Eq)]
pub enum ContextError {
    /// An override from the command line with a subcommand that is not
    /// run-style.
    RunCwdNeedsRun,
    /// An override together with an explicit manifest-path option.
    ManifestPathConflict,
}

/// The override that is chosen: the one from the command line where there
/// is one, else the one from the configuration.
pub open spec fn chosen(cli: Option<Seq<char>>, config: Option<Seq<char>>) -> RunCwdModel {
    match cli {
        Some(p) => RunCwdModel::Cli(p),
        None => match config {
            Some(p) => RunCwdModel::Config(p),
            None => RunCwdModel::Unset,
        },
    }
}

/// The subcommand of the forwarded arguments; `Other` where there are none.
pub open spec fn subcommand_in(args: Seq<Seq<char>>) -> Subcommand {
    if args.len() == 0 {
        Subcommand::Other
    } else {
        subcommand_of(args[0])
    }
}

/// The context that the forwarded arguments and the two overrides make.
/// An override applies to a run-style subcommand only: with any other
/// subcommand one from the command line is an error and one from the
/// configuration is dropped. An override that applies excludes an explicit
/// manifest-path option.
pub open spec fn context_of(
    args: Seq<Seq<char>>,
    cli: Option<Seq<char>>,
    config: Option<Seq<char>>,
) -> Result<ContextModel, ContextError> {
    let sub = subcommand_in(args);
    let wish = chosen(cli, config);
    if sub != Subcommand::Run {
        if wish is Cli {
            Err(ContextError::RunCwdNeedsRun)
        } else {
            Ok(ContextModel { args: args, subcommand: sub, run_cwd: RunCwdModel::Unset })
        }
    } else if !(wish is Unset) && names_manifest(args) {
        Err(ContextError::ManifestPathConflict)
    } else {
        Ok(ContextModel { args: args, subcommand: sub, run_cwd: wish })
    }
}

/// Chooses between the override of the command line and that of the
/// configuration.
pub fn choose_run_cwd(cli: Option<String>, config: Option<String>) -> (wish: RunCwd)
    ensures
        wish@ == chosen(optional_text(cli), optional_text(config)),
{
    match cli {
        Some(p) => RunCwd::Cli(p),
        None => match config {
            Some(p) => RunCwd::Config(p),
            None => RunCwd::Unset,
        },
    }
}

/// Builds the context of an invocation from the parsed command line and
/// the override of the configuration, or refuses the invocation.
pub fn build_context(parsed: ParsedArgs, config_run_cwd: Option<String>) -> (out: Result<
    RunContext,
    ContextError,
>)
    ensures
        match out {
            Ok(ctx) => context_of(parsed@.forwarded, parsed@.run_cwd, optional_text(config_run_cwd))
                == Ok::<ContextModel, ContextError>(ctx@),
            Err(e) => context_of(parsed@.forwarded, parsed@.run_cwd, optional_text(config_run_cwd))
                == Err::<ContextModel, ContextError>(e),
        },
{
    let ParsedArgs { forwarded, run_cwd } = parsed;
    let subcommand = if forwarded.len() == 0 {
        Subcommand::Other
    } else {
        classify(forwarded[0].as_str())
    };
    let wish = choose_run_cwd(run_cwd, config_run_cwd);
    let is_run = match subcommand {
        Subcommand::Run => true,
        _ => false,
    };
    if !is_run {
        match wish {
            RunCwd::Cli(_) => Err(ContextError::RunCwdNeedsRun),
            _ => Ok(RunContext { args: forwarded, subcommand, run_cwd: RunCwd::Unset }),
        }
    } else {
        let unset = match wish {
            RunCwd::Unset => true,
            _ => false,
        };
        if !unset && has_manifest_path(&forwarded) {
            Err(ContextError::ManifestPathConflict)
        } else {
            Ok(RunContext { args: forwarded, subcommand, run_cwd: wish })
        }
    }
}

/// An override from the command line together with an explicit
/// manifest-path option is refused, whatever the subcommand and whatever
/// the configuration holds.
pub proof fn lemma_cli_override_excludes_manifest_path(
    args: Seq<Seq<char>>,
    cli: Seq<char>,
    config: Option<Seq<char>>,
)
    requires
        names_manifest(args),
    ensures
        context_of(args, Some(cli), config) is Err,
        subcommand_in(args) == Subcommand::Run ==> context_of(args, Some(cli), config) == Err::<
            ContextModel,
            ContextError,
        >(ContextError::ManifestPathConflict),
{
}

/// An override that only the configuration gives is dropped without an
/// error where the subcommand is not run-style.
pub proof fn lemma_config_override_dropped_outside_run(args: Seq<Seq<char>>, config: Seq<char>)
    requires
        subcommand_in(args) != Subcommand::Run,
    ensures
        context_of(args, None, Some(config)) == Ok::<ContextModel, ContextError>(
            ContextModel {
                args: args,
                subcommand: subcommand_in(args),
                run_cwd: RunCwdModel::Unset,
            },
        ),
{
}

/// What the command line alone decides, before anything else is known or
/// started: the error that its own override brings, if it brings one.
pub open spec fn command_line_fault(args: Seq<Seq<char>>, cli: Option<Seq<char>>) -> Option<
    ContextError,
> {
    match context_of(args, cli, None) {
        Ok(_) => None,
        Err(e) => Some(e),
    }
}

/// Judges the command line alone. An invocation that is refused here is
/// refused whatever the configuration holds, so it can be refused before
/// the configuration is looked for and before any process is started.
pub fn check_command_line(parsed: &ParsedArgs) -> (fault: Option<ContextError>)
    ensures
        fault == command_line_fault(parsed@.forwarded, parsed@.run_cwd),
{
    if parsed.run_cwd.is_none() {
        return None;
    }
    let is_run = if parsed.forwarded.len() == 0 {
        false
    } else {
        match classify(parsed.forwarded[0].as_str()) {
            Subcommand::Run => true,
            _ => false,
        }
    };
    if !is_run {
        Some(ContextError::RunCwdNeedsRun)
    } else if has_manifest_path(&parsed.forwarded) {
        Some(ContextError::ManifestPathConflict)
    } else {
        None
    }
}

/// What the command line alone refuses stays refused, for the same reason,
/// whatever the configuration holds; and with an override on the command
/// line the configuration changes nothing at all.
pub proof fn lemma_command_line_decides_alone(
    args: Seq<Seq<char>>,
    cli: Option<Seq<char>>,
    config: Option<Seq<char>>,
)
    ensures
        command_line_fault(args, cli) is Some ==> context_of(args, cli, config) == Err::<
            ContextModel,
            ContextError,
        >(command_line_fault(args, cli)->0),
        cli is Some ==> context_of(args, cli, config) == context_of(args, cli, None),
{
}

} // verus!
