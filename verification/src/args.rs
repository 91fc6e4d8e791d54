//! The command line: which arguments are forwarded to the wrapped tool and
//! which the orchestrator keeps for itself.

use vstd::prelude::*;
use crate::paths::segments;
use crate::text::{
    chars_from, chars_start_with, from_chars, starts_with, str_equal, string_rows, to_chars,
};

verus! {

/// What the first forwarded argument asks the wrapped tool to do.
#[derive(Clone, Copy, Debug, PartialEq, Eq)]
pub enum Subcommand {
    Build,
    Run,
    Other,
}

/// The command line with the orchestrator's own option taken out.
#[derive(Clone, Debug, PartialEq, Eq)]
pub struct ParsedArgs {
    /// The arguments for the wrapped tool, in their order.
    pub forwarded: Vec<String>,
    /// The run-working-directory override, where one was given.
    pub run_cwd: Option<String>,
}

/// What a [`ParsedArgs`] means.
pub struct ParsedModel {
    pub forwarded: Seq<Seq<char>>,
    pub run_cwd: Option<Seq<char>>,
}

impl View for ParsedArgs {
    type V = ParsedModel;

    open spec fn view(&self) -> ParsedModel {
        ParsedModel {
            forwarded: string_rows(self.forwarded@),
            run_cwd: match self.run_cwd {
                Some(s) => Some(s@),
                None => None,
            },
        }
    }
}

/// Why a command line is refused.
#[derive(Clone, Copy, Debug, PartialEq, Eq)]
pub enum ArgError {
    /// The override option stands last, with no value behind it.
    MissingRunCwdValue,
}

/// Whether `arg` names a launcher: the text behind its last `/` is one of
/// the names under which the orchestrator or the wrapped tool is started.
pub open spec fn is_launcher(arg: Seq<char>) -> bool {
    let name = segments(arg).last();
    name == "wargo"@ || name == "cargo-wsl"@ || name == "cargo"@ || name == "wsl"@
}

/// `argv` without the launchers that open it.
pub open spec fn without_launchers(argv: Seq<Seq<char>>) -> Seq<Seq<char>>
    decreases argv.len(),
{
    if argv.len() > 0 && is_launcher(argv[0]) {
        without_launchers(argv.drop_first())
    } else {
        argv
    }
}

/// Whether `arg` is the override option with its value joined by `=`.
pub open spec fn is_inline_override(arg: Seq<char>) -> bool {
    starts_with(arg, "--run-cwd="@)
}

/// The value of an override option with its value joined by `=`.
pub open spec fn inline_value(arg: Seq<char>) -> Seq<char> {
    arg.skip("--run-cwd="@.len() as int)
}

/// `later` where it is set, else `earlier`.
pub open spec fn latest(earlier: Option<Seq<char>>, later: Option<Seq<char>>) -> Option<
    Seq<char>,
> {
    if later is Some {
        later
    } else {
        earlier
    }
}

/// The command line read from the left. The override option takes the
/// argument behind it as its value, or carries the value behind `=`; both
/// forms are kept back, every other argument is forwarded untouched. Where
/// the option is given more than once, the last one counts.
pub open spec fn parsed(args: Seq<Seq<char>>) -> Result<ParsedModel, ArgError>
    decreases args.len(),
{
    if args.len() == 0 {
        Ok(ParsedModel { forwarded: Seq::empty(), run_cwd: None })
    } else if args[0] == "--run-cwd"@ {
        if args.len() < 2 {
            Err(ArgError::MissingRunCwdValue)
        } else {
            match parsed(args.skip(2)) {
                Ok(rest) => Ok(
                    ParsedModel {
                        forwarded: rest.forwarded,
                        run_cwd: latest(Some(args[1]), rest.run_cwd),
                    },
                ),
                Err(e) => Err(e),
            }
        }
    } else {
        match parsed(args.skip(1)) {
            Ok(rest) => if is_inline_override(args[0]) {
                Ok(
                    ParsedModel {
                        forwarded: rest.forwarded,
                        run_cwd: latest(Some(inline_value(args[0])), rest.run_cwd),
                    },
                )
            } else {
                Ok(ParsedModel { forwarded: seq![args[0]] + rest.forwarded, run_cwd: rest.run_cwd })
            },
            Err(e) => Err(e),
        }
    }
}

/// What is read so far, followed by what the rest of the line reads as.
pub open spec fn continued(
    forwarded: Seq<Seq<char>>,
    run_cwd: Option<Seq<char>>,
    rest: Result<ParsedModel, ArgError>,
) -> Result<ParsedModel, ArgError> {
    match rest {
        Ok(r) => Ok(
            ParsedModel { forwarded: forwarded + r.forwarded, run_cwd: latest(run_cwd, r.run_cwd) },
        ),
        Err(e) => Err(e),
    }
}

/// Whether the forwarded arguments ask for the help text: there are none,
/// or the first one is `--help`.
pub open spec fn asks_help(forwarded: Seq<Seq<char>>) -> bool {
    forwarded.len() == 0 || forwarded[0] == "--help"@
}

/// The subcommand that `arg` names.
pub open spec fn subcommand_of(arg: Seq<char>) -> Subcommand {
    if arg == "build"@ {
        Subcommand::Build
    } else if arg == "run"@ {
        Subcommand::Run
    } else {
        Subcommand::Other
    }
}

/// Whether `arg` is an explicit manifest-path option, in either form.
pub open spec fn is_manifest_option(arg: Seq<char>) -> bool {
    arg == "--manifest-path"@ || starts_with(arg, "--manifest-path="@)
}

/// Whether any of `args` is an explicit manifest-path option.
pub open spec fn names_manifest(args: Seq<Seq<char>>) -> bool {
    exists|i: int| 0 <= i < args.len() && is_manifest_option(#[trigger] args[i])
}

/// Whether `arg` names a launcher.
pub fn names_launcher(arg: &str) -> (yes: bool)
    ensures
        yes == is_launcher(arg@),
{
    let s = to_chars(arg);
    let mut start: usize = 0;
    let mut i: usize = 0;
    while i < s.len()
        invariant
            i <= s.len(),
            start <= i,
            segments(s@.take(i as int)).len() > 0,
            segments(s@.take(i as int)).last() == s@.subrange(start as int, i as int),
        decreases s.len() - i,
    {
        proof {
            let before = s@.take(i as int);
            let now = s@.take(i + 1);
            assert(now.drop_last() =~= before);
            assert(now.last() == s@[i as int]);
            if s@[i as int] == '/' {
                assert(s@.subrange(i + 1, i + 1) =~= Seq::<char>::empty());
            } else {
                assert(s@.subrange(start as int, i + 1) =~= s@.subrange(
                    start as int,
                    i as int,
                ).push(s@[i as int]));
            }
        }
        if s[i] == '/' {
            start = i + 1;
        }
        i += 1;
    }
    assert(s@.take(s.len() as int) =~= s@);
    assert(s@.subrange(start as int, s.len() as int) =~= s@.skip(start as int));
    let name = from_chars(&chars_from(&s, start));
    str_equal(name.as_str(), "wargo") || str_equal(name.as_str(), "cargo-wsl") || str_equal(
        name.as_str(),
        "cargo",
    ) || str_equal(name.as_str(), "wsl")
}

/// The subcommand that `arg` names.
pub fn classify(arg: &str) -> (sub: Subcommand)
    ensures
        sub == subcommand_of(arg@),
{
    if str_equal(arg, "build") {
        Subcommand::Build
    } else if str_equal(arg, "run") {
        Subcommand::Run
    } else {
        Subcommand::Other
    }
}

/// Whether the forwarded arguments ask for the help text.
pub fn wants_help(forwarded: &Vec<String>) -> (yes: bool)
    ensures
        yes == asks_help(string_rows(forwarded@)),
{
    forwarded.len() == 0 || str_equal(forwarded[0].as_str(), "--help")
}

/// Whether `arg` is an explicit manifest-path option.
pub fn names_manifest_option(arg: &str) -> (yes: bool)
    ensures
        yes == is_manifest_option(arg@),
{
    str_equal(arg, "--manifest-path") || chars_start_with(
        &to_chars(arg),
        &to_chars("--manifest-path="),
    )
}

/// Whether any of `args` is an explicit manifest-path option.
pub fn has_manifest_path(args: &Vec<String>) -> (yes: bool)
    ensures
        yes == names_manifest(string_rows(args@)),
{
    let mut i: usize = 0;
    while i < args.len()
        invariant
            i <= args.len(),
            forall|k: int| 0 <= k < i ==> !is_manifest_option(#[trigger] string_rows(args@)[k]),
        decreases args.len() - i,
    {
        if names_manifest_option(args[i].as_str()) {
            assert(is_manifest_option(string_rows(args@)[i as int]));
            return true;
        }
        i += 1;
    }
    false
}

/// `argv` without the launchers that open it.
pub fn strip_launchers(argv: &Vec<String>) -> (rest: Vec<String>)
    ensures
        string_rows(rest@) == without_launchers(string_rows(argv@)),
{
    let ghost all = string_rows(argv@);
    let mut i: usize = 0;
    assert(all.skip(0) =~= all);
    while i < argv.len() && names_launcher(argv[i].as_str())
        invariant
            i <= argv.len(),
            all == string_rows(argv@),
            without_launchers(all) == without_launchers(all.skip(i as int)),
        decreases argv.len() - i,
    {
        proof {
            assert(all.skip(i as int)[0] == argv@[i as int]@);
            assert(all.skip(i as int).drop_first() =~= all.skip(i + 1));
        }
        i += 1;
    }
    proof {
        if i < argv.len() {
            assert(all.skip(i as int)[0] == argv@[i as int]@);
        }
        assert(without_launchers(all) == all.skip(i as int));
    }
    let mut rest: Vec<String> = Vec::new();
    let mut k: usize = i;
    while k < argv.len()
        invariant
            i <= k <= argv.len(),
            all == string_rows(argv@),
            string_rows(rest@) == all.subrange(i as int, k as int),
        decreases argv.len() - k,
    {
        let ghost before = string_rows(rest@);
        rest.push(argv[k].clone());
        k += 1;
        assert(string_rows(rest@) =~= before.push(argv@[k - 1]@));
        assert(all.subrange(i as int, k as int) =~= all.subrange(i as int, k - 1).push(
            argv@[k - 1]@,
        ));
    }
    assert(all.subrange(i as int, argv.len() as int) =~= all.skip(i as int));
    rest
}

/// Takes the override option out of `args`.
pub fn split_override(args: &Vec<String>) -> (out: Result<ParsedArgs, ArgError>)
    ensures
        match out {
            Ok(p) => parsed(string_rows(args@)) == Ok::<ParsedModel, ArgError>(p@),
            Err(e) => parsed(string_rows(args@)) == Err::<ParsedModel, ArgError>(e),
        },
{
    let ghost all = string_rows(args@);
    let mut forwarded: Vec<String> = Vec::new();
    let mut run_cwd: Option<String> = None;
    let prefix = to_chars("--run-cwd=");
    let mut i: usize = 0;
    proof {
        assert(all.skip(0) =~= all);
        assert(string_rows(forwarded@) =~= Seq::<Seq<char>>::empty());
        let r = parsed(all);
        if let Ok(m) = r {
            assert(Seq::<Seq<char>>::empty() + m.forwarded =~= m.forwarded);
        }
    }
    while i < args.len()
        invariant
            i <= args.len(),
            all == string_rows(args@),
            prefix@ == "--run-cwd="@,
            parsed(all) == continued(
                string_rows(forwarded@),
                match run_cwd {
                    Some(s) => Some(s@),
                    None => None,
                },
                parsed(all.skip(i as int)),
            ),
        decreases args.len() - i,
    {
        let ghost here = all.skip(i as int);
        let ghost kept = string_rows(forwarded@);
        proof {
            assert(here[0] == args@[i as int]@);
            assert(here.skip(1) =~= all.skip(i + 1));
        }
        let arg = args[i].as_str();
        if str_equal(arg, "--run-cwd") {
            if i + 1 >= args.len() {
                return Err(ArgError::MissingRunCwdValue);
            }
            proof {
                assert(here[1] == args@[i + 1]@);
                assert(here.skip(2) =~= all.skip(i + 2));
            }
            run_cwd = Some(args[i + 1].clone());
            i += 2;
        } else {
            let chars = to_chars(arg);
            if chars_start_with(&chars, &prefix) {
                run_cwd = Some(from_chars(&chars_from(&chars, prefix.len())));
            } else {
                forwarded.push(args[i].clone());
                proof {
                    assert(string_rows(forwarded@) =~= kept.push(here[0]));
                    if let Ok(rest) = parsed(all.skip(i + 1)) {
                        assert(kept + (seq![here[0]] + rest.forwarded) =~= kept.push(here[0])
                            + rest.forwarded);
                    }
                }
            }
            i += 1;
        }
    }
    proof {
        assert(all.skip(args.len() as int) =~= Seq::<Seq<char>>::empty());
        assert(string_rows(forwarded@) + Seq::<Seq<char>>::empty() =~= string_rows(forwarded@));
    }
    Ok(ParsedArgs { forwarded, run_cwd })
}

/// Reads a command line as the process received it: the launchers that
/// open it are dropped, the override option is taken out, the rest is
/// forwarded.
pub fn parse_args(argv: &Vec<String>) -> (out: Result<ParsedArgs, ArgError>)
    ensures
        match out {
            Ok(p) => parsed(without_launchers(string_rows(argv@))) == Ok::<ParsedModel, ArgError>(
                p@,
            ),
            Err(e) => parsed(without_launchers(string_rows(argv@))) == Err::<ParsedModel, ArgError>(
                e,
            ),
        },
{
    let rest = strip_launchers(argv);
    split_override(&rest)
}

/// Whether `arg` is the override option, in either form.
pub open spec fn is_override_form(arg: Seq<char>) -> bool {
    arg == "--run-cwd"@ || is_inline_override(arg)
}

/// A command line without the override option is forwarded as it is, and
/// yields no override.
pub proof fn lemma_plain_line_passes_untouched(args: Seq<Seq<char>>)
    requires
        forall|i: int| 0 <= i < args.len() ==> !is_override_form(#[trigger] args[i]),
    ensures
        parsed(args) == Ok::<ParsedModel, ArgError>(
            ParsedModel { forwarded: args, run_cwd: None },
        ),
    decreases args.len(),
{
    if args.len() == 0 {
        assert(args =~= Seq::<Seq<char>>::empty());
    } else {
        let rest = args.skip(1);
        assert(!is_override_form(args[0]));
        assert forall|i: int| 0 <= i < rest.len() implies !is_override_form(
            #[trigger] rest[i],
        ) by {
            assert(rest[i] == args[i + 1]);
        }
        lemma_plain_line_passes_untouched(rest);
        assert(seq![args[0]] + rest =~= args);
    }
}

/// What is forwarded holds the override option in neither form: the
/// wrapped tool never sees it.
pub proof fn lemma_forwarded_holds_no_override(args: Seq<Seq<char>>)
    requires
        parsed(args) is Ok,
    ensures
        forall|k: int|
            0 <= k < parsed(args)->Ok_0.forwarded.len() ==> !is_override_form(
                #[trigger] parsed(args)->Ok_0.forwarded[k],
            ),
    decreases args.len(),
{
    if args.len() > 0 {
        if args[0] == "--run-cwd"@ {
            lemma_forwarded_holds_no_override(args.skip(2));
        } else {
            lemma_forwarded_holds_no_override(args.skip(1));
            if !is_inline_override(args[0]) {
                let rest = parsed(args.skip(1))->Ok_0.forwarded;
                let all = seq![args[0]] + rest;
                assert forall|k: int| 0 <= k < all.len() implies !is_override_form(
                    #[trigger] all[k],
                ) by {
                    if k > 0 {
                        assert(all[k] == rest[k - 1]);
                    }
                }
            }
        }
    }
}

} // verus!
