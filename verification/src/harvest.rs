//! The harvest: which files a line of the wrapped tool's machine-readable
//! output reports as built artifacts.

use vstd::prelude::*;
use crate::outside::{decode_line, decoded_line};
use crate::text::{str_equal, string_rows, to_chars};

verus! {

/// The deepest nesting of arrays and objects that is decoded. It is the
/// depth up to which JSON decoders descend when left to their own limit; a
/// message that reports an artifact nests three deep.
pub const MAX_NESTING: usize = 128;

/// The kinds of artifact that are brought back.
#[derive(Clone, Copy, Debug, PartialEq, Eq)]
pub enum ArtifactKind {
    Executable,
    DynamicLibrary,
    CDynamicLibrary,
    StaticLibrary,
}

/// A built file inside the mirror.
#[derive(Clone, Debug, PartialEq, Eq)]
pub struct ArtifactPath {
    pub path: String,
    pub kind: ArtifactKind,
}

/// What an [`ArtifactPath`] means.
pub struct ArtifactModel {
    pub path: Seq<char>,
    pub kind: ArtifactKind,
}

impl View for ArtifactPath {
    type V = ArtifactModel;

    open spec fn view(&self) -> ArtifactModel {
        ArtifactModel { path: self.path@, kind: self.kind }
    }
}

/// What a sequence of artifacts means.
pub open spec fn artifact_models(artifacts: Seq<ArtifactPath>) -> Seq<ArtifactModel> {
    Seq::new(artifacts.len(), |i: int| artifacts[i]@)
}

/// One line of the wrapped tool's output, as far as the harvest reads it.
#[derive(Clone, Debug, PartialEq, Eq)]
pub enum BuildMessage {
    /// The compiler produced an artifact.
    Artifact {
        /// The kinds of the target, as the tool names them.
        kinds: Vec<String>,
        /// The files that were produced.
        files: Vec<String>,
    },
    /// Anything else: another message, or a line that is no message.
    Other,
}

/// What a [`BuildMessage`] means.
pub enum MessageModel {
    Artifact { kinds: Seq<Seq<char>>, files: Seq<Seq<char>> },
    Other,
}

impl View for BuildMessage {
    type V = MessageModel;

    open spec fn view(&self) -> MessageModel {
        match self {
            BuildMessage::Artifact { kinds, files } => MessageModel::Artifact {
                kinds: string_rows(kinds@),
                files: string_rows(files@),
            },
            BuildMessage::Other => MessageModel::Other,
        }
    }
}

/// The kind of artifact that the tool's name for a target kind stands for;
/// none for a kind that is not brought back.
pub open spec fn kind_named(name: Seq<char>) -> Option<ArtifactKind> {
    if name == "bin"@ {
        Some(ArtifactKind::Executable)
    } else if name == "dylib"@ {
        Some(ArtifactKind::DynamicLibrary)
    } else if name == "cdylib"@ {
        Some(ArtifactKind::CDynamicLibrary)
    } else if name == "staticlib"@ {
        Some(ArtifactKind::StaticLibrary)
    } else {
        None
    }
}

/// The kind under which the files of a target are brought back: the first
/// kind of the target decides, kinds behind it are not looked at.
pub open spec fn deciding_kind(kinds: Seq<Seq<char>>) -> Option<ArtifactKind> {
    if kinds.len() == 0 {
        None
    } else {
        kind_named(kinds[0])
    }
}

/// The artifacts that a message reports: every listed file of an artifact
/// message whose target is of a kind that is brought back, in the order of
/// the list; nothing for any other message.
pub open spec fn harvested(message: MessageModel) -> Seq<ArtifactModel> {
    match message {
        MessageModel::Artifact { kinds, files } => match deciding_kind(kinds) {
            Some(kind) => Seq::new(files.len(), |i: int| ArtifactModel { path: files[i], kind }),
            None => Seq::<ArtifactModel>::empty(),
        },
        MessageModel::Other => Seq::<ArtifactModel>::empty(),
    }
}

/// The kind of artifact that a target kind's name stands for.
pub fn artifact_kind(name: &str) -> (kind: Option<ArtifactKind>)
    ensures
        kind == kind_named(name@),
{
    if str_equal(name, "bin") {
        Some(ArtifactKind::Executable)
    } else if str_equal(name, "dylib") {
        Some(ArtifactKind::DynamicLibrary)
    } else if str_equal(name, "cdylib") {
        Some(ArtifactKind::CDynamicLibrary)
    } else if str_equal(name, "staticlib") {
        Some(ArtifactKind::StaticLibrary)
    } else {
        None
    }
}

/// The artifacts that a message reports.
pub fn harvest(message: &BuildMessage) -> (found: Vec<ArtifactPath>)
    ensures
        artifact_models(found@) == harvested(message@),
{
    let mut found: Vec<ArtifactPath> = Vec::new();
    match message {
        BuildMessage::Other => {
            assert(artifact_models(found@) =~= harvested(message@));
        },
        BuildMessage::Artifact { kinds, files } => {
            let deciding = if kinds.len() == 0 {
                None
            } else {
                artifact_kind(kinds[0].as_str())
            };
            match deciding {
                None => {
                    assert(artifact_models(found@) =~= harvested(message@));
                },
                Some(kind) => {
                    let mut i: usize = 0;
                    while i < files.len()
                        invariant
                            i <= files.len(),
                            found@.len() == i,
                            forall|k: int|
                                0 <= k < i ==> (#[trigger] found@[k])@ == (ArtifactModel {
                                    path: files@[k]@,
                                    kind,
                                }),
                        decreases files.len() - i,
                    {
                        found.push(ArtifactPath { path: files[i].clone(), kind });
                        i += 1;
                    }
                    assert(artifact_models(found@) =~= harvested(message@));
                },
            }
        },
    }
    found
}

/// Where a reader of JSON text stands: how many arrays and objects are open,
/// how many were open at most, and whether it stands inside a string, and
/// there behind a backslash.
pub struct Scan {
    pub depth: nat,
    pub deepest: nat,
    pub in_string: bool,
    pub escaped: bool,
}

/// Where a reader stands before the first character.
pub open spec fn scan_start() -> Scan {
    Scan { depth: 0, deepest: 0, in_string: false, escaped: false }
}

/// Where a reader stands one character further. Inside a string only the
/// closing quote and the backslash count, and the character behind a
/// backslash never does. Outside of strings a bracket or brace opens or
/// closes one level; closing where nothing is open leaves nothing open.
pub open spec fn scan_step(at: Scan, c: char) -> Scan {
    if at.in_string {
        if at.escaped {
            Scan { escaped: false, ..at }
        } else if c == '\\' {
            Scan { escaped: true, ..at }
        } else if c == '"' {
            Scan { in_string: false, ..at }
        } else {
            at
        }
    } else if c == '"' {
        Scan { in_string: true, ..at }
    } else if c == '[' || c == '{' {
        Scan {
            depth: at.depth + 1,
            deepest: if at.deepest < at.depth + 1 {
                at.depth + 1
            } else {
                at.deepest
            },
            ..at
        }
    } else if c == ']' || c == '}' {
        Scan {
            depth: if at.depth > 0 {
                (at.depth - 1) as nat
            } else {
                0
            },
            ..at
        }
    } else {
        at
    }
}

/// Where a reader stands behind the text `s`.
pub open spec fn scanned(s: Seq<char>) -> Scan
    decreases s.len(),
{
    if s.len() == 0 {
        scan_start()
    } else {
        scan_step(scanned(s.drop_last()), s.last())
    }
}

/// How deep arrays and objects nest in `s` at most, outside of strings.
pub open spec fn nesting_depth(s: Seq<char>) -> nat {
    scanned(s).deepest
}

/// What a line reports: the harvest of its message where the line nests
/// no deeper than is decoded, else nothing.
pub open spec fn reported(line: Seq<char>) -> Seq<ArtifactModel> {
    if nesting_depth(line) <= MAX_NESTING {
        harvested(decoded_line(line))
    } else {
        Seq::<ArtifactModel>::empty()
    }
}

/// Whether `line` nests no deeper than is decoded.
pub fn is_decodable(line: &str) -> (yes: bool)
    ensures
        yes == (nesting_depth(line@) <= MAX_NESTING),
{
    let s = to_chars(line);
    let mut depth: usize = 0;
    let mut deepest: usize = 0;
    let mut in_string = false;
    let mut escaped = false;
    let mut i: usize = 0;
    while i < s.len()
        invariant
            i <= s.len(),
            depth <= i,
            deepest <= i,
            scanned(s@.take(i as int)) == (Scan {
                depth: depth as nat,
                deepest: deepest as nat,
                in_string,
                escaped,
            }),
        decreases s.len() - i,
    {
        proof {
            assert(s@.take(i + 1).drop_last() =~= s@.take(i as int));
            assert(s@.take(i + 1).last() == s@[i as int]);
        }
        let c = s[i];
        if in_string {
            if escaped {
                escaped = false;
            } else if c == '\\' {
                escaped = true;
            } else if c == '"' {
                in_string = false;
            }
        } else if c == '"' {
            in_string = true;
        } else if c == '[' || c == '{' {
            depth += 1;
            if deepest < depth {
                deepest = depth;
            }
        } else if c == ']' || c == '}' {
            if depth > 0 {
                depth -= 1;
            }
        }
        i += 1;
    }
    assert(s@.take(s.len() as int) =~= s@);
    deepest <= MAX_NESTING
}

/// The deepest nesting only grows as a text grows: what nests no deeper
/// than is decoded has no beginning that nests deeper.
pub proof fn lemma_nesting_grows(s: Seq<char>, n: int)
    requires
        0 <= n <= s.len(),
    ensures
        nesting_depth(s.take(n)) <= nesting_depth(s),
    decreases s.len(),
{
    if n < s.len() {
        assert(s.drop_last().take(n) =~= s.take(n));
        lemma_nesting_grows(s.drop_last(), n);
    } else {
        assert(s.take(n) =~= s);
    }
}

/// The artifacts that one line of the wrapped tool's output reports. A
/// line that cannot be read as a message reports none, and so does a line
/// that nests deeper than is decoded.
pub fn artifacts_of_line(line: &str) -> (found: Vec<ArtifactPath>)
    ensures
        artifact_models(found@) == reported(line@),
{
    if !is_decodable(line) {
        let found: Vec<ArtifactPath> = Vec::new();
        assert(artifact_models(found@) =~= reported(line@));
        return found;
    }
    let message = decode_line(line);
    harvest(&message)
}

} // verus!
