//! The calls that leave this crate. Verus takes the contracts in this file
//! on trust; everything else is proved from them.

use vstd::prelude::*;
use crate::config::{entry_models, ConfigEntry, ConfigValue, EntryModel};
use crate::harvest::{nesting_depth, BuildMessage, MessageModel, MAX_NESTING};

verus! {

/// The error of the TOML parser.
#[verifier::external_type_specification]
#[verifier::external_body]
pub struct ExTomlError(toml::de::Error);

/// The top-level entries of the TOML document `text`, in the order in which
/// its table yields them; none where `text` is no TOML document.
pub uninterp spec fn document_entries(text: Seq<char>) -> Option<Seq<EntryModel>>;

/// Parses `text` with `toml::from_str` into a `toml::Table` and hands out the
/// table's entries, each converted one for one: a string and a boolean keep
/// their value, every other kind of value becomes `Other`. The contract
/// claims only that the outcome is the named function of the text.
#[verifier::external_body]
pub(crate) fn parse_document(text: &str) -> (out: Result<Vec<ConfigEntry>, toml::de::Error>)
    ensures
        match out {
            Ok(entries) => document_entries(text@) == Some(entry_models(entries@)),
            Err(_) => document_entries(text@) is None,
        },
{
    let mut entries = Vec::new();
    for (key, value) in toml::from_str::<toml::Table>(text)? {
        let value = match value {
            toml::Value::String(s) => ConfigValue::Text(s),
            toml::Value::Boolean(b) => ConfigValue::Flag(b),
            toml::Value::Integer(_) => ConfigValue::Other,
            toml::Value::Float(_) => ConfigValue::Other,
            toml::Value::Datetime(_) => ConfigValue::Other,
            toml::Value::Array(_) => ConfigValue::Other,
            toml::Value::Table(_) => ConfigValue::Other,
        };
        entries.push(ConfigEntry { key, value });
    }
    Ok(entries)
}

/// The parser's message for a document that it refused, as
/// `toml::de::Error` displays it. Nothing is claimed of the text.
#[verifier::external_body]
pub(crate) fn parse_error_message(error: &toml::de::Error) -> (message: String) {
    error.to_string()
}

/// What one line of the wrapped tool's machine-readable output says, as far
/// as the harvest reads it: for a message that reports a compiler
/// artifact, the kinds of its target and the files that it lists; for every
/// other line, nothing.
pub uninterp spec fn decoded_line(line: Seq<char>) -> MessageModel;

/// Reads the first line of `line` with `cargo_metadata::Message::parse_stream`
/// and converts the message one for one: a compiler artifact keeps the
/// kinds of its target and its file names, both as text; every other
/// message, a line that is no message, and an empty input become `Other`.
/// The decoder descends one level for each array or object that opens
/// inside another and sets no limit to that. At every place that it reaches
/// it has descended as many levels as arrays and objects are open there,
/// outside of strings, and it reads no further than the first character
/// that is out of place; the bound on the nesting of the text therefore
/// bounds its descent. The contract claims only that the outcome is the
/// named function of the text.
#[verifier::external_body]
pub(crate) fn decode_line(line: &str) -> (message: BuildMessage)
    requires
        nesting_depth(line@) <= MAX_NESTING,
    ensures
        message@ == decoded_line(line@),
{
    match cargo_metadata::Message::parse_stream(line.as_bytes()).next() {
        Some(Ok(cargo_metadata::Message::CompilerArtifact(artifact))) => BuildMessage::Artifact {
            kinds: artifact.target.kind,
            files: artifact.filenames.iter().map(|file| file.to_string()).collect(),
        },
        _ => BuildMessage::Other,
    }
}

/// The home directory of the current user as `dirs::home_dir` reports it,
/// where it is valid Unicode. It depends on the environment of the process,
/// so nothing is claimed of it.
#[verifier::external_body]
pub(crate) fn home_directory() -> (home: Option<String>) {
    dirs::home_dir().and_then(|path| path.into_os_string().into_string().ok())
}

} // verus!
