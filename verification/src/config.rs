//! Settings: from the entries of a configuration document to the effective
//! settings of a run.

use vstd::prelude::*;
use crate::outside::{document_entries, parse_document, parse_error_message};
use crate::text::{optional_str, optional_text, str_equal};

verus! {

/// The value of one configuration entry, as far as the settings read it.
#[derive(Clone, Debug, PartialEq, Eq)]
pub enum ConfigValue {
    Text(String),
    Flag(bool),
    Other,
}

/// One `key = value` entry at the top level of a configuration document.
#[derive(Clone, Debug, PartialEq, Eq)]
pub struct ConfigEntry {
    pub key: String,
    pub value: ConfigValue,
}

/// What a [`ConfigValue`] means.
pub enum ValueModel {
    Text(Seq<char>),
    Flag(bool),
    Other,
}

/// What a [`ConfigEntry`] means.
pub struct EntryModel {
    pub key: Seq<char>,
    pub value: ValueModel,
}

impl View for ConfigValue {
    type V = ValueModel;

    open spec fn view(&self) -> ValueModel {
        match self {
            ConfigValue::Text(s) => ValueModel::Text(s@),
            ConfigValue::Flag(b) => ValueModel::Flag(*b),
            ConfigValue::Other => ValueModel::Other,
        }
    }
}

impl View for ConfigEntry {
    type V = EntryModel;

    open spec fn view(&self) -> EntryModel {
        EntryModel { key: self.key@, value: self.value@ }
    }
}

/// What a sequence of entries means.
pub open spec fn entry_models(entries: Seq<ConfigEntry>) -> Seq<EntryModel> {
    Seq::new(entries.len(), |i: int| entries[i]@)
}

/// The settings as written: every key optional, legacy keys beside current ones.
#[derive(Clone, Debug, PartialEq, Eq)]
pub struct RawConfig {
    /// Names the project directory under the destination base.
    pub project_dir: Option<String>,
    /// The destination base directory; may start with `~`.
    pub dest_base_dir: Option<String>,
    /// Legacy: leaves the version-control directory out when true.
    pub ignore_git: Option<bool>,
    /// Current: takes the version-control directory along when true.
    pub include_git: Option<bool>,
    /// Legacy: leaves the build-output directory out when true.
    pub ignore_target: Option<bool>,
    /// Current: takes the build-output directory along when true.
    pub include_target: Option<bool>,
    /// Empties the destination before mirroring.
    pub clean: bool,
    /// The directory that run-style invocations execute from.
    pub run_cwd: Option<String>,
}

/// What a [`RawConfig`] means.
pub struct RawModel {
    pub project_dir: Option<Seq<char>>,
    pub dest_base_dir: Option<Seq<char>>,
    pub ignore_git: Option<bool>,
    pub include_git: Option<bool>,
    pub ignore_target: Option<bool>,
    pub include_target: Option<bool>,
    pub clean: bool,
    pub run_cwd: Option<Seq<char>>,
}

impl View for RawConfig {
    type V = RawModel;

    open spec fn view(&self) -> RawModel {
        RawModel {
            project_dir: optional_text(self.project_dir),
            dest_base_dir: optional_text(self.dest_base_dir),
            ignore_git: self.ignore_git,
            include_git: self.include_git,
            ignore_target: self.ignore_target,
            include_target: self.include_target,
            clean: self.clean,
            run_cwd: optional_text(self.run_cwd),
        }
    }
}

/// The settings of a run, every flag decided.
#[derive(Clone, Debug, PartialEq, Eq)]
pub struct EffectiveConfig {
    pub project_dir_override: Option<String>,
    pub dest_base_dir: Option<String>,
    pub include_git: bool,
    pub include_target: bool,
    pub clean: bool,
    /// Purge the mirror's version-control directory before copying a fresh one.
    pub clean_git: bool,
    pub run_cwd: Option<String>,
}

/// What an [`EffectiveConfig`] means.
pub struct EffectiveModel {
    pub project_dir_override: Option<Seq<char>>,
    pub dest_base_dir: Option<Seq<char>>,
    pub include_git: bool,
    pub include_target: bool,
    pub clean: bool,
    pub clean_git: bool,
    pub run_cwd: Option<Seq<char>>,
}

impl View for EffectiveConfig {
    type V = EffectiveModel;

    open spec fn view(&self) -> EffectiveModel {
        EffectiveModel {
            project_dir_override: optional_text(self.project_dir_override),
            dest_base_dir: optional_text(self.dest_base_dir),
            include_git: self.include_git,
            include_target: self.include_target,
            clean: self.clean,
            clean_git: self.clean_git,
            run_cwd: optional_text(self.run_cwd),
        }
    }
}

/// The invariant of effective settings: the version-control directory is
/// purged only where it is also mirrored.
pub open spec fn well_formed(cfg: EffectiveModel) -> bool {
    cfg.clean_git ==> cfg.include_git
}

/// Why a configuration document is refused.
#[derive(Clone, Debug, PartialEq, Eq)]
pub enum ConfigError {
    /// The document is not well-formed; holds the parser's message.
    Malformed(String),
    /// An entry has a key that the settings do not know.
    UnknownField(String),
    /// An entry of a known key holds a value of the wrong kind.
    InvalidValue(String),
}

/// What a [`ConfigError`] means, the parser's message left aside.
pub enum ConfigFault {
    Malformed,
    UnknownField(Seq<char>),
    InvalidValue(Seq<char>),
}

impl View for ConfigError {
    type V = ConfigFault;

    open spec fn view(&self) -> ConfigFault {
        match self {
            ConfigError::Malformed(_) => ConfigFault::Malformed,
            ConfigError::UnknownField(k) => ConfigFault::UnknownField(k@),
            ConfigError::InvalidValue(k) => ConfigFault::InvalidValue(k@),
        }
    }
}

/// The settings of an empty document.
pub open spec fn blank() -> RawModel {
    RawModel {
        project_dir: None,
        dest_base_dir: None,
        ignore_git: None,
        include_git: None,
        ignore_target: None,
        include_target: None,
        clean: false,
        run_cwd: None,
    }
}

/// Whether `key` is a key that takes text.
pub open spec fn is_text_key(key: Seq<char>) -> bool {
    key == "project_dir"@ || key == "dest_base_dir"@ || key == "run_cwd"@
}

/// Whether `key` is a key that takes a flag.
pub open spec fn is_flag_key(key: Seq<char>) -> bool {
    key == "ignore_git"@ || key == "include_git"@ || key == "ignore_target"@ || key
        == "include_target"@ || key == "clean"@
}

/// `raw` with the text key `key` set to `value`.
pub open spec fn with_text(raw: RawModel, key: Seq<char>, value: Seq<char>) -> RawModel {
    if key == "project_dir"@ {
        RawModel { project_dir: Some(value), ..raw }
    } else if key == "dest_base_dir"@ {
        RawModel { dest_base_dir: Some(value), ..raw }
    } else {
        RawModel { run_cwd: Some(value), ..raw }
    }
}

/// `raw` with the flag key `key` set to `value`.
pub open spec fn with_flag(raw: RawModel, key: Seq<char>, value: bool) -> RawModel {
    if key == "ignore_git"@ {
        RawModel { ignore_git: Some(value), ..raw }
    } else if key == "include_git"@ {
        RawModel { include_git: Some(value), ..raw }
    } else if key == "ignore_target"@ {
        RawModel { ignore_target: Some(value), ..raw }
    } else if key == "include_target"@ {
        RawModel { include_target: Some(value), ..raw }
    } else {
        RawModel { clean: value, ..raw }
    }
}

/// Whether the settings take `entry`: a known key with a value of its kind.
pub open spec fn acceptable(entry: EntryModel) -> bool {
    ||| is_text_key(entry.key) && entry.value is Text
    ||| is_flag_key(entry.key) && entry.value is Flag
}

/// Why the settings refuse `entry`, where they do.
pub open spec fn fault_of(entry: EntryModel) -> ConfigFault {
    if is_text_key(entry.key) || is_flag_key(entry.key) {
        ConfigFault::InvalidValue(entry.key)
    } else {
        ConfigFault::UnknownField(entry.key)
    }
}

/// `raw` with one more entry taken in, or the reason why it is refused.
pub open spec fn absorb(raw: RawModel, entry: EntryModel) -> Result<RawModel, ConfigFault> {
    if !acceptable(entry) {
        Err(fault_of(entry))
    } else {
        match entry.value {
            ValueModel::Text(t) => Ok(with_text(raw, entry.key, t)),
            ValueModel::Flag(b) => Ok(with_flag(raw, entry.key, b)),
            ValueModel::Other => Ok(raw),
        }
    }
}

/// The settings that `entries` write, read in order; the first entry that is
/// refused decides the error.
pub open spec fn absorbed(entries: Seq<EntryModel>) -> Result<RawModel, ConfigFault>
    decreases entries.len(),
{
    if entries.len() == 0 {
        Ok(blank())
    } else {
        match absorbed(entries.drop_last()) {
            Ok(raw) => absorb(raw, entries.last()),
            Err(fault) => Err(fault),
        }
    }
}

/// Whether a directory is mirrored, from its current flag and its legacy
/// flag: the current flag decides where it is set, else the legacy flag,
/// inverted; with neither the directory stays out.
pub open spec fn inclusion(current: Option<bool>, legacy_ignore: Option<bool>) -> bool {
    match current {
        Some(keep) => keep,
        None => match legacy_ignore {
            Some(ignore) => !ignore,
            None => false,
        },
    }
}

/// The effective settings that `raw` stands for.
pub open spec fn effective(raw: RawModel) -> EffectiveModel {
    EffectiveModel {
        project_dir_override: raw.project_dir,
        dest_base_dir: raw.dest_base_dir,
        include_git: inclusion(raw.include_git, raw.ignore_git),
        include_target: inclusion(raw.include_target, raw.ignore_target),
        clean: raw.clean,
        clean_git: inclusion(raw.include_git, raw.ignore_git),
        run_cwd: raw.run_cwd,
    }
}

/// Decides whether a directory is mirrored.
pub fn decide_inclusion(current: Option<bool>, legacy_ignore: Option<bool>) -> (keep: bool)
    ensures
        keep == inclusion(current, legacy_ignore),
{
    match current {
        Some(keep) => keep,
        None => match legacy_ignore {
            Some(ignore) => !ignore,
            None => false,
        },
    }
}

/// Computes the effective settings from the settings as written.
pub fn resolve_config(raw: RawConfig) -> (cfg: EffectiveConfig)
    ensures
        cfg@ == effective(raw@),
        well_formed(cfg@),
{
    let include_git = decide_inclusion(raw.include_git, raw.ignore_git);
    let include_target = decide_inclusion(raw.include_target, raw.ignore_target);
    EffectiveConfig {
        project_dir_override: raw.project_dir,
        dest_base_dir: raw.dest_base_dir,
        include_git,
        include_target,
        clean: raw.clean,
        clean_git: include_git,
        run_cwd: raw.run_cwd,
    }
}

impl RawConfig {
    /// The settings of an empty document.
    pub fn empty() -> (raw: RawConfig)
        ensures
            raw@ == blank(),
    {
        RawConfig {
            project_dir: None,
            dest_base_dir: None,
            ignore_git: None,
            include_git: None,
            ignore_target: None,
            include_target: None,
            clean: false,
            run_cwd: None,
        }
    }
}

/// Whether `key` is a key that takes text.
pub fn takes_text(key: &str) -> (yes: bool)
    ensures
        yes == is_text_key(key@),
{
    str_equal(key, "project_dir") || str_equal(key, "dest_base_dir") || str_equal(key, "run_cwd")
}

/// Whether `key` is a key that takes a flag.
pub fn takes_flag(key: &str) -> (yes: bool)
    ensures
        yes == is_flag_key(key@),
{
    str_equal(key, "ignore_git") || str_equal(key, "include_git") || str_equal(
        key,
        "ignore_target",
    ) || str_equal(key, "include_target") || str_equal(key, "clean")
}

/// The error for an entry that the settings refuse.
fn refuse(entry: &ConfigEntry) -> (e: ConfigError)
    ensures
        e@ == fault_of(entry@),
{
    if takes_text(entry.key.as_str()) || takes_flag(entry.key.as_str()) {
        ConfigError::InvalidValue(entry.key.clone())
    } else {
        ConfigError::UnknownField(entry.key.clone())
    }
}

/// Takes one more entry into the settings, or says why it is refused.
pub fn absorb_entry(raw: RawConfig, entry: &ConfigEntry) -> (out: Result<RawConfig, ConfigError>)
    ensures
        match out {
            Ok(next) => absorb(raw@, entry@) == Ok::<RawModel, ConfigFault>(next@),
            Err(e) => absorb(raw@, entry@) == Err::<RawModel, ConfigFault>(e@),
        },
{
    let mut next = raw;
    let key = entry.key.as_str();
    match &entry.value {
        ConfigValue::Text(t) => {
            if !takes_text(key) {
                return Err(refuse(entry));
            }
            if str_equal(key, "project_dir") {
                next.project_dir = Some(t.clone());
            } else if str_equal(key, "dest_base_dir") {
                next.dest_base_dir = Some(t.clone());
            } else {
                next.run_cwd = Some(t.clone());
            }
            Ok(next)
        },
        ConfigValue::Flag(b) => {
            if !takes_flag(key) {
                return Err(refuse(entry));
            }
            if str_equal(key, "ignore_git") {
                next.ignore_git = Some(*b);
            } else if str_equal(key, "include_git") {
                next.include_git = Some(*b);
            } else if str_equal(key, "ignore_target") {
                next.ignore_target = Some(*b);
            } else if str_equal(key, "include_target") {
                next.include_target = Some(*b);
            } else {
                next.clean = *b;
            }
            Ok(next)
        },
        ConfigValue::Other => Err(refuse(entry)),
    }
}

/// Reads the settings that `entries` write. Every entry must have a known
/// key and a value of that key's kind; the first one that has not decides
/// the error.
pub fn config_from_entries(entries: &Vec<ConfigEntry>) -> (out: Result<RawConfig, ConfigError>)
    ensures
        match out {
            Ok(raw) => absorbed(entry_models(entries@)) == Ok::<RawModel, ConfigFault>(raw@),
            Err(e) => absorbed(entry_models(entries@)) == Err::<RawModel, ConfigFault>(e@),
        },
{
    let mut raw = RawConfig::empty();
    let mut i: usize = 0;
    assert(entry_models(entries@).take(0) =~= Seq::<EntryModel>::empty());
    while i < entries.len()
        invariant
            i <= entries.len(),
            absorbed(entry_models(entries@).take(i as int)) == Ok::<RawModel, ConfigFault>(raw@),
        decreases entries.len() - i,
    {
        proof {
            let now = entry_models(entries@).take(i + 1);
            assert(now.drop_last() =~= entry_models(entries@).take(i as int));
            assert(now.last() == entries@[i as int]@);
        }
        match absorb_entry(raw, &entries[i]) {
            Ok(next) => {
                raw = next;
            },
            Err(e) => {
                proof {
                    lemma_fault_stays(entry_models(entries@), i + 1);
                }
                return Err(e);
            },
        }
        i += 1;
    }
    assert(entry_models(entries@).take(entries.len() as int) =~= entry_models(entries@));
    Ok(raw)
}

/// Once a prefix of the entries is refused, so is the whole, for the same reason.
pub proof fn lemma_fault_stays(entries: Seq<EntryModel>, n: int)
    requires
        0 <= n <= entries.len(),
        absorbed(entries.take(n)) is Err,
    ensures
        absorbed(entries) == absorbed(entries.take(n)),
    decreases entries.len(),
{
    if n < entries.len() {
        assert(entries.drop_last().take(n) =~= entries.take(n));
        lemma_fault_stays(entries.drop_last(), n);
    } else {
        assert(entries.take(n) =~= entries);
    }
}

/// The effective settings that a configuration document stands for; a
/// missing document stands for the settings of an empty one.
pub open spec fn loaded(text: Option<Seq<char>>) -> Result<EffectiveModel, ConfigFault> {
    match text {
        None => Ok(effective(blank())),
        Some(t) => match document_entries(t) {
            None => Err(ConfigFault::Malformed),
            Some(entries) => match absorbed(entries) {
                Ok(raw) => Ok(effective(raw)),
                Err(fault) => Err(fault),
            },
        },
    }
}

/// Loads the effective settings from the text of a configuration document,
/// or from none where the workspace has no such document.
pub fn load_config(text: Option<&str>) -> (out: Result<EffectiveConfig, ConfigError>)
    ensures
        match out {
            Ok(cfg) => loaded(optional_str(text)) == Ok::<EffectiveModel, ConfigFault>(cfg@)
                && well_formed(cfg@),
            Err(e) => loaded(optional_str(text)) == Err::<EffectiveModel, ConfigFault>(e@),
        },
{
    match text {
        None => Ok(resolve_config(RawConfig::empty())),
        Some(t) => match parse_document(t) {
            Err(e) => Err(ConfigError::Malformed(parse_error_message(&e))),
            Ok(entries) => match config_from_entries(&entries) {
                Ok(raw) => Ok(resolve_config(raw)),
                Err(e) => Err(e),
            },
        },
    }
}

/// Where both the current and the legacy flag of a directory are set, the
/// current flag decides whether the directory is mirrored, whatever the
/// legacy flag says.
pub proof fn lemma_current_flag_wins(raw: RawModel)
    ensures
        raw.include_git is Some ==> effective(raw).include_git == raw.include_git->0,
        raw.include_target is Some ==> effective(raw).include_target == raw.include_target->0,
        forall|current: bool, legacy: bool| #[trigger]
            inclusion(Some(current), Some(legacy)) == current,
{
}

/// Where neither flag of a directory is set, the directory is not
/// mirrored; with neither flag of the version-control directory set,
/// nothing is purged either.
pub proof fn lemma_unset_flags_exclude(raw: RawModel)
    ensures
        raw.include_git is None && raw.ignore_git is None ==> !effective(raw).include_git
            && !effective(raw).clean_git,
        raw.include_target is None && raw.ignore_target is None ==> !effective(
            raw,
        ).include_target,
{
}

/// Effective settings are well-formed, whatever was written.
pub proof fn lemma_effective_is_well_formed(raw: RawModel)
    ensures
        well_formed(effective(raw)),
{
}

/// Entries are taken in where each of them is acceptable, and only then;
/// where one is not, the first such entry decides the error.
pub proof fn lemma_absorbed_accepts_acceptable(entries: Seq<EntryModel>)
    ensures
        absorbed(entries) is Ok <==> forall|i: int|
            0 <= i < entries.len() ==> acceptable(#[trigger] entries[i]),
        absorbed(entries) is Err ==> exists|i: int|
            {
                &&& 0 <= i < entries.len()
                &&& !acceptable(#[trigger] entries[i])
                &&& absorbed(entries) == Err::<RawModel, ConfigFault>(fault_of(entries[i]))
                &&& forall|k: int| 0 <= k < i ==> acceptable(#[trigger] entries[k])
            },
    decreases entries.len(),
{
    if entries.len() > 0 {
        let front = entries.drop_last();
        lemma_absorbed_accepts_acceptable(front);
        assert(forall|i: int| 0 <= i < front.len() ==> front[i] == entries[i]);
        if absorbed(front) is Ok {
            if !acceptable(entries.last()) {
                let i = entries.len() - 1;
                assert(!acceptable(entries[i]));
                assert forall|k: int| 0 <= k < i implies acceptable(#[trigger] entries[k]) by {
                    assert(front[k] == entries[k]);
                }
            } else {
                assert forall|i: int| 0 <= i < entries.len() implies acceptable(
                    #[trigger] entries[i],
                ) by {
                    if i < front.len() {
                        assert(front[i] == entries[i]);
                    }
                }
            }
        } else {
            let i = choose|i: int|
                {
                    &&& 0 <= i < front.len()
                    &&& !acceptable(#[trigger] front[i])
                    &&& absorbed(front) == Err::<RawModel, ConfigFault>(fault_of(front[i]))
                    &&& forall|k: int| 0 <= k < i ==> acceptable(#[trigger] front[k])
                };
            assert(front[i] == entries[i]);
            assert(!acceptable(entries[i]));
            assert forall|k: int| 0 <= k < i implies acceptable(#[trigger] entries[k]) by {
                assert(front[k] == entries[k]);
            }
        }
    }
}

} // verus!
