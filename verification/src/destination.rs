//! Where the mirror lies: the destination root of a workspace.

use vstd::prelude::*;
use crate::config::{EffectiveConfig, EffectiveModel};
use crate::outside::home_directory;
use crate::paths::{
    file_name, join_chars, joined_path, last_name, normalize_chars, normalized,
};
use crate::path_laws::{free_of_parent_marks, lemma_normalized_is_normal};
use crate::paths::components;
use crate::text::{
    append_chars, chars_equal, chars_from, chars_start_with, from_chars, optional_str,
    starts_with, to_chars,
};

verus! {

/// Why no destination root can be named.
#[derive(Clone, Copy, Debug, PartialEq, Eq)]
pub enum DestinationError {
    /// The workspace root has no name and the settings give none.
    NoProjectName,
    /// The base directory lies under the home directory, which is unknown.
    HomeUnknown,
}

/// The name of the project directory: the one from the settings, else the
/// last name of the workspace root.
pub open spec fn project_name(cfg: EffectiveModel, workspace_root: Seq<char>) -> Option<
    Seq<char>,
> {
    match cfg.project_dir_override {
        Some(name) => Some(name),
        None => last_name(workspace_root),
    }
}

/// Whether `path` is written from the home directory: it is `~`, or starts
/// with `~/`.
pub open spec fn mentions_home(path: Seq<char>) -> bool {
    path == "~"@ || starts_with(path, "~/"@)
}

/// `path` with a leading `~` replaced by `home`.
pub open spec fn untilded(path: Seq<char>, home: Seq<char>) -> Seq<char> {
    if mentions_home(path) {
        home + path.skip("~"@.len() as int)
    } else {
        path
    }
}

/// The directory under which the project directory lies: the one from the
/// settings with a leading `~` replaced, else `tmp` under the home
/// directory. None where the home directory is needed and unknown.
pub open spec fn base_dir(cfg: EffectiveModel, home: Option<Seq<char>>) -> Option<Seq<char>> {
    match cfg.dest_base_dir {
        Some(dir) => if mentions_home(dir) {
            match home {
                Some(h) => Some(untilded(dir, h)),
                None => None,
            }
        } else {
            Some(dir)
        },
        None => match home {
            Some(h) => Some(joined_path(h, "tmp"@)),
            None => None,
        },
    }
}

/// The destination root: the project directory under the base directory,
/// in normal form.
pub open spec fn destination(
    cfg: EffectiveModel,
    workspace_root: Seq<char>,
    home: Option<Seq<char>>,
) -> Result<Seq<char>, DestinationError> {
    match project_name(cfg, workspace_root) {
        None => Err(DestinationError::NoProjectName),
        Some(name) => match base_dir(cfg, home) {
            None => Err(DestinationError::HomeUnknown),
            Some(base) => Ok(normalized(joined_path(base, name))),
        },
    }
}

/// The name of the project directory.
pub fn get_project_dir(cfg: &EffectiveConfig, workspace_root: &str) -> (name: Option<String>)
    ensures
        match name {
            Some(n) => project_name(cfg@, workspace_root@) == Some(n@),
            None => project_name(cfg@, workspace_root@) is None,
        },
{
    match &cfg.project_dir_override {
        Some(name) => Some(name.clone()),
        None => file_name(workspace_root),
    }
}

/// Replaces a leading `~` of `path` by `home`.
pub fn untilde(path: &str, home: &str) -> (out: String)
    ensures
        out@ == untilded(path@, home@),
{
    let chars = to_chars(path);
    proof {
        reveal_strlit("~");
        reveal_strlit("~/");
    }
    if chars_equal(&chars, &to_chars("~")) || chars_start_with(&chars, &to_chars("~/")) {
        let mut out = to_chars(home);
        append_chars(&mut out, &chars_from(&chars, 1));
        from_chars(&out)
    } else {
        from_chars(&chars)
    }
}

/// Whether `path` is written from the home directory.
pub fn starts_at_home(path: &str) -> (yes: bool)
    ensures
        yes == mentions_home(path@),
{
    let chars = to_chars(path);
    chars_equal(&chars, &to_chars("~")) || chars_start_with(&chars, &to_chars("~/"))
}

/// The destination root for a home directory that is given.
pub fn destination_root(cfg: &EffectiveConfig, workspace_root: &str, home: Option<&str>) -> (out:
    Result<String, DestinationError>)
    ensures
        match out {
            Ok(root) => destination(cfg@, workspace_root@, optional_str(home)) == Ok::<
                Seq<char>,
                DestinationError,
            >(root@),
            Err(e) => destination(cfg@, workspace_root@, optional_str(home)) == Err::<
                Seq<char>,
                DestinationError,
            >(e),
        },
{
    let name = match get_project_dir(cfg, workspace_root) {
        Some(n) => n,
        None => {
            return Err(DestinationError::NoProjectName);
        },
    };
    let base: String = match &cfg.dest_base_dir {
        Some(dir) => {
            if starts_at_home(dir.as_str()) {
                match home {
                    Some(h) => untilde(dir.as_str(), h),
                    None => {
                        return Err(DestinationError::HomeUnknown);
                    },
                }
            } else {
                dir.clone()
            }
        },
        None => match home {
            Some(h) => from_chars(&join_chars(&to_chars(h), &to_chars("tmp"))),
            None => {
                return Err(DestinationError::HomeUnknown);
            },
        },
    };
    let whole = join_chars(&to_chars(base.as_str()), &to_chars(name.as_str()));
    Ok(from_chars(&normalize_chars(&whole)))
}

/// The destination root, with the home directory of the current user.
pub fn get_destination_dir(cfg: &EffectiveConfig, workspace_root: &str) -> (out: Result<
    String,
    DestinationError,
>)
    ensures
        exists|home: Option<Seq<char>>|
            match out {
                Ok(root) => #[trigger] destination(cfg@, workspace_root@, home) == Ok::<
                    Seq<char>,
                    DestinationError,
                >(root@),
                Err(e) => #[trigger] destination(cfg@, workspace_root@, home) == Err::<
                    Seq<char>,
                    DestinationError,
                >(e),
            },
{
    let home = home_directory();
    let out = match &home {
        Some(h) => destination_root(cfg, workspace_root, Some(h.as_str())),
        None => destination_root(cfg, workspace_root, None),
    };
    proof {
        let ghost_home: Option<Seq<char>> = match home {
            Some(h) => Some(h@),
            None => None,
        };
        assert(match out {
            Ok(root) => destination(cfg@, workspace_root@, ghost_home) == Ok::<
                Seq<char>,
                DestinationError,
            >(root@),
            Err(e) => destination(cfg@, workspace_root@, ghost_home) == Err::<
                Seq<char>,
                DestinationError,
            >(e),
        });
    }
    out
}

/// A destination root is in normal form: none of its names is `..`, it holds
/// no doubled separator and no `.` segment, and normalizing it changes
/// nothing.
pub proof fn lemma_destination_is_normal(
    cfg: EffectiveModel,
    workspace_root: Seq<char>,
    home: Option<Seq<char>>,
)
    requires
        destination(cfg, workspace_root, home) is Ok,
    ensures
        ({
            let root = destination(cfg, workspace_root, home)->Ok_0;
            &&& normalized(root) == root
            &&& free_of_parent_marks(components(root))
        }),
{
    let name = project_name(cfg, workspace_root)->0;
    let base = base_dir(cfg, home)->0;
    lemma_normalized_is_normal(joined_path(base, name));
}

} // verus!
