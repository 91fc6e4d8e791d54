//! Mirroring: which entries of the source tree are replicated, and by which
//! steps.

use vstd::prelude::*;
use vstd::string::*;
use crate::actions::{action_models, ActionModel, FsAction, Timestamp};
use crate::config::{EffectiveConfig, EffectiveModel};
use crate::paths::{components, is_absolute, join, joined_path, read_path};
use crate::text::{chars_equal, string_rows, to_chars};

verus! {

/// One node of the source tree.
#[derive(Clone, Debug, PartialEq, Eq)]
pub struct MirrorEntry {
    /// The node's path as seen from the workspace root.
    pub relative_path: String,
    pub is_directory: bool,
    pub modified: Timestamp,
    pub accessed: Timestamp,
}

/// What a [`MirrorEntry`] means.
pub struct NodeModel {
    pub relative_path: Seq<char>,
    pub is_directory: bool,
    pub modified: Timestamp,
    pub accessed: Timestamp,
}

impl View for MirrorEntry {
    type V = NodeModel;

    open spec fn view(&self) -> NodeModel {
        NodeModel {
            relative_path: self.relative_path@,
            is_directory: self.is_directory,
            modified: self.modified,
            accessed: self.accessed,
        }
    }
}

/// What a sequence of entries means.
pub open spec fn node_models(entries: Seq<MirrorEntry>) -> Seq<NodeModel> {
    Seq::new(entries.len(), |i: int| entries[i]@)
}

/// The patterns handed to a tree walker: everything, less the
/// version-control directory and the build-output directory at the top of
/// the tree, unless the settings take them along.
pub open spec fn pattern_set(cfg: EffectiveModel) -> Seq<Seq<char>> {
    seq!["**"@] + (if cfg.include_git {
        Seq::<Seq<char>>::empty()
    } else {
        seq!["!/.git"@]
    }) + (if cfg.include_target {
        Seq::<Seq<char>>::empty()
    } else {
        seq!["!/target"@]
    })
}

/// Whether the node at `relative_path` is replicated: it lies below the
/// root, and its first name is neither a version-control directory that
/// stays out nor a build-output directory that stays out. The same names
/// deeper in the tree are replicated.
pub open spec fn is_selected(cfg: EffectiveModel, relative_path: Seq<char>) -> bool {
    let names = components(relative_path);
    &&& !is_absolute(relative_path)
    &&& names.len() > 0
    &&& names[0] == ".git"@ ==> cfg.include_git
    &&& names[0] == "target"@ ==> cfg.include_target
}

/// The steps that replicate one node: materialize it, then give it the
/// times of its source.
pub open spec fn node_steps(workspace_root: Seq<char>, dest_root: Seq<char>, node: NodeModel) -> Seq<
    ActionModel,
> {
    let to = joined_path(dest_root, node.relative_path);
    let stamp = ActionModel::SetTimes { path: to, accessed: node.accessed, modified: node.modified };
    if node.is_directory {
        seq![ActionModel::CreateDirAll(to), stamp]
    } else {
        seq![
            ActionModel::CopyFile { from: joined_path(workspace_root, node.relative_path), to: to },
            stamp,
        ]
    }
}

/// The steps that replicate the selected nodes, in the order of the nodes.
pub open spec fn mirror_steps(
    cfg: EffectiveModel,
    workspace_root: Seq<char>,
    dest_root: Seq<char>,
    nodes: Seq<NodeModel>,
) -> Seq<ActionModel>
    decreases nodes.len(),
{
    if nodes.len() == 0 {
        Seq::<ActionModel>::empty()
    } else {
        let before = mirror_steps(cfg, workspace_root, dest_root, nodes.drop_last());
        if is_selected(cfg, nodes.last().relative_path) {
            before + node_steps(workspace_root, dest_root, nodes.last())
        } else {
            before
        }
    }
}

/// Whether a clean start removes the destination.
pub open spec fn wipes_destination(cfg: EffectiveModel, dest_exists: bool) -> bool {
    cfg.clean && dest_exists
}

/// The steps before any node is replicated. A destination that exists is
/// removed where a clean start is asked for; the destination is created;
/// a version-control directory that the destination still holds is removed
/// where a fresh one is about to be copied.
pub open spec fn preparation_steps(
    cfg: EffectiveModel,
    dest_root: Seq<char>,
    dest_exists: bool,
    git_exists: bool,
) -> Seq<ActionModel> {
    (if wipes_destination(cfg, dest_exists) {
        seq![ActionModel::RemoveTree(dest_root)]
    } else {
        Seq::<ActionModel>::empty()
    }) + seq![ActionModel::CreateDirAll(dest_root)] + (if cfg.clean_git && git_exists
        && !wipes_destination(cfg, dest_exists) {
        seq![ActionModel::RemoveTree(joined_path(dest_root, ".git"@))]
    } else {
        Seq::<ActionModel>::empty()
    })
}

/// The patterns for the tree walker.
pub fn mirror_patterns(cfg: &EffectiveConfig) -> (patterns: Vec<String>)
    ensures
        string_rows(patterns@) == pattern_set(cfg@),
{
    let mut patterns: Vec<String> = Vec::new();
    patterns.push(String::from_str("**"));
    if !cfg.include_git {
        patterns.push(String::from_str("!/.git"));
    }
    if !cfg.include_target {
        patterns.push(String::from_str("!/target"));
    }
    assert(string_rows(patterns@) =~= pattern_set(cfg@));
    patterns
}

/// Whether the node at `relative_path` is replicated.
pub fn selects(cfg: &EffectiveConfig, relative_path: &str) -> (yes: bool)
    ensures
        yes == is_selected(cfg@, relative_path@),
{
    let p = read_path(&to_chars(relative_path));
    if p.absolute || p.names.len() == 0 {
        return false;
    }
    let first = &p.names[0];
    if !cfg.include_git && chars_equal(first, &to_chars(".git")) {
        return false;
    }
    if !cfg.include_target && chars_equal(first, &to_chars("target")) {
        return false;
    }
    true
}

/// The steps that replicate one node.
pub fn entry_actions(workspace_root: &str, dest_root: &str, entry: &MirrorEntry) -> (steps: Vec<
    FsAction,
>)
    ensures
        action_models(steps@) == node_steps(workspace_root@, dest_root@, entry@),
{
    let to = join(dest_root, entry.relative_path.as_str());
    let mut steps: Vec<FsAction> = Vec::new();
    if entry.is_directory {
        steps.push(FsAction::CreateDirAll(to.clone()));
    } else {
        let from = join(workspace_root, entry.relative_path.as_str());
        steps.push(FsAction::CopyFile { from, to: to.clone() });
    }
    steps.push(FsAction::SetTimes { path: to, accessed: entry.accessed, modified: entry.modified });
    assert(action_models(steps@) =~= node_steps(workspace_root@, dest_root@, entry@));
    steps
}

/// The steps before any node is replicated, from what the destination holds
/// before the run: whether it exists, and whether it holds a
/// version-control directory at its top.
pub fn prepare_destination(
    cfg: &EffectiveConfig,
    dest_root: &str,
    dest_exists: bool,
    git_exists: bool,
) -> (steps: Vec<FsAction>)
    ensures
        action_models(steps@) == preparation_steps(cfg@, dest_root@, dest_exists, git_exists),
{
    let mut steps: Vec<FsAction> = Vec::new();
    let wipes = cfg.clean && dest_exists;
    if wipes {
        steps.push(FsAction::RemoveTree(String::from_str(dest_root)));
    }
    steps.push(FsAction::CreateDirAll(String::from_str(dest_root)));
    if cfg.clean_git && git_exists && !wipes {
        steps.push(FsAction::RemoveTree(join(dest_root, ".git")));
    }
    assert(action_models(steps@) =~= preparation_steps(
        cfg@,
        dest_root@,
        dest_exists,
        git_exists,
    ));
    steps
}

/// The steps that replicate the selected entries, in the order of the
/// entries: an entry that comes before another is materialized before it.
pub fn plan_mirror(
    cfg: &EffectiveConfig,
    workspace_root: &str,
    dest_root: &str,
    entries: &Vec<MirrorEntry>,
) -> (steps: Vec<FsAction>)
    ensures
        action_models(steps@) == mirror_steps(
            cfg@,
            workspace_root@,
            dest_root@,
            node_models(entries@),
        ),
{
    let mut steps: Vec<FsAction> = Vec::new();
    let mut i: usize = 0;
    assert(node_models(entries@).take(0) =~= Seq::<NodeModel>::empty());
    assert(action_models(steps@) =~= Seq::<ActionModel>::empty());
    while i < entries.len()
        invariant
            i <= entries.len(),
            action_models(steps@) == mirror_steps(
                cfg@,
                workspace_root@,
                dest_root@,
                node_models(entries@).take(i as int),
            ),
        decreases entries.len() - i,
    {
        proof {
            let now = node_models(entries@).take(i + 1);
            assert(now.drop_last() =~= node_models(entries@).take(i as int));
            assert(now.last() == entries@[i as int]@);
        }
        if selects(cfg, entries[i].relative_path.as_str()) {
            let mut more = entry_actions(workspace_root, dest_root, &entries[i]);
            let ghost before = action_models(steps@);
            let ghost added = action_models(more@);
            steps.append(&mut more);
            assert(action_models(steps@) =~= before + added);
        }
        i += 1;
    }
    assert(node_models(entries@).take(entries.len() as int) =~= node_models(entries@));
    steps
}

} // verus!
