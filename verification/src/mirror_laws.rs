//! What holds of a mirror plan: where the steps of an entry stand in it,
//! that the times of an entry follow its materialization, and that the
//! plan keeps the order of the entries.

use vstd::prelude::*;
use crate::actions::ActionModel;
use crate::config::EffectiveModel;
use crate::mirror::{is_selected, mirror_steps, node_steps, NodeModel};
use crate::path_laws::lemma_joined_lies_under_base;
use crate::paths::{components, is_under, joined, joined_path, relative_to};

verus! {

/// How many of `nodes` are replicated.
pub open spec fn selected_count(cfg: EffectiveModel, nodes: Seq<NodeModel>) -> nat
    decreases nodes.len(),
{
    if nodes.len() == 0 {
        0
    } else {
        selected_count(cfg, nodes.drop_last()) + if is_selected(cfg, nodes.last().relative_path) {
            1nat
        } else {
            0nat
        }
    }
}

/// Where the steps of entry `i` start in the plan: two steps behind each
/// replicated entry before it.
pub open spec fn offset_of(cfg: EffectiveModel, nodes: Seq<NodeModel>, i: int) -> int {
    2 * (selected_count(cfg, nodes.take(i)) as int)
}

/// A plan holds two steps for each replicated entry.
pub proof fn lemma_plan_length(
    cfg: EffectiveModel,
    workspace_root: Seq<char>,
    dest_root: Seq<char>,
    nodes: Seq<NodeModel>,
)
    ensures
        mirror_steps(cfg, workspace_root, dest_root, nodes).len() == 2 * selected_count(
            cfg,
            nodes,
        ),
    decreases nodes.len(),
{
    if nodes.len() > 0 {
        lemma_plan_length(cfg, workspace_root, dest_root, nodes.drop_last());
    }
}

/// The count of replicated entries grows with the entries counted.
pub proof fn lemma_count_grows(cfg: EffectiveModel, nodes: Seq<NodeModel>, a: int, b: int)
    requires
        0 <= a <= b <= nodes.len(),
    ensures
        selected_count(cfg, nodes.take(a)) <= selected_count(cfg, nodes.take(b)),
        a < b && is_selected(cfg, nodes[a].relative_path) ==> selected_count(cfg, nodes.take(a))
            < selected_count(cfg, nodes.take(b)),
    decreases b - a,
{
    if a < b {
        assert(nodes.take(b).drop_last() =~= nodes.take(b - 1));
        assert(nodes.take(b).last() == nodes[b - 1]);
        lemma_count_grows(cfg, nodes, a, b - 1);
    }
}

/// For every replicated entry the plan holds, at the entry's place, the
/// step that materializes it and right behind it the step that gives the
/// destination the access and modification times of the entry: no other
/// time enters the plan.
pub proof fn lemma_times_follow_materialization(
    cfg: EffectiveModel,
    workspace_root: Seq<char>,
    dest_root: Seq<char>,
    nodes: Seq<NodeModel>,
    i: int,
)
    requires
        0 <= i < nodes.len(),
        is_selected(cfg, nodes[i].relative_path),
    ensures
        ({
            let plan = mirror_steps(cfg, workspace_root, dest_root, nodes);
            let at = offset_of(cfg, nodes, i);
            let to = joined_path(dest_root, nodes[i].relative_path);
            &&& 0 <= at
            &&& at + 2 <= plan.len()
            &&& plan[at] == node_steps(workspace_root, dest_root, nodes[i])[0]
            &&& plan[at] == if nodes[i].is_directory {
                ActionModel::CreateDirAll(to)
            } else {
                ActionModel::CopyFile {
                    from: joined_path(workspace_root, nodes[i].relative_path),
                    to: to,
                }
            }
            &&& plan[at + 1] == ActionModel::SetTimes {
                path: to,
                accessed: nodes[i].accessed,
                modified: nodes[i].modified,
            }
        }),
    decreases nodes.len(),
{
    let front = nodes.drop_last();
    let before = mirror_steps(cfg, workspace_root, dest_root, front);
    lemma_plan_length(cfg, workspace_root, dest_root, front);
    if i == nodes.len() - 1 {
        assert(nodes.take(i) =~= front);
    } else {
        assert(front.take(i) =~= nodes.take(i));
        assert(front[i] == nodes[i]);
        lemma_times_follow_materialization(cfg, workspace_root, dest_root, front, i);
    }
}

/// The plan keeps the order of the entries: of two replicated entries the
/// one that comes first has both its steps before the steps of the other.
/// A directory listed before what lies in it is created before that.
pub proof fn lemma_plan_follows_entry_order(cfg: EffectiveModel, nodes: Seq<NodeModel>, i: int, j: int)
    requires
        0 <= i < j < nodes.len(),
        is_selected(cfg, nodes[i].relative_path),
    ensures
        offset_of(cfg, nodes, i) + 2 <= offset_of(cfg, nodes, j),
{
    lemma_count_grows(cfg, nodes, i, j);
}

/// An entry that is not replicated adds no step to the plan.
pub proof fn lemma_unselected_adds_nothing(
    cfg: EffectiveModel,
    workspace_root: Seq<char>,
    dest_root: Seq<char>,
    nodes: Seq<NodeModel>,
    node: NodeModel,
)
    requires
        !is_selected(cfg, node.relative_path),
    ensures
        mirror_steps(cfg, workspace_root, dest_root, nodes.push(node)) == mirror_steps(
            cfg,
            workspace_root,
            dest_root,
            nodes,
        ),
{
    assert(nodes.push(node).drop_last() =~= nodes);
}

/// The destination of a replicated entry lies under the destination root,
/// and seen from there it is the entry's path from the workspace root.
pub proof fn lemma_destination_keeps_relative_path(
    cfg: EffectiveModel,
    dest_root: Seq<char>,
    relative_path: Seq<char>,
)
    requires
        is_selected(cfg, relative_path),
    ensures
        is_under(joined_path(dest_root, relative_path), dest_root),
        relative_to(joined_path(dest_root, relative_path), dest_root) == Some(
            joined(components(relative_path)),
        ),
{
    lemma_joined_lies_under_base(dest_root, relative_path);
}

} // verus!
