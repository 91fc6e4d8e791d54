//! A model of what a destination records, and what the steps of a run do
//! to it. The model knows of each path that a step names or makes on its
//! way whether it is a directory or holds the bytes of a file of the source
//! tree, and for a file which times were last set on it. Paths are told apart by what they
//! mean, not by how they are written. Of a directory the model keeps no
//! times: on a file system they change with every entry that is made in
//! the directory, so they are not the plan's to give. The model follows a
//! run in which every step succeeds. It stands for the file system in the
//! laws of this module; the steps themselves are carried out elsewhere.

use vstd::prelude::*;
use crate::actions::{ActionModel, Timestamp};
use crate::config::EffectiveModel;
use crate::mirror::{is_selected, mirror_steps, node_steps, preparation_steps, NodeModel};
use crate::path_laws::{
    lemma_join_appends_names, lemma_names_of_single, lemma_segments_of_plain,
};
use crate::paths::{components, is_absolute, joined_path, model, PathModel};

verus! {

/// What the destination records of a path.
pub enum Record {
    /// A directory.
    Directory,
    /// A file with the bytes of the source file at `source`, and the access
    /// and modification times that were set on it; no times where the file
    /// was written since and has the times of the clock.
    File { source: Seq<char>, times: Option<(Timestamp, Timestamp)> },
}

/// The destination: its paths with what is recorded of each.
pub type Replica = Map<PathModel, Record>;

/// Whether `place` is `root` or lies below it.
pub open spec fn below(place: PathModel, root: PathModel) -> bool {
    &&& place.absolute == root.absolute
    &&& root.names.len() <= place.names.len()
    &&& place.names.take(root.names.len() as int) == root.names
}

/// The destination with a directory at `place` and at every place above it
/// that held nothing yet.
pub open spec fn with_directory(replica: Replica, place: PathModel) -> Replica {
    Map::new(
        |at: PathModel| replica.contains_key(at) || below(place, at),
        |at: PathModel|
            if at == place || !replica.contains_key(at) {
                Record::Directory
            } else {
                replica[at]
            },
    )
}

/// The destination after one step.
pub open spec fn after_step(replica: Replica, step: ActionModel) -> Replica {
    match step {
        ActionModel::RemoveTree(root) => Map::new(
            |place: PathModel| replica.contains_key(place) && !below(place, model(root)),
            |place: PathModel| replica[place],
        ),
        ActionModel::CreateDirAll(path) => with_directory(replica, model(path)),
        ActionModel::CopyFile { from, to } => replica.insert(
            model(to),
            Record::File { source: from, times: None },
        ),
        ActionModel::SetTimes { path, accessed, modified } => if replica.contains_key(
            model(path),
        ) {
            match replica[model(path)] {
                Record::File { source, times } => replica.insert(
                    model(path),
                    Record::File { source, times: Some((accessed, modified)) },
                ),
                Record::Directory => replica,
            }
        } else {
            replica
        },
    }
}

/// The destination after a run of steps.
pub open spec fn after_steps(replica: Replica, steps: Seq<ActionModel>) -> Replica
    decreases steps.len(),
{
    if steps.len() == 0 {
        replica
    } else {
        after_step(after_steps(replica, steps.drop_last()), steps.last())
    }
}

/// What the destination records of a replicated node once its steps are
/// done: for a directory that it is one, for a file its bytes and its
/// times.
pub open spec fn record_of(workspace_root: Seq<char>, node: NodeModel) -> Record {
    if node.is_directory {
        Record::Directory
    } else {
        Record::File {
            source: joined_path(workspace_root, node.relative_path),
            times: Some((node.accessed, node.modified)),
        }
    }
}

/// The place in the destination that a node goes to.
pub open spec fn place_of(dest_root: Seq<char>, node: NodeModel) -> PathModel {
    model(joined_path(dest_root, node.relative_path))
}

/// What the plan writes at `place`: the record of the last replicated node
/// that goes there; none where no node goes there.
pub open spec fn written_at(
    cfg: EffectiveModel,
    workspace_root: Seq<char>,
    dest_root: Seq<char>,
    nodes: Seq<NodeModel>,
    place: PathModel,
) -> Option<Record>
    decreases nodes.len(),
{
    if nodes.len() == 0 {
        None
    } else if is_selected(cfg, nodes.last().relative_path) && place_of(dest_root, nodes.last())
        == place {
        Some(record_of(workspace_root, nodes.last()))
    } else {
        written_at(cfg, workspace_root, dest_root, nodes.drop_last(), place)
    }
}

/// Whether the plan makes a directory at `place` on its way: a replicated
/// directory lies at it or below it.
pub open spec fn made_above(
    cfg: EffectiveModel,
    dest_root: Seq<char>,
    nodes: Seq<NodeModel>,
    place: PathModel,
) -> bool
    decreases nodes.len(),
{
    if nodes.len() == 0 {
        false
    } else {
        made_above(cfg, dest_root, nodes.drop_last(), place) || (is_selected(
            cfg,
            nodes.last().relative_path,
        ) && nodes.last().is_directory && below(place_of(dest_root, nodes.last()), place))
    }
}

/// The destination with everything that the plan writes, and with a
/// directory at every place that the plan makes on its way and that held
/// nothing.
pub open spec fn overwritten(
    replica: Replica,
    cfg: EffectiveModel,
    workspace_root: Seq<char>,
    dest_root: Seq<char>,
    nodes: Seq<NodeModel>,
) -> Replica {
    Map::new(
        |place: PathModel|
            replica.contains_key(place) || written_at(
                cfg,
                workspace_root,
                dest_root,
                nodes,
                place,
            ) is Some || made_above(cfg, dest_root, nodes, place),
        |place: PathModel|
            match written_at(cfg, workspace_root, dest_root, nodes, place) {
                Some(record) => record,
                None => if replica.contains_key(place) {
                    replica[place]
                } else {
                    Record::Directory
                },
            },
    )
}

/// Every place lies below itself, and two places that lie below each other
/// are one place.
pub proof fn lemma_below_orders(a: PathModel, b: PathModel)
    ensures
        below(a, a),
        below(a, b) && below(b, a) ==> a == b,
{
    assert(a.names.take(a.names.len() as int) =~= a.names);
    if below(a, b) && below(b, a) {
        assert(b.names.take(b.names.len() as int) =~= b.names);
        assert(a.names =~= b.names);
    }
}

/// Steps done one run behind another are done as one run.
pub proof fn lemma_steps_compose(replica: Replica, first: Seq<ActionModel>, second: Seq<ActionModel>)
    ensures
        after_steps(replica, first + second) == after_steps(after_steps(replica, first), second),
    decreases second.len(),
{
    if second.len() == 0 {
        assert(first + second =~= first);
    } else {
        assert((first + second).drop_last() =~= first + second.drop_last());
        assert((first + second).last() == second.last());
        lemma_steps_compose(replica, first, second.drop_last());
    }
}

/// A run of one step is that step.
pub proof fn lemma_single_step(replica: Replica, step: ActionModel)
    ensures
        after_steps(replica, seq![step]) == after_step(replica, step),
{
    reveal_with_fuel(after_steps, 2);
    assert(seq![step].drop_last() =~= Seq::<ActionModel>::empty());
    assert(seq![step].last() == step);
}

/// The two steps of a node leave its record at its place, whatever the
/// destination held before; for a directory they also make the
/// directories above it that were missing. They touch nothing else.
pub proof fn lemma_node_steps_write_record(
    replica: Replica,
    workspace_root: Seq<char>,
    dest_root: Seq<char>,
    node: NodeModel,
)
    ensures
        after_steps(replica, node_steps(workspace_root, dest_root, node)) == if node.is_directory {
            with_directory(replica, place_of(dest_root, node))
        } else {
            replica.insert(place_of(dest_root, node), record_of(workspace_root, node))
        },
{
    let steps = node_steps(workspace_root, dest_root, node);
    let place = place_of(dest_root, node);
    assert(steps =~= seq![steps[0]] + seq![steps[1]]);
    lemma_steps_compose(replica, seq![steps[0]], seq![steps[1]]);
    lemma_single_step(replica, steps[0]);
    let mid = after_step(replica, steps[0]);
    lemma_single_step(mid, steps[1]);
    lemma_below_orders(place, place);
    assert(mid.contains_key(place));
    if node.is_directory {
        assert(after_step(mid, steps[1]) =~= with_directory(replica, place));
    } else {
        assert(after_step(mid, steps[1]) =~= replica.insert(
            place,
            record_of(workspace_root, node),
        ));
    }
}

/// After the plan the destination records, at every place that the plan
/// writes, what the node last written there is, and at every other place
/// what it recorded before.
pub proof fn lemma_plan_overwrites(
    replica: Replica,
    cfg: EffectiveModel,
    workspace_root: Seq<char>,
    dest_root: Seq<char>,
    nodes: Seq<NodeModel>,
)
    ensures
        after_steps(replica, mirror_steps(cfg, workspace_root, dest_root, nodes)) == overwritten(
            replica,
            cfg,
            workspace_root,
            dest_root,
            nodes,
        ),
    decreases nodes.len(),
{
    let plan = mirror_steps(cfg, workspace_root, dest_root, nodes);
    if nodes.len() > 0 {
        let front = nodes.drop_last();
        let node = nodes.last();
        let before = mirror_steps(cfg, workspace_root, dest_root, front);
        lemma_plan_overwrites(replica, cfg, workspace_root, dest_root, front);
        if is_selected(cfg, node.relative_path) {
            lemma_steps_compose(replica, before, node_steps(workspace_root, dest_root, node));
            lemma_node_steps_write_record(
                after_steps(replica, before),
                workspace_root,
                dest_root,
                node,
            );
            lemma_below_orders(place_of(dest_root, node), place_of(dest_root, node));
        }
    }
    assert(after_steps(replica, plan) =~= overwritten(
        replica,
        cfg,
        workspace_root,
        dest_root,
        nodes,
    ));
}

/// The copying is idempotent: with the source tree as it was, a second run
/// of the plan leaves the destination as the first run left it, in what
/// every place holds and in the times recorded of every file.
pub proof fn lemma_mirroring_twice_changes_nothing(
    replica: Replica,
    cfg: EffectiveModel,
    workspace_root: Seq<char>,
    dest_root: Seq<char>,
    nodes: Seq<NodeModel>,
)
    ensures
        ({
            let plan = mirror_steps(cfg, workspace_root, dest_root, nodes);
            after_steps(after_steps(replica, plan), plan) == after_steps(replica, plan)
        }),
{
    let plan = mirror_steps(cfg, workspace_root, dest_root, nodes);
    let once = after_steps(replica, plan);
    lemma_plan_overwrites(replica, cfg, workspace_root, dest_root, nodes);
    lemma_plan_overwrites(once, cfg, workspace_root, dest_root, nodes);
    assert(overwritten(once, cfg, workspace_root, dest_root, nodes) =~= once);
}

/// After the plan the destination records for every replicated node, at
/// the node's place, a node that was written there: for a file its bytes
/// and the access and modification times of its source, never a time of
/// the clock.
pub proof fn lemma_recorded_times_are_source_times(
    replica: Replica,
    cfg: EffectiveModel,
    workspace_root: Seq<char>,
    dest_root: Seq<char>,
    nodes: Seq<NodeModel>,
    i: int,
)
    requires
        0 <= i < nodes.len(),
        is_selected(cfg, nodes[i].relative_path),
    ensures
        ({
            let after = after_steps(
                replica,
                mirror_steps(cfg, workspace_root, dest_root, nodes),
            );
            let place = place_of(dest_root, nodes[i]);
            &&& after.contains_key(place)
            &&& exists|j: int|
                {
                    &&& i <= j < nodes.len()
                    &&& is_selected(cfg, #[trigger] nodes[j].relative_path)
                    &&& place_of(dest_root, nodes[j]) == place
                    &&& after[place] == record_of(workspace_root, nodes[j])
                    &&& !nodes[j].is_directory ==> after[place] == (Record::File {
                        source: joined_path(workspace_root, nodes[j].relative_path),
                        times: Some((nodes[j].accessed, nodes[j].modified)),
                    })
                }
        }),
    decreases nodes.len(),
{
    lemma_plan_overwrites(replica, cfg, workspace_root, dest_root, nodes);
    let place = place_of(dest_root, nodes[i]);
    let last = nodes.len() - 1;
    if is_selected(cfg, nodes.last().relative_path) && place_of(dest_root, nodes.last())
        == place {
        assert(nodes[last] == nodes.last());
    } else {
        let front = nodes.drop_last();
        assert(front[i] == nodes[i]);
        lemma_recorded_times_are_source_times(replica, cfg, workspace_root, dest_root, front, i);
        lemma_plan_overwrites(replica, cfg, workspace_root, dest_root, front);
        let shorter = after_steps(replica, mirror_steps(cfg, workspace_root, dest_root, front));
        let j = choose|j: int|
            {
                &&& i <= j < front.len()
                &&& is_selected(cfg, #[trigger] front[j].relative_path)
                &&& place_of(dest_root, front[j]) == place
                &&& shorter[place] == record_of(workspace_root, front[j])
            };
        assert(front[j] == nodes[j]);
    }
}

/// The place of the version-control directory at the top of the
/// destination.
pub open spec fn git_place(dest_root: Seq<char>) -> PathModel {
    model(joined_path(dest_root, ".git"@))
}

/// As on a file system, nothing lies below a place that holds nothing.
pub open spec fn settled_at(replica: Replica, root: PathModel) -> bool {
    replica.contains_key(root) || forall|place: PathModel| #[trigger]
        below(place, root) ==> !replica.contains_key(place)
}

/// The steps of a whole run on a destination: the preparation as what the
/// destination holds asks for it, then the plan.
pub open spec fn run_steps(
    replica: Replica,
    cfg: EffectiveModel,
    workspace_root: Seq<char>,
    dest_root: Seq<char>,
    nodes: Seq<NodeModel>,
) -> Seq<ActionModel> {
    preparation_steps(
        cfg,
        dest_root,
        replica.contains_key(model(dest_root)),
        replica.contains_key(git_place(dest_root)),
    ) + mirror_steps(cfg, workspace_root, dest_root, nodes)
}

/// The destination after a whole run.
pub open spec fn after_run(
    replica: Replica,
    cfg: EffectiveModel,
    workspace_root: Seq<char>,
    dest_root: Seq<char>,
    nodes: Seq<NodeModel>,
) -> Replica {
    after_steps(replica, run_steps(replica, cfg, workspace_root, dest_root, nodes))
}

/// The destination after the preparation: emptied where a clean start is
/// asked for and there is something to empty, then made a directory, then
/// rid of a version-control directory that it still holds where a fresh
/// one is to come.
pub open spec fn prepared(replica: Replica, cfg: EffectiveModel, dest_root: Seq<char>) -> Replica {
    let wipes = cfg.clean && replica.contains_key(model(dest_root));
    let emptied = if wipes {
        after_step(replica, ActionModel::RemoveTree(dest_root))
    } else {
        replica
    };
    let made = after_step(emptied, ActionModel::CreateDirAll(dest_root));
    if cfg.clean_git && replica.contains_key(git_place(dest_root)) && !wipes {
        after_step(made, ActionModel::RemoveTree(joined_path(dest_root, ".git"@)))
    } else {
        made
    }
}

/// The steps of the preparation do what the preparation is.
pub proof fn lemma_preparation_prepares(replica: Replica, cfg: EffectiveModel, dest_root: Seq<char>)
    ensures
        after_steps(
            replica,
            preparation_steps(
                cfg,
                dest_root,
                replica.contains_key(model(dest_root)),
                replica.contains_key(git_place(dest_root)),
            ),
        ) == prepared(replica, cfg, dest_root),
{
    let wipes = cfg.clean && replica.contains_key(model(dest_root));
    let purges = cfg.clean_git && replica.contains_key(git_place(dest_root)) && !wipes;
    let none = Seq::<ActionModel>::empty();
    let wipe = ActionModel::RemoveTree(dest_root);
    let make = ActionModel::CreateDirAll(dest_root);
    let purge = ActionModel::RemoveTree(joined_path(dest_root, ".git"@));
    let first = if wipes {
        seq![wipe]
    } else {
        none
    };
    let third = if purges {
        seq![purge]
    } else {
        none
    };
    lemma_steps_compose(replica, first + seq![make], third);
    lemma_steps_compose(replica, first, seq![make]);
    lemma_single_step(replica, wipe);
    let emptied = after_steps(replica, first);
    lemma_single_step(emptied, make);
    let made = after_step(emptied, make);
    lemma_single_step(made, purge);
}

/// What the plan writes lies below the destination root and is not the
/// root itself.
pub proof fn lemma_written_lies_below_destination(
    cfg: EffectiveModel,
    workspace_root: Seq<char>,
    dest_root: Seq<char>,
    nodes: Seq<NodeModel>,
    place: PathModel,
)
    requires
        written_at(cfg, workspace_root, dest_root, nodes, place) is Some,
    ensures
        below(place, model(dest_root)),
        place.names.len() > components(dest_root).len(),
    decreases nodes.len(),
{
    if is_selected(cfg, nodes.last().relative_path) && place_of(dest_root, nodes.last())
        == place {
        let rel = nodes.last().relative_path;
        lemma_join_appends_names(dest_root, rel);
        assert((components(dest_root) + components(rel)).take(components(dest_root).len() as int)
            =~= components(dest_root));
    } else {
        lemma_written_lies_below_destination(
            cfg,
            workspace_root,
            dest_root,
            nodes.drop_last(),
            place,
        );
    }
}

/// A place at which the plan makes a directory on its way lies on the
/// line through the destination root: at or below the root where it has as
/// many names as the root or more, at or above it where it has as many or
/// fewer.
pub proof fn lemma_made_above_lies_on_line(
    cfg: EffectiveModel,
    dest_root: Seq<char>,
    nodes: Seq<NodeModel>,
    place: PathModel,
)
    requires
        made_above(cfg, dest_root, nodes, place),
    ensures
        place.names.len() >= components(dest_root).len() ==> below(place, model(dest_root)),
        place.names.len() <= components(dest_root).len() ==> below(model(dest_root), place),
    decreases nodes.len(),
{
    if made_above(cfg, dest_root, nodes.drop_last(), place) {
        lemma_made_above_lies_on_line(cfg, dest_root, nodes.drop_last(), place);
    } else {
        let rel = nodes.last().relative_path;
        let names = components(dest_root) + components(rel);
        lemma_join_appends_names(dest_root, rel);
        let count = place.names.len() as int;
        let root = components(dest_root).len() as int;
        if count >= root {
            assert(place.names.take(root) =~= names.take(count).take(root));
            assert(names.take(count).take(root) =~= components(dest_root));
        }
        if count <= root {
            assert(components(dest_root).take(count) =~= names.take(count));
        }
    }
}

/// The place of the version-control directory lies right below the
/// destination root.
pub proof fn lemma_git_place_lies_below_destination(dest_root: Seq<char>)
    ensures
        git_place(dest_root).absolute == is_absolute(dest_root),
        git_place(dest_root).names == components(dest_root).push(".git"@),
        below(git_place(dest_root), model(dest_root)),
        !below(model(dest_root), git_place(dest_root)),
{
    let name = ".git"@;
    reveal_strlit(".git");
    assert(name.len() == 4);
    assert(seq!['.'].len() == 1);
    lemma_segments_of_plain(name);
    lemma_names_of_single(name);
    lemma_join_appends_names(dest_root, name);
    assert(components(dest_root) + seq![name] =~= components(dest_root).push(name));
    assert(components(dest_root).push(name).take(components(dest_root).len() as int)
        =~= components(dest_root));
}

/// A whole run is idempotent: with the source tree as it was, a second
/// run, prepared as what the first run left asks for it, leaves the
/// destination as the first run left it, in what every place holds and in
/// the times recorded of every file. What was stale in the destination is
/// gone after the first run already where a clean start is asked for.
pub proof fn lemma_running_twice_changes_nothing(
    replica: Replica,
    cfg: EffectiveModel,
    workspace_root: Seq<char>,
    dest_root: Seq<char>,
    nodes: Seq<NodeModel>,
)
    requires
        settled_at(replica, model(dest_root)),
        settled_at(replica, git_place(dest_root)),
    ensures
        ({
            let once = after_run(replica, cfg, workspace_root, dest_root, nodes);
            after_run(once, cfg, workspace_root, dest_root, nodes) == once
        }),
{
    let root = model(dest_root);
    let git = git_place(dest_root);
    let plan = mirror_steps(cfg, workspace_root, dest_root, nodes);
    lemma_git_place_lies_below_destination(dest_root);

    let ready = prepared(replica, cfg, dest_root);
    lemma_preparation_prepares(replica, cfg, dest_root);
    lemma_steps_compose(
        replica,
        preparation_steps(cfg, dest_root, replica.contains_key(root), replica.contains_key(git)),
        plan,
    );
    lemma_plan_overwrites(ready, cfg, workspace_root, dest_root, nodes);
    let once = after_run(replica, cfg, workspace_root, dest_root, nodes);
    assert(once == overwritten(ready, cfg, workspace_root, dest_root, nodes));

    let again = prepared(once, cfg, dest_root);
    lemma_preparation_prepares(once, cfg, dest_root);
    lemma_steps_compose(
        once,
        preparation_steps(cfg, dest_root, once.contains_key(root), once.contains_key(git)),
        plan,
    );
    lemma_plan_overwrites(again, cfg, workspace_root, dest_root, nodes);
    let twice = after_run(once, cfg, workspace_root, dest_root, nodes);
    assert(twice == overwritten(again, cfg, workspace_root, dest_root, nodes));

    lemma_below_orders(root, root);
    assert(ready.contains_key(root) && ready[root] == Record::Directory);
    assert(written_at(cfg, workspace_root, dest_root, nodes, root) is None) by {
        if written_at(cfg, workspace_root, dest_root, nodes, root) is Some {
            lemma_written_lies_below_destination(cfg, workspace_root, dest_root, nodes, root);
        }
    }
    assert(once.contains_key(root) && once[root] == Record::Directory);

    assert forall|place: PathModel|
        twice.contains_key(place) == once.contains_key(place) && (once.contains_key(place)
            ==> twice[place] == once[place]) by {
        let written = written_at(cfg, workspace_root, dest_root, nodes, place);
        if written is Some {
            lemma_written_lies_below_destination(cfg, workspace_root, dest_root, nodes, place);
        }
        if made_above(cfg, dest_root, nodes, place) {
            lemma_made_above_lies_on_line(cfg, dest_root, nodes, place);
        }
        lemma_below_orders(place, root);
        lemma_below_orders(root, place);
        if cfg.clean {
            if below(place, root) && place != root {
                assert(!ready.contains_key(place)) by {
                    if !replica.contains_key(root) {
                        assert(below(place, root));
                    }
                }
                assert(!again.contains_key(place));
            }
        } else if cfg.clean_git && once.contains_key(git) {
            if below(place, git) {
                assert(place != root);
                assert(!below(root, place));
                assert(!ready.contains_key(place)) by {
                    if !replica.contains_key(git) {
                        assert(below(place, git));
                    }
                }
                assert(!again.contains_key(place));
            }
        }
    }
    assert(twice =~= once);
}

} // verus!
