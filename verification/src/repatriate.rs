//! Bringing artifacts back: from their place in the mirror to the same
//! place in the workspace.

use vstd::prelude::*;
use crate::actions::{action_models, ActionModel, FsAction};
use crate::harvest::{artifact_models, ArtifactModel, ArtifactPath};
use crate::path_laws::{lemma_joined_lies_under_base, lemma_relative_reads_back};
use crate::paths::{
    is_under, join, joined_path, parent, parent_of, relative_to, strip_prefix,
};

verus! {

/// Why an artifact cannot be brought back.
#[derive(Clone, Debug, PartialEq, Eq)]
pub enum RepatriateError {
    /// The artifact does not lie in the mirror; holds its path.
    OutsideMirror(String),
}

/// What a [`RepatriateError`] means.
pub enum RepatriateFault {
    OutsideMirror(Seq<char>),
}

impl View for RepatriateError {
    type V = RepatriateFault;

    open spec fn view(&self) -> RepatriateFault {
        match self {
            RepatriateError::OutsideMirror(p) => RepatriateFault::OutsideMirror(p@),
        }
    }
}

/// The place in the workspace that stands where `artifact` stands in the
/// mirror; none where it does not lie in the mirror.
pub open spec fn origin_of(artifact: Seq<char>, dest_root: Seq<char>, workspace_root: Seq<char>)
    -> Option<Seq<char>> {
    match relative_to(artifact, dest_root) {
        Some(rel) => Some(joined_path(workspace_root, rel)),
        None => None,
    }
}

/// The steps that bring one artifact back: create the directory that is to
/// hold it, then copy it. An origin that has no parent takes no step.
pub open spec fn return_steps(artifact: Seq<char>, dest_root: Seq<char>, workspace_root: Seq<char>)
    -> Result<Seq<ActionModel>, RepatriateFault> {
    match origin_of(artifact, dest_root, workspace_root) {
        None => Err(RepatriateFault::OutsideMirror(artifact)),
        Some(origin) => match parent_of(origin) {
            Some(dir) => Ok(
                seq![
                    ActionModel::CreateDirAll(dir),
                    ActionModel::CopyFile { from: artifact, to: origin },
                ],
            ),
            None => Ok(Seq::<ActionModel>::empty()),
        },
    }
}

/// What becomes of a run of artifacts.
#[derive(Clone, Debug, PartialEq, Eq)]
pub struct Repatriation {
    /// The steps to take, in their order.
    pub steps: Vec<FsAction>,
    /// Why the run ends after these steps, where it ends early.
    pub failure: Option<RepatriateError>,
}

/// What a [`Repatriation`] means.
pub struct RepatriationModel {
    pub steps: Seq<ActionModel>,
    pub failure: Option<RepatriateFault>,
}

impl View for Repatriation {
    type V = RepatriationModel;

    open spec fn view(&self) -> RepatriationModel {
        RepatriationModel {
            steps: action_models(self.steps@),
            failure: match self.failure {
                Some(e) => Some(e@),
                None => None,
            },
        }
    }
}

/// The artifacts are brought back one by one, in their order. The first
/// one that does not lie in the mirror ends the run with its error; the
/// steps of every artifact before it are kept, so that what came before is
/// brought back all the same. Nothing behind it is looked at.
pub open spec fn repatriation(
    artifacts: Seq<ArtifactModel>,
    dest_root: Seq<char>,
    workspace_root: Seq<char>,
) -> RepatriationModel
    decreases artifacts.len(),
{
    if artifacts.len() == 0 {
        RepatriationModel { steps: Seq::<ActionModel>::empty(), failure: None }
    } else {
        let before = repatriation(artifacts.drop_last(), dest_root, workspace_root);
        if before.failure is Some {
            before
        } else {
            match return_steps(artifacts.last().path, dest_root, workspace_root) {
                Err(fault) => RepatriationModel { steps: before.steps, failure: Some(fault) },
                Ok(steps) => RepatriationModel { steps: before.steps + steps, failure: None },
            }
        }
    }
}

/// The steps that bring one artifact back.
pub fn artifact_actions(artifact: &str, dest_root: &str, workspace_root: &str) -> (out: Result<
    Vec<FsAction>,
    RepatriateError,
>)
    ensures
        match out {
            Ok(steps) => return_steps(artifact@, dest_root@, workspace_root@) == Ok::<
                Seq<ActionModel>,
                RepatriateFault,
            >(action_models(steps@)),
            Err(e) => return_steps(artifact@, dest_root@, workspace_root@) == Err::<
                Seq<ActionModel>,
                RepatriateFault,
            >(e@),
        },
{
    let rel = match strip_prefix(artifact, dest_root) {
        Some(rel) => rel,
        None => {
            return Err(RepatriateError::OutsideMirror(artifact.to_owned()));
        },
    };
    let origin = join(workspace_root, rel.as_str());
    let mut steps: Vec<FsAction> = Vec::new();
    match parent(origin.as_str()) {
        Some(dir) => {
            steps.push(FsAction::CreateDirAll(dir));
            steps.push(FsAction::CopyFile { from: artifact.to_owned(), to: origin });
            assert(action_models(steps@) =~= seq![
                ActionModel::CreateDirAll(dir@),
                ActionModel::CopyFile { from: artifact@, to: origin@ },
            ]);
        },
        None => {
            assert(action_models(steps@) =~= Seq::<ActionModel>::empty());
        },
    }
    Ok(steps)
}

/// Once a prefix of the artifacts has failed, the whole run ends as that
/// prefix ends: with the same steps and the same error.
pub proof fn lemma_failure_stays(
    artifacts: Seq<ArtifactModel>,
    n: int,
    dest_root: Seq<char>,
    workspace_root: Seq<char>,
)
    requires
        0 <= n <= artifacts.len(),
        repatriation(artifacts.take(n), dest_root, workspace_root).failure is Some,
    ensures
        repatriation(artifacts, dest_root, workspace_root) == repatriation(
            artifacts.take(n),
            dest_root,
            workspace_root,
        ),
    decreases artifacts.len(),
{
    if n < artifacts.len() {
        assert(artifacts.drop_last().take(n) =~= artifacts.take(n));
        lemma_failure_stays(artifacts.drop_last(), n, dest_root, workspace_root);
    } else {
        assert(artifacts.take(n) =~= artifacts);
    }
}

/// The steps that bring the artifacts back into the workspace, one
/// artifact after the other. Where an artifact does not lie in the mirror,
/// the steps of the artifacts before it are handed out together with the
/// error of that artifact: they are to be taken before the error is
/// reported. No artifacts, no steps.
pub fn copy_artifacts(dest_root: &str, workspace_root: &str, artifacts: &Vec<ArtifactPath>) -> (out:
    Repatriation)
    ensures
        out@ == repatriation(artifact_models(artifacts@), dest_root@, workspace_root@),
{
    let ghost all = artifact_models(artifacts@);
    let mut steps: Vec<FsAction> = Vec::new();
    let mut i: usize = 0;
    assert(all.take(0) =~= Seq::<ArtifactModel>::empty());
    assert(action_models(steps@) =~= Seq::<ActionModel>::empty());
    while i < artifacts.len()
        invariant
            i <= artifacts.len(),
            all == artifact_models(artifacts@),
            repatriation(all.take(i as int), dest_root@, workspace_root@) == (RepatriationModel {
                steps: action_models(steps@),
                failure: None,
            }),
        decreases artifacts.len() - i,
    {
        proof {
            let now = all.take(i + 1);
            assert(now.drop_last() =~= all.take(i as int));
            assert(now.last() == artifacts@[i as int]@);
        }
        match artifact_actions(artifacts[i].path.as_str(), dest_root, workspace_root) {
            Err(e) => {
                proof {
                    lemma_failure_stays(all, i + 1, dest_root@, workspace_root@);
                }
                return Repatriation { steps, failure: Some(e) };
            },
            Ok(more) => {
                let mut more = more;
                let ghost before = action_models(steps@);
                let ghost added = action_models(more@);
                steps.append(&mut more);
                assert(action_models(steps@) =~= before + added);
            },
        }
        i += 1;
    }
    assert(all.take(artifacts.len() as int) =~= all);
    Repatriation { steps, failure: None }
}

/// How many artifacts at the front lie in the mirror, one behind the
/// other: the place of the first artifact outside the mirror, or the count
/// of all artifacts where there is none.
pub open spec fn inside_count(artifacts: Seq<ArtifactModel>, dest_root: Seq<char>) -> int
    decreases artifacts.len(),
{
    if artifacts.len() == 0 {
        0
    } else {
        let front = inside_count(artifacts.drop_last(), dest_root);
        if front == artifacts.len() - 1 && is_under(artifacts.last().path, dest_root) {
            front + 1
        } else {
            front
        }
    }
}

/// The artifacts counted at the front lie in the mirror, and the one
/// behind them does not.
pub proof fn lemma_inside_count_marks_first_outside(
    artifacts: Seq<ArtifactModel>,
    dest_root: Seq<char>,
    i: int,
)
    requires
        0 <= i < artifacts.len(),
    ensures
        0 <= inside_count(artifacts, dest_root) <= artifacts.len(),
        i < inside_count(artifacts, dest_root) ==> is_under(artifacts[i].path, dest_root),
        i == inside_count(artifacts, dest_root) ==> !is_under(artifacts[i].path, dest_root),
    decreases artifacts.len(),
{
    let front = artifacts.drop_last();
    assert(artifacts.last() == artifacts[artifacts.len() - 1]);
    if i < front.len() {
        assert(front[i] == artifacts[i]);
        lemma_inside_count_marks_first_outside(front, dest_root, i);
    } else if front.len() > 0 {
        lemma_inside_count_marks_first_outside(front, dest_root, 0);
    } else {
        reveal_with_fuel(inside_count, 2);
    }
}

/// A run ends early exactly where an artifact lies outside the mirror. It
/// then ends at the first such artifact, with that artifact's error and
/// with the steps of all artifacts before it, as if they had been given
/// alone.
pub proof fn lemma_run_ends_at_first_outside(
    artifacts: Seq<ArtifactModel>,
    dest_root: Seq<char>,
    workspace_root: Seq<char>,
)
    ensures
        ({
            let whole = repatriation(artifacts, dest_root, workspace_root);
            let count = inside_count(artifacts, dest_root);
            let kept = repatriation(artifacts.take(count), dest_root, workspace_root);
            &&& 0 <= count <= artifacts.len()
            &&& kept.failure is None
            &&& whole.steps == kept.steps
            &&& whole.failure == if count < artifacts.len() {
                Some(RepatriateFault::OutsideMirror(artifacts[count].path))
            } else {
                None
            }
        }),
    decreases artifacts.len(),
{
    if artifacts.len() == 0 {
        assert(artifacts.take(0) =~= artifacts);
    } else {
        let front = artifacts.drop_last();
        let last = artifacts.len() - 1;
        lemma_run_ends_at_first_outside(front, dest_root, workspace_root);
        let count = inside_count(front, dest_root);
        if count < front.len() {
            assert(front.take(count) =~= artifacts.take(count));
            assert(front[count] == artifacts[count]);
        } else {
            assert(front.take(count) =~= front);
            if is_under(artifacts.last().path, dest_root) {
                assert(artifacts.take(last + 1) =~= artifacts);
            } else {
                assert(artifacts.take(last) =~= front);
            }
        }
    }
}

/// An artifact that lies in the mirror comes back to the place that lies
/// in the workspace as the artifact lies in the mirror: seen from the
/// workspace root, its origin is exactly what the artifact is seen from the
/// mirror's root. The steps create the directory that holds the origin
/// before they copy the artifact there.
pub proof fn lemma_origin_keeps_relative_path(
    artifact: Seq<char>,
    dest_root: Seq<char>,
    workspace_root: Seq<char>,
)
    requires
        is_under(artifact, dest_root),
    ensures
        origin_of(artifact, dest_root, workspace_root) is Some,
        is_under(origin_of(artifact, dest_root, workspace_root)->0, workspace_root),
        relative_to(origin_of(artifact, dest_root, workspace_root)->0, workspace_root)
            == relative_to(artifact, dest_root),
        return_steps(artifact, dest_root, workspace_root) is Ok,
        match parent_of(origin_of(artifact, dest_root, workspace_root)->0) {
            Some(dir) => return_steps(artifact, dest_root, workspace_root) == Ok::<
                Seq<ActionModel>,
                RepatriateFault,
            >(
                seq![
                    ActionModel::CreateDirAll(dir),
                    ActionModel::CopyFile {
                        from: artifact,
                        to: origin_of(artifact, dest_root, workspace_root)->0,
                    },
                ],
            ),
            None => true,
        },
{
    lemma_relative_reads_back(artifact, dest_root);
    let rel = relative_to(artifact, dest_root)->0;
    lemma_joined_lies_under_base(workspace_root, rel);
}

} // verus!
