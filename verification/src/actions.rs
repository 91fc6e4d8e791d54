//! The file-system steps that the plans of this crate are made of. The
//! crate decides them; carrying them out is left to the caller.

use vstd::prelude::*;

verus! {

/// A point in time as a file system records it.
#[derive(Clone, Copy, Debug, PartialEq, Eq)]
pub struct Timestamp {
    pub seconds: i64,
    pub nanos: u32,
}

/// One step on the file system.
#[derive(Clone, Debug, PartialEq, Eq)]
pub enum FsAction {
    /// Remove a directory with everything below it.
    RemoveTree(String),
    /// Create a directory and its missing ancestors; no fault where it exists.
    CreateDirAll(String),
    /// Copy the bytes of one file over another path.
    CopyFile { from: String, to: String },
    /// Set the access and modification times of a path, not following a
    /// symbolic link at its end.
    SetTimes { path: String, accessed: Timestamp, modified: Timestamp },
}

/// What an [`FsAction`] means.
pub enum ActionModel {
    RemoveTree(Seq<char>),
    CreateDirAll(Seq<char>),
    CopyFile { from: Seq<char>, to: Seq<char> },
    SetTimes { path: Seq<char>, accessed: Timestamp, modified: Timestamp },
}

impl View for FsAction {
    type V = ActionModel;

    open spec fn view(&self) -> ActionModel {
        match self {
            FsAction::RemoveTree(p) => ActionModel::RemoveTree(p@),
            FsAction::CreateDirAll(p) => ActionModel::CreateDirAll(p@),
            FsAction::CopyFile { from, to } => ActionModel::CopyFile { from: from@, to: to@ },
            FsAction::SetTimes { path, accessed, modified } => ActionModel::SetTimes {
                path: path@,
                accessed: *accessed,
                modified: *modified,
            },
        }
    }
}

/// What a sequence of actions means.
pub open spec fn action_models(actions: Seq<FsAction>) -> Seq<ActionModel> {
    Seq::new(actions.len(), |i: int| actions[i]@)
}

} // verus!
