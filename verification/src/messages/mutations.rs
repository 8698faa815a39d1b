//! Request types that modify the repository, and the result they share.
use vstd::prelude::*;

use crate::messages::{
    ChangeHunk, CommitId, GitRefspec, InputRequest, InputResponse, MultilineString, RepoConfig,
    RepoStatus, RevHeader, RevId, RevSet, StoreRef, TreePath,
};

verus! {

/// Common options for all mutations
#[derive(Clone, Debug)]
pub struct MutationOptions {
    pub ignore_immutable: bool,
}

impl Default for MutationOptions {
    fn default() -> (r: Self)
        ensures
            !r.ignore_immutable,
    {
        MutationOptions { ignore_immutable: false }
    }
}

/// Common result type for mutating commands
#[derive(Clone, Debug)]
pub enum MutationResult {
    Unchanged,
    Updated { new_status: RepoStatus, new_selection: Option<RevHeader> },
    Reconfigured { new_config: RepoConfig },
    InputRequired { request: InputRequest },
    PreconditionError { message: String },
    InternalError { message: MultilineString },
}

/// Global pseudomutation: creates a repository from a URL
#[derive(Clone, Debug)]
pub struct CloneRepository {
    pub url: String,
    pub path: String,
    pub colocated: bool,
}

/// Global pseudomutation: creates a repository
#[derive(Clone, Debug)]
pub struct InitRepository {
    pub path: String,
    pub colocated: bool,
}

/// Makes a revision the working copy
#[derive(Clone, Debug)]
pub struct CheckoutRevision {
    pub id: RevId,
}

/// Creates a new revision and makes it the working copy
#[derive(Clone, Debug)]
pub struct CreateRevision {
    pub set: RevSet,
}

/// Creates a new revision between two changes and makes it the working copy
#[derive(Clone, Debug)]
pub struct CreateRevisionBetween {
    pub after_id: CommitId,
    pub before_id: RevId,
}

/// Inserts revisions between two points in the graph.
#[derive(Clone, Debug)]
pub struct InsertRevisions {
    pub set: RevSet,
    pub after_id: RevId,
    pub before_id: RevId,
}

/// Rebases revisions onto new parents.
#[derive(Clone, Debug)]
pub struct MoveRevisions {
    pub set: RevSet,
    pub parent_ids: Vec<RevId>,
}

/// Sets a revision's parents (used to add/remove parents from merge commits)
#[derive(Clone, Debug)]
pub struct AdoptRevision {
    pub id: RevId,
    pub parent_ids: Vec<CommitId>,
}

/// Moves a single diff hunk from one revision to another.
#[derive(Clone, Debug)]
pub struct MoveHunk {
    pub from_id: RevId,
    pub to_id: CommitId,
    pub path: TreePath,
    pub hunk: ChangeHunk,
}

/// Copies a single diff hunk from one revision into another.
#[derive(Clone, Debug)]
pub struct CopyHunk {
    pub from_id: CommitId,
    pub to_id: RevId,
    pub path: TreePath,
    pub hunk: ChangeHunk,
}

/// Updates a revision's description
#[derive(Clone, Debug)]
pub struct DescribeRevision {
    pub id: RevId,
    pub new_description: String,
    pub reset_author: bool,
}

/// Creates a copy of the selected revisions with the same parents and content
#[derive(Clone, Debug)]
pub struct DuplicateRevisions {
    pub set: RevSet,
}

/// Abandons revisions, rebasing their children onto their parents.
#[derive(Clone, Debug)]
pub struct AbandonRevisions {
    pub set: RevSet,
}

/// Adds changes to the working copy which reverse the effect of the selected revisions
#[derive(Clone, Debug)]
pub struct BackoutRevisions {
    pub set: RevSet,
}

/// Moves file-level changes from one revision to another.
#[derive(Clone, Debug)]
pub struct MoveChanges {
    pub from: RevSet,
    pub to_id: CommitId,
    pub paths: Vec<TreePath>,
}

/// Copies file-level changes from one revision into another.
#[derive(Clone, Debug)]
pub struct CopyChanges {
    pub from_id: CommitId,
    pub to_set: RevSet,
    pub paths: Vec<TreePath>,
}

/// Starts tracking a remote bookmark locally.
#[derive(Clone, Debug)]
pub struct TrackBookmark {
    pub store_ref: StoreRef,
}

/// Stops tracking a remote bookmark locally.
#[derive(Clone, Debug)]
pub struct UntrackBookmark {
    pub store_ref: StoreRef,
}

/// Renames a local bookmark.
#[derive(Clone, Debug)]
pub struct RenameBookmark {
    pub store_ref: StoreRef,
    pub new_name: String,
}

/// Creates a new bookmark or tag on a revision.
#[derive(Clone, Debug)]
pub struct CreateRef {
    pub id: RevId,
    pub store_ref: StoreRef,
}

/// Deletes a bookmark or tag.
#[derive(Clone, Debug)]
pub struct DeleteRef {
    pub store_ref: StoreRef,
}

/// Moves a bookmark or tag to a different revision.
#[derive(Clone, Debug)]
pub struct MoveRef {
    pub store_ref: StoreRef,
    pub to_id: RevId,
}

/// Pushes bookmarks to a git remote.
#[derive(Clone, Debug)]
pub struct GitPush {
    pub refspec: GitRefspec,
    pub input: Option<InputResponse>,
}

/// Fetches bookmarks from a git remote.
#[derive(Clone, Debug)]
pub struct GitFetch {
    pub refspec: GitRefspec,
    /// Response from a previous InputRequired.
    /// If None and credentials are needed, the mutation returns InputRequired.
    pub input: Option<InputResponse>,
}

/// Reverts the most recent jj operation.
#[derive(Clone, Copy, Debug)]
pub struct UndoOperation;

/// Opens a file's diff in the user's configured external diff tool
#[derive(Clone, Debug)]
pub struct ExternalDiff {
    pub id: RevId,
    pub path: TreePath,
}

/// Resolves a file's conflict in the user's configured external merge tool
#[derive(Clone, Debug)]
pub struct ExternalResolve {
    pub id: RevId,
    pub path: TreePath,
}

}
