//! Request/response types for read-only operations like log listing and
//! revision details.
use vstd::prelude::*;

use crate::messages::{ChangeHunk, RevHeader, RevSet, TreePath};

verus! {

/// A file-level change within a revision's diff.
#[derive(Clone, Debug)]
pub struct RevChange {
    pub kind: ChangeKind,
    pub path: TreePath,
    pub has_conflict: bool,
    pub hunks: Vec<ChangeHunk>,
}

/// A file-level conflict in a revision's parent tree.
#[derive(Clone, Debug)]
pub struct RevConflict {
    pub path: TreePath,
    pub hunk: ChangeHunk,
}

/// The type of modification made to a file in a diff.
#[derive(Clone, Copy, Debug, PartialEq, Eq, Structural)]
pub enum ChangeKind {
    /// Neither added, deleted nor modified (serialised as `None`).
    NoChange,
    Added,
    Deleted,
    Modified,
}

/// Response to a revision detail query: either not found or full details.
#[derive(Clone, Debug)]
pub enum RevsResult {
    NotFound { set: RevSet },
    Detail {
        /// The revision set that was queried.
        set: RevSet,
        /// All revisions in the set, ordered ancestors-first.
        headers: Vec<RevHeader>,
        /// Parents of the oldest revision in the set.
        parents: Vec<RevHeader>,
        /// Combined changes: diff from oldest parent to newest revision.
        changes: Vec<RevChange>,
        /// Conflicts present in the parent tree of the oldest revision.
        conflicts: Vec<RevConflict>,
    },
}

/// (column, row) position of a node in the log graph.
#[derive(Clone, Copy, Debug, PartialEq, Eq, Structural)]
pub struct LogCoordinates(pub usize, pub usize);

/// An edge segment in the log graph connecting two nodes.
#[derive(Clone, Copy, Debug, PartialEq, Eq, Structural)]
pub enum LogLine {
    FromNode { source: LogCoordinates, target: LogCoordinates, indirect: bool },
    ToNode { source: LogCoordinates, target: LogCoordinates, indirect: bool },
    ToIntersection { source: LogCoordinates, target: LogCoordinates, indirect: bool },
    ToMissing { source: LogCoordinates, target: LogCoordinates, indirect: bool },
}

/// A single row in the log graph with its revision and edges.
#[derive(Clone, Debug)]
pub struct LogRow {
    pub revision: RevHeader,
    pub location: LogCoordinates,
    pub padding: usize,
    pub lines: Vec<LogLine>,
}

/// A paginated slice of the log graph.
#[derive(Clone, Debug)]
pub struct LogPage {
    pub rows: Vec<LogRow>,
    pub has_more: bool,
}

}
