//! Message types shared between the backend and the user interface.
//!
//! The types are plain data; the few functions on them build a value from
//! text or pick a field out of one.
use vstd::prelude::*;
use crate::keyed::{key_index, lemma_key_index};
use crate::text::{split_char, split_on, str_eq};

pub mod mutations;
pub mod queries;

verus! {

/// Utility type used to abstract crlf/&lt;br&gt;/etc
#[derive(Clone, Debug)]
pub struct MultilineString {
    pub lines: Vec<String>,
}

/// A 1-based line range within a file.
#[derive(Clone, Copy, Debug)]
pub struct FileRange {
    pub start: usize,
    pub len: usize,
}

/// Where a hunk sits in the old and the new file.
#[derive(Clone, Copy, Debug)]
pub struct HunkLocation {
    pub from_file: FileRange,
    pub to_file: FileRange,
}

/// A unified-diff hunk: its location and its lines, each starting with
/// ` ` (context), `-` (deletion) or `+` (addition).
#[derive(Clone, Debug)]
pub struct ChangeHunk {
    pub location: HunkLocation,
    pub lines: MultilineString,
}

impl MultilineString {
    /// The text of each line.
    pub open spec fn line_views(&self) -> Seq<Seq<char>> {
        self.lines@.map_values(|l: String| l@)
    }
}


impl MultilineString {
    /// Splits `text` at each `\n` into lines, keeping empty ones.
    pub fn from_text(text: &str) -> (r: MultilineString)
        ensures
            r.line_views() == split_char(text@, '\n'),
    {
        let lines = split_on(text, '\n');
        MultilineString { lines }
    }
}

/// Utility type used for platform-specific display
#[derive(Clone, Debug)]
pub struct DisplayPath(pub String);

/// The verbatim prefix `\\?\` of a Windows path.
pub open spec fn verbatim_prefix() -> Seq<char> {
    seq!['\\', '\\', '?', '\\']
}

/// `path` as a display form may give it: the path itself, or the path
/// without a leading verbatim prefix `\\?\`.
pub open spec fn simplified_form(path: Seq<char>, r: Seq<char>) -> bool {
    r == path || (path.len() >= 4 && path.subrange(0, 4) == verbatim_prefix() && r == path.subrange(
        4,
        path.len() as int,
    ))
}

/// Calls `dunce::simplified` on `path`. The crate returns the path itself,
/// or (on Windows, for a verbatim disk path) the path without its four-byte
/// `\\?\` prefix; which of the two it does depends on the platform, so the
/// result is not named and the choice is not stated.
#[verifier::external_body]
fn simplify_path(path: &str) -> (r: String)
    ensures
        simplified_form(path@, r@),
{
    dunce::simplified(std::path::Path::new(path)).to_string_lossy().to_string()
}

impl DisplayPath {
    /// The display form of a file-system path.
    pub fn from_path(path: &str) -> (r: DisplayPath)
        ensures
            simplified_form(path@, r.0@),
    {
        DisplayPath(simplify_path(path))
    }
}

/// Utility type used for round-tripping
#[derive(Clone, Debug)]
pub struct TreePath {
    pub repo_path: String,
    pub relative_path: DisplayPath,
}

/// A change id, shown as a unique prefix and the rest.
#[derive(Clone, Debug)]
pub struct ChangeId {
    pub hex: String,
    pub prefix: String,
    pub rest: String,
}

/// A commit id, shown as a unique prefix and the rest.
#[derive(Clone, Debug)]
pub struct CommitId {
    pub hex: String,
    pub prefix: String,
    pub rest: String,
}

/// A revision: the change it belongs to and the commit that holds it now.
#[derive(Clone, Debug)]
pub struct RevId {
    pub change: ChangeId,
    pub commit: CommitId,
}

/// A contiguous range of revisions, `from` being the newest.
#[derive(Clone, Debug)]
pub struct RevSet {
    pub from: RevId,
    pub to: RevId,
}

/// Summary of a revision as the log and the menus show it.
#[derive(Clone, Debug)]
pub struct RevHeader {
    pub id: RevId,
    pub description: MultilineString,
    pub has_conflict: bool,
    pub is_working_copy: bool,
    pub is_immutable: bool,
    pub refs: Vec<StoreRef>,
    pub parent_ids: Vec<CommitId>,
}

/// Current state of the repository after an operation.
#[derive(Clone, Debug)]
pub struct RepoStatus {
    pub operation_description: String,
    pub working_copy: CommitId,
}

/// Configuration sent to the frontend when a workspace is opened.
#[derive(Clone, Debug)]
pub enum RepoConfig {
    Initial,
    Workspace {
        absolute_path: DisplayPath,
        git_remotes: Vec<String>,
        query_choices: Vec<(String, String)>,
        latest_query: String,
        status: RepoStatus,
        theme_override: Option<String>,
        mark_unpushed_bookmarks: bool,
        track_recent_workspaces: bool,
        ignore_immutable: bool,
        has_external_diff_tool: bool,
        has_external_merge_tool: bool,
    },
    TimeoutError,
    LoadError { absolute_path: DisplayPath, message: String },
    WorkerError { message: String },
}

/// Events requiring user interaction during clone/init flows.
#[derive(Clone, Debug)]
pub enum RepoEvent {
    CloneURL,
    CloneConfirm { url: String, path: String },
    InitConfirm { path: String, has_git: bool },
}

/// Bookmark or tag name with metadata.
#[derive(Clone, Debug)]
pub enum StoreRef {
    LocalBookmark {
        bookmark_name: String,
        has_conflict: bool,
        /// Synchronized with all tracking remotes
        is_synced: bool,
        /// Actual and potential remotes
        tracking_remotes: Vec<String>,
        available_remotes: usize,
        potential_remotes: usize,
    },
    RemoteBookmark {
        bookmark_name: String,
        remote_name: String,
        has_conflict: bool,
        /// Tracking remote ref is synchronized with local ref
        is_synced: bool,
        /// Has local ref
        is_tracked: bool,
        /// Local ref has been deleted
        is_absent: bool,
    },
    Tag { tag_name: String },
}

/// The bookmark name of a local or remote bookmark; `None` for a tag.
pub open spec fn bookmark_of(r: StoreRef) -> Option<Seq<char>> {
    match r {
        StoreRef::LocalBookmark { bookmark_name, .. } => Some(bookmark_name@),
        StoreRef::RemoteBookmark { bookmark_name, .. } => Some(bookmark_name@),
        StoreRef::Tag { .. } => None,
    }
}

impl StoreRef {
    /// The name of the bookmark this ref designates; an error for a tag.
    pub fn as_bookmark(&self) -> (r: Result<&str, String>)
        ensures
            bookmark_of(*self) matches Some(name) ==> (r matches Ok(s) && s@ == name),
            bookmark_of(*self) is None ==> (r matches Err(e) && e@ == "not a local bookmark"@),
    {
        match self {
            StoreRef::LocalBookmark { bookmark_name, .. } => Ok(bookmark_name.as_str()),
            StoreRef::RemoteBookmark { bookmark_name, .. } => Ok(bookmark_name.as_str()),
            _ => Err(String::from_str("not a local bookmark")),
        }
    }
}

/// Specifies which bookmarks/remotes to push or fetch
#[derive(Clone, Debug)]
pub enum GitRefspec {
    AllBookmarks { remote_name: String },
    AllRemotes { bookmark_ref: StoreRef },
    RemoteBookmark { remote_name: String, bookmark_ref: StoreRef },
}

/// Refers to one of the repository's manipulatable objects
#[derive(Clone, Debug)]
pub enum Operand {
    Repository,
    Revision { header: RevHeader },
    Revisions { headers: Vec<RevHeader> },
    Merge { header: RevHeader },
    Parent { header: RevHeader, child: RevHeader },
    Change { headers: Vec<RevHeader>, path: TreePath, hunk: Option<ChangeHunk> },
    Ref { header: RevHeader, store_ref: StoreRef },
}

/// A prompt for user input (e.g. credentials for git operations).
#[derive(Clone, Debug)]
pub struct InputRequest {
    pub title: String,
    pub detail: String,
    pub fields: Vec<InputField>,
}

/// User-provided values for an [`InputRequest`], by field label.
#[derive(Clone, Debug)]
pub struct InputResponse {
    pub fields: Vec<(String, String)>,
}

impl InputResponse {
    /// The fields as pairs of texts.
    pub open spec fn field_views(&self) -> Seq<(Seq<char>, Seq<char>)> {
        self.fields@.map_values(|f: (String, String)| (f.0@, f.1@))
    }

    /// The value given for `label`, if any (the first, should it occur twice).
    pub open spec fn value_of(&self, label: Seq<char>) -> Option<Seq<char>> {
        let i = key_index(self.field_views(), label);
        if i < 0 { None } else { Some(self.field_views()[i].1) }
    }

    /// Looks up the value given for `label`.
    pub fn get(&self, label: &str) -> (r: Option<&String>)
        ensures
            match self.value_of(label@) {
                Some(v) => (r matches Some(s) && s@ == v),
                None => r is None,
            },
    {
        let ghost t = self.field_views();
        let mut i: usize = 0;
        while i < self.fields.len()
            invariant
                i <= self.fields.len(),
                t == self.field_views(),
                forall|j: int| 0 <= j < i ==> (#[trigger] t[j]).0 != label@,
            decreases self.fields.len() - i,
        {
            assert(t[i as int] == (self.fields@[i as int].0@, self.fields@[i as int].1@));
            if str_eq(self.fields[i].0.as_str(), label) {
                proof { lemma_key_index(t, label@, i as int); }
                return Some(&self.fields[i].1);
            }
            i = i + 1;
        }
        proof { lemma_key_index(t, label@, i as int); }
        None
    }
}

/// A single field in an [`InputRequest`] form.
#[derive(Clone, Debug)]
pub struct InputField {
    pub label: String,
    pub choices: Vec<String>,
}

impl InputField {
    /// A free-text field with the given label.
    pub fn from_label(label: &str) -> (r: InputField)
        ensures
            r.label@ == label@,
            r.choices@.len() == 0,
    {
        InputField { label: String::from_str(label), choices: Vec::new() }
    }
}

/// Progress updates for long-running operations like git fetch/push.
#[derive(Clone, Debug)]
pub enum ProgressEvent {
    Progress { overall_percent: u32 },
    Message { text: String },
}

}
