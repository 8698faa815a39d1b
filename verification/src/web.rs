//! Web mode: what the HTTP layer decides without touching the network —
//! which mutation a `/api/mutate/{command}` request names, and the page that
//! carries the client's identity.
use vstd::prelude::*;
use vstd::string::*;

use crate::keyed::{key_index, lemma_key_index};
use crate::messages::{simplified_form, DisplayPath, RepoConfig, RevId, RevSet};
use crate::text::{chars_of, str_eq};

verus! {

// ---------------------------------------------------------------------------
// Options
// ---------------------------------------------------------------------------

/// Options specific to the `gg web` subcommand.
#[derive(Clone, Copy, Debug, PartialEq, Eq, Structural)]
pub struct WebOptions {
    /// TCP port to bind to. When `None`, uses the value from
    /// `gg.web.default-port` in jj config.
    pub port: Option<u16>,
    /// Force-open the browser regardless of config.
    pub launch: bool,
    /// Suppress browser launch regardless of config.
    pub no_launch: bool,
}

impl Default for WebOptions {
    fn default() -> (r: Self)
        ensures
            r == (WebOptions { port: None, launch: false, no_launch: false }),
    {
        WebOptions { port: None, launch: false, no_launch: false }
    }
}

impl WebOptions {
    /// The port to bind: the one given, else the configured one.
    pub fn port_or(&self, configured: u16) -> (r: u16)
        ensures
            r == (match self.port {
                Some(p) => p,
                None => configured,
            }),
    {
        match self.port {
            Some(p) => p,
            None => configured,
        }
    }

    /// Whether to open a browser: `--launch` forces it, `--no-launch`
    /// suppresses it, and otherwise the configuration decides.
    pub fn launch_browser(&self, configured: bool) -> (r: bool)
        ensures
            r == (if self.launch {
                true
            } else if self.no_launch {
                false
            } else {
                configured
            }),
    {
        if self.launch {
            true
        } else if self.no_launch {
            false
        } else {
            configured
        }
    }
}

// ---------------------------------------------------------------------------
// Mutation routes
// ---------------------------------------------------------------------------

/// The mutations that the web API accepts.
#[derive(Clone, Copy, Debug, PartialEq, Eq, Structural)]
pub enum MutationKind {
    AbandonRevisions,
    BackoutRevisions,
    CheckoutRevision,
    CreateRevision,
    CreateRevisionBetween,
    InsertRevisions,
    DescribeRevision,
    DuplicateRevisions,
    MoveRevisions,
    AdoptRevision,
    MoveChanges,
    CopyChanges,
    MoveHunk,
    CopyHunk,
    TrackBookmark,
    UntrackBookmark,
    RenameBookmark,
    CreateRef,
    DeleteRef,
    MoveRef,
    GitPush,
    GitFetch,
    ExternalDiff,
    ExternalResolve,
    UndoOperation,
}

/// The command names of the mutations.
pub open spec fn mutation_routes() -> Seq<(Seq<char>, MutationKind)> {
    seq![
        ("abandon_revisions"@, MutationKind::AbandonRevisions),
        ("backout_revisions"@, MutationKind::BackoutRevisions),
        ("checkout_revision"@, MutationKind::CheckoutRevision),
        ("create_revision"@, MutationKind::CreateRevision),
        ("create_revision_between"@, MutationKind::CreateRevisionBetween),
        ("insert_revisions"@, MutationKind::InsertRevisions),
        ("describe_revision"@, MutationKind::DescribeRevision),
        ("duplicate_revisions"@, MutationKind::DuplicateRevisions),
        ("move_revisions"@, MutationKind::MoveRevisions),
        ("adopt_revision"@, MutationKind::AdoptRevision),
        ("move_changes"@, MutationKind::MoveChanges),
        ("copy_changes"@, MutationKind::CopyChanges),
        ("move_hunk"@, MutationKind::MoveHunk),
        ("copy_hunk"@, MutationKind::CopyHunk),
        ("track_bookmark"@, MutationKind::TrackBookmark),
        ("untrack_bookmark"@, MutationKind::UntrackBookmark),
        ("rename_bookmark"@, MutationKind::RenameBookmark),
        ("create_ref"@, MutationKind::CreateRef),
        ("delete_ref"@, MutationKind::DeleteRef),
        ("move_ref"@, MutationKind::MoveRef),
        ("git_push"@, MutationKind::GitPush),
        ("git_fetch"@, MutationKind::GitFetch),
        ("external_diff"@, MutationKind::ExternalDiff),
        ("external_resolve"@, MutationKind::ExternalResolve),
        ("undo_operation"@, MutationKind::UndoOperation),
    ]
}

/// Builds the table of [`mutation_routes`].
fn mutation_route_table() -> (r: Vec<(&'static str, MutationKind)>)
    ensures
        r@.map_values(|e: (&'static str, MutationKind)| (e.0@, e.1)) == mutation_routes(),
{
    let mut v: Vec<(&'static str, MutationKind)> = Vec::new();
    v.push(("abandon_revisions", MutationKind::AbandonRevisions));
    v.push(("backout_revisions", MutationKind::BackoutRevisions));
    v.push(("checkout_revision", MutationKind::CheckoutRevision));
    v.push(("create_revision", MutationKind::CreateRevision));
    v.push(("create_revision_between", MutationKind::CreateRevisionBetween));
    v.push(("insert_revisions", MutationKind::InsertRevisions));
    v.push(("describe_revision", MutationKind::DescribeRevision));
    v.push(("duplicate_revisions", MutationKind::DuplicateRevisions));
    v.push(("move_revisions", MutationKind::MoveRevisions));
    v.push(("adopt_revision", MutationKind::AdoptRevision));
    v.push(("move_changes", MutationKind::MoveChanges));
    v.push(("copy_changes", MutationKind::CopyChanges));
    v.push(("move_hunk", MutationKind::MoveHunk));
    v.push(("copy_hunk", MutationKind::CopyHunk));
    v.push(("track_bookmark", MutationKind::TrackBookmark));
    v.push(("untrack_bookmark", MutationKind::UntrackBookmark));
    v.push(("rename_bookmark", MutationKind::RenameBookmark));
    v.push(("create_ref", MutationKind::CreateRef));
    v.push(("delete_ref", MutationKind::DeleteRef));
    v.push(("move_ref", MutationKind::MoveRef));
    v.push(("git_push", MutationKind::GitPush));
    v.push(("git_fetch", MutationKind::GitFetch));
    v.push(("external_diff", MutationKind::ExternalDiff));
    v.push(("external_resolve", MutationKind::ExternalResolve));
    v.push(("undo_operation", MutationKind::UndoOperation));
    assert(v@.map_values(|e: (&'static str, MutationKind)| (e.0@, e.1)) =~= mutation_routes());
    v
}

/// The mutation a command names, or the error for an unknown command.
pub open spec fn route_mutation_spec(command: Seq<char>) -> Result<MutationKind, Seq<char>> {
    let i = key_index(mutation_routes(), command);
    if i >= 0 {
        Ok(mutation_routes()[i].1)
    } else {
        Err("Unknown mutation: "@ + command)
    }
}

/// Decides which mutation `/api/mutate/{command}` runs.
pub fn route_mutation(command: &str) -> (r: Result<MutationKind, String>)
    ensures
        match (r, route_mutation_spec(command@)) {
            (Ok(a), Ok(b)) => a == b,
            (Err(a), Err(b)) => a@ == b,
            _ => false,
        },
{
    let table = mutation_route_table();
    let ghost t = mutation_routes();
    let mut i: usize = 0;
    while i < table.len()
        invariant
            i <= table@.len(),
            t == mutation_routes(),
            table@.map_values(|e: (&'static str, MutationKind)| (e.0@, e.1)) == t,
            forall|j: int| 0 <= j < i ==> (#[trigger] t[j]).0 != command@,
        decreases table@.len() - i,
    {
        let (name, kind) = table[i];
        assert(t[i as int] == (name@, kind));
        if str_eq(name, command) {
            proof {
                lemma_key_index(t, command@, i as int);
            }
            return Ok(kind);
        }
        i = i + 1;
    }
    proof {
        lemma_key_index(t, command@, i as int);
    }
    let mut m = String::from_str("Unknown mutation: ");
    m.append(command);
    Err(m)
}

// ---------------------------------------------------------------------------
// The client id in the index page
// ---------------------------------------------------------------------------

/// `s` with every occurrence of `pat` replaced by `rep`, matches taken from
/// the left without overlap, as `str::replace` does.
pub open spec fn replace_all(s: Seq<char>, pat: Seq<char>, rep: Seq<char>) -> Seq<char>
    decreases s.len(),
{
    if s.len() == 0 {
        s
    } else if pat.len() > 0 && s.len() >= pat.len() && s.subrange(0, pat.len() as int) == pat {
        rep + replace_all(s.subrange(pat.len() as int, s.len() as int), pat, rep)
    } else {
        seq![s[0]] + replace_all(s.drop_first(), pat, rep)
    }
}

/// Whether `v` holds `pat` at `i`.
fn matches_at(v: &Vec<char>, i: usize, pat: &Vec<char>) -> (r: bool)
    requires
        i <= v.len(),
    ensures
        r == (i + pat.len() <= v.len() && v@.subrange(i as int, i + pat.len()) == pat@),
{
    if pat.len() > v.len() - i {
        return false;
    }
    let mut j: usize = 0;
    while j < pat.len()
        invariant
            j <= pat.len(),
            i + pat.len() <= v.len(),
            forall|k: int| 0 <= k < j ==> v@[i + k] == pat@[k],
        decreases pat.len() - j,
    {
        if v[i + j] != pat[j] {
            assert(v@.subrange(i as int, i + pat.len())[j as int] != pat@[j as int]);
            return false;
        }
        j = j + 1;
    }
    assert(v@.subrange(i as int, i + pat.len()) =~= pat@);
    true
}

/// Replaces every occurrence of `pat` in `s` by `rep`.
pub fn replace_str(s: &str, pat: &str, rep: &str) -> (r: String)
    ensures
        r@ == replace_all(s@, pat@, rep@),
{
    let v = chars_of(s);
    let p = chars_of(pat);
    let n = v.len();
    let mut out = String::new();
    let mut i: usize = 0;
    assert(v@.subrange(0, n as int) =~= s@);
    while i < n
        invariant
            n == v.len(),
            v@ == s@,
            p@ == pat@,
            i <= n,
            out@ + replace_all(v@.subrange(i as int, n as int), pat@, rep@) == replace_all(
                s@,
                pat@,
                rep@,
            ),
        decreases n - i,
    {
        let ghost rest = v@.subrange(i as int, n as int);
        if p.len() > 0 && matches_at(&v, i, &p) {
            assert(rest.subrange(0, p@.len() as int) =~= v@.subrange(i as int, i + p@.len()));
            assert(rest.subrange(p@.len() as int, rest.len() as int) =~= v@.subrange(
                i + p@.len(),
                n as int,
            ));
            let ghost before = out@;
            out.append(rep);
            assert(before + replace_all(rest, pat@, rep@) =~= out@ + replace_all(
                v@.subrange(i + p@.len(), n as int),
                pat@,
                rep@,
            ));
            i = i + p.len();
        } else {
            assert(rest.drop_first() =~= v@.subrange(i + 1, n as int));
            assert(rest[0] == v@[i as int]);
            proof {
                if rest.len() >= p@.len() {
                    assert(rest.subrange(0, p@.len() as int) =~= v@.subrange(
                        i as int,
                        i + p@.len(),
                    ));
                }
            }
            assert(replace_all(rest, pat@, rep@) == seq![rest[0]] + replace_all(
                rest.drop_first(),
                pat@,
                rep@,
            ));
            let ghost before = out@;
            let one = s.substring_char(i, i + 1);
            assert(one@ =~= seq![v@[i as int]]);
            out.append(one);
            assert(before + replace_all(rest, pat@, rep@) =~= out@ + replace_all(
                v@.subrange(i + 1, n as int),
                pat@,
                rep@,
            ));
            i = i + 1;
        }
    }
    assert(v@.subrange(n as int, n as int) =~= Seq::<char>::empty());
    assert(out@ + Seq::<char>::empty() =~= out@);
    out
}

/// The script that tells the page its client id.
pub open spec fn client_script(client_id: Seq<char>) -> Seq<char> {
    "<script>window.__GG_CLIENT_ID__=\""@ + client_id + "\";</script>"@
}

/// The index page with the client-id script placed before each `</head>`.
pub open spec fn inject_client_id_spec(html: Seq<char>, client_id: Seq<char>) -> Seq<char> {
    replace_all(html, "</head>"@, client_script(client_id) + "</head>"@)
}

/// Places the script that tells the page its client id before `</head>`.
pub fn inject_client_id(html: &str, client_id: &str) -> (r: String)
    ensures
        r@ == inject_client_id_spec(html@, client_id@),
{
    let mut script = String::from_str("<script>window.__GG_CLIENT_ID__=\"");
    script.append(client_id);
    script.append("\";</script>");
    script.append("</head>");
    replace_str(html, "</head>", script.as_str())
}

/// Replacing a pattern that does not occur leaves the text as it was.
proof fn lemma_replace_absent(s: Seq<char>, pat: Seq<char>, rep: Seq<char>)
    requires
        pat.len() > 0,
        forall|i: int| 0 <= i && i + pat.len() <= s.len() ==> #[trigger] s.subrange(i, i + pat.len()) != pat,
    ensures
        replace_all(s, pat, rep) == s,
    decreases s.len(),
{
    if s.len() > 0 {
        if s.len() >= pat.len() {
            assert(s.subrange(0, 0int + pat.len()) != pat);
        }
        let t = s.drop_first();
        assert forall|i: int| 0 <= i && i + pat.len() <= t.len() implies #[trigger] t.subrange(i, i + pat.len()) != pat by {
            assert(t.subrange(i, i + pat.len()) =~= s.subrange(i + 1, i + 1 + pat.len()));
        }
        lemma_replace_absent(t, pat, rep);
        assert(seq![s[0]] + t =~= s);
    }
}

/// A page without `</head>` is served as it is.
pub proof fn law_page_without_head_unchanged(html: Seq<char>, client_id: Seq<char>)
    requires
        forall|i: int| 0 <= i && i + 7 <= html.len() ==> #[trigger] html.subrange(i, i + 7) != "</head>"@,
    ensures
        inject_client_id_spec(html, client_id) == html,
{
    reveal_strlit("</head>");
    lemma_replace_absent(html, "</head>"@, client_script(client_id) + "</head>"@);
}

// ---------------------------------------------------------------------------
// Query requests
// ---------------------------------------------------------------------------

/// Body of `/api/query/query_workspace`.
#[derive(Clone, Debug)]
pub struct QueryWorkspace {
    pub path: Option<String>,
}

/// Body of `/api/query/query_log`.
#[derive(Clone, Debug)]
pub struct QueryLog {
    pub revset: String,
}

/// Body of `/api/query/query_revisions`.
#[derive(Clone, Debug)]
pub struct QueryRevisions {
    pub set: RevSet,
}

/// Body of `/api/query/query_remotes`.
#[derive(Clone, Debug)]
pub struct QueryRemotes {
    pub tracking_bookmark: Option<String>,
}

/// Body of `/api/query/query_file_content`.
#[derive(Clone, Debug)]
pub struct QueryFileContent {
    pub id: RevId,
    pub path: String,
}

/// Body of `/api/query/query_file_content_at_op`.
#[derive(Clone, Debug)]
pub struct QueryFileContentAtOp {
    pub op_id: String,
    pub path: String,
}

/// Body of `/api/query/query_file_diff_at_op`.
#[derive(Clone, Debug)]
pub struct QueryFileDiffAtOp {
    pub op_id: String,
    pub path: String,
    pub current_id: RevId,
}

/// Body of `/api/query/query_op_log`.
#[derive(Clone, Copy, Debug)]
pub struct QueryOpLogReq {
    pub max_count: usize,
}

/// The configuration reported when a workspace could not be loaded: the
/// path asked for (empty when none was) and the error.
pub fn load_error_config(path: Option<&str>, message: &str) -> (r: RepoConfig)
    ensures
        r matches RepoConfig::LoadError { absolute_path, message: m } && m@ == message@
            && simplified_form(match path {
            Some(p) => p@,
            None => ""@,
        }, absolute_path.0@),
{
    let p = match path {
        Some(p) => p,
        None => "",
    };
    RepoConfig::LoadError {
        absolute_path: DisplayPath::from_path(p),
        message: String::from_str(message),
    }
}

// ---------------------------------------------------------------------------
// Triggers
// ---------------------------------------------------------------------------

/// Which configuration file a write goes to.
#[derive(Clone, Copy, Debug, PartialEq, Eq, Structural)]
pub enum ConfigScope {
    User,
    Repo,
}

/// Reads the scope of a `write_config_table` request: `user` or `repo`;
/// anything else is a bad request.
pub fn config_scope(scope: &str) -> (r: Option<ConfigScope>)
    ensures
        r == (if scope@ == "user"@ {
            Some(ConfigScope::User)
        } else if scope@ == "repo"@ {
            Some(ConfigScope::Repo)
        } else {
            None
        }),
{
    if str_eq(scope, "user") {
        Some(ConfigScope::User)
    } else if str_eq(scope, "repo") {
        Some(ConfigScope::Repo)
    } else {
        None
    }
}

/// Where the development server serves `path_and_query`.
pub fn dev_server_url(path_and_query: &str) -> (r: String)
    ensures
        r@ == "http://localhost:6973"@ + path_and_query@,
{
    let mut url = String::from_str("http://localhost:6973");
    url.append(path_and_query);
    url
}

}
