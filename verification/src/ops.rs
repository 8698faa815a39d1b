//! The decisions and messages of the repository operations that do not
//! depend on the repository itself: which bookmarks a push may move, why a
//! push is refused, how an operation is described in the operation log, and
//! how descriptions are combined when revisions are squashed.
use vstd::prelude::*;
use vstd::string::*;

use crate::messages::mutations::MutationOptions;
use crate::messages::{bookmark_of, GitRefspec, StoreRef};
use crate::keyed::{entry_get, lemma_key_index};
use crate::text::{
    contains_text, decimal, decimal_string, join_from, joined, lemma_joined_contains, str_eq,
};

verus! {

// ---------------------------------------------------------------------------
// Combining names and descriptions
// ---------------------------------------------------------------------------

/// The views of a slice of strings.
pub open spec fn str_views(names: Seq<&str>) -> Seq<Seq<char>> {
    names.map_values(|n: &str| n@)
}

/// Joins `parts` with `sep` between them.
pub fn join_strs(parts: &[&str], sep: &str) -> (r: String)
    ensures
        r@ == joined(str_views(parts@), sep@),
{
    let ghost all = str_views(parts@);
    let mut out = String::new();
    let mut i: usize = 0;
    assert(all.subrange(0, 0) =~= Seq::<Seq<char>>::empty());
    while i < parts.len()
        invariant
            i <= parts@.len(),
            all == str_views(parts@),
            out@ == joined(all.subrange(0, i as int), sep@),
        decreases parts@.len() - i,
    {
        let ghost pre = all.subrange(0, i + 1);
        assert(pre.drop_last() == all.subrange(0, i as int));
        assert(pre.last() == parts@[i as int]@);
        if i > 0 {
            out.append(sep);
        } else {
            assert(pre.len() == 1);
        }
        out.append(parts[i]);
        i = i + 1;
    }
    assert(all.subrange(0, parts@.len() as int) =~= all);
    out
}

/// How a list of bookmarks is named in an operation description:
/// `bookmark a` for one, `bookmarks a, b, ...` otherwise.
pub open spec fn combine_bookmarks_spec(names: Seq<Seq<char>>) -> Seq<char> {
    if names.len() == 1 {
        "bookmark "@ + names[0]
    } else {
        "bookmarks "@ + joined(names, ", "@)
    }
}

/// Names a list of bookmarks in an operation description.
pub fn combine_bookmarks(bookmark_names: &[&str]) -> (r: String)
    ensures
        r@ == combine_bookmarks_spec(str_views(bookmark_names@)),
{
    if bookmark_names.len() == 1 {
        let mut out = String::from_str("bookmark ");
        out.append(bookmark_names[0]);
        out
    } else {
        let mut out = String::from_str("bookmarks ");
        let list = join_strs(bookmark_names, ", ");
        out.append(list.as_str());
        out
    }
}

/// The non-empty texts among `texts`, in order.
pub open spec fn non_empty(texts: Seq<Seq<char>>) -> Seq<Seq<char>>
    decreases texts.len(),
{
    if texts.len() == 0 {
        seq![]
    } else {
        let rest = non_empty(texts.drop_last());
        if texts.last().len() > 0 {
            rest.push(texts.last())
        } else {
            rest
        }
    }
}

/// The description a revision gets when changes are moved into it: its own,
/// or, when the source revisions are abandoned, the non-empty descriptions
/// of the destination and then the sources, one per line.
pub open spec fn combine_messages_spec(
    sources: Seq<Seq<char>>,
    destination: Seq<char>,
    abandon_source: bool,
) -> Seq<char> {
    if abandon_source {
        joined(non_empty(seq![destination] + sources), "\n"@)
    } else {
        destination
    }
}

/// Combines descriptions for a revision that receives changes.
pub fn combine_messages(sources: &[&str], destination: &str, abandon_source: bool) -> (r: String)
    ensures
        r@ == combine_messages_spec(str_views(sources@), destination@, abandon_source),
{
    if !abandon_source {
        return String::from_str(destination);
    }
    let ghost all = seq![destination@] + str_views(sources@);
    let mut kept: Vec<&str> = Vec::new();
    if destination.unicode_len() > 0 {
        kept.push(destination);
    }
    proof {
        assert(all.subrange(0, 1) =~= seq![destination@]);
        assert(seq![destination@].drop_last() =~= Seq::<Seq<char>>::empty());
        assert(non_empty(Seq::<Seq<char>>::empty()) =~= Seq::<Seq<char>>::empty());
        assert(seq![destination@].last() == destination@);
        if destination@.len() > 0 {
            assert(kept@ == seq![destination]);
            assert(str_views(kept@) =~= seq![destination@]);
        } else {
            assert(str_views(kept@) =~= Seq::<Seq<char>>::empty());
        }
        assert(str_views(kept@) =~= non_empty(all.subrange(0, 1)));
    }
    let mut i: usize = 0;
    while i < sources.len()
        invariant
            i <= sources@.len(),
            all == seq![destination@] + str_views(sources@),
            str_views(kept@) == non_empty(all.subrange(0, i + 1)),
        decreases sources@.len() - i,
    {
        let ghost before = kept@;
        assert(all.subrange(0, i + 2).drop_last() == all.subrange(0, i + 1));
        assert(all.subrange(0, i + 2).last() == sources@[i as int]@);
        if sources[i].unicode_len() > 0 {
            kept.push(sources[i]);
            assert(str_views(kept@) =~= str_views(before).push(sources@[i as int]@));
        }
        i = i + 1;
    }
    assert(all.subrange(0, sources@.len() + 1int) =~= all);
    join_strs(kept.as_slice(), "\n")
}

// ---------------------------------------------------------------------------
// Pushing bookmarks
// ---------------------------------------------------------------------------

/// What pushing a bookmark to a remote would do, as jj classifies it.
#[derive(Clone, Debug)]
pub enum PushAction<U> {
    AlreadyMatches,
    Update(U),
    LocalConflicted,
    RemoteConflicted,
    RemoteUntracked,
}

/// The outcome of classifying a push: the update to make (`None` when the
/// remote already matches), or why the push is refused.
pub open spec fn push_decision<U>(bookmark: Seq<char>, remote: Seq<char>, action: PushAction<U>) -> Result<
    Option<U>,
    Seq<char>,
> {
    match action {
        PushAction::AlreadyMatches => Ok(None),
        PushAction::Update(u) => Ok(Some(u)),
        PushAction::LocalConflicted => Err("Bookmark "@ + bookmark + " is conflicted."@),
        PushAction::RemoteConflicted => Err(
            "Bookmark "@ + bookmark + "@"@ + remote + " is conflicted. Try fetching first."@,
        ),
        PushAction::RemoteUntracked => Err(
            "Non-tracking remote bookmark "@ + bookmark + "@"@ + remote
                + " exists. Try tracking it first."@,
        ),
    }
}

/// Decides what to do with a bookmark that a push covers.
pub fn classify_bookmark_push<U>(bookmark_name: &str, remote_name: &str, action: PushAction<U>) -> (r:
    Result<Option<U>, String>)
    ensures
        match (r, push_decision(bookmark_name@, remote_name@, action)) {
            (Ok(a), Ok(b)) => a == b,
            (Err(a), Err(b)) => a@ == b,
            _ => false,
        },
{
    match action {
        PushAction::AlreadyMatches => Ok(None),
        PushAction::Update(update) => Ok(Some(update)),
        PushAction::LocalConflicted => {
            let mut m = String::from_str("Bookmark ");
            m.append(bookmark_name);
            m.append(" is conflicted.");
            Err(m)
        },
        PushAction::RemoteConflicted => {
            let mut m = String::from_str("Bookmark ");
            m.append(bookmark_name);
            m.append("@");
            m.append(remote_name);
            m.append(" is conflicted. Try fetching first.");
            Err(m)
        },
        PushAction::RemoteUntracked => {
            let mut m = String::from_str("Non-tracking remote bookmark ");
            m.append(bookmark_name);
            m.append("@");
            m.append(remote_name);
            m.append(" exists. Try tracking it first.");
            Err(m)
        },
    }
}

/// Why a revision may not be pushed, in the order they are reported.
pub open spec fn push_blockers(
    description: Seq<char>,
    author_name: Seq<char>,
    author_email: Seq<char>,
    committer_name: Seq<char>,
    committer_email: Seq<char>,
    has_conflict: bool,
) -> Seq<Seq<char>> {
    let a: Seq<Seq<char>> = if description.len() == 0 {
        seq!["it has no description"@]
    } else {
        seq![]
    };
    let b: Seq<Seq<char>> = if author_name.len() == 0 || author_email.len() == 0
        || committer_name.len() == 0 || committer_email.len() == 0 {
        seq!["it has no author and/or committer set"@]
    } else {
        seq![]
    };
    let c: Seq<Seq<char>> = if has_conflict {
        seq!["it has conflicts"@]
    } else {
        seq![]
    };
    a + b + c
}

/// The refusal to push a revision, if it has a blocker.
pub open spec fn push_refusal(change_prefix: Seq<char>, blockers: Seq<Seq<char>>) -> Option<Seq<char>> {
    if blockers.len() == 0 {
        None
    } else {
        Some("Won't push revision "@ + change_prefix + " since "@ + joined(blockers, " and "@))
    }
}

/// Checks a revision that a push would publish: the refusal message when
/// it has no description, lacks an author or committer, or has conflicts.
pub fn check_pushable(
    change_prefix: &str,
    description: &str,
    author_name: &str,
    author_email: &str,
    committer_name: &str,
    committer_email: &str,
    has_conflict: bool,
) -> (r: Option<String>)
    ensures
        match push_refusal(
            change_prefix@,
            push_blockers(
                description@,
                author_name@,
                author_email@,
                committer_name@,
                committer_email@,
                has_conflict,
            ),
        ) {
            Some(m) => (r matches Some(s) && s@ == m),
            None => r is None,
        },
{
    let ghost blockers = push_blockers(
        description@,
        author_name@,
        author_email@,
        committer_name@,
        committer_email@,
        has_conflict,
    );
    let mut reasons: Vec<&str> = Vec::new();
    if description.unicode_len() == 0 {
        reasons.push("it has no description");
    }
    if author_name.unicode_len() == 0 || author_email.unicode_len() == 0
        || committer_name.unicode_len() == 0 || committer_email.unicode_len() == 0 {
        reasons.push("it has no author and/or committer set");
    }
    if has_conflict {
        reasons.push("it has conflicts");
    }
    assert(str_views(reasons@) =~= blockers);
    if reasons.len() == 0 {
        None
    } else {
        let mut m = String::from_str("Won't push revision ");
        m.append(change_prefix);
        m.append(" since ");
        let list = join_strs(reasons.as_slice(), " and ");
        m.append(list.as_str());
        Some(m)
    }
}

/// A revision is refused for push, and the refusal names each reason, when
/// it has no description, when any one of its author name, author email,
/// committer name and committer email is empty, or when it has conflicts;
/// without any of these it may be pushed. A refusal names the revision.
pub proof fn law_push_refusal_reasons(
    change_prefix: Seq<char>,
    description: Seq<char>,
    author_name: Seq<char>,
    author_email: Seq<char>,
    committer_name: Seq<char>,
    committer_email: Seq<char>,
    has_conflict: bool,
)
    ensures
        ({
            let r = push_refusal(
                change_prefix,
                push_blockers(
                    description,
                    author_name,
                    author_email,
                    committer_name,
                    committer_email,
                    has_conflict,
                ),
            );
            &&& (author_name.len() == 0 || author_email.len() == 0 || committer_name.len() == 0
                || committer_email.len() == 0) ==> (r matches Some(m) && contains_text(
                m,
                "it has no author and/or committer set"@,
            ))
            &&& description.len() == 0 ==> (r matches Some(m) && contains_text(
                m,
                "it has no description"@,
            ))
            &&& has_conflict ==> (r matches Some(m) && contains_text(m, "it has conflicts"@))
            &&& (description.len() > 0 && author_name.len() > 0 && author_email.len() > 0
                && committer_name.len() > 0 && committer_email.len() > 0 && !has_conflict) ==> r
                is None
            &&& r matches Some(m) ==> m.subrange(
                0,
                ("Won't push revision "@ + change_prefix + " since "@).len() as int,
            ) == "Won't push revision "@ + change_prefix + " since "@
        }),
{
    let b = push_blockers(
        description,
        author_name,
        author_email,
        committer_name,
        committer_email,
        has_conflict,
    );
    let head = "Won't push revision "@ + change_prefix + " since "@;
    let sep = " and "@;
    proof_push_reason(change_prefix, b, description.len() == 0, "it has no description"@, 0);
    let ia = if description.len() == 0 { 1int } else { 0int };
    proof_push_reason(
        change_prefix,
        b,
        author_name.len() == 0 || author_email.len() == 0 || committer_name.len() == 0
            || committer_email.len() == 0,
        "it has no author and/or committer set"@,
        ia,
    );
    let ib = ia + if author_name.len() == 0 || author_email.len() == 0 || committer_name.len() == 0
        || committer_email.len() == 0 {
        1int
    } else {
        0int
    };
    proof_push_reason(change_prefix, b, has_conflict, "it has conflicts"@, ib);
    if b.len() > 0 {
        reveal_strlit("Won't push revision ");
        reveal_strlit(" since ");
        let m = head + joined(b, sep);
        assert(m.subrange(0, head.len() as int) =~= head);
    }
}

/// When `holds`, the blockers `b` have `reason` at `i`, and the refusal
/// names it.
proof fn proof_push_reason(change_prefix: Seq<char>, b: Seq<Seq<char>>, holds: bool, reason: Seq<char>, i: int)
    requires
        holds ==> (0 <= i < b.len() && b[i] == reason),
    ensures
        holds ==> (push_refusal(change_prefix, b) matches Some(m) && contains_text(m, reason)),
{
    if holds {
        let head = "Won't push revision "@ + change_prefix + " since "@;
        let k = lemma_joined_contains(b, " and "@, i);
        let m = head + joined(b, " and "@);
        let at = head.len() + k;
        assert(m.subrange(at, at + reason.len()) =~= joined(b, " and "@).subrange(k, k + reason.len()));
        assert(0 <= at && at + reason.len() <= m.len());
        assert(m.subrange(at, at + reason.len()) == reason);
    }
}

/// The precondition error when a push would move nothing; an error for a
/// refspec whose bookmark is a tag.
pub open spec fn nothing_to_push_spec(refspec: GitRefspec) -> Result<Seq<char>, Seq<char>> {
    match refspec {
        GitRefspec::AllBookmarks { remote_name } => Ok(
            "No tracked bookmarks to push to remote '"@ + remote_name@
                + "'. Track or push a bookmark first."@,
        ),
        GitRefspec::AllRemotes { bookmark_ref } => match bookmark_of(bookmark_ref) {
            Some(b) => Ok("Bookmark '"@ + b + "' is not tracked at any remote."@),
            None => Err("not a local bookmark"@),
        },
        GitRefspec::RemoteBookmark { remote_name, bookmark_ref } => match bookmark_of(
            bookmark_ref,
        ) {
            Some(b) => Ok(
                "Bookmark '"@ + b + "' is not tracked at remote '"@ + remote_name@
                    + "'. Track it first."@,
            ),
            None => Err("not a local bookmark"@),
        },
    }
}

/// The result of comparing a computed message with its specification.
pub open spec fn same_outcome(r: Result<String, String>, s: Result<Seq<char>, Seq<char>>) -> bool {
    match (r, s) {
        (Ok(a), Ok(b)) => a@ == b,
        (Err(a), Err(b)) => a@ == b,
        _ => false,
    }
}

/// The message for a push that would move no bookmark.
pub fn nothing_to_push_message(refspec: &GitRefspec) -> (r: Result<String, String>)
    ensures
        same_outcome(r, nothing_to_push_spec(*refspec)),
{
    match refspec {
        GitRefspec::AllBookmarks { remote_name } => {
            let mut m = String::from_str("No tracked bookmarks to push to remote '");
            m.append(remote_name.as_str());
            m.append("'. Track or push a bookmark first.");
            Ok(m)
        },
        GitRefspec::AllRemotes { bookmark_ref } => {
            let b = bookmark_ref.as_bookmark()?;
            let mut m = String::from_str("Bookmark '");
            m.append(b);
            m.append("' is not tracked at any remote.");
            Ok(m)
        },
        GitRefspec::RemoteBookmark { remote_name, bookmark_ref } => {
            let b = bookmark_ref.as_bookmark()?;
            let mut m = String::from_str("Bookmark '");
            m.append(b);
            m.append("' is not tracked at remote '");
            m.append(remote_name.as_str());
            m.append("'. Track it first.");
            Ok(m)
        },
    }
}

/// How a push is described in the operation log; an error for a refspec
/// whose bookmark is a tag.
pub open spec fn push_description_spec(refspec: GitRefspec) -> Result<Seq<char>, Seq<char>> {
    match refspec {
        GitRefspec::AllBookmarks { remote_name } => Ok(
            "push all tracked bookmarks to git remote "@ + remote_name@,
        ),
        GitRefspec::AllRemotes { bookmark_ref } => match bookmark_of(bookmark_ref) {
            Some(b) => Ok("push "@ + b + " to all tracked git remotes"@),
            None => Err("not a local bookmark"@),
        },
        GitRefspec::RemoteBookmark { remote_name, bookmark_ref } => match bookmark_of(
            bookmark_ref,
        ) {
            Some(b) => Ok("push "@ + b + " to git remote "@ + remote_name@),
            None => Err("not a local bookmark"@),
        },
    }
}

/// Describes a push for the operation log.
pub fn push_description(refspec: &GitRefspec) -> (r: Result<String, String>)
    ensures
        same_outcome(r, push_description_spec(*refspec)),
{
    match refspec {
        GitRefspec::AllBookmarks { remote_name } => {
            let mut m = String::from_str("push all tracked bookmarks to git remote ");
            m.append(remote_name.as_str());
            Ok(m)
        },
        GitRefspec::AllRemotes { bookmark_ref } => {
            let b = bookmark_ref.as_bookmark()?;
            let mut m = String::from_str("push ");
            m.append(b);
            m.append(" to all tracked git remotes");
            Ok(m)
        },
        GitRefspec::RemoteBookmark { remote_name, bookmark_ref } => {
            let b = bookmark_ref.as_bookmark()?;
            let mut m = String::from_str("push ");
            m.append(b);
            m.append(" to git remote ");
            m.append(remote_name.as_str());
            Ok(m)
        },
    }
}

/// How a rejected ref is listed: its name, and the reason unless there is
/// none or it is `stale info`.
pub open spec fn format_rejected_ref(name: Seq<char>, reason: Option<Seq<char>>) -> Seq<char> {
    match reason {
        Some(m) if m != "stale info"@ => name + " (reason: "@ + m + ")"@,
        _ => name,
    }
}

/// The views of rejected refs.
pub open spec fn rejected_views(refs: Seq<(String, Option<String>)>) -> Seq<(Seq<char>, Option<Seq<char>>)> {
    refs.map_values(
        |r: (String, Option<String>)|
            (r.0@, match r.1 {
                Some(m) => Some(m@),
                None => None,
            }),
    )
}

/// Rejected refs listed with `, ` between them.
pub open spec fn format_rejected_refs(refs: Seq<(Seq<char>, Option<Seq<char>>)>) -> Seq<char> {
    joined(refs.map_values(|r: (Seq<char>, Option<Seq<char>>)| format_rejected_ref(r.0, r.1)), ", "@)
}

/// The precondition error for a push that git did not fully accept: the
/// refs that moved on the remote, then, after a blank line, the updates the
/// remote refused.
pub open spec fn push_rejection_spec(
    rejected: Seq<(Seq<char>, Option<Seq<char>>)>,
    remote_rejected: Seq<(Seq<char>, Option<Seq<char>>)>,
) -> Seq<char> {
    let first = if rejected.len() > 0 {
        "The following references unexpectedly moved on the remote: "@ + format_rejected_refs(
            rejected,
        ) + ". Try fetching first."@
    } else {
        seq![]
    };
    let second = if remote_rejected.len() > 0 {
        (if first.len() > 0 {
            "\n\n"@
        } else {
            seq![]
        }) + "The remote rejected the following updates: "@ + format_rejected_refs(remote_rejected)
            + ". Check if you have permission to push."@
    } else {
        seq![]
    };
    first + second
}

/// Lists rejected refs.
fn format_refs(refs: &Vec<(String, Option<String>)>) -> (r: String)
    ensures
        r@ == format_rejected_refs(rejected_views(refs@)),
{
    let ghost views = rejected_views(refs@);
    let mut items: Vec<String> = Vec::new();
    let mut i: usize = 0;
    while i < refs.len()
        invariant
            i <= refs@.len(),
            views == rejected_views(refs@),
            items@.map_values(|p: String| p@) == views.subrange(0, i as int).map_values(
                |r: (Seq<char>, Option<Seq<char>>)| format_rejected_ref(r.0, r.1),
            ),
        decreases refs@.len() - i,
    {
        let (name, reason) = &refs[i];
        let item = match reason {
            Some(m) if !str_eq(m.as_str(), "stale info") => {
                let mut t = String::from_str(name.as_str());
                t.append(" (reason: ");
                t.append(m.as_str());
                t.append(")");
                t
            },
            _ => String::from_str(name.as_str()),
        };
        assert(views[i as int] == (name@, match reason {
            Some(m) => Some(m@),
            None => None,
        }));
        let ghost before = items@;
        items.push(item);
        assert(views.subrange(0, i + 1) =~= views.subrange(0, i as int).push(views[i as int]));
        assert(items@.map_values(|p: String| p@) =~= before.map_values(|p: String| p@).push(item@));
        i = i + 1;
    }
    assert(views.subrange(0, refs@.len() as int) =~= views);
    assert(items@.map_values(|p: String| p@).subrange(0, items@.len() as int) =~= items@.map_values(
        |p: String| p@,
    ));
    join_from(&items, 0, ", ")
}

/// Explains why git did not accept all of a push.
pub fn push_rejection_message(
    rejected: &Vec<(String, Option<String>)>,
    remote_rejected: &Vec<(String, Option<String>)>,
) -> (r: String)
    ensures
        r@ == push_rejection_spec(rejected_views(rejected@), rejected_views(remote_rejected@)),
{
    let mut message = String::new();
    if rejected.len() > 0 {
        message.append("The following references unexpectedly moved on the remote: ");
        let list = format_refs(rejected);
        message.append(list.as_str());
        message.append(". Try fetching first.");
    }
    if remote_rejected.len() > 0 {
        if message.unicode_len() > 0 {
            message.append("\n\n");
        }
        message.append("The remote rejected the following updates: ");
        let list = format_refs(remote_rejected);
        message.append(list.as_str());
        message.append(". Check if you have permission to push.");
    }
    message
}

// ---------------------------------------------------------------------------
// Fetching bookmarks
// ---------------------------------------------------------------------------

/// The remotes a fetch asks, each with the bookmark to fetch from it (`None`
/// for all of them); an error for a refspec whose bookmark is a tag.
pub open spec fn fetch_patterns_spec(refspec: GitRefspec, remotes: Seq<Seq<char>>) -> Result<
    Seq<(Seq<char>, Option<Seq<char>>)>,
    Seq<char>,
> {
    match refspec {
        GitRefspec::AllBookmarks { remote_name } => Ok(seq![(remote_name@, None)]),
        GitRefspec::AllRemotes { bookmark_ref } => match bookmark_of(bookmark_ref) {
            Some(b) => Ok(remotes.map_values(|r: Seq<char>| (r, Some(b)))),
            None => Err("not a local bookmark"@),
        },
        GitRefspec::RemoteBookmark { remote_name, bookmark_ref } => match bookmark_of(
            bookmark_ref,
        ) {
            Some(b) => Ok(seq![(remote_name@, Some(b))]),
            None => Err("not a local bookmark"@),
        },
    }
}

/// Decides which remotes a fetch asks, and for what, given the remotes of
/// the repository.
pub fn fetch_patterns(refspec: &GitRefspec, remote_names: &Vec<String>) -> (r: Result<
    Vec<(String, Option<String>)>,
    String,
>)
    ensures
        match (r, fetch_patterns_spec(*refspec, remote_names@.map_values(|n: String| n@))) {
            (Ok(a), Ok(b)) => rejected_views(a@) == b,
            (Err(a), Err(b)) => a@ == b,
            _ => false,
        },
{
    match refspec {
        GitRefspec::AllBookmarks { remote_name } => {
            let mut v: Vec<(String, Option<String>)> = Vec::new();
            v.push((String::from_str(remote_name.as_str()), None));
            assert(rejected_views(v@) =~= seq![(remote_name@, None::<Seq<char>>)]);
            Ok(v)
        },
        GitRefspec::AllRemotes { bookmark_ref } => {
            let b = bookmark_ref.as_bookmark()?;
            let ghost names = remote_names@.map_values(|n: String| n@);
            let mut v: Vec<(String, Option<String>)> = Vec::new();
            let mut i: usize = 0;
            while i < remote_names.len()
                invariant
                    i <= remote_names@.len(),
                    names == remote_names@.map_values(|n: String| n@),
                    rejected_views(v@) == names.subrange(0, i as int).map_values(
                        |r: Seq<char>| (r, Some(b@)),
                    ),
                decreases remote_names@.len() - i,
            {
                let ghost before = v@;
                v.push((String::from_str(remote_names[i].as_str()), Some(String::from_str(b))));
                assert(rejected_views(v@) =~= rejected_views(before).push(
                    (names[i as int], Some(b@)),
                ));
                assert(names.subrange(0, i + 1) =~= names.subrange(0, i as int).push(
                    names[i as int],
                ));
                assert(names.subrange(0, i + 1).map_values(|r: Seq<char>| (r, Some(b@)))
                    =~= names.subrange(0, i as int).map_values(|r: Seq<char>| (r, Some(b@))).push(
                    (names[i as int], Some(b@)),
                ));
                i = i + 1;
            }
            assert(names.subrange(0, remote_names@.len() as int) =~= names);
            Ok(v)
        },
        GitRefspec::RemoteBookmark { remote_name, bookmark_ref } => {
            let b = bookmark_ref.as_bookmark()?;
            let mut v: Vec<(String, Option<String>)> = Vec::new();
            v.push((String::from_str(remote_name.as_str()), Some(String::from_str(b))));
            assert(rejected_views(v@) =~= seq![(remote_name@, Some(b@))]);
            Ok(v)
        },
    }
}

/// Non-empty texts of a sequence whose tail after `k` is all empty are those
/// of its first `k`.
proof fn lemma_non_empty_empty_tail(texts: Seq<Seq<char>>, k: int)
    requires
        0 <= k <= texts.len(),
        forall|j: int| k <= j < texts.len() ==> (#[trigger] texts[j]).len() == 0,
    ensures
        non_empty(texts) == non_empty(texts.subrange(0, k)),
    decreases texts.len(),
{
    if texts.len() > k {
        assert(texts.drop_last() =~= texts.subrange(0, texts.len() - 1));
        lemma_non_empty_empty_tail(texts.drop_last(), k);
        assert(texts.drop_last().subrange(0, k) =~= texts.subrange(0, k));
    } else {
        assert(texts.subrange(0, k) =~= texts);
    }
}

/// Moving changes out of revisions without descriptions never changes the
/// destination's description, whether the sources are abandoned or not.
pub proof fn law_empty_sources_keep_description(sources: Seq<Seq<char>>, destination: Seq<char>, abandon_source: bool)
    requires
        forall|j: int| 0 <= j < sources.len() ==> (#[trigger] sources[j]).len() == 0,
    ensures
        combine_messages_spec(sources, destination, abandon_source) == destination,
{
    if abandon_source {
        let all = seq![destination] + sources;
        assert forall|j: int| 1 <= j < all.len() implies (#[trigger] all[j]).len() == 0 by {
            assert(all[j] == sources[j - 1]);
        }
        lemma_non_empty_empty_tail(all, 1);
        assert(all.subrange(0, 1) =~= seq![destination]);
        assert(seq![destination].drop_last() =~= Seq::<Seq<char>>::empty());
        assert(non_empty(Seq::<Seq<char>>::empty()) =~= Seq::<Seq<char>>::empty());
        if destination.len() > 0 {
            assert(non_empty(seq![destination]) =~= seq![destination]);
        } else {
            assert(non_empty(seq![destination]) =~= Seq::<Seq<char>>::empty());
            assert(destination =~= Seq::<char>::empty());
        }
    }
}

// ---------------------------------------------------------------------------
// Creating repositories
// ---------------------------------------------------------------------------

/// How a new repository keeps its git data.
#[derive(Clone, Copy, Debug, PartialEq, Eq, Structural)]
pub enum InitKind {
    /// Share the `.git/` directory that is already there.
    ExternalGit,
    /// Create `.git/` beside `.jj/`.
    ColocatedGit,
    /// Keep the git data inside `.jj/`.
    InternalGit,
}

/// How a repository is initialised in a directory: refused where a `.jj/`
/// exists; colocated with an existing `.git/`, or with a new one, when asked
/// for; internal otherwise.
pub open spec fn init_plan_spec(has_jj: bool, colocated: bool, has_git: bool) -> Result<InitKind, Seq<char>> {
    if has_jj {
        Err("A Jujutsu repository already exists in this directory"@)
    } else if colocated && has_git {
        Ok(InitKind::ExternalGit)
    } else if colocated {
        Ok(InitKind::ColocatedGit)
    } else {
        Ok(InitKind::InternalGit)
    }
}

/// Decides how to initialise a repository.
pub fn init_plan(has_jj: bool, colocated: bool, has_git: bool) -> (r: Result<InitKind, String>)
    ensures
        match (r, init_plan_spec(has_jj, colocated, has_git)) {
            (Ok(a), Ok(b)) => a == b,
            (Err(a), Err(b)) => a@ == b,
            _ => false,
        },
{
    if has_jj {
        Err(String::from_str("A Jujutsu repository already exists in this directory"))
    } else if colocated && has_git {
        Ok(InitKind::ExternalGit)
    } else if colocated {
        Ok(InitKind::ColocatedGit)
    } else {
        Ok(InitKind::InternalGit)
    }
}

/// Checks the destination of a clone: it must be new or empty.
pub fn check_clone_destination(exists: bool, has_files: bool, display: &str) -> (r: Result<(), String>)
    ensures
        (exists && has_files) ==> (r matches Err(m) && m@ == "Destination directory is not empty: "@
            + display@),
        !(exists && has_files) ==> r is Ok,
{
    if exists && has_files {
        let mut m = String::from_str("Destination directory is not empty: ");
        m.append(display);
        Err(m)
    } else {
        Ok(())
    }
}

// ---------------------------------------------------------------------------
// Cloning
// ---------------------------------------------------------------------------

/// A remote bookmark as the repository view lists it: remote, bookmark, and
/// whether it points anywhere.
pub open spec fn remote_ref_views(refs: Seq<(String, String, bool)>) -> Seq<(Seq<char>, Seq<char>, bool)> {
    refs.map_values(|r: (String, String, bool)| (r.0@, r.1@, r.2))
}

/// Whether `origin` has a bookmark `name` that points somewhere.
pub open spec fn present_at_origin(refs: Seq<(Seq<char>, Seq<char>, bool)>, name: Seq<char>) -> bool {
    exists|i: int| 0 <= i < refs.len() && #[trigger] refs[i] == ("origin"@, name, true)
}

/// The index of the first bookmark of `origin` in `refs`, or -1.
pub open spec fn first_at_origin(refs: Seq<(Seq<char>, Seq<char>, bool)>) -> int
    decreases refs.len(),
{
    if refs.len() == 0 {
        -1
    } else if refs[0].0 == "origin"@ {
        0
    } else {
        let r = first_at_origin(refs.drop_first());
        if r < 0 { -1 } else { r + 1 }
    }
}

/// The bookmark a fresh clone checks out: the first of `main`, `master`,
/// `trunk` and `develop` present at `origin`, else the first bookmark of
/// `origin` at all.
pub open spec fn default_branch_spec(refs: Seq<(Seq<char>, Seq<char>, bool)>) -> Option<Seq<char>> {
    if present_at_origin(refs, "main"@) {
        Some("main"@)
    } else if present_at_origin(refs, "master"@) {
        Some("master"@)
    } else if present_at_origin(refs, "trunk"@) {
        Some("trunk"@)
    } else if present_at_origin(refs, "develop"@) {
        Some("develop"@)
    } else if first_at_origin(refs) >= 0 {
        Some(refs[first_at_origin(refs)].1)
    } else {
        None
    }
}

/// Characterises `first_at_origin` by the position it designates.
proof fn lemma_first_at_origin(refs: Seq<(Seq<char>, Seq<char>, bool)>, i: int)
    requires
        0 <= i <= refs.len(),
        forall|j: int| 0 <= j < i ==> (#[trigger] refs[j]).0 != "origin"@,
        i == refs.len() || refs[i].0 == "origin"@,
    ensures
        first_at_origin(refs) == (if i == refs.len() { -1 } else { i }),
    decreases refs.len(),
{
    if refs.len() > 0 && i > 0 {
        assert(refs[0].0 != "origin"@);
        assert forall|j: int| 0 <= j < i - 1 implies (#[trigger] refs.drop_first()[j]).0
            != "origin"@ by {
            assert(refs.drop_first()[j] == refs[j + 1]);
        }
        if i < refs.len() {
            assert(refs.drop_first()[i - 1] == refs[i]);
        }
        lemma_first_at_origin(refs.drop_first(), i - 1);
    }
}

/// A fresh clone checks out the first of `main`, `master`, `trunk` and
/// `develop` that `origin` has (pointing somewhere); when it has none of
/// them, the first bookmark of `origin` in the order given; when `origin`
/// has no bookmark, nothing.
pub proof fn law_default_branch_choice(refs: Seq<(Seq<char>, Seq<char>, bool)>)
    ensures
        ({
            let at_origin = |name: Seq<char>|
                exists|i: int| 0 <= i < refs.len() && #[trigger] refs[i] == ("origin"@, name, true);
            &&& at_origin("main"@) ==> default_branch_spec(refs) == Some("main"@)
            &&& (!at_origin("main"@) && at_origin("master"@)) ==> default_branch_spec(refs) == Some("master"@)
            &&& (!at_origin("main"@) && !at_origin("master"@) && at_origin("trunk"@)) ==> default_branch_spec(refs)
                == Some("trunk"@)
            &&& (!at_origin("main"@) && !at_origin("master"@) && !at_origin("trunk"@) && at_origin("develop"@))
                ==> default_branch_spec(refs) == Some("develop"@)
            &&& (!at_origin("main"@) && !at_origin("master"@) && !at_origin("trunk"@) && !at_origin("develop"@))
                ==> forall|i: int|
                0 <= i < refs.len() && refs[i].0 == "origin"@ && (forall|j: int|
                    0 <= j < i ==> (#[trigger] refs[j]).0 != "origin"@) ==> default_branch_spec(refs)
                    == Some(#[trigger] refs[i].1)
            &&& (forall|i: int| 0 <= i < refs.len() ==> (#[trigger] refs[i]).0 != "origin"@)
                ==> default_branch_spec(refs) is None
        }),
{
    assert forall|i: int|
        0 <= i < refs.len() && refs[i].0 == "origin"@ && (forall|j: int|
            0 <= j < i ==> (#[trigger] refs[j]).0 != "origin"@) implies first_at_origin(refs)
        == i by {
        lemma_first_at_origin(refs, i);
    }
    if forall|i: int| 0 <= i < refs.len() ==> (#[trigger] refs[i]).0 != "origin"@ {
        lemma_first_at_origin(refs, refs.len() as int);
        assert(!present_at_origin(refs, "main"@));
        assert(!present_at_origin(refs, "master"@));
        assert(!present_at_origin(refs, "trunk"@));
        assert(!present_at_origin(refs, "develop"@));
    }
}

/// Whether `origin` has a bookmark `name` that points somewhere.
fn find_present_at_origin(refs: &Vec<(String, String, bool)>, name: &str) -> (r: bool)
    ensures
        r == present_at_origin(remote_ref_views(refs@), name@),
{
    let ghost v = remote_ref_views(refs@);
    let mut i: usize = 0;
    while i < refs.len()
        invariant
            i <= refs@.len(),
            v == remote_ref_views(refs@),
            forall|j: int| 0 <= j < i ==> #[trigger] v[j] != ("origin"@, name@, true),
        decreases refs@.len() - i,
    {
        let (remote, bookmark, present) = &refs[i];
        assert(v[i as int] == (remote@, bookmark@, *present));
        if *present && str_eq(remote.as_str(), "origin") && str_eq(bookmark.as_str(), name) {
            return true;
        }
        i = i + 1;
    }
    false
}

/// The index of the first bookmark of `origin`.
fn find_first_at_origin(refs: &Vec<(String, String, bool)>) -> (r: Option<usize>)
    ensures
        match r {
            Some(i) => first_at_origin(remote_ref_views(refs@)) == i && i < refs@.len(),
            None => first_at_origin(remote_ref_views(refs@)) == -1,
        },
{
    let ghost v = remote_ref_views(refs@);
    let mut i: usize = 0;
    assert(v.subrange(0, v.len() as int) =~= v);
    while i < refs.len()
        invariant
            i <= refs@.len(),
            v == remote_ref_views(refs@),
            forall|j: int| 0 <= j < i ==> (#[trigger] v[j]).0 != "origin"@,
            first_at_origin(v) == (if first_at_origin(v.subrange(i as int, v.len() as int)) < 0 {
                -1
            } else {
                first_at_origin(v.subrange(i as int, v.len() as int)) + i
            }),
        decreases refs@.len() - i,
    {
        let (remote, _, _) = &refs[i];
        let ghost rest = v.subrange(i as int, v.len() as int);
        assert(rest[0] == v[i as int]);
        assert(v[i as int].0 == remote@);
        if str_eq(remote.as_str(), "origin") {
            return Some(i);
        }
        assert(rest.drop_first() =~= v.subrange(i + 1, v.len() as int));
        i = i + 1;
    }
    None
}

/// Picks the bookmark that a fresh clone checks out, from the remote
/// bookmarks of the repository in the order the view lists them.
pub fn find_default_branch(refs: &Vec<(String, String, bool)>) -> (r: Option<String>)
    ensures
        match (r, default_branch_spec(remote_ref_views(refs@))) {
            (Some(a), Some(b)) => a@ == b,
            (None, None) => true,
            _ => false,
        },
{
    assert(remote_ref_views(refs@).subrange(0, refs@.len() as int) =~= remote_ref_views(refs@));
    if find_present_at_origin(refs, "main") {
        return Some(String::from_str("main"));
    }
    if find_present_at_origin(refs, "master") {
        return Some(String::from_str("master"));
    }
    if find_present_at_origin(refs, "trunk") {
        return Some(String::from_str("trunk"));
    }
    if find_present_at_origin(refs, "develop") {
        return Some(String::from_str("develop"));
    }
    match find_first_at_origin(refs) {
        Some(i) => Some(String::from_str(refs[i].1.as_str())),
        None => None,
    }
}

// ---------------------------------------------------------------------------
// Immutability
// ---------------------------------------------------------------------------

/// The refusal of a mutation of `count` revisions among which some are
/// immutable, unless the options ignore immutability: `Revision is
/// immutable` for one revision, `Some revisions are immutable` for several.
pub open spec fn immutability_refusal(is_immutable: bool, count: nat, ignore_immutable: bool) -> Option<Seq<char>> {
    if is_immutable && !ignore_immutable {
        if count == 1 {
            Some("Revision is immutable"@)
        } else {
            Some("Some revisions are immutable"@)
        }
    } else {
        None
    }
}

/// Checks that `count` revisions may be changed.
pub fn check_revisions_mutable(is_immutable: bool, count: usize, options: &MutationOptions) -> (r:
    Result<(), String>)
    ensures
        match immutability_refusal(is_immutable, count as nat, options.ignore_immutable) {
            Some(m) => (r matches Err(e) && e@ == m),
            None => r is Ok,
        },
{
    if is_immutable && !options.ignore_immutable {
        if count == 1 {
            Err(String::from_str("Revision is immutable"))
        } else {
            Err(String::from_str("Some revisions are immutable"))
        }
    } else {
        Ok(())
    }
}

/// The refusal of a mutation into `count` destination revisions among which
/// some are immutable, unless the options ignore immutability.
pub open spec fn destination_refusal(is_immutable: bool, count: nat, ignore_immutable: bool) -> Option<Seq<char>> {
    if is_immutable && !ignore_immutable {
        if count == 1 {
            Some("Destination revision is immutable"@)
        } else {
            Some("Some destination revisions are immutable"@)
        }
    } else {
        None
    }
}

/// Checks that `count` destination revisions may be changed.
pub fn check_destinations_mutable(is_immutable: bool, count: usize, options: &MutationOptions) -> (r:
    Result<(), String>)
    ensures
        match destination_refusal(is_immutable, count as nat, options.ignore_immutable) {
            Some(m) => (r matches Err(e) && e@ == m),
            None => r is Ok,
        },
{
    if is_immutable && !options.ignore_immutable {
        if count == 1 {
            Err(String::from_str("Destination revision is immutable"))
        } else {
            Err(String::from_str("Some destination revisions are immutable"))
        }
    } else {
        Ok(())
    }
}

/// Checks that the source revisions of a move may be changed: `Some source
/// revisions are immutable` when any is immutable, unless the options
/// ignore immutability.
pub fn check_sources_mutable(is_immutable: bool, options: &MutationOptions) -> (r: Result<(), String>)
    ensures
        (is_immutable && !options.ignore_immutable) ==> (r matches Err(e) && e@
            == "Some source revisions are immutable"@),
        !(is_immutable && !options.ignore_immutable) ==> r is Ok,
{
    if is_immutable && !options.ignore_immutable {
        Err(String::from_str("Some source revisions are immutable"))
    } else {
        Ok(())
    }
}

/// Describes moving the changes of the revisions `from_oldest_hex` to
/// `from_newest_hex` into `to_hex`.
pub fn move_changes_description(from_oldest_hex: &str, from_newest_hex: &str, to_hex: &str) -> (r:
    String)
    ensures
        r@ == "move changes from "@ + from_oldest_hex@ + "::"@ + from_newest_hex@ + " to "@
            + to_hex@,
{
    let mut m = String::from_str("move changes from ");
    m.append(from_oldest_hex);
    m.append("::");
    m.append(from_newest_hex);
    m.append(" to ");
    m.append(to_hex);
    m
}

/// With immutability ignored, no mutation is refused for it.
pub proof fn law_ignored_immutability_never_refuses(is_immutable: bool, count: nat)
    ensures
        immutability_refusal(is_immutable, count, true) is None,
        destination_refusal(is_immutable, count, true) is None,
{
}

/// The refusal of a change to the revision shown as `prefix` when it is
/// immutable, unless the options ignore immutability.
pub fn check_revision_mutable_named(is_immutable: bool, prefix: &str, options: &MutationOptions) -> (r:
    Result<(), String>)
    ensures
        (is_immutable && !options.ignore_immutable) ==> (r matches Err(e) && e@ == "Revision "@
            + prefix@ + " is immutable"@),
        !(is_immutable && !options.ignore_immutable) ==> r is Ok,
{
    if is_immutable && !options.ignore_immutable {
        let mut m = String::from_str("Revision ");
        m.append(prefix);
        m.append(" is immutable");
        Err(m)
    } else {
        Ok(())
    }
}

/// Checks that the revision before which others are inserted may be
/// changed: `Before revision is immutable` when it is immutable, unless the
/// options ignore immutability.
pub fn check_before_mutable(is_immutable: bool, options: &MutationOptions) -> (r: Result<(), String>)
    ensures
        (is_immutable && !options.ignore_immutable) ==> (r matches Err(e) && e@
            == "Before revision is immutable"@),
        !(is_immutable && !options.ignore_immutable) ==> r is Ok,
{
    if is_immutable && !options.ignore_immutable {
        Err(String::from_str("Before revision is immutable"))
    } else {
        Ok(())
    }
}

/// How the insertion of `count` revisions is described: by the id of the
/// oldest one when it is alone; `None` when there is nothing to insert and
/// the mutation leaves the repository unchanged.
pub open spec fn insert_description_spec(count: nat, oldest_commit_hex: Seq<char>) -> Option<Seq<char>> {
    if count == 0 {
        None
    } else if count == 1 {
        Some("insert commit "@ + oldest_commit_hex)
    } else {
        Some("insert "@ + decimal(count) + " commits"@)
    }
}

/// Describes the insertion of `count` revisions, the oldest of which has
/// the commit id `oldest_commit_hex`; `None` when `count` is 0.
pub fn insert_description(count: usize, oldest_commit_hex: &str) -> (r: Option<String>)
    ensures
        match (r, insert_description_spec(count as nat, oldest_commit_hex@)) {
            (Some(a), Some(b)) => a@ == b,
            (None, None) => true,
            _ => false,
        },
{
    if count == 0 {
        None
    } else if count == 1 {
        let mut m = String::from_str("insert commit ");
        m.append(oldest_commit_hex);
        Some(m)
    } else {
        let mut m = String::from_str("insert ");
        m.append(decimal_string(count as u128).as_str());
        m.append(" commits");
        Some(m)
    }
}

/// The id that `id` has after a rebase recorded in `rebased` (old id, new
/// id): the new id of its first entry, or `id` itself when it was not
/// rebased.
pub open spec fn rebased_id_spec(rebased: Seq<(Seq<char>, Seq<char>)>, id: Seq<char>) -> Seq<char> {
    match entry_get(rebased, id) {
        Some(n) => n,
        None => id,
    }
}

/// Looks `id` up in the rebase record `rebased`.
pub fn rebased_id(rebased: &Vec<(String, String)>, id: &str) -> (r: String)
    ensures
        r@ == rebased_id_spec(rebased@.map_values(|e: (String, String)| (e.0@, e.1@)), id@),
{
    let ghost t = rebased@.map_values(|e: (String, String)| (e.0@, e.1@));
    let mut i: usize = 0;
    while i < rebased.len()
        invariant
            i <= rebased.len(),
            t == rebased@.map_values(|e: (String, String)| (e.0@, e.1@)),
            forall|j: int| 0 <= j < i ==> (#[trigger] t[j]).0 != id@,
        decreases rebased.len() - i,
    {
        if str_eq(rebased[i].0.as_str(), id) {
            proof {
                lemma_key_index(t, id@, i as int);
            }
            return String::from_str(rebased[i].1.as_str());
        }
        assert(t[i as int].0 == rebased@[i as int].0@);
        i = i + 1;
    }
    proof {
        lemma_key_index(t, id@, t.len() as int);
    }
    String::from_str(id)
}

/// The parents that the revision before an insertion gets: each parent as
/// rebased, with the revision after the insertion replaced by the newest
/// inserted one.
pub open spec fn replaced_parent(
    rebased: Seq<(Seq<char>, Seq<char>)>,
    after_id: Seq<char>,
    new_newest_id: Seq<char>,
    parent_id: Seq<char>,
) -> Seq<char> {
    let mapped = rebased_id_spec(rebased, parent_id);
    if mapped == after_id {
        new_newest_id
    } else {
        mapped
    }
}

/// Computes the new parents of the revision before an insertion, keeping
/// its other parents in order.
pub fn replace_after_parent(
    parent_ids: &Vec<String>,
    rebased: &Vec<(String, String)>,
    after_id: &str,
    new_newest_id: &str,
) -> (r: Vec<String>)
    ensures
        r.len() == parent_ids.len(),
        forall|i: int|
            0 <= i < r.len() ==> (#[trigger] r@[i])@ == replaced_parent(
                rebased@.map_values(|e: (String, String)| (e.0@, e.1@)),
                after_id@,
                new_newest_id@,
                parent_ids@[i]@,
            ),
{
    let ghost t = rebased@.map_values(|e: (String, String)| (e.0@, e.1@));
    let mut out: Vec<String> = Vec::new();
    let mut i: usize = 0;
    while i < parent_ids.len()
        invariant
            i <= parent_ids.len(),
            out.len() == i,
            t == rebased@.map_values(|e: (String, String)| (e.0@, e.1@)),
            forall|j: int|
                0 <= j < i ==> (#[trigger] out@[j])@ == replaced_parent(
                    t,
                    after_id@,
                    new_newest_id@,
                    parent_ids@[j]@,
                ),
        decreases parent_ids.len() - i,
    {
        let mapped = rebased_id(rebased, parent_ids[i].as_str());
        if str_eq(mapped.as_str(), after_id) {
            out.push(String::from_str(new_newest_id));
        } else {
            out.push(mapped);
        }
        i = i + 1;
    }
    out
}

// ---------------------------------------------------------------------------
// Moving and restoring hunks
// ---------------------------------------------------------------------------

/// Checks that a hunk is moved out of a revision with one parent, the base
/// that the hunk was computed against.
pub fn check_hunk_source_parents(parent_count: usize) -> (r: Result<(), String>)
    ensures
        parent_count != 1 ==> (r matches Err(e) && e@ == "Cannot move hunk from a merge commit"@),
        parent_count == 1 ==> r is Ok,
{
    if parent_count != 1 {
        Err(String::from_str("Cannot move hunk from a merge commit"))
    } else {
        Ok(())
    }
}

/// Checks that the file a hunk is restored into is free of conflicts.
pub fn check_hunk_destination_resolved(is_resolved: bool) -> (r: Result<(), String>)
    ensures
        !is_resolved ==> (r matches Err(e) && e@ == "Cannot restore hunk: destination file has conflicts"@),
        is_resolved ==> r is Ok,
{
    if !is_resolved {
        Err(String::from_str("Cannot restore hunk: destination file has conflicts"))
    } else {
        Ok(())
    }
}

// ---------------------------------------------------------------------------
// Describing and re-parenting revisions
// ---------------------------------------------------------------------------

/// What a description change does.
#[derive(Clone, Copy, Debug, PartialEq, Eq, Structural)]
pub enum DescribePlan {
    /// Nothing changes.
    Unchanged,
    /// The revision is rewritten.
    Rewrite,
}

/// The advice given when resetting the author needs a user identity.
pub open spec fn identity_advice() -> Seq<char> {
    " Set them with `jj config set --user user.name \"Some One\"` and `jj config set --user user.email \"someone@example.com\"`."@
}

/// What setting the description `new_description` on a revision described
/// `current` does: nothing when the text is the same and the author is kept;
/// a refusal when resetting the author without a configured name or email;
/// a rewrite otherwise.
pub open spec fn describe_plan_spec(
    current: Seq<char>,
    new_description: Seq<char>,
    reset_author: bool,
    user_name: Seq<char>,
    user_email: Seq<char>,
) -> Result<DescribePlan, Seq<char>> {
    if new_description == current && !reset_author {
        Ok(DescribePlan::Unchanged)
    } else if reset_author && user_name.len() == 0 && user_email.len() == 0 {
        Err("Name and email not configured."@ + identity_advice())
    } else if reset_author && user_name.len() == 0 {
        Err("Name not configured."@ + identity_advice())
    } else if reset_author && user_email.len() == 0 {
        Err("Email not configured."@ + identity_advice())
    } else {
        Ok(DescribePlan::Rewrite)
    }
}

/// Decides what a description change does.
pub fn describe_plan(
    current: &str,
    new_description: &str,
    reset_author: bool,
    user_name: &str,
    user_email: &str,
) -> (r: Result<DescribePlan, String>)
    ensures
        match (r, describe_plan_spec(current@, new_description@, reset_author, user_name@, user_email@)) {
            (Ok(a), Ok(b)) => a == b,
            (Err(a), Err(b)) => a@ == b,
            _ => false,
        },
{
    if str_eq(new_description, current) && !reset_author {
        return Ok(DescribePlan::Unchanged);
    }
    if reset_author {
        let missing_name = user_name.unicode_len() == 0;
        let missing_email = user_email.unicode_len() == 0;
        if missing_name || missing_email {
            let mut m = if missing_name && missing_email {
                String::from_str("Name and email not configured.")
            } else if missing_name {
                String::from_str("Name not configured.")
            } else {
                String::from_str("Email not configured.")
            };
            m.append(
                " Set them with `jj config set --user user.name \"Some One\"` and `jj config set --user user.email \"someone@example.com\"`.",
            );
            return Err(m);
        }
    }
    Ok(DescribePlan::Rewrite)
}

/// Whether some commit id occurs twice among `ids`.
pub open spec fn has_repetition(ids: Seq<Seq<char>>) -> bool {
    exists|i: int, j: int| 0 <= i < j < ids.len() && #[trigger] ids[i] == #[trigger] ids[j]
}

/// Refuses a list of new parents that names a commit twice.
pub fn check_distinct_parents(parent_ids: &Vec<String>) -> (r: Result<(), String>)
    ensures
        has_repetition(parent_ids@.map_values(|s: String| s@)) ==> (r matches Err(e) && e@
            == "Duplicate parent IDs"@),
        !has_repetition(parent_ids@.map_values(|s: String| s@)) ==> r is Ok,
{
    let ghost ids = parent_ids@.map_values(|s: String| s@);
    let mut j: usize = 0;
    while j < parent_ids.len()
        invariant
            j <= parent_ids@.len(),
            ids == parent_ids@.map_values(|s: String| s@),
            forall|a: int, b: int| 0 <= a < b < j ==> #[trigger] ids[a] != #[trigger] ids[b],
        decreases parent_ids@.len() - j,
    {
        let mut i: usize = 0;
        while i < j
            invariant
                i <= j < parent_ids@.len(),
                ids == parent_ids@.map_values(|s: String| s@),
                forall|a: int| 0 <= a < i ==> #[trigger] ids[a] != ids[j as int],
            decreases j - i,
        {
            if str_eq(parent_ids[i].as_str(), parent_ids[j].as_str()) {
                assert(ids[i as int] == ids[j as int]);
                return Err(String::from_str("Duplicate parent IDs"));
            }
            i = i + 1;
        }
        j = j + 1;
    }
    Ok(())
}

// ---------------------------------------------------------------------------
// Tracking bookmarks
// ---------------------------------------------------------------------------

/// What tracking a ref means: the remote bookmark to track, or why a tag or
/// a local bookmark cannot be tracked.
pub open spec fn track_target_spec(r: StoreRef) -> Result<(Seq<char>, Seq<char>), Seq<char>> {
    match r {
        StoreRef::Tag { tag_name } => Err(tag_name@ + " is a tag and cannot be tracked"@),
        StoreRef::LocalBookmark { bookmark_name, .. } => Err(
            bookmark_name@ + " is a local bookmark and cannot be tracked"@,
        ),
        StoreRef::RemoteBookmark { bookmark_name, remote_name, .. } => Ok(
            (bookmark_name@, remote_name@),
        ),
    }
}

/// Decides which remote bookmark a track request names.
pub fn track_target(r: &StoreRef) -> (t: Result<(String, String), String>)
    ensures
        match (t, track_target_spec(*r)) {
            (Ok(a), Ok(b)) => a.0@ == b.0 && a.1@ == b.1,
            (Err(a), Err(b)) => a@ == b,
            _ => false,
        },
{
    match r {
        StoreRef::Tag { tag_name } => {
            let mut m = String::from_str(tag_name.as_str());
            m.append(" is a tag and cannot be tracked");
            Err(m)
        },
        StoreRef::LocalBookmark { bookmark_name, .. } => {
            let mut m = String::from_str(bookmark_name.as_str());
            m.append(" is a local bookmark and cannot be tracked");
            Err(m)
        },
        StoreRef::RemoteBookmark { bookmark_name, remote_name, .. } => Ok(
            (String::from_str(bookmark_name.as_str()), String::from_str(remote_name.as_str())),
        ),
    }
}

/// What untracking a ref means.
#[derive(Clone, Debug)]
pub enum UntrackTarget {
    /// Untrack every remote of this local bookmark.
    AllRemotes { bookmark: String },
    /// Untrack this remote bookmark.
    OneRemote { bookmark: String, remote: String },
}

/// Decides what an untrack request names; a tag cannot be untracked.
pub fn untrack_target(r: &StoreRef) -> (t: Result<UntrackTarget, String>)
    ensures
        match *r {
            StoreRef::Tag { tag_name } => (t matches Err(m) && m@ == tag_name@
                + " is a tag and cannot be untracked"@),
            StoreRef::LocalBookmark { bookmark_name, .. } => (t matches Ok(
                UntrackTarget::AllRemotes { bookmark },
            ) && bookmark@ == bookmark_name@),
            StoreRef::RemoteBookmark { bookmark_name, remote_name, .. } => (t matches Ok(
                UntrackTarget::OneRemote { bookmark, remote },
            ) && bookmark@ == bookmark_name@ && remote@ == remote_name@),
        },
{
    match r {
        StoreRef::Tag { tag_name } => {
            let mut m = String::from_str(tag_name.as_str());
            m.append(" is a tag and cannot be untracked");
            Err(m)
        },
        StoreRef::LocalBookmark { bookmark_name, .. } => Ok(
            UntrackTarget::AllRemotes { bookmark: String::from_str(bookmark_name.as_str()) },
        ),
        StoreRef::RemoteBookmark { bookmark_name, remote_name, .. } => Ok(
            UntrackTarget::OneRemote {
                bookmark: String::from_str(bookmark_name.as_str()),
                remote: String::from_str(remote_name.as_str()),
            },
        ),
    }
}

/// A remote bookmark as an operation description names it: `name@remote`.
pub fn remote_bookmark_label(bookmark: &str, remote: &str) -> (r: String)
    ensures
        r@ == bookmark@ + "@"@ + remote@,
{
    let mut m = String::from_str(bookmark);
    m.append("@");
    m.append(remote);
    m
}

/// How untracking is described in the operation log.
pub fn untrack_description(labels: &[&str]) -> (r: String)
    ensures
        r@ == "untrack remote "@ + combine_bookmarks_spec(str_views(labels@)),
{
    let mut m = String::from_str("untrack remote ");
    let names = combine_bookmarks(labels);
    m.append(names.as_str());
    m
}

/// Describes moving a hunk of the file `path` from revision `from_hex` to
/// revision `to_hex`.
pub fn move_hunk_description(path: &str, from_hex: &str, to_hex: &str) -> (r: String)
    ensures
        r@ == "move hunk in "@ + path@ + " from "@ + from_hex@ + " to "@ + to_hex@,
{
    let mut m = String::from_str("move hunk in ");
    m.append(path);
    m.append(" from ");
    m.append(from_hex);
    m.append(" to ");
    m.append(to_hex);
    m
}

/// Describes restoring a hunk of the file `path` from revision `from_hex`
/// into revision `to_hex`.
pub fn restore_hunk_description(path: &str, from_hex: &str, to_hex: &str) -> (r: String)
    ensures
        r@ == "restore hunk in "@ + path@ + " from "@ + from_hex@ + " into "@ + to_hex@,
{
    let mut m = String::from_str("restore hunk in ");
    m.append(path);
    m.append(" from ");
    m.append(from_hex);
    m.append(" into ");
    m.append(to_hex);
    m
}

// ---------------------------------------------------------------------------
// Creating and renaming refs
// ---------------------------------------------------------------------------

/// The name of the ref that a create request makes, or why it is refused:
/// a remote bookmark cannot be created, and neither can a local bookmark or
/// tag that `exists` already.
pub open spec fn create_ref_spec(r: StoreRef, exists: bool) -> Result<Seq<char>, Seq<char>> {
    match r {
        StoreRef::RemoteBookmark { bookmark_name, remote_name, .. } => Err(
            bookmark_name@ + "@"@ + remote_name@ + " is a remote bookmark and cannot be created"@,
        ),
        StoreRef::LocalBookmark { bookmark_name, .. } => if exists {
            Err(bookmark_name@ + " already exists"@)
        } else {
            Ok(bookmark_name@)
        },
        StoreRef::Tag { tag_name } => if exists {
            Err(tag_name@ + " already exists"@)
        } else {
            Ok(tag_name@)
        },
    }
}

/// Decides a create request for `r`; `exists` tells whether a local ref of
/// that kind and name is present.
pub fn create_ref_name(r: &StoreRef, exists: bool) -> (t: Result<String, String>)
    ensures
        match (t, create_ref_spec(*r, exists)) {
            (Ok(a), Ok(b)) => a@ == b,
            (Err(a), Err(b)) => a@ == b,
            _ => false,
        },
{
    match r {
        StoreRef::RemoteBookmark { bookmark_name, remote_name, .. } => {
            let mut m = String::from_str(bookmark_name.as_str());
            m.append("@");
            m.append(remote_name.as_str());
            m.append(" is a remote bookmark and cannot be created");
            Err(m)
        },
        StoreRef::LocalBookmark { bookmark_name, .. } => {
            if exists {
                let mut m = String::from_str(bookmark_name.as_str());
                m.append(" already exists");
                Err(m)
            } else {
                Ok(String::from_str(bookmark_name.as_str()))
            }
        },
        StoreRef::Tag { tag_name } => {
            if exists {
                let mut m = String::from_str(tag_name.as_str());
                m.append(" already exists");
                Err(m)
            } else {
                Ok(String::from_str(tag_name.as_str()))
            }
        },
    }
}

/// Describes creating the ref `name` at the commit shown as `commit_hex`.
pub fn create_ref_description(name: &str, commit_hex: &str) -> (r: String)
    ensures
        r@ == "create "@ + name@ + " pointing to commit "@ + commit_hex@,
{
    let mut m = String::from_str("create ");
    m.append(name);
    m.append(" pointing to commit ");
    m.append(commit_hex);
    m
}

/// The refusal of renaming the bookmark `old_name` (present or not) to
/// `new_name` (present or not).
pub open spec fn bookmark_rename_refusal(
    old_name: Seq<char>,
    old_present: bool,
    new_name: Seq<char>,
    new_present: bool,
) -> Option<Seq<char>> {
    if !old_present {
        Some("No such bookmark: "@ + old_name)
    } else if new_present {
        Some("Bookmark already exists: "@ + new_name)
    } else {
        None
    }
}

/// Checks that the bookmark `old_name` can be renamed to `new_name`.
pub fn check_bookmark_rename(old_name: &str, old_present: bool, new_name: &str, new_present: bool) -> (r:
    Result<(), String>)
    ensures
        match bookmark_rename_refusal(old_name@, old_present, new_name@, new_present) {
            Some(m) => (r matches Err(e) && e@ == m),
            None => r is Ok,
        },
{
    if !old_present {
        let mut m = String::from_str("No such bookmark: ");
        m.append(old_name);
        Err(m)
    } else if new_present {
        let mut m = String::from_str("Bookmark already exists: ");
        m.append(new_name);
        Err(m)
    } else {
        Ok(())
    }
}

// ---------------------------------------------------------------------------
// Workspaces and undo
// ---------------------------------------------------------------------------

/// The refusal of forgetting the workspace shown as `name_symbol`, which
/// `exists` or not and `is_current` or not.
pub open spec fn forget_workspace_refusal(name_symbol: Seq<char>, exists: bool, is_current: bool) -> Option<
    Seq<char>,
> {
    if !exists {
        Some("Workspace '"@ + name_symbol + "' not found"@)
    } else if is_current {
        Some("Cannot forget the current workspace"@)
    } else {
        None
    }
}

/// Checks that a workspace can be forgotten.
pub fn check_forget_workspace(name_symbol: &str, exists: bool, is_current: bool) -> (r: Result<
    (),
    String,
>)
    ensures
        match forget_workspace_refusal(name_symbol@, exists, is_current) {
            Some(m) => (r matches Err(e) && e@ == m),
            None => r is Ok,
        },
{
    if !exists {
        let mut m = String::from_str("Workspace '");
        m.append(name_symbol);
        m.append("' not found");
        Err(m)
    } else if is_current {
        Err(String::from_str("Cannot forget the current workspace"))
    } else {
        Ok(())
    }
}

/// Describes forgetting the workspace shown as `name_symbol`.
pub fn forget_workspace_description(name_symbol: &str) -> (r: String)
    ensures
        r@ == "forget workspace '"@ + name_symbol@ + "'"@,
{
    let mut m = String::from_str("forget workspace '");
    m.append(name_symbol);
    m.append("'");
    m
}

/// What renaming a workspace does.
#[derive(Clone, Copy, Debug, PartialEq, Eq, Structural)]
pub enum RenameWorkspacePlan {
    /// The new name is the old one: nothing changes.
    Unchanged,
    /// The workspace is renamed.
    Rename,
}

/// The decision on renaming the workspace `old_name` to `new_name`: the
/// new name must be non-empty; the same name changes nothing; otherwise the
/// old workspace must exist, the new name must be free and the old
/// workspace must be the current one. The `_symbol` arguments are the
/// names as they are shown.
pub open spec fn rename_workspace_spec(
    old_name: Seq<char>,
    new_name: Seq<char>,
    old_symbol: Seq<char>,
    new_symbol: Seq<char>,
    old_exists: bool,
    new_exists: bool,
    old_is_current: bool,
) -> Result<RenameWorkspacePlan, Seq<char>> {
    if new_name.len() == 0 {
        Err("New workspace name cannot be empty"@)
    } else if old_name == new_name {
        Ok(RenameWorkspacePlan::Unchanged)
    } else if !old_exists {
        Err("Workspace '"@ + old_symbol + "' not found"@)
    } else if new_exists {
        Err("Workspace '"@ + new_symbol + "' already exists"@)
    } else if !old_is_current {
        Err("Can only rename the current workspace"@)
    } else {
        Ok(RenameWorkspacePlan::Rename)
    }
}

/// Decides a workspace rename.
pub fn rename_workspace_plan(
    old_name: &str,
    new_name: &str,
    old_symbol: &str,
    new_symbol: &str,
    old_exists: bool,
    new_exists: bool,
    old_is_current: bool,
) -> (r: Result<RenameWorkspacePlan, String>)
    ensures
        match (
            r,
            rename_workspace_spec(
                old_name@,
                new_name@,
                old_symbol@,
                new_symbol@,
                old_exists,
                new_exists,
                old_is_current,
            ),
        ) {
            (Ok(a), Ok(b)) => a == b,
            (Err(a), Err(b)) => a@ == b,
            _ => false,
        },
{
    if new_name.unicode_len() == 0 {
        Err(String::from_str("New workspace name cannot be empty"))
    } else if str_eq(old_name, new_name) {
        Ok(RenameWorkspacePlan::Unchanged)
    } else if !old_exists {
        let mut m = String::from_str("Workspace '");
        m.append(old_symbol);
        m.append("' not found");
        Err(m)
    } else if new_exists {
        let mut m = String::from_str("Workspace '");
        m.append(new_symbol);
        m.append("' already exists");
        Err(m)
    } else if !old_is_current {
        Err(String::from_str("Can only rename the current workspace"))
    } else {
        Ok(RenameWorkspacePlan::Rename)
    }
}

/// The refusal of undoing an operation with `parent_count` parent
/// operations: the first operation has none, a merge has several.
pub open spec fn undo_refusal(parent_count: nat) -> Option<Seq<char>> {
    if parent_count == 0 {
        Some("Cannot undo repo initialization"@)
    } else if parent_count > 1 {
        Some("Cannot undo a merge operation"@)
    } else {
        None
    }
}

/// Checks that the head operation, with `parent_count` parents, can be
/// undone.
pub fn check_undoable(parent_count: usize) -> (r: Result<(), String>)
    ensures
        match undo_refusal(parent_count as nat) {
            Some(m) => (r matches Err(e) && e@ == m),
            None => r is Ok,
        },
{
    if parent_count == 0 {
        Err(String::from_str("Cannot undo repo initialization"))
    } else if parent_count > 1 {
        Err(String::from_str("Cannot undo a merge operation"))
    } else {
        Ok(())
    }
}

/// Describes undoing the operation `op_hex`.
pub fn undo_description(op_hex: &str) -> (r: String)
    ensures
        r@ == "undo operation "@ + op_hex@,
{
    let mut m = String::from_str("undo operation ");
    m.append(op_hex);
    m
}

}
