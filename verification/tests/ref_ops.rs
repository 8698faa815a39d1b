use gg_core::messages::{GitRefspec, StoreRef};
use gg_core::messages::mutations::MutationOptions;
use gg_core::ops::{
    check_distinct_parents, check_revision_mutable_named, describe_plan, DescribePlan,
    check_clone_destination, init_plan, InitKind,
    check_destinations_mutable, check_revisions_mutable, remote_bookmark_label, track_target,
    untrack_description, untrack_target, UntrackTarget,
    check_pushable, classify_bookmark_push, combine_bookmarks, combine_messages, fetch_patterns,
    find_default_branch, nothing_to_push_message, push_description, push_rejection_message,
    PushAction,
};
use gg_core::ops::{
    check_before_mutable, check_bookmark_rename, check_forget_workspace,
    check_hunk_destination_resolved, check_hunk_source_parents, check_sources_mutable,
    check_undoable, create_ref_description, create_ref_name, forget_workspace_description,
    insert_description, move_changes_description, move_hunk_description, rebased_id,
    rename_workspace_plan, replace_after_parent, restore_hunk_description, undo_description,
    RenameWorkspacePlan,
};
use gg_core::text::decimal_string;

#[test]
fn combine_single_bookmark() {
    assert_eq!(combine_bookmarks(&["main"]), "bookmark main");
}

#[test]
fn combine_multiple_bookmarks() {
    assert_eq!(combine_bookmarks(&["main", "dev"]), "bookmarks main, dev");
}

#[test]
fn combine_no_bookmarks() {
    assert_eq!(combine_bookmarks(&[]), "bookmarks ");
    assert_eq!(combine_bookmarks(&["a", "b", "c"]), "bookmarks a, b, c");
}

#[test]
fn combine_messages_keeps_destination_unless_abandoning() {
    assert_eq!(combine_messages(&["src"], "dest", false), "dest");
    assert_eq!(combine_messages(&["s1", "", "s2"], "dest", true), "dest\ns1\ns2");
    assert_eq!(combine_messages(&["s1"], "", true), "s1");
    assert_eq!(combine_messages(&["", ""], "dest", true), "dest");
    assert_eq!(combine_messages(&[], "", true), "");
}

fn local(name: &str) -> StoreRef {
    StoreRef::LocalBookmark {
        bookmark_name: name.to_string(),
        has_conflict: false,
        is_synced: true,
        tracking_remotes: vec![],
        available_remotes: 0,
        potential_remotes: 0,
    }
}

fn tag(name: &str) -> StoreRef {
    StoreRef::Tag { tag_name: name.to_string() }
}

#[test]
fn as_bookmark_of_each_ref() {
    assert_eq!(local("main").as_bookmark(), Ok("main"));
    let remote = StoreRef::RemoteBookmark {
        bookmark_name: "dev".to_string(),
        remote_name: "origin".to_string(),
        has_conflict: false,
        is_synced: true,
        is_tracked: true,
        is_absent: false,
    };
    assert_eq!(remote.as_bookmark(), Ok("dev"));
    assert_eq!(tag("v1").as_bookmark(), Err("not a local bookmark".to_string()));
}

#[test]
fn classify_each_push_action() {
    assert_eq!(classify_bookmark_push::<u8>("b", "r", PushAction::AlreadyMatches), Ok(None));
    assert_eq!(classify_bookmark_push("b", "r", PushAction::Update(7u8)), Ok(Some(7)));
    assert_eq!(
        classify_bookmark_push::<u8>("b", "r", PushAction::LocalConflicted),
        Err("Bookmark b is conflicted.".to_string())
    );
    assert_eq!(
        classify_bookmark_push::<u8>("b", "r", PushAction::RemoteConflicted),
        Err("Bookmark b@r is conflicted. Try fetching first.".to_string())
    );
    assert_eq!(
        classify_bookmark_push::<u8>("b", "r", PushAction::RemoteUntracked),
        Err("Non-tracking remote bookmark b@r exists. Try tracking it first.".to_string())
    );
}

#[test]
fn pushable_revisions() {
    assert_eq!(check_pushable("abc", "msg", "n", "e", "n", "e", false), None);
    assert_eq!(
        check_pushable("abc", "", "n", "e", "n", "e", false),
        Some("Won't push revision abc since it has no description".to_string())
    );
    assert_eq!(
        check_pushable("abc", "", "", "e", "n", "e", true),
        Some(
            "Won't push revision abc since it has no description and it has no author and/or committer set and it has conflicts"
                .to_string()
        )
    );
    assert_eq!(
        check_pushable("xy", "m", "n", "e", "n", "", false),
        Some("Won't push revision xy since it has no author and/or committer set".to_string())
    );
}

#[test]
fn nothing_to_push_messages() {
    let all = GitRefspec::AllBookmarks { remote_name: "origin".to_string() };
    assert_eq!(
        nothing_to_push_message(&all),
        Ok("No tracked bookmarks to push to remote 'origin'. Track or push a bookmark first."
            .to_string())
    );
    let remotes = GitRefspec::AllRemotes { bookmark_ref: local("main") };
    assert_eq!(
        nothing_to_push_message(&remotes),
        Ok("Bookmark 'main' is not tracked at any remote.".to_string())
    );
    let one = GitRefspec::RemoteBookmark {
        remote_name: "up".to_string(),
        bookmark_ref: local("main"),
    };
    assert_eq!(
        nothing_to_push_message(&one),
        Ok("Bookmark 'main' is not tracked at remote 'up'. Track it first.".to_string())
    );
    let bad = GitRefspec::AllRemotes { bookmark_ref: tag("v1") };
    assert_eq!(nothing_to_push_message(&bad), Err("not a local bookmark".to_string()));
}

#[test]
fn push_descriptions() {
    let all = GitRefspec::AllBookmarks { remote_name: "origin".to_string() };
    assert_eq!(
        push_description(&all),
        Ok("push all tracked bookmarks to git remote origin".to_string())
    );
    let remotes = GitRefspec::AllRemotes { bookmark_ref: local("main") };
    assert_eq!(
        push_description(&remotes),
        Ok("push main to all tracked git remotes".to_string())
    );
    let one = GitRefspec::RemoteBookmark {
        remote_name: "up".to_string(),
        bookmark_ref: local("main"),
    };
    assert_eq!(push_description(&one), Ok("push main to git remote up".to_string()));
    let bad = GitRefspec::RemoteBookmark { remote_name: "up".to_string(), bookmark_ref: tag("t") };
    assert_eq!(push_description(&bad), Err("not a local bookmark".to_string()));
}

#[test]
fn rejection_messages() {
    let rejected = vec![
        ("refs/heads/a".to_string(), Some("stale info".to_string())),
        ("refs/heads/b".to_string(), Some("busy".to_string())),
        ("refs/heads/c".to_string(), None),
    ];
    let remote_rejected = vec![("refs/heads/d".to_string(), Some("hook".to_string()))];
    assert_eq!(
        push_rejection_message(&rejected, &vec![]),
        "The following references unexpectedly moved on the remote: refs/heads/a, refs/heads/b (reason: busy), refs/heads/c. Try fetching first."
    );
    assert_eq!(
        push_rejection_message(&vec![], &remote_rejected),
        "The remote rejected the following updates: refs/heads/d (reason: hook). Check if you have permission to push."
    );
    assert_eq!(
        push_rejection_message(&rejected[2..].to_vec(), &remote_rejected),
        "The following references unexpectedly moved on the remote: refs/heads/c. Try fetching first.\n\nThe remote rejected the following updates: refs/heads/d (reason: hook). Check if you have permission to push."
    );
    assert_eq!(push_rejection_message(&vec![], &vec![]), "");
}

#[test]
fn fetch_patterns_per_refspec() {
    let remotes = vec!["origin".to_string(), "up".to_string()];
    let all = GitRefspec::AllBookmarks { remote_name: "origin".to_string() };
    assert_eq!(fetch_patterns(&all, &remotes), Ok(vec![("origin".to_string(), None)]));
    let every = GitRefspec::AllRemotes { bookmark_ref: local("main") };
    assert_eq!(
        fetch_patterns(&every, &remotes),
        Ok(vec![
            ("origin".to_string(), Some("main".to_string())),
            ("up".to_string(), Some("main".to_string())),
        ])
    );
    let one = GitRefspec::RemoteBookmark { remote_name: "up".to_string(), bookmark_ref: local("x") };
    assert_eq!(
        fetch_patterns(&one, &remotes),
        Ok(vec![("up".to_string(), Some("x".to_string()))])
    );
    let bad = GitRefspec::AllRemotes { bookmark_ref: tag("t") };
    assert_eq!(fetch_patterns(&bad, &remotes), Err("not a local bookmark".to_string()));
}

fn remote_ref(remote: &str, name: &str, present: bool) -> (String, String, bool) {
    (remote.to_string(), name.to_string(), present)
}

#[test]
fn default_branch_choice() {
    let refs = vec![
        remote_ref("origin", "feature", true),
        remote_ref("origin", "trunk", true),
        remote_ref("upstream", "main", true),
        remote_ref("origin", "master", false),
    ];
    assert_eq!(find_default_branch(&refs), Some("trunk".to_string()));
    let refs = vec![remote_ref("upstream", "main", true), remote_ref("origin", "zeta", true)];
    assert_eq!(find_default_branch(&refs), Some("zeta".to_string()));
    let refs = vec![remote_ref("origin", "develop", true), remote_ref("origin", "main", true)];
    assert_eq!(find_default_branch(&refs), Some("main".to_string()));
    assert_eq!(find_default_branch(&vec![remote_ref("up", "main", true)]), None);
}

#[test]
fn immutability_guards() {
    let strict = MutationOptions { ignore_immutable: false };
    let lax = MutationOptions { ignore_immutable: true };
    assert_eq!(check_revisions_mutable(true, 1, &strict), Err("Revision is immutable".to_string()));
    assert_eq!(
        check_revisions_mutable(true, 3, &strict),
        Err("Some revisions are immutable".to_string())
    );
    assert_eq!(check_revisions_mutable(true, 3, &lax), Ok(()));
    assert_eq!(check_revisions_mutable(false, 1, &strict), Ok(()));
    assert_eq!(
        check_destinations_mutable(true, 1, &strict),
        Err("Destination revision is immutable".to_string())
    );
    assert_eq!(
        check_destinations_mutable(true, 2, &strict),
        Err("Some destination revisions are immutable".to_string())
    );
    assert_eq!(check_destinations_mutable(true, 2, &lax), Ok(()));
}

#[test]
fn tracking_targets() {
    assert_eq!(track_target(&tag("v1")), Err("v1 is a tag and cannot be tracked".to_string()));
    assert_eq!(
        track_target(&local("main")),
        Err("main is a local bookmark and cannot be tracked".to_string())
    );
    let remote = StoreRef::RemoteBookmark {
        bookmark_name: "main".to_string(),
        remote_name: "origin".to_string(),
        has_conflict: false,
        is_synced: false,
        is_tracked: false,
        is_absent: false,
    };
    assert_eq!(track_target(&remote), Ok(("main".to_string(), "origin".to_string())));
    assert!(matches!(untrack_target(&tag("v1")), Err(m) if m == "v1 is a tag and cannot be untracked"));
    assert!(matches!(untrack_target(&local("dev")), Ok(UntrackTarget::AllRemotes { bookmark }) if bookmark == "dev"));
    assert!(matches!(
        untrack_target(&remote),
        Ok(UntrackTarget::OneRemote { bookmark, remote }) if bookmark == "main" && remote == "origin"
    ));
    let label = remote_bookmark_label("main", "origin");
    assert_eq!(label, "main@origin");
    assert_eq!(untrack_description(&[label.as_str()]), "untrack remote bookmark main@origin");
    assert_eq!(
        untrack_description(&["a@o", "b@o"]),
        "untrack remote bookmarks a@o, b@o"
    );
}

#[test]
fn repository_creation_plans() {
    assert_eq!(
        init_plan(true, true, true),
        Err("A Jujutsu repository already exists in this directory".to_string())
    );
    assert_eq!(init_plan(false, true, true), Ok(InitKind::ExternalGit));
    assert_eq!(init_plan(false, true, false), Ok(InitKind::ColocatedGit));
    assert_eq!(init_plan(false, false, true), Ok(InitKind::InternalGit));
    assert_eq!(check_clone_destination(false, false, "/x"), Ok(()));
    assert_eq!(check_clone_destination(true, false, "/x"), Ok(()));
    assert_eq!(
        check_clone_destination(true, true, "/x"),
        Err("Destination directory is not empty: /x".to_string())
    );
}

#[test]
fn describe_plans() {
    assert_eq!(describe_plan("same", "same", false, "n", "e"), Ok(DescribePlan::Unchanged));
    assert_eq!(describe_plan("same", "same", true, "n", "e"), Ok(DescribePlan::Rewrite));
    assert_eq!(describe_plan("old", "new", false, "", ""), Ok(DescribePlan::Rewrite));
    let advice = " Set them with `jj config set --user user.name \"Some One\"` and `jj config set --user user.email \"someone@example.com\"`.";
    assert_eq!(
        describe_plan("old", "new", true, "", ""),
        Err(format!("Name and email not configured.{advice}"))
    );
    assert_eq!(
        describe_plan("old", "new", true, "", "e"),
        Err(format!("Name not configured.{advice}"))
    );
    assert_eq!(
        describe_plan("old", "old", true, "n", ""),
        Err(format!("Email not configured.{advice}"))
    );
}

#[test]
fn parent_lists_and_named_immutability() {
    let ids = |v: &[&str]| v.iter().map(|s| s.to_string()).collect::<Vec<_>>();
    assert_eq!(check_distinct_parents(&ids(&["a", "b", "c"])), Ok(()));
    assert_eq!(check_distinct_parents(&ids(&[])), Ok(()));
    assert_eq!(
        check_distinct_parents(&ids(&["a", "b", "a"])),
        Err("Duplicate parent IDs".to_string())
    );
    let strict = MutationOptions { ignore_immutable: false };
    assert_eq!(
        check_revision_mutable_named(true, "kxy", &strict),
        Err("Revision kxy is immutable".to_string())
    );
    assert_eq!(
        check_revision_mutable_named(true, "kxy", &MutationOptions { ignore_immutable: true }),
        Ok(())
    );
}

#[test]
fn before_revision_immutability() {
    let strict = MutationOptions { ignore_immutable: false };
    let lax = MutationOptions { ignore_immutable: true };
    assert_eq!(check_before_mutable(true, &strict), Err("Before revision is immutable".to_string()));
    assert_eq!(check_before_mutable(true, &lax), Ok(()));
    assert_eq!(check_before_mutable(false, &strict), Ok(()));
}

#[test]
fn insert_descriptions() {
    assert_eq!(insert_description(1, "0123abcd"), Some("insert commit 0123abcd".to_string()));
    assert_eq!(insert_description(3, "0123abcd"), Some("insert 3 commits".to_string()));
    assert_eq!(insert_description(12, "0123abcd"), Some("insert 12 commits".to_string()));
    assert_eq!(insert_description(0, "0123abcd"), None);
}

#[test]
fn hunk_preconditions() {
    assert_eq!(check_hunk_source_parents(1), Ok(()));
    assert_eq!(check_hunk_source_parents(2), Err("Cannot move hunk from a merge commit".to_string()));
    assert_eq!(check_hunk_source_parents(0), Err("Cannot move hunk from a merge commit".to_string()));
    assert_eq!(check_hunk_destination_resolved(true), Ok(()));
    assert_eq!(
        check_hunk_destination_resolved(false),
        Err("Cannot restore hunk: destination file has conflicts".to_string())
    );
}

#[test]
fn decimal_strings() {
    assert_eq!(decimal_string(0), "0");
    assert_eq!(decimal_string(7), "7");
    assert_eq!(decimal_string(10), "10");
    assert_eq!(decimal_string(1234567890), "1234567890");
    assert_eq!(decimal_string(usize::MAX as u128), usize::MAX.to_string());
    assert_eq!(decimal_string(u128::MAX), u128::MAX.to_string());
}

#[test]
fn source_immutability() {
    let strict = MutationOptions { ignore_immutable: false };
    let lax = MutationOptions { ignore_immutable: true };
    assert_eq!(
        check_sources_mutable(true, &strict),
        Err("Some source revisions are immutable".to_string())
    );
    assert_eq!(check_sources_mutable(true, &lax), Ok(()));
    assert_eq!(check_sources_mutable(false, &strict), Ok(()));
}

#[test]
fn operation_descriptions() {
    assert_eq!(move_changes_description("aa", "bb", "cc"), "move changes from aa::bb to cc");
    assert_eq!(move_hunk_description("src/a.rs", "aa", "bb"), "move hunk in src/a.rs from aa to bb");
    assert_eq!(
        restore_hunk_description("src/a.rs", "aa", "bb"),
        "restore hunk in src/a.rs from aa into bb"
    );
    assert_eq!(create_ref_description("main", "0123"), "create main pointing to commit 0123");
    assert_eq!(forget_workspace_description("ws2"), "forget workspace 'ws2'");
    assert_eq!(undo_description("abcdef"), "undo operation abcdef");
}

#[test]
fn insertion_rewires_before_parents() {
    let rebased = vec![("p1".to_string(), "p1x".to_string()), ("after".to_string(), "after2".to_string())];
    assert_eq!(rebased_id(&rebased, "p1"), "p1x");
    assert_eq!(rebased_id(&rebased, "q"), "q");
    let parents = vec!["p1".to_string(), "after".to_string(), "other".to_string()];
    let after_id = rebased_id(&rebased, "after");
    assert_eq!(
        replace_after_parent(&parents, &rebased, &after_id, "newest"),
        vec!["p1x".to_string(), "newest".to_string(), "other".to_string()]
    );
}

#[test]
fn create_ref_requests() {
    let remote = StoreRef::RemoteBookmark {
        bookmark_name: "main".to_string(),
        remote_name: "origin".to_string(),
        has_conflict: false,
        is_synced: true,
        is_tracked: true,
        is_absent: false,
    };
    assert_eq!(
        create_ref_name(&remote, false),
        Err("main@origin is a remote bookmark and cannot be created".to_string())
    );
    let tag = StoreRef::Tag { tag_name: "v1".to_string() };
    assert_eq!(create_ref_name(&tag, false), Ok("v1".to_string()));
    assert_eq!(create_ref_name(&tag, true), Err("v1 already exists".to_string()));
    let local = StoreRef::LocalBookmark {
        bookmark_name: "feat".to_string(),
        has_conflict: false,
        is_synced: true,
        tracking_remotes: vec![],
        available_remotes: 0,
        potential_remotes: 0,
    };
    assert_eq!(create_ref_name(&local, false), Ok("feat".to_string()));
    assert_eq!(create_ref_name(&local, true), Err("feat already exists".to_string()));
}

#[test]
fn bookmark_rename_checks() {
    assert_eq!(check_bookmark_rename("a", true, "b", false), Ok(()));
    assert_eq!(check_bookmark_rename("a", false, "b", false), Err("No such bookmark: a".to_string()));
    assert_eq!(
        check_bookmark_rename("a", true, "b", true),
        Err("Bookmark already exists: b".to_string())
    );
}

#[test]
fn workspace_checks() {
    assert_eq!(check_forget_workspace("w", true, false), Ok(()));
    assert_eq!(check_forget_workspace("w", false, false), Err("Workspace 'w' not found".to_string()));
    assert_eq!(
        check_forget_workspace("w", true, true),
        Err("Cannot forget the current workspace".to_string())
    );
    assert_eq!(
        rename_workspace_plan("a", "", "a", "", true, false, true),
        Err("New workspace name cannot be empty".to_string())
    );
    assert_eq!(
        rename_workspace_plan("a", "a", "a", "a", false, false, false),
        Ok(RenameWorkspacePlan::Unchanged)
    );
    assert_eq!(
        rename_workspace_plan("a", "b", "a", "b", false, false, true),
        Err("Workspace 'a' not found".to_string())
    );
    assert_eq!(
        rename_workspace_plan("a", "b", "a", "b", true, true, true),
        Err("Workspace 'b' already exists".to_string())
    );
    assert_eq!(
        rename_workspace_plan("a", "b", "a", "b", true, false, false),
        Err("Can only rename the current workspace".to_string())
    );
    assert_eq!(
        rename_workspace_plan("a", "b", "a", "b", true, false, true),
        Ok(RenameWorkspacePlan::Rename)
    );
}

#[test]
fn undo_checks() {
    assert_eq!(check_undoable(0), Err("Cannot undo repo initialization".to_string()));
    assert_eq!(check_undoable(1), Ok(()));
    assert_eq!(check_undoable(2), Err("Cannot undo a merge operation".to_string()));
}
