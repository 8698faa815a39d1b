use gg_core::menu::accelerator_action;
use gg_core::menu::{
    compute_ref_enablement, compute_revision_enablement, context_menu, menu_action,
    recent_item_id, selection_enablement, ContextMenu, MenuAction, MenuTopic, RefEnablement,
    RevisionEnablement,
};
use gg_core::messages::{
    ChangeId, CommitId, DisplayPath, MultilineString, Operand, RevHeader, RevId, StoreRef,
    TreePath,
};
use gg_core::recent::{recent_menu_entries, update_recent_workspaces};

fn commit(hex: &str) -> CommitId {
    CommitId { hex: hex.to_string(), prefix: hex.to_string(), rest: String::new() }
}

fn header(immutable: bool, working_copy: bool, parents: usize) -> RevHeader {
    RevHeader {
        id: RevId {
            change: ChangeId { hex: "k".to_string(), prefix: "k".to_string(), rest: String::new() },
            commit: commit("c"),
        },
        description: MultilineString { lines: vec!["d".to_string()] },
        has_conflict: false,
        is_working_copy: working_copy,
        is_immutable: immutable,
        refs: vec![],
        parent_ids: (0..parents).map(|i| commit(&format!("p{i}"))).collect(),
    }
}

const NONE_ENABLED: RevisionEnablement = RevisionEnablement {
    new_child: false,
    new_parent: false,
    edit: false,
    revert: false,
    duplicate: false,
    abandon: false,
    squash: false,
    restore: false,
    bookmark: false,
};

#[test]
fn single_mutable_revision() {
    let e = compute_revision_enablement(&[header(false, false, 1)], false);
    assert_eq!(
        e,
        RevisionEnablement {
            new_child: true,
            new_parent: true,
            edit: true,
            revert: true,
            duplicate: true,
            abandon: true,
            squash: true,
            restore: true,
            bookmark: true,
        }
    );
}

#[test]
fn immutable_revision_unless_ignored() {
    let h = [header(true, false, 1)];
    let e = compute_revision_enablement(&h, false);
    assert!(e.new_child && e.revert && e.duplicate && e.bookmark);
    assert!(!e.new_parent && !e.edit && !e.abandon && !e.squash && !e.restore);
    let e = compute_revision_enablement(&h, true);
    assert!(e.new_parent && e.edit && e.abandon && e.squash && e.restore);
}

#[test]
fn working_copy_and_merges() {
    let e = compute_revision_enablement(&[header(false, true, 1)], false);
    assert!(!e.edit);
    let e = compute_revision_enablement(&[header(false, false, 2)], false);
    assert!(!e.new_parent && !e.squash && !e.restore && e.edit);
}

#[test]
fn several_revisions() {
    // newest first; the oldest is the last
    let hs = [header(false, true, 2), header(false, false, 1)];
    let e = compute_revision_enablement(&hs, false);
    assert!(e.new_parent && e.squash && e.abandon);
    assert!(!e.edit && !e.restore && !e.bookmark);
}

#[test]
fn no_selection_disables_everything() {
    assert_eq!(selection_enablement(None, false), NONE_ENABLED);
    assert_eq!(selection_enablement(Some(&[][..]), false), NONE_ENABLED);
    let h = [header(false, false, 1)];
    assert_eq!(selection_enablement(Some(&h[..]), false), compute_revision_enablement(&h, false));
}

fn remote(is_synced: bool, is_tracked: bool, is_absent: bool) -> StoreRef {
    StoreRef::RemoteBookmark {
        bookmark_name: "b".to_string(),
        remote_name: "origin".to_string(),
        has_conflict: false,
        is_synced,
        is_tracked,
        is_absent,
    }
}

#[test]
fn bookmark_commands() {
    let local = StoreRef::LocalBookmark {
        bookmark_name: "main".to_string(),
        has_conflict: false,
        is_synced: true,
        tracking_remotes: vec!["origin".to_string()],
        available_remotes: 1,
        potential_remotes: 0,
    };
    assert_eq!(
        compute_ref_enablement(&local),
        RefEnablement {
            track: false,
            untrack: true,
            push_all: true,
            push_single: false,
            fetch_all: true,
            fetch_single: true,
            rename: true,
            delete: true,
        }
    );
    let untracked = compute_ref_enablement(&remote(false, false, false));
    assert!(untracked.track && !untracked.untrack && untracked.fetch_all && untracked.delete);
    let deleted = compute_ref_enablement(&remote(false, true, true));
    assert!(deleted.push_all && !deleted.fetch_all && !deleted.delete && !deleted.untrack);
    let diverged = compute_ref_enablement(&remote(false, true, false));
    assert!(diverged.untrack && !diverged.push_all);
    let tag = compute_ref_enablement(&StoreRef::Tag { tag_name: "v1".to_string() });
    assert!(tag.delete && !tag.rename && !tag.track && !tag.fetch_all);
}

#[test]
fn context_menus() {
    assert_eq!(context_menu(&Operand::Repository, false), ContextMenu::NoPopup);
    let h = header(false, false, 1);
    assert_eq!(
        context_menu(&Operand::Revision { header: h.clone() }, false),
        ContextMenu::Revision(compute_revision_enablement(&[h.clone()], false))
    );
    let change = Operand::Change {
        headers: vec![header(true, false, 1)],
        path: TreePath { repo_path: "a".to_string(), relative_path: DisplayPath("a".to_string()) },
        hunk: None,
    };
    assert_eq!(context_menu(&change, false), ContextMenu::Tree { squash: false, restore: false });
    assert_eq!(context_menu(&change, true), ContextMenu::Tree { squash: true, restore: true });
    let r = Operand::Ref { header: h, store_ref: StoreRef::Tag { tag_name: "t".to_string() } };
    assert!(matches!(context_menu(&r, false), ContextMenu::Ref(e) if e.delete));
}

#[test]
fn menu_events() {
    assert!(matches!(menu_action("menu_repo_open"), MenuAction::RepoOpen));
    assert!(matches!(menu_action("menu_repo_reopen"), MenuAction::RepoReopen));
    match menu_action("bookmark_push_all") {
        MenuAction::Emit { topic, payload } => {
            assert_eq!(topic, MenuTopic::ContextBookmark);
            assert_eq!(topic.event_name(), "gg://context/bookmark");
            assert_eq!(payload, "push-all");
        }
        _ => panic!("expected an event"),
    }
    match menu_action("menu_revision_new_child") {
        MenuAction::Emit { topic, payload } => {
            assert_eq!(topic.event_name(), "gg://menu/revision");
            assert_eq!(payload, "new_child");
        }
        _ => panic!("expected an event"),
    }
    match menu_action(&recent_item_id("/home/u/repo")) {
        MenuAction::OpenRecent { path } => assert_eq!(path, "/home/u/repo"),
        _ => panic!("expected a recent workspace"),
    }
    assert!(matches!(menu_action("something_else"), MenuAction::Ignore));
}

#[test]
fn recent_workspace_list() {
    let list: Vec<String> = vec!["/a".to_string(), "/b".to_string(), "/c".to_string()];
    assert_eq!(update_recent_workspaces(&list, "/b"), vec!["/b", "/a", "/c"]);
    assert_eq!(update_recent_workspaces(&list, "/d"), vec!["/d", "/a", "/b", "/c"]);
    let long: Vec<String> = (0..12).map(|i| format!("/r{i}")).collect();
    let updated = update_recent_workspaces(&long, "/new");
    assert_eq!(updated.len(), 10);
    assert_eq!(updated[0], "/new");
    assert_eq!(updated[9], "/r8");
    let again = update_recent_workspaces(&updated, "/new");
    assert_eq!(again, updated);
}

#[test]
fn recent_menu() {
    let list: Vec<String> = (0..11).map(|i| format!("/home/u/r{i}")).collect();
    let entries = recent_menu_entries(&list, Some("/home/u"));
    assert_eq!(entries.len(), 10);
    assert_eq!(entries[0], ("recent:/home/u/r0".to_string(), "~/r0".to_string()));
    let entries = recent_menu_entries(&vec!["/opt/x".to_string()], None);
    assert_eq!(entries, vec![("recent:/opt/x".to_string(), "/opt/x".to_string())]);
}

#[test]
fn keyboard_shortcuts() {
    assert!(matches!(accelerator_action('o', true, false, None), MenuAction::RepoOpen));
    assert!(matches!(accelerator_action('o', true, true, None), MenuAction::RepoClone));
    assert!(matches!(accelerator_action('n', true, true, None), MenuAction::RepoInit));
    assert!(matches!(accelerator_action('n', true, false, None), MenuAction::Ignore));
    let mutable = header(false, false, 1);
    match accelerator_action('n', true, false, Some(&mutable)) {
        MenuAction::Emit { topic, payload } => {
            assert_eq!(topic, MenuTopic::Revision);
            assert_eq!(payload, "new_child");
        }
        _ => panic!("expected an event"),
    }
    match accelerator_action('m', true, false, Some(&mutable)) {
        MenuAction::Emit { payload, .. } => assert_eq!(payload, "new_parent"),
        _ => panic!("expected an event"),
    }
    let frozen = header(true, false, 1);
    assert!(matches!(accelerator_action('m', true, false, Some(&frozen)), MenuAction::Ignore));
    let merge = header(false, false, 2);
    assert!(matches!(accelerator_action('m', true, false, Some(&merge)), MenuAction::Ignore));
    assert!(matches!(accelerator_action('x', true, false, Some(&mutable)), MenuAction::Ignore));
    assert!(matches!(accelerator_action('o', false, false, None), MenuAction::Ignore));
}

#[test]
fn every_menu_item_is_routed() {
    let e = compute_revision_enablement(&[header(false, false, 1)], false);
    for (context, topic) in [(false, MenuTopic::Revision), (true, MenuTopic::ContextRevision)] {
        let items = e.items(context);
        assert_eq!(items.len(), 9);
        for (id, _enabled) in items {
            match menu_action(id) {
                MenuAction::Emit { topic: t, payload } => {
                    assert_eq!(t, topic);
                    assert!(id.ends_with(payload.as_str()));
                }
                _ => panic!("{id} is not routed"),
            }
        }
    }
    let refs = compute_ref_enablement(&StoreRef::Tag { tag_name: "t".to_string() }).items();
    assert_eq!(refs.len(), 8);
    for (id, _) in refs {
        assert!(matches!(menu_action(id), MenuAction::Emit { topic: MenuTopic::ContextBookmark, .. }));
    }
    assert_eq!(e.items(false)[2], ("menu_revision_edit", true));
}
