//! What the menus offer: which revision, tree and bookmark commands are
//! enabled for a selection, and what a chosen menu item asks for.
//!
//! The window layer builds the menus and applies these decisions to them.
use vstd::prelude::*;
use vstd::string::*;

use crate::keyed::{key_index, lemma_key_index};
use crate::messages::{Operand, RevHeader, StoreRef};
use crate::text::str_eq;

verus! {

// ---------------------------------------------------------------------------
// Revision commands
// ---------------------------------------------------------------------------

/// Which revision commands are enabled.
#[derive(Clone, Copy, Debug, PartialEq, Eq, Structural)]
pub struct RevisionEnablement {
    pub new_child: bool,
    pub new_parent: bool,
    pub edit: bool,
    pub revert: bool,
    pub duplicate: bool,
    pub abandon: bool,
    pub squash: bool,
    pub restore: bool,
    pub bookmark: bool,
}

/// Whether immutability stops a change to any of `headers`.
pub open spec fn any_immutable(headers: Seq<RevHeader>, ignore_immutable: bool) -> bool {
    !ignore_immutable && exists|i: int| 0 <= i < headers.len() && (#[trigger] headers[i]).is_immutable
}

/// Whether the oldest of `headers` (the last) has exactly one parent.
pub open spec fn oldest_has_single_parent(headers: Seq<RevHeader>) -> bool {
    headers.len() > 0 && headers.last().parent_ids@.len() == 1
}

/// The revision commands enabled for the selected `headers`, newest first.
pub open spec fn revision_enablement(headers: Seq<RevHeader>, ignore_immutable: bool) -> RevisionEnablement {
    let singleton = headers.len() == 1;
    let frozen = any_immutable(headers, ignore_immutable);
    let single_parent = oldest_has_single_parent(headers);
    let newest_is_working_copy = headers.len() > 0 && headers[0].is_working_copy;
    RevisionEnablement {
        new_child: true,
        new_parent: !frozen && single_parent,
        edit: singleton && !frozen && !newest_is_working_copy,
        revert: true,
        duplicate: true,
        abandon: !frozen,
        squash: !frozen && single_parent,
        restore: singleton && !frozen && single_parent,
        bookmark: singleton,
    }
}

/// Nothing enabled.
pub open spec fn all_disabled() -> RevisionEnablement {
    RevisionEnablement {
        new_child: false,
        new_parent: false,
        edit: false,
        revert: false,
        duplicate: false,
        abandon: false,
        squash: false,
        restore: false,
        bookmark: false,
    }
}

/// Whether any of `headers` is immutable, unless immutability is ignored.
fn find_immutable(headers: &[RevHeader], ignore_immutable: bool) -> (r: bool)
    ensures
        r == any_immutable(headers@, ignore_immutable),
{
    if ignore_immutable {
        return false;
    }
    let mut i: usize = 0;
    while i < headers.len()
        invariant
            !ignore_immutable,
            i <= headers@.len(),
            forall|j: int| 0 <= j < i ==> !(#[trigger] headers@[j]).is_immutable,
        decreases headers@.len() - i,
    {
        if headers[i].is_immutable {
            assert(headers@[i as int].is_immutable);
            return true;
        }
        i = i + 1;
    }
    false
}

/// The revision commands enabled for the selected `headers`, newest first.
pub fn compute_revision_enablement(headers: &[RevHeader], ignore_immutable: bool) -> (r:
    RevisionEnablement)
    ensures
        r == revision_enablement(headers@, ignore_immutable),
{
    let is_singleton = headers.len() == 1;
    let frozen = find_immutable(headers, ignore_immutable);
    let n = headers.len();
    let single_parent = n > 0 && headers[n - 1].parent_ids.len() == 1;
    let newest_is_working_copy = n > 0 && headers[0].is_working_copy;
    RevisionEnablement {
        new_child: true,
        new_parent: !frozen && single_parent,
        edit: is_singleton && !frozen && !newest_is_working_copy,
        revert: true,
        duplicate: true,
        abandon: !frozen,
        squash: !frozen && single_parent,
        restore: is_singleton && !frozen && single_parent,
        bookmark: is_singleton,
    }
}

/// The commands of the revision menu for the current selection: nothing
/// without a selection, else as [`compute_revision_enablement`] decides.
pub fn selection_enablement(headers: Option<&[RevHeader]>, ignore_immutable: bool) -> (r:
    RevisionEnablement)
    ensures
        r == (match headers {
            Some(h) if h@.len() > 0 => revision_enablement(h@, ignore_immutable),
            _ => all_disabled(),
        }),
{
    match headers {
        Some(h) if h.len() > 0 => compute_revision_enablement(h, ignore_immutable),
        _ => RevisionEnablement {
            new_child: false,
            new_parent: false,
            edit: false,
            revert: false,
            duplicate: false,
            abandon: false,
            squash: false,
            restore: false,
            bookmark: false,
        },
    }
}

/// The ids of the revision commands and whether each is enabled, in menu
/// order: under `menu_revision_` in the main menu, under `revision_` in the
/// context menu.
pub open spec fn revision_items_spec(e: RevisionEnablement, context: bool) -> Seq<(Seq<char>, bool)> {
    if context {
        seq![
            ("revision_new_child"@, e.new_child),
            ("revision_new_parent"@, e.new_parent),
            ("revision_edit"@, e.edit),
            ("revision_revert"@, e.revert),
            ("revision_duplicate"@, e.duplicate),
            ("revision_abandon"@, e.abandon),
            ("revision_squash"@, e.squash),
            ("revision_restore"@, e.restore),
            ("revision_bookmark"@, e.bookmark),
        ]
    } else {
        seq![
            ("menu_revision_new_child"@, e.new_child),
            ("menu_revision_new_parent"@, e.new_parent),
            ("menu_revision_edit"@, e.edit),
            ("menu_revision_revert"@, e.revert),
            ("menu_revision_duplicate"@, e.duplicate),
            ("menu_revision_abandon"@, e.abandon),
            ("menu_revision_squash"@, e.squash),
            ("menu_revision_restore"@, e.restore),
            ("menu_revision_bookmark"@, e.bookmark),
        ]
    }
}

/// The views of menu items.
pub open spec fn item_views(v: Seq<(&'static str, bool)>) -> Seq<(Seq<char>, bool)> {
    v.map_values(|x: (&'static str, bool)| (x.0@, x.1))
}

impl RevisionEnablement {
    /// The menu items to enable or disable, by id.
    pub fn items(&self, context: bool) -> (r: Vec<(&'static str, bool)>)
        ensures
            item_views(r@) == revision_items_spec(*self, context),
    {
        let mut v: Vec<(&'static str, bool)> = Vec::new();
        if context {
            v.push(("revision_new_child", self.new_child));
            v.push(("revision_new_parent", self.new_parent));
            v.push(("revision_edit", self.edit));
            v.push(("revision_revert", self.revert));
            v.push(("revision_duplicate", self.duplicate));
            v.push(("revision_abandon", self.abandon));
            v.push(("revision_squash", self.squash));
            v.push(("revision_restore", self.restore));
            v.push(("revision_bookmark", self.bookmark));
        } else {
            v.push(("menu_revision_new_child", self.new_child));
            v.push(("menu_revision_new_parent", self.new_parent));
            v.push(("menu_revision_edit", self.edit));
            v.push(("menu_revision_revert", self.revert));
            v.push(("menu_revision_duplicate", self.duplicate));
            v.push(("menu_revision_abandon", self.abandon));
            v.push(("menu_revision_squash", self.squash));
            v.push(("menu_revision_restore", self.restore));
            v.push(("menu_revision_bookmark", self.bookmark));
        }
        assert(item_views(v@) =~= revision_items_spec(*self, context));
        v
    }
}

// ---------------------------------------------------------------------------
// Context menus
// ---------------------------------------------------------------------------

/// Which bookmark commands are enabled.
#[derive(Clone, Copy, Debug, PartialEq, Eq, Structural)]
pub struct RefEnablement {
    pub track: bool,
    pub untrack: bool,
    pub push_all: bool,
    pub push_single: bool,
    pub fetch_all: bool,
    pub fetch_single: bool,
    pub rename: bool,
    pub delete: bool,
}

/// A local bookmark that some remote tracks.
pub open spec fn is_tracked_local(r: StoreRef) -> bool {
    r matches StoreRef::LocalBookmark { tracking_remotes, .. } && tracking_remotes@.len() > 0
}

/// The bookmark commands enabled for `r`.
pub open spec fn ref_enablement(r: StoreRef) -> RefEnablement {
    RefEnablement {
        // give remotes a local, or undelete them
        track: r matches StoreRef::RemoteBookmark { is_tracked, .. } && !is_tracked,
        // remove a local's remotes, or a remote from its local
        untrack: is_tracked_local(r) || (r matches StoreRef::RemoteBookmark {
            is_synced,
            is_tracked,
            is_absent,
            ..
        } && !is_synced && is_tracked && !is_absent),
        // push a local to its remotes, or finish a deletion made elsewhere
        push_all: is_tracked_local(r) || (r matches StoreRef::RemoteBookmark {
            is_tracked,
            is_absent,
            ..
        } && is_tracked && is_absent),
        // push a local to a selected remote, tracking first if necessary
        push_single: r matches StoreRef::LocalBookmark { potential_remotes, .. }
            && potential_remotes > 0,
        // fetch a local's remotes, or a remote unless it is being deleted
        fetch_all: is_tracked_local(r) || (r matches StoreRef::RemoteBookmark {
            is_tracked,
            is_absent,
            ..
        } && (!is_tracked || !is_absent)),
        // fetch a local, tracking first if necessary
        fetch_single: r matches StoreRef::LocalBookmark { available_remotes, .. }
            && available_remotes > 0,
        // rename a local, which also untracks remotes
        rename: r is LocalBookmark,
        // remove a local, or make a remote absent
        delete: !(r matches StoreRef::RemoteBookmark { is_tracked, is_absent, .. } && is_tracked
            && is_absent),
    }
}

/// The bookmark commands enabled for `r`.
pub fn compute_ref_enablement(r: &StoreRef) -> (e: RefEnablement)
    ensures
        e == ref_enablement(*r),
{
    match r {
        StoreRef::LocalBookmark { tracking_remotes, available_remotes, potential_remotes, .. } => {
            let has_remotes = tracking_remotes.len() > 0;
            RefEnablement {
                track: false,
                untrack: has_remotes,
                push_all: has_remotes,
                push_single: *potential_remotes > 0,
                fetch_all: has_remotes,
                fetch_single: *available_remotes > 0,
                rename: true,
                delete: true,
            }
        },
        StoreRef::RemoteBookmark { is_synced, is_tracked, is_absent, .. } => RefEnablement {
            track: !*is_tracked,
            untrack: !*is_synced && *is_tracked && !*is_absent,
            push_all: *is_tracked && *is_absent,
            push_single: false,
            fetch_all: !*is_tracked || !*is_absent,
            fetch_single: false,
            rename: false,
            delete: !(*is_tracked && *is_absent),
        },
        StoreRef::Tag { .. } => RefEnablement {
            track: false,
            untrack: false,
            push_all: false,
            push_single: false,
            fetch_all: false,
            fetch_single: false,
            rename: false,
            delete: true,
        },
    }
}

/// The revision commands enabled for a single selected revision.
fn single_revision_enablement(header: &RevHeader, ignore_immutable: bool) -> (r:
    RevisionEnablement)
    ensures
        r == revision_enablement(seq![*header], ignore_immutable),
{
    let frozen = !ignore_immutable && header.is_immutable;
    let single_parent = header.parent_ids.len() == 1;
    proof {
        let s = seq![*header];
        assert(s[0] == *header);
        assert(s.last() == *header);
        assert(frozen == any_immutable(s, ignore_immutable));
    }
    RevisionEnablement {
        new_child: true,
        new_parent: !frozen && single_parent,
        edit: !frozen && !header.is_working_copy,
        revert: true,
        duplicate: true,
        abandon: !frozen,
        squash: !frozen && single_parent,
        restore: !frozen && single_parent,
        bookmark: true,
    }
}

/// The ids of the bookmark commands and whether each is enabled.
pub open spec fn ref_items_spec(e: RefEnablement) -> Seq<(Seq<char>, bool)> {
    seq![
        ("bookmark_track"@, e.track),
        ("bookmark_untrack"@, e.untrack),
        ("bookmark_push_all"@, e.push_all),
        ("bookmark_push_single"@, e.push_single),
        ("bookmark_fetch_all"@, e.fetch_all),
        ("bookmark_fetch_single"@, e.fetch_single),
        ("bookmark_rename"@, e.rename),
        ("bookmark_delete"@, e.delete),
    ]
}

impl RefEnablement {
    /// The context menu items to enable or disable, by id.
    pub fn items(&self) -> (r: Vec<(&'static str, bool)>)
        ensures
            item_views(r@) == ref_items_spec(*self),
    {
        let mut v: Vec<(&'static str, bool)> = Vec::new();
        v.push(("bookmark_track", self.track));
        v.push(("bookmark_untrack", self.untrack));
        v.push(("bookmark_push_all", self.push_all));
        v.push(("bookmark_push_single", self.push_single));
        v.push(("bookmark_fetch_all", self.fetch_all));
        v.push(("bookmark_fetch_single", self.fetch_single));
        v.push(("bookmark_rename", self.rename));
        v.push(("bookmark_delete", self.delete));
        assert(item_views(v@) =~= ref_items_spec(*self));
        v
    }
}

/// The context menu to pop up for an operand, with its enabled commands.
#[derive(Clone, Copy, Debug, PartialEq, Eq, Structural)]
pub enum ContextMenu {
    Revision(RevisionEnablement),
    Tree { squash: bool, restore: bool },
    Ref(RefEnablement),
    NoPopup,
}

/// The context menu for `operand`.
pub open spec fn context_menu_spec(operand: Operand, ignore_immutable: bool) -> ContextMenu {
    match operand {
        Operand::Revision { header } => ContextMenu::Revision(
            revision_enablement(seq![header], ignore_immutable),
        ),
        Operand::Revisions { headers } => ContextMenu::Revision(
            revision_enablement(headers@, ignore_immutable),
        ),
        Operand::Change { headers, .. } => {
            let allowed = !any_immutable(headers@, ignore_immutable) && oldest_has_single_parent(
                headers@,
            );
            ContextMenu::Tree { squash: allowed, restore: allowed }
        },
        Operand::Ref { store_ref, .. } => ContextMenu::Ref(ref_enablement(store_ref)),
        _ => ContextMenu::NoPopup,
    }
}

/// Decides which context menu to show for `operand` and what it enables.
pub fn context_menu(operand: &Operand, ignore_immutable: bool) -> (r: ContextMenu)
    ensures
        r == context_menu_spec(*operand, ignore_immutable),
{
    match operand {
        Operand::Revision { header } => ContextMenu::Revision(
            single_revision_enablement(header, ignore_immutable),
        ),
        Operand::Revisions { headers } => ContextMenu::Revision(
            compute_revision_enablement(headers.as_slice(), ignore_immutable),
        ),
        Operand::Change { headers, .. } => {
            let frozen = find_immutable(headers.as_slice(), ignore_immutable);
            let n = headers.len();
            let allowed = !frozen && n > 0 && headers[n - 1].parent_ids.len() == 1;
            ContextMenu::Tree { squash: allowed, restore: allowed }
        },
        Operand::Ref { store_ref, .. } => ContextMenu::Ref(compute_ref_enablement(store_ref)),
        _ => ContextMenu::NoPopup,
    }
}

/// Turning immutability checks off never disables a command: every
/// revision and tree command enabled with the checks is enabled without them.
pub proof fn law_ignoring_immutability_only_enables(headers: Seq<RevHeader>)
    ensures
        ({
            let on = revision_enablement(headers, false);
            let off = revision_enablement(headers, true);
            &&& on.new_child ==> off.new_child
            &&& on.new_parent ==> off.new_parent
            &&& on.edit ==> off.edit
            &&& on.revert ==> off.revert
            &&& on.duplicate ==> off.duplicate
            &&& on.abandon ==> off.abandon
            &&& on.squash ==> off.squash
            &&& on.restore ==> off.restore
            &&& on.bookmark ==> off.bookmark
        }),
{
}

/// Unless immutability is ignored, an immutable revision anywhere in the
/// selection disables every command that would rewrite it: abandon, squash,
/// new parent, edit and restore, in the revision menu and in the change
/// (tree) menu alike. With no immutable revision selected, or with
/// immutability ignored, abandon is enabled.
pub proof fn law_immutable_anywhere_freezes(headers: Seq<RevHeader>, i: int)
    requires
        0 <= i < headers.len(),
        headers[i].is_immutable,
    ensures
        ({
            let e = revision_enablement(headers, false);
            &&& !e.abandon
            &&& !e.squash
            &&& !e.new_parent
            &&& !e.edit
            &&& !e.restore
        }),
        forall|ops: Operand|
            #![trigger context_menu_spec(ops, false)]
            (ops matches Operand::Change { headers: hs, .. } && hs@ == headers) ==> context_menu_spec(
                ops,
                false,
            ) == (ContextMenu::Tree { squash: false, restore: false }),
{
    assert(headers[i].is_immutable);
}

/// With no immutable revision in the selection, or with immutability
/// ignored, abandoning is enabled.
pub proof fn law_mutable_selection_can_abandon(headers: Seq<RevHeader>, ignore_immutable: bool)
    requires
        ignore_immutable || forall|i: int| 0 <= i < headers.len() ==> !(#[trigger] headers[i]).is_immutable,
    ensures
        revision_enablement(headers, ignore_immutable).abandon,
{
}

// ---------------------------------------------------------------------------
// Menu events
// ---------------------------------------------------------------------------

/// The channel on which a menu command reaches the frontend.
#[derive(Clone, Copy, Debug, PartialEq, Eq, Structural)]
pub enum MenuTopic {
    /// `gg://menu/revision`
    Revision,
    /// `gg://context/revision`
    ContextRevision,
    /// `gg://context/tree`
    ContextTree,
    /// `gg://context/bookmark`
    ContextBookmark,
}

/// The event name of a topic.
pub open spec fn topic_name(t: MenuTopic) -> Seq<char> {
    match t {
        MenuTopic::Revision => "gg://menu/revision"@,
        MenuTopic::ContextRevision => "gg://context/revision"@,
        MenuTopic::ContextTree => "gg://context/tree"@,
        MenuTopic::ContextBookmark => "gg://context/bookmark"@,
    }
}

impl MenuTopic {
    /// The event name under which the frontend listens.
    pub fn event_name(&self) -> (r: &'static str)
        ensures
            r@ == topic_name(*self),
    {
        match self {
            MenuTopic::Revision => "gg://menu/revision",
            MenuTopic::ContextRevision => "gg://context/revision",
            MenuTopic::ContextTree => "gg://context/tree",
            MenuTopic::ContextBookmark => "gg://context/bookmark",
        }
    }
}

/// What choosing a menu item asks for.
#[derive(Clone, Debug)]
pub enum MenuAction {
    RepoInit,
    RepoClone,
    RepoOpen,
    RepoReopen,
    /// Send `payload` to the frontend on `topic`.
    Emit { topic: MenuTopic, payload: String },
    /// Open the recent workspace at `path`.
    OpenRecent { path: String },
    /// Not an item of ours.
    Ignore,
}

/// The menu items that forward a command to the frontend, by item id.
pub open spec fn emit_routes() -> Seq<(Seq<char>, (MenuTopic, Seq<char>))> {
    seq![
        ("menu_revision_new_child"@, (MenuTopic::Revision, "new_child"@)),
        ("menu_revision_new_parent"@, (MenuTopic::Revision, "new_parent"@)),
        ("menu_revision_edit"@, (MenuTopic::Revision, "edit"@)),
        ("menu_revision_revert"@, (MenuTopic::Revision, "revert"@)),
        ("menu_revision_duplicate"@, (MenuTopic::Revision, "duplicate"@)),
        ("menu_revision_abandon"@, (MenuTopic::Revision, "abandon"@)),
        ("menu_revision_squash"@, (MenuTopic::Revision, "squash"@)),
        ("menu_revision_restore"@, (MenuTopic::Revision, "restore"@)),
        ("menu_revision_bookmark"@, (MenuTopic::Revision, "bookmark"@)),
        ("revision_new_child"@, (MenuTopic::ContextRevision, "new_child"@)),
        ("revision_new_parent"@, (MenuTopic::ContextRevision, "new_parent"@)),
        ("revision_edit"@, (MenuTopic::ContextRevision, "edit"@)),
        ("revision_revert"@, (MenuTopic::ContextRevision, "revert"@)),
        ("revision_duplicate"@, (MenuTopic::ContextRevision, "duplicate"@)),
        ("revision_abandon"@, (MenuTopic::ContextRevision, "abandon"@)),
        ("revision_squash"@, (MenuTopic::ContextRevision, "squash"@)),
        ("revision_restore"@, (MenuTopic::ContextRevision, "restore"@)),
        ("revision_bookmark"@, (MenuTopic::ContextRevision, "bookmark"@)),
        ("tree_squash"@, (MenuTopic::ContextTree, "squash"@)),
        ("tree_restore"@, (MenuTopic::ContextTree, "restore"@)),
        ("bookmark_track"@, (MenuTopic::ContextBookmark, "track"@)),
        ("bookmark_untrack"@, (MenuTopic::ContextBookmark, "untrack"@)),
        ("bookmark_push_all"@, (MenuTopic::ContextBookmark, "push-all"@)),
        ("bookmark_push_single"@, (MenuTopic::ContextBookmark, "push-single"@)),
        ("bookmark_fetch_all"@, (MenuTopic::ContextBookmark, "fetch-all"@)),
        ("bookmark_fetch_single"@, (MenuTopic::ContextBookmark, "fetch-single"@)),
        ("bookmark_rename"@, (MenuTopic::ContextBookmark, "rename"@)),
        ("bookmark_delete"@, (MenuTopic::ContextBookmark, "delete"@)),
    ]
}

/// Builds the table of [`emit_routes`].
fn emit_route_table() -> (r: Vec<(&'static str, MenuTopic, &'static str)>)
    ensures
        r@.map_values(|e: (&'static str, MenuTopic, &'static str)| (e.0@, (e.1, e.2@)))
            == emit_routes(),
{
    let mut v: Vec<(&'static str, MenuTopic, &'static str)> = Vec::new();
    v.push(("menu_revision_new_child", MenuTopic::Revision, "new_child"));
    v.push(("menu_revision_new_parent", MenuTopic::Revision, "new_parent"));
    v.push(("menu_revision_edit", MenuTopic::Revision, "edit"));
    v.push(("menu_revision_revert", MenuTopic::Revision, "revert"));
    v.push(("menu_revision_duplicate", MenuTopic::Revision, "duplicate"));
    v.push(("menu_revision_abandon", MenuTopic::Revision, "abandon"));
    v.push(("menu_revision_squash", MenuTopic::Revision, "squash"));
    v.push(("menu_revision_restore", MenuTopic::Revision, "restore"));
    v.push(("menu_revision_bookmark", MenuTopic::Revision, "bookmark"));
    v.push(("revision_new_child", MenuTopic::ContextRevision, "new_child"));
    v.push(("revision_new_parent", MenuTopic::ContextRevision, "new_parent"));
    v.push(("revision_edit", MenuTopic::ContextRevision, "edit"));
    v.push(("revision_revert", MenuTopic::ContextRevision, "revert"));
    v.push(("revision_duplicate", MenuTopic::ContextRevision, "duplicate"));
    v.push(("revision_abandon", MenuTopic::ContextRevision, "abandon"));
    v.push(("revision_squash", MenuTopic::ContextRevision, "squash"));
    v.push(("revision_restore", MenuTopic::ContextRevision, "restore"));
    v.push(("revision_bookmark", MenuTopic::ContextRevision, "bookmark"));
    v.push(("tree_squash", MenuTopic::ContextTree, "squash"));
    v.push(("tree_restore", MenuTopic::ContextTree, "restore"));
    v.push(("bookmark_track", MenuTopic::ContextBookmark, "track"));
    v.push(("bookmark_untrack", MenuTopic::ContextBookmark, "untrack"));
    v.push(("bookmark_push_all", MenuTopic::ContextBookmark, "push-all"));
    v.push(("bookmark_push_single", MenuTopic::ContextBookmark, "push-single"));
    v.push(("bookmark_fetch_all", MenuTopic::ContextBookmark, "fetch-all"));
    v.push(("bookmark_fetch_single", MenuTopic::ContextBookmark, "fetch-single"));
    v.push(("bookmark_rename", MenuTopic::ContextBookmark, "rename"));
    v.push(("bookmark_delete", MenuTopic::ContextBookmark, "delete"));
    assert(v@.map_values(|e: (&'static str, MenuTopic, &'static str)| (e.0@, (e.1, e.2@)))
        =~= emit_routes());
    v
}

/// The id of the menu item that reopens the recent workspace at `path`.
pub open spec fn recent_item_id_spec(path: Seq<char>) -> Seq<char> {
    "recent:"@ + path
}

/// Names the menu item for a recent workspace.
pub fn recent_item_id(path: &str) -> (r: String)
    ensures
        r@ == recent_item_id_spec(path@),
{
    let mut id = String::from_str("recent:");
    id.append(path);
    id
}

/// What the menu item `id` asks for: one of the repository commands, a
/// recent workspace, a command forwarded to the frontend, or nothing. (No
/// forwarding item's id starts with `recent:`.)
pub open spec fn menu_action_spec(id: Seq<char>) -> MenuActionView {
    if id == "menu_repo_init"@ {
        MenuActionView::RepoInit
    } else if id == "menu_repo_clone"@ {
        MenuActionView::RepoClone
    } else if id == "menu_repo_open"@ {
        MenuActionView::RepoOpen
    } else if id == "menu_repo_reopen"@ {
        MenuActionView::RepoReopen
    } else if id.len() >= 7 && id.subrange(0, 7) == "recent:"@ {
        MenuActionView::OpenRecent { path: id.subrange(7, id.len() as int) }
    } else if key_index(emit_routes(), id) >= 0 {
        let route = emit_routes()[key_index(emit_routes(), id)].1;
        MenuActionView::Emit { topic: route.0, payload: route.1 }
    } else {
        MenuActionView::Ignore
    }
}

/// A [`MenuAction`] with its texts as sequences.
pub ghost enum MenuActionView {
    RepoInit,
    RepoClone,
    RepoOpen,
    RepoReopen,
    Emit { topic: MenuTopic, payload: Seq<char> },
    OpenRecent { path: Seq<char> },
    Ignore,
}

impl View for MenuAction {
    type V = MenuActionView;

    open spec fn view(&self) -> MenuActionView {
        match self {
            MenuAction::RepoInit => MenuActionView::RepoInit,
            MenuAction::RepoClone => MenuActionView::RepoClone,
            MenuAction::RepoOpen => MenuActionView::RepoOpen,
            MenuAction::RepoReopen => MenuActionView::RepoReopen,
            MenuAction::Emit { topic, payload } => MenuActionView::Emit {
                topic: *topic,
                payload: payload@,
            },
            MenuAction::OpenRecent { path } => MenuActionView::OpenRecent { path: path@ },
            MenuAction::Ignore => MenuActionView::Ignore,
        }
    }
}

/// Decides what the menu item `id` asks for.
pub fn menu_action(id: &str) -> (r: MenuAction)
    ensures
        r@ == menu_action_spec(id@),
{
    if str_eq(id, "menu_repo_init") {
        return MenuAction::RepoInit;
    }
    if str_eq(id, "menu_repo_clone") {
        return MenuAction::RepoClone;
    }
    if str_eq(id, "menu_repo_open") {
        return MenuAction::RepoOpen;
    }
    if str_eq(id, "menu_repo_reopen") {
        return MenuAction::RepoReopen;
    }
    let n = id.unicode_len();
    if n >= 7 && str_eq(id.substring_char(0, 7), "recent:") {
        return MenuAction::OpenRecent { path: String::from_str(id.substring_char(7, n)) };
    }
    let table = emit_route_table();
    let ghost t = emit_routes();
    let mut i: usize = 0;
    while i < table.len()
        invariant
            i <= table@.len(),
            t == emit_routes(),
            !(id@.len() >= 7 && id@.subrange(0, 7) == "recent:"@),
            id@ != "menu_repo_init"@,
            id@ != "menu_repo_clone"@,
            id@ != "menu_repo_open"@,
            id@ != "menu_repo_reopen"@,
            table@.map_values(|e: (&'static str, MenuTopic, &'static str)| (e.0@, (e.1, e.2@)))
                == t,
            forall|j: int| 0 <= j < i ==> (#[trigger] t[j]).0 != id@,
        decreases table@.len() - i,
    {
        let (key, topic, payload) = table[i];
        assert(t[i as int] == (key@, (topic, payload@)));
        if str_eq(key, id) {
            proof {
                lemma_key_index(t, id@, i as int);
            }
            return MenuAction::Emit { topic, payload: String::from_str(payload) };
        }
        i = i + 1;
    }
    proof {
        lemma_key_index(t, id@, i as int);
    }
    MenuAction::Ignore
}

/// The item named for a recent workspace opens that workspace again.
pub proof fn law_recent_item_opens_its_path(path: Seq<char>)
    ensures
        menu_action_spec(recent_item_id_spec(path)) == (MenuActionView::OpenRecent { path }),
{
    reveal_strlit("recent:");
    reveal_strlit("menu_repo_init");
    reveal_strlit("menu_repo_clone");
    reveal_strlit("menu_repo_open");
    reveal_strlit("menu_repo_reopen");
    let id = recent_item_id_spec(path);
    assert(id.subrange(0, 7) =~= "recent:"@);
    assert(id.subrange(7, id.len() as int) =~= path);
    assert(id[0] == 'r');
    assert("menu_repo_init"@[0] == 'm');
    assert("menu_repo_clone"@[0] == 'm');
    assert("menu_repo_open"@[0] == 'm');
    assert("menu_repo_reopen"@[0] == 'm');
}

/// What a keyboard shortcut forwarded by the frontend asks for, given the
/// selected revision: `Ctrl+O` opens, `Ctrl+Shift+O` clones, `Ctrl+Shift+N`
/// initialises a repository; `Ctrl+N` asks for a new child of a selected
/// revision, and `Ctrl+M` for a new parent of a selected mutable revision
/// with a single parent.
pub open spec fn accelerator_action_spec(key: char, ctrl: bool, shift: bool, selection: Option<RevHeader>) -> MenuActionView {
    if key == 'o' && ctrl && !shift {
        MenuActionView::RepoOpen
    } else if key == 'o' && ctrl && shift {
        MenuActionView::RepoClone
    } else if key == 'n' && ctrl && shift {
        MenuActionView::RepoInit
    } else if key == 'n' && ctrl && !shift && selection is Some {
        MenuActionView::Emit { topic: MenuTopic::Revision, payload: "new_child"@ }
    } else if key == 'm' && ctrl && !shift && (selection matches Some(h) && !h.is_immutable
        && h.parent_ids@.len() == 1) {
        MenuActionView::Emit { topic: MenuTopic::Revision, payload: "new_parent"@ }
    } else {
        MenuActionView::Ignore
    }
}

/// Decides what a forwarded keyboard shortcut asks for.
pub fn accelerator_action(key: char, ctrl: bool, shift: bool, selection: Option<&RevHeader>) -> (r:
    MenuAction)
    ensures
        r@ == accelerator_action_spec(key, ctrl, shift, match selection {
            Some(h) => Some(*h),
            None => None,
        }),
{
    if key == 'o' && ctrl && !shift {
        MenuAction::RepoOpen
    } else if key == 'o' && ctrl && shift {
        MenuAction::RepoClone
    } else if key == 'n' && ctrl && shift {
        MenuAction::RepoInit
    } else if key == 'n' && ctrl && !shift && selection.is_some() {
        MenuAction::Emit { topic: MenuTopic::Revision, payload: String::from_str("new_child") }
    } else if key == 'm' && ctrl && !shift && match selection {
        Some(h) => !h.is_immutable && h.parent_ids.len() == 1,
        None => false,
    } {
        MenuAction::Emit { topic: MenuTopic::Revision, payload: String::from_str("new_parent") }
    } else {
        MenuAction::Ignore
    }
}

}
