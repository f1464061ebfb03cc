//! The tray's menu: what it shows, what its commands mean, and what its dialogs say.

use crate::config::{Grants, Member, MemberView, RepoGrant, RepoView};
use crate::daemon::Status;
use crate::paths::{
    base_name, is_slash, last_segment, only_slashes_have_no_name, the_last_name_is_what_was_written,
    without_end_slashes,
};
use crate::text::{
    a_part_stands_between_two_others, byte_count, byte_len, contains_text, decimal, decimal_text,
    is_blank, option_view, starts_with, trim, trimmed, trimming_leaves_the_rest,
};
use vstd::prelude::*;
use vstd::utf8::{
    decode_utf8, encode_utf8, encode_utf8_decode_utf8, is_ascii_chars, is_ascii_chars_encode_utf8,
    is_char_boundary,
};

verus! {

/// Command ids of the fixed menu items.
pub const ID_COPY: usize = 101;

pub const ID_OPEN_CONFIG: usize = 102;

pub const ID_QUIT: usize = 103;

pub const ID_TOGGLE_STARTUP: usize = 104;

pub const ID_GRANT: usize = 105;

/// The command ids of the items of the shared repositories and their members start here.
pub const ID_DYN_BASE: usize = 2000;

/// Where a text is cut so that at most `n` bytes are left.
pub open spec fn clip_len(s: Seq<char>, n: nat) -> nat {
    if byte_len(s) < n {
        byte_len(s)
    } else {
        n
    }
}

/// The text can be cut there: no character is cut in two.
pub open spec fn can_clip(s: Seq<char>, n: nat) -> bool {
    is_char_boundary(encode_utf8(s), clip_len(s, n) as int)
}

/// The first `n` bytes of a text.
pub open spec fn clipped(s: Seq<char>, n: nat) -> Seq<char> {
    decode_utf8(encode_utf8(s).take(clip_len(s, n) as int))
}

fn clip<'a>(s: &'a str, n: usize) -> (r: &'a str)
    requires
        can_clip(s@, n as nat),
    ensures
        r@ == clipped(s@, n as nat),
{
    let len = byte_count(s);
    let k: usize = if len < n { len } else { n };
    let r = s.split_at(k).0;
    proof {
        encode_utf8_decode_utf8(r@);
        assert(encode_utf8(r@) =~= encode_utf8(s@).take(k as int));
    }
    r
}

/// The name of a repository's folder.
pub open spec fn folder_name(path: Seq<char>) -> Seq<char> {
    let name = last_segment(without_end_slashes(path));
    if name.len() == 0 {
        path
    } else {
        name
    }
}

/// The last path component (folder name) of a repository path.
pub fn repo_basename(path: &str) -> (r: String)
    ensures
        r@ == folder_name(path@),
{
    let name = base_name(path);
    if name.is_empty() {
        path.to_owned()
    } else {
        name.to_owned()
    }
}

/// What a menu item of a shared repository does.
#[derive(Clone, Debug, PartialEq, Eq)]
pub enum MenuAction {
    OpenInExplorer(String),
    CopyTicket(String),
    AddMember(String),
    /// Turn the repository's LFS switch.
    SetLfs { repo: String, enabled: bool },
    RevokeMember { repo: String, node: String, name: String },
    StopSharing(String),
}

/// What a menu item does, over characters.
pub enum MenuActionView {
    OpenInExplorer(Seq<char>),
    CopyTicket(Seq<char>),
    AddMember(Seq<char>),
    SetLfs { repo: Seq<char>, enabled: bool },
    RevokeMember { repo: Seq<char>, node: Seq<char>, name: Seq<char> },
    StopSharing(Seq<char>),
}

impl View for MenuAction {
    type V = MenuActionView;

    open spec fn view(&self) -> MenuActionView {
        match self {
            MenuAction::OpenInExplorer(repo) => MenuActionView::OpenInExplorer(repo@),
            MenuAction::CopyTicket(repo) => MenuActionView::CopyTicket(repo@),
            MenuAction::AddMember(repo) => MenuActionView::AddMember(repo@),
            MenuAction::SetLfs { repo, enabled } => MenuActionView::SetLfs { repo: repo@, enabled: *enabled },
            MenuAction::RevokeMember { repo, node, name } => MenuActionView::RevokeMember {
                repo: repo@,
                node: node@,
                name: name@,
            },
            MenuAction::StopSharing(repo) => MenuActionView::StopSharing(repo@),
        }
    }
}

/// One entry of a menu.
#[derive(Debug, PartialEq, Eq)]
pub enum Entry {
    /// A text that cannot be chosen.
    Label(String),
    Separator,
    /// The menu of the shared repositories, under this text.
    SharedRepos(String),
    /// An item that can be chosen; where it shows a switch, the switch's state.
    Item { id: usize, text: String, checked: Option<bool> },
}

/// One entry of a menu, over characters.
pub enum EntryView {
    Label(Seq<char>),
    Separator,
    SharedRepos(Seq<char>),
    Item { id: int, text: Seq<char>, checked: Option<bool> },
}

impl View for Entry {
    type V = EntryView;

    open spec fn view(&self) -> EntryView {
        match self {
            Entry::Label(text) => EntryView::Label(text@),
            Entry::Separator => EntryView::Separator,
            Entry::SharedRepos(text) => EntryView::SharedRepos(text@),
            Entry::Item { id, text, checked } => EntryView::Item { id: *id as int, text: text@, checked: *checked },
        }
    }
}

/// The entries, over characters.
pub open spec fn entries(v: Seq<Entry>) -> Seq<EntryView> {
    v.map_values(|e: Entry| e@)
}

/// The actions, over characters.
pub open spec fn actions(v: Seq<MenuAction>) -> Seq<MenuActionView> {
    v.map_values(|a: MenuAction| a@)
}

/// What the top of the menu says of the daemon.
pub open spec fn header_text(online: bool, repos: nat) -> Seq<char> {
    if online {
        "iroh-git - online · "@ + decimal(repos) + " repo"@ + (if repos == 1 {
            ""@
        } else {
            "s"@
        })
    } else {
        "iroh-git - starting…"@
    }
}

/// The tray's menu, with the shared repositories in their own menu.
pub open spec fn main_menu_entries(online: bool, node_id: Option<Seq<char>>, repos: nat, startup: bool) -> Seq<EntryView> {
    seq![EntryView::Label(header_text(online, repos))] + (match node_id {
        Some(id) => seq![EntryView::Label("node "@ + clipped(id, 16) + "…"@)],
        None => Seq::empty(),
    }) + seq![
        EntryView::Separator,
        EntryView::SharedRepos("Shared repos"@),
        EntryView::Item { id: ID_GRANT as int, text: "Grant access…"@, checked: None },
        EntryView::Separator,
        EntryView::Item { id: ID_COPY as int, text: "Copy my node id"@, checked: None },
        EntryView::Item { id: ID_TOGGLE_STARTUP as int, text: "Start at login"@, checked: Some(startup) },
        EntryView::Item { id: ID_OPEN_CONFIG as int, text: "Open config folder"@, checked: None },
        EntryView::Separator,
        EntryView::Item { id: ID_QUIT as int, text: "Quit"@, checked: None },
    ]
}

fn item(id: usize, text: &str, checked: Option<bool>) -> (r: Entry)
    ensures
        r@ == (EntryView::Item { id: id as int, text: text@, checked }),
{
    Entry::Item { id, text: text.to_owned(), checked }
}

/// The tray's menu, given the daemon's status and whether the tray starts at login.
pub fn main_menu(status: &Status, startup: bool) -> (r: Vec<Entry>)
    requires
        status.node_id matches Some(id) ==> can_clip(id@, 16),
    ensures
        entries(r@) == main_menu_entries(
            status.online,
            option_view(status.node_id),
            status.repos as nat,
            startup,
        ),
{
    let mut r: Vec<Entry> = Vec::new();
    let header = if status.online {
        let plural = if status.repos == 1 { "" } else { "s" };
        "iroh-git - online · ".to_owned().concat(decimal_text(status.repos as u64).as_str()).concat(" repo").concat(
            plural,
        )
    } else {
        "iroh-git - starting…".to_owned()
    };
    r.push(Entry::Label(header));
    if let Some(id) = &status.node_id {
        r.push(Entry::Label("node ".to_owned().concat(clip(id.as_str(), 16)).concat("…")));
    }
    r.push(Entry::Separator);
    r.push(Entry::SharedRepos("Shared repos".to_owned()));
    r.push(item(ID_GRANT, "Grant access…", None));
    r.push(Entry::Separator);
    r.push(item(ID_COPY, "Copy my node id", None));
    r.push(item(ID_TOGGLE_STARTUP, "Start at login", Some(startup)));
    r.push(item(ID_OPEN_CONFIG, "Open config folder", None));
    r.push(Entry::Separator);
    r.push(item(ID_QUIT, "Quit", None));
    assert(entries(r@) =~= main_menu_entries(
        status.online,
        option_view(status.node_id),
        status.repos as nat,
        startup,
    ));
    r
}

/// What a member is called: by nickname, or else by the beginning of the node id.
pub open spec fn member_name(m: MemberView) -> Seq<char> {
    if m.nickname.len() == 0 {
        clipped(m.node_id, 12) + "…"@
    } else {
        m.nickname
    }
}

/// The member's node id can be cut where no nickname stands for it.
pub open spec fn can_name(m: MemberView) -> bool {
    m.nickname.len() == 0 ==> can_clip(m.node_id, 12)
}

/// All members of the repository can be called something.
pub open spec fn can_name_all(repo: RepoView) -> bool {
    forall|i: int| 0 <= i < repo.members.len() ==> can_name(#[trigger] repo.members[i])
}

/// The text of the item that revokes a member's access.
pub open spec fn revoke_text(m: MemberView) -> Seq<char> {
    "Revoke "@ + member_name(m) + "'s access ("@ + (if m.allow_push {
        "read-write"@
    } else {
        "read-only"@
    }) + ")"@
}

/// The items that revoke the members' access, with ids from `first` on.
pub open spec fn revoke_entries(members: Seq<MemberView>, first: int) -> Seq<EntryView> {
    Seq::new(
        members.len(),
        |i: int| EntryView::Item { id: first + i, text: revoke_text(members[i]), checked: None },
    )
}

/// What the items that revoke the members' access do.
pub open spec fn revoke_actions(repo: RepoView) -> Seq<MenuActionView> {
    repo.members.map_values(
        |m: MemberView|
            MenuActionView::RevokeMember { repo: repo.path, node: m.node_id, name: member_name(m) },
    )
}

/// The menu of a shared repository, with ids from `first` on.
pub open spec fn repo_entries(repo: RepoView, first: int) -> Seq<EntryView> {
    seq![
        EntryView::Item { id: first, text: "Open in Explorer"@, checked: None },
        EntryView::Item { id: first + 1, text: "Copy remote URL"@, checked: None },
        EntryView::Item { id: first + 2, text: "Add member…"@, checked: None },
        EntryView::Item { id: first + 3, text: "Share Git LFS objects"@, checked: Some(repo.lfs_enabled) },
        EntryView::Separator,
    ] + (if repo.members.len() == 0 {
        seq![EntryView::Label("(no members)"@)]
    } else {
        revoke_entries(repo.members, first + 4)
    }) + seq![
        EntryView::Separator,
        EntryView::Item { id: first + 4 + repo.members.len(), text: "Stop sharing"@, checked: None },
    ]
}

/// What the items in the menu of a shared repository do, in the order of their ids.
pub open spec fn repo_actions(repo: RepoView) -> Seq<MenuActionView> {
    seq![
        MenuActionView::OpenInExplorer(repo.path),
        MenuActionView::CopyTicket(repo.path),
        MenuActionView::AddMember(repo.path),
        MenuActionView::SetLfs { repo: repo.path, enabled: !repo.lfs_enabled },
    ] + revoke_actions(repo) + seq![MenuActionView::StopSharing(repo.path)]
}

/// What the items of all shared repositories do, in the order of their ids.
pub open spec fn all_actions(repos: Seq<RepoView>) -> Seq<MenuActionView>
    decreases repos.len(),
{
    if repos.len() == 0 {
        Seq::empty()
    } else {
        all_actions(repos.drop_last()) + repo_actions(repos.last())
    }
}

/// The menu of one shared repository.
#[derive(Debug, PartialEq, Eq)]
pub struct RepoMenu {
    pub name: String,
    pub entries: Vec<Entry>,
}

/// This is the menu of a repository whose items have ids from `first` on.
pub open spec fn is_menu_of(menu: RepoMenu, repo: RepoView, first: int) -> bool {
    menu.name@ == folder_name(repo.path) && entries(menu.entries@) == repo_entries(repo, first)
}

fn add_action(out: &mut Vec<Entry>, acts: &mut Vec<MenuAction>, text: &str, checked: Option<bool>, act: MenuAction)
    requires
        ID_DYN_BASE + old(acts)@.len() <= usize::MAX,
    ensures
        entries(final(out)@) == entries(old(out)@).push(
            EntryView::Item { id: ID_DYN_BASE + old(acts)@.len(), text: text@, checked },
        ),
        actions(final(acts)@) == actions(old(acts)@).push(act@),
        final(acts)@.len() == old(acts)@.len() + 1,
{
    let id: usize = ID_DYN_BASE + acts.len();
    out.push(item(id, text, checked));
    acts.push(act);
    assert(entries(out@) =~= entries(old(out)@).push(
        EntryView::Item { id: ID_DYN_BASE + old(acts)@.len(), text: text@, checked },
    ));
    assert(actions(acts@) =~= actions(old(acts)@).push(act@));
}

fn name_of(m: &Member) -> (r: String)
    requires
        can_name(m@),
    ensures
        r@ == member_name(m@),
{
    if m.nickname.as_str().is_empty() {
        clip(m.node_id.as_str(), 12).to_owned().concat("…")
    } else {
        m.nickname.clone()
    }
}

/// The menu of one shared repository; the actions behind its items are appended to `acts`.
fn repo_menu(repo: &RepoGrant, acts: &mut Vec<MenuAction>) -> (r: RepoMenu)
    requires
        can_name_all(repo@),
        ID_DYN_BASE + old(acts)@.len() + repo.members@.len() + 5 <= usize::MAX,
    ensures
        is_menu_of(r, repo@, ID_DYN_BASE + old(acts)@.len()),
        actions(final(acts)@) == actions(old(acts)@) + repo_actions(repo@),
{
    let ghost first = ID_DYN_BASE + acts@.len();
    let ghost before = actions(acts@);
    let ghost view = repo@;
    let mut out: Vec<Entry> = Vec::new();
    assert(entries(out@) =~= Seq::<EntryView>::empty());
    add_action(&mut out, acts, "Open in Explorer", None, MenuAction::OpenInExplorer(repo.path.clone()));
    add_action(&mut out, acts, "Copy remote URL", None, MenuAction::CopyTicket(repo.path.clone()));
    add_action(&mut out, acts, "Add member…", None, MenuAction::AddMember(repo.path.clone()));
    add_action(
        &mut out,
        acts,
        "Share Git LFS objects",
        Some(repo.lfs_enabled),
        MenuAction::SetLfs { repo: repo.path.clone(), enabled: !repo.lfs_enabled },
    );
    let ghost items = entries(out@);
    out.push(Entry::Separator);
    let ghost head = entries(out@);
    assert(head =~= items.push(EntryView::Separator));
    let ghost head_acts = actions(acts@);
    assert(head =~= seq![
        EntryView::Item { id: first, text: "Open in Explorer"@, checked: None },
        EntryView::Item { id: first + 1, text: "Copy remote URL"@, checked: None },
        EntryView::Item { id: first + 2, text: "Add member…"@, checked: None },
        EntryView::Item { id: first + 3, text: "Share Git LFS objects"@, checked: Some(repo.lfs_enabled) },
        EntryView::Separator,
    ]);
    assert(head_acts =~= before + seq![
        MenuActionView::OpenInExplorer(view.path),
        MenuActionView::CopyTicket(view.path),
        MenuActionView::AddMember(view.path),
        MenuActionView::SetLfs { repo: view.path, enabled: !view.lfs_enabled },
    ]);
    assert(acts@.len() == actions(acts@).len());
    let mut i: usize = 0;
    assert(view.members.len() == repo.members@.len());
    assert(entries(out@) =~= head + revoke_entries(view.members, first + 4).take(0));
    assert(actions(acts@) =~= head_acts + revoke_actions(view).take(0));
    while i < repo.members.len()
        invariant
            i <= repo.members.len(),
            view == repo@,
            view.members.len() == repo.members@.len(),
            can_name_all(view),
            first + repo.members@.len() + 5 <= usize::MAX,
            ID_DYN_BASE + acts@.len() == first + 4 + i,
            entries(out@) == head + revoke_entries(view.members, first + 4).take(i as int),
            actions(acts@) == head_acts + revoke_actions(view).take(i as int),
        decreases repo.members.len() - i,
    {
        let m = &repo.members[i];
        assert(view.members[i as int] == m@);
        assert(can_name(view.members[i as int]));
        let ghost (was, was_acts) = (entries(out@), actions(acts@));
        let name = name_of(m);
        let access = if m.allow_push { "read-write" } else { "read-only" };
        let text = "Revoke ".to_owned().concat(name.as_str()).concat("'s access (").concat(access).concat(")");
        add_action(
            &mut out,
            acts,
            text.as_str(),
            None,
            MenuAction::RevokeMember { repo: repo.path.clone(), node: m.node_id.clone(), name },
        );
        assert(acts@.len() == actions(acts@).len());
        assert(was_acts.len() == actions(acts@).len() - 1);
        i = i + 1;
        assert(entries(out@) =~= head + revoke_entries(view.members, first + 4).take(i as int));
        assert(actions(acts@) =~= head_acts + revoke_actions(view).take(i as int));
    }
    if repo.members.len() == 0 {
        out.push(Entry::Label("(no members)".to_owned()));
    }
    out.push(Entry::Separator);
    add_action(&mut out, acts, "Stop sharing", None, MenuAction::StopSharing(repo.path.clone()));
    assert(revoke_entries(view.members, first + 4).take(i as int) =~= revoke_entries(view.members, first + 4));
    assert(revoke_actions(view).take(i as int) =~= revoke_actions(view));
    assert(entries(out@) =~= repo_entries(view, first));
    assert(actions(acts@) =~= before + repo_actions(view));
    RepoMenu { name: repo_basename(repo.path.as_str()), entries: out }
}

/// The shared repositories' menus and the actions behind their items.
#[derive(Debug, PartialEq, Eq)]
pub struct SharedMenu {
    /// One menu for each shared repository.
    pub repos: Vec<RepoMenu>,
    /// What stands in their place where there are none.
    pub nothing: Option<String>,
    /// What the item with id `ID_DYN_BASE + i` does.
    pub actions: Vec<MenuAction>,
}

/// The number of items that the shared repositories have.
pub open spec fn items_in(repos: Seq<RepoView>) -> nat {
    all_actions(repos).len()
}

/// Build the menus of the shared repositories.
pub fn shared_menu(grants: &Grants) -> (r: SharedMenu)
    requires
        forall|i: int| 0 <= i < grants@.len() ==> can_name_all(#[trigger] grants@[i]),
        ID_DYN_BASE + items_in(grants@) <= usize::MAX,
    ensures
        actions(r.actions@) == all_actions(grants@),
        option_view(r.nothing) == if grants@.len() == 0 {
            Some("(nothing shared yet)"@)
        } else {
            None
        },
        r.repos@.len() == grants@.len(),
        forall|i: int|
            0 <= i < r.repos@.len() ==> is_menu_of(
                #[trigger] r.repos@[i],
                grants@[i],
                ID_DYN_BASE + items_in(grants@.take(i)),
            ),
{
    let mut acts: Vec<MenuAction> = Vec::new();
    let mut menus: Vec<RepoMenu> = Vec::new();
    assert(actions(acts@) =~= all_actions(grants@.take(0)));
    let mut i: usize = 0;
    assert(grants@.len() == grants.repos@.len());
    while i < grants.repos.len()
        invariant
            i <= grants.repos.len(),
            grants@.len() == grants.repos@.len(),
            forall|j: int| 0 <= j < grants@.len() ==> can_name_all(#[trigger] grants@[j]),
            ID_DYN_BASE + items_in(grants@) <= usize::MAX,
            actions(acts@) == all_actions(grants@.take(i as int)),
            menus@.len() == i,
            forall|j: int|
                0 <= j < i ==> is_menu_of(
                    #[trigger] menus@[j],
                    grants@[j],
                    ID_DYN_BASE + items_in(grants@.take(j)),
                ),
        decreases grants.repos.len() - i,
    {
        let repo = &grants.repos[i];
        assert(grants@[i as int] == repo@);
        assert(can_name_all(grants@[i as int]));
        proof {
            lemma_items_step(grants@, i as int);
            lemma_items_monotonic(grants@, i + 1);
            assert(acts@.len() == actions(acts@).len());
            assert(repo_actions(repo@).len() == repo.members@.len() + 5);
        }
        menus.push(repo_menu(repo, &mut acts));
        i = i + 1;
    }
    assert(grants@.take(i as int) =~= grants@);
    let nothing = if grants.repos.len() == 0 { Some("(nothing shared yet)".to_owned()) } else { None };
    SharedMenu { repos: menus, nothing, actions: acts }
}

proof fn lemma_items_step(repos: Seq<RepoView>, i: int)
    requires
        0 <= i < repos.len(),
    ensures
        all_actions(repos.take(i + 1)) == all_actions(repos.take(i)) + repo_actions(repos[i]),
{
    assert(repos.take(i + 1).drop_last() =~= repos.take(i));
    assert(repos.take(i + 1).last() == repos[i]);
}

proof fn lemma_items_monotonic(repos: Seq<RepoView>, i: int)
    requires
        0 <= i <= repos.len(),
    ensures
        items_in(repos.take(i)) <= items_in(repos),
    decreases repos.len() - i,
{
    if i < repos.len() {
        lemma_items_step(repos, i);
        lemma_items_monotonic(repos, i + 1);
    } else {
        assert(repos.take(i) =~= repos);
    }
}

/// Each item in the menu of a shared repository leads to an action of that repository: the action
/// that the item's id selects.
pub proof fn items_lead_to_their_repository(repos: Seq<RepoView>, i: int, k: int)
    requires
        0 <= i < repos.len(),
        0 <= k < repo_actions(repos[i]).len(),
    ensures
        items_in(repos.take(i)) + k < all_actions(repos).len(),
        all_actions(repos)[items_in(repos.take(i)) + k] == repo_actions(repos[i])[k],
    decreases repos.len() - i,
{
    lemma_items_step(repos, i);
    lemma_items_monotonic(repos, i + 1);
    lemma_items_prefix(repos, i + 1, items_in(repos.take(i)) + k);
}

proof fn lemma_items_prefix(repos: Seq<RepoView>, i: int, j: int)
    requires
        0 <= i <= repos.len(),
        0 <= j < items_in(repos.take(i)),
    ensures
        j < items_in(repos),
        all_actions(repos)[j] == all_actions(repos.take(i))[j],
    decreases repos.len() - i,
{
    if i < repos.len() {
        lemma_items_step(repos, i);
        lemma_items_prefix(repos, i + 1, j);
    } else {
        assert(repos.take(i) =~= repos);
    }
}

/// What choosing a menu item asks for.
#[derive(Debug, PartialEq, Eq)]
pub enum Command {
    CopyMyId,
    OpenConfigFolder,
    ToggleStartup,
    /// Ask for the details of a grant.
    Grant,
    Quit,
    /// An action of a shared repository.
    Run(MenuAction),
    /// Nothing that this menu knows.
    Nothing,
}

/// What the menu item with this id asks for. `acts` are the actions of the menu that was shown last.
pub fn command(id: usize, acts: &Vec<MenuAction>) -> (r: Command)
    ensures
        if id == ID_COPY {
            r == Command::CopyMyId
        } else if id == ID_OPEN_CONFIG {
            r == Command::OpenConfigFolder
        } else if id == ID_TOGGLE_STARTUP {
            r == Command::ToggleStartup
        } else if id == ID_GRANT {
            r == Command::Grant
        } else if id == ID_QUIT {
            r == Command::Quit
        } else if ID_DYN_BASE <= id < ID_DYN_BASE + acts@.len() {
            r matches Command::Run(a) && a@ == acts@[id - ID_DYN_BASE]@
        } else {
            r == Command::Nothing
        },
{
    if id == ID_COPY {
        Command::CopyMyId
    } else if id == ID_OPEN_CONFIG {
        Command::OpenConfigFolder
    } else if id == ID_TOGGLE_STARTUP {
        Command::ToggleStartup
    } else if id == ID_GRANT {
        Command::Grant
    } else if id == ID_QUIT {
        Command::Quit
    } else if id >= ID_DYN_BASE && id - ID_DYN_BASE < acts.len() {
        Command::Run(copy_action(&acts[id - ID_DYN_BASE]))
    } else {
        Command::Nothing
    }
}

fn copy_action(a: &MenuAction) -> (r: MenuAction)
    ensures
        r@ == a@,
{
    match a {
        MenuAction::OpenInExplorer(repo) => MenuAction::OpenInExplorer(repo.clone()),
        MenuAction::CopyTicket(repo) => MenuAction::CopyTicket(repo.clone()),
        MenuAction::AddMember(repo) => MenuAction::AddMember(repo.clone()),
        MenuAction::SetLfs { repo, enabled } => MenuAction::SetLfs { repo: repo.clone(), enabled: *enabled },
        MenuAction::RevokeMember { repo, node, name } => MenuAction::RevokeMember {
            repo: repo.clone(),
            node: node.clone(),
            name: name.clone(),
        },
        MenuAction::StopSharing(repo) => MenuAction::StopSharing(repo.clone()),
    }
}

/// What to ask before carrying out an action, and what to say once it is done. Actions that take
/// nothing away are not asked about.
pub fn confirmation(act: &MenuAction) -> (r: Option<(String, String)>)
    ensures
        match act@ {
            MenuActionView::RevokeMember { repo, node, name } => r matches Some((ask, done)) && ask@ == "Revoke "@
                + name + "'s access to this repository?"@ && done@ == "Revoked "@ + name + "'s access."@,
            MenuActionView::StopSharing(repo) => r matches Some((ask, done)) && ask@ == "Stop sharing \""@
                + folder_name(repo)
                + "\"?\n\nThis removes the repository and everyone you granted. Their clones will no longer be able to fetch or push."@
                && done@ == "Stopped sharing \""@ + folder_name(repo) + "\"."@,
            _ => r is None,
        },
{
    match act {
        MenuAction::RevokeMember { repo, node, name } => Some(
            (
                "Revoke ".to_owned().concat(name.as_str()).concat("'s access to this repository?"),
                "Revoked ".to_owned().concat(name.as_str()).concat("'s access."),
            ),
        ),
        MenuAction::StopSharing(repo) => {
            let name = repo_basename(repo.as_str());
            Some(
                (
                    "Stop sharing \"".to_owned().concat(name.as_str()).concat(
                        "\"?\n\nThis removes the repository and everyone you granted. Their clones will no longer be able to fetch or push.",
                    ),
                    "Stopped sharing \"".to_owned().concat(name.as_str()).concat("\"."),
                ),
            )
        },
        _ => None,
    }
}

/// The values entered in the grant dialog.
#[derive(Debug, PartialEq, Eq)]
pub struct GrantInput {
    pub node: String,
    pub nickname: String,
    pub repo: String,
    pub write: bool,
    /// Allow Git LFS transfer.
    pub lfs: bool,
}

impl GrantInput {
    /// Whether the dialog was filled in: a node id and a repository are needed.
    pub fn is_complete(&self) -> (r: bool)
        ensures
            r == (trim(self.node@).len() > 0 && trim(self.repo@).len() > 0),
    {
        !trimmed(self.node.as_str()).is_empty() && !trimmed(self.repo.as_str()).is_empty()
    }
}

/// What to say after a grant, whose ticket's url is on the clipboard.
pub fn granted_text(write: bool, repo_path: &str) -> (r: String)
    ensures
        r@ == "Granted "@ + (if write {
            "read-write"@
        } else {
            "read-only"@
        }) + " access to:\n"@ + repo_path@
            + "\n\nThe remote URL is on your clipboard - send it to your friend."@,
{
    let mode = if write { "read-write" } else { "read-only" };
    "Granted ".to_owned().concat(mode).concat(" access to:\n").concat(repo_path).concat(
        "\n\nThe remote URL is on your clipboard - send it to your friend.",
    )
}

/// The resolution for which the grant dialog is designed, in dots per inch; it is never drawn smaller.
pub const BASE_DPI: i32 = 96;

/// Control ids of the grant dialog.
pub const ID_OK: i32 = 1;

pub const ID_CANCEL: i32 = 2;

pub const ID_EDIT_NODE: i32 = 1001;

pub const ID_EDIT_REPO: i32 = 1002;

pub const ID_BTN_BROWSE: i32 = 1003;

pub const ID_CHK_WRITE: i32 = 1004;

pub const ID_EDIT_NICK: i32 = 1005;

pub const ID_CHK_LFS: i32 = 1006;

/// A length designed for [`BASE_DPI`] at another resolution.
pub open spec fn scaled(v: int, dpi: int) -> int {
    (v * dpi + 48) / 96
}

/// A length designed for [`BASE_DPI`] at another resolution, rounded.
pub fn scale(v: i32, dpi: i32) -> (r: i32)
    requires
        0 <= v,
        0 <= dpi,
        v * dpi + 48 <= i32::MAX,
    ensures
        r == scaled(v as int, dpi as int),
{
    assert(0 <= v * dpi) by (nonlinear_arith)
        requires
            0 <= v,
            0 <= dpi,
    ;
    (v * dpi + 48) / 96
}

/// The height of a font of nine points, as the system's font mapper takes it: negative.
pub fn font_height(dpi: i32) -> (r: i32)
    requires
        0 <= dpi,
        9 * dpi <= i32::MAX,
    ensures
        r == -((9 * dpi) / 72),
{
    -((9 * dpi) / 72)
}

/// What a control of the grant dialog is.
#[derive(Clone, Copy, Debug, PartialEq, Eq, Structural)]
pub enum ControlKind {
    Label,
    Edit,
    CheckBox,
    Button,
    DefaultButton,
}

/// A control of the grant dialog and where it stands.
#[derive(Debug, PartialEq, Eq)]
pub struct Control {
    pub kind: ControlKind,
    pub text: &'static str,
    pub id: i32,
    pub x: i32,
    pub y: i32,
    pub width: i32,
    pub height: i32,
}

/// A control as it is designed, or as it is drawn.
#[verifier::ext_equal]
pub struct ControlView {
    pub kind: ControlKind,
    pub text: Seq<char>,
    pub id: int,
    pub x: int,
    pub y: int,
    pub width: int,
    pub height: int,
}

impl View for Control {
    type V = ControlView;

    open spec fn view(&self) -> ControlView {
        ControlView {
            kind: self.kind,
            text: self.text@,
            id: self.id as int,
            x: self.x as int,
            y: self.y as int,
            width: self.width as int,
            height: self.height as int,
        }
    }
}

/// A control at a resolution.
pub open spec fn placed(
    kind: ControlKind,
    text: Seq<char>,
    id: int,
    x: int,
    y: int,
    width: int,
    height: int,
    dpi: int,
) -> ControlView {
    ControlView {
        kind,
        text,
        id,
        x: scaled(x, dpi),
        y: scaled(y, dpi),
        width: scaled(width, dpi),
        height: scaled(height, dpi),
    }
}

/// The grant dialog: who, under what name, which repository, and which rights.
pub open spec fn dialog_design(dpi: int) -> Seq<ControlView> {
    seq![
        placed(ControlKind::Label, "Friend's node id:"@, 0, 12, 19, 120, 16, dpi),
        placed(ControlKind::Edit, ""@, ID_EDIT_NODE as int, 138, 16, 308, 21, dpi),
        placed(ControlKind::Label, "Nickname:"@, 0, 12, 55, 120, 16, dpi),
        placed(ControlKind::Edit, ""@, ID_EDIT_NICK as int, 138, 52, 308, 21, dpi),
        placed(ControlKind::Label, "Repository:"@, 0, 12, 91, 120, 16, dpi),
        placed(ControlKind::Edit, ""@, ID_EDIT_REPO as int, 138, 88, 224, 21, dpi),
        placed(ControlKind::Button, "Browse…"@, ID_BTN_BROWSE as int, 371, 87, 75, 23, dpi),
        placed(ControlKind::CheckBox, "Allow push (read-write)"@, ID_CHK_WRITE as int, 138, 122, 250, 20, dpi),
        placed(ControlKind::CheckBox, "Allow Git LFS transfer"@, ID_CHK_LFS as int, 138, 146, 250, 20, dpi),
        placed(ControlKind::DefaultButton, "Grant"@, ID_OK as int, 290, 170, 75, 25, dpi),
        placed(ControlKind::Button, "Cancel"@, ID_CANCEL as int, 371, 170, 75, 25, dpi),
    ]
}

/// The controls, over characters.
pub open spec fn controls(v: Seq<Control>) -> Seq<ControlView> {
    v.map_values(|c: Control| c@)
}

/// The width and height of the inside of the grant dialog.
pub fn dialog_size(dpi: i32) -> (r: (i32, i32))
    requires
        0 <= dpi,
        458 * dpi + 48 <= i32::MAX,
    ensures
        r.0 == scaled(458, dpi as int),
        r.1 == scaled(208, dpi as int),
{
    proof {
        lemma_scale_fits(208, dpi as int);
    }
    (scale(458, dpi), scale(208, dpi))
}

fn place(out: &mut Vec<Control>, kind: ControlKind, text: &'static str, id: i32, at: (i32, i32), size: (i32, i32), dpi: i32)
    requires
        0 <= dpi,
        458 * dpi + 48 <= i32::MAX,
        0 <= at.0 <= 458,
        0 <= at.1 <= 458,
        0 <= size.0 <= 458,
        0 <= size.1 <= 458,
    ensures
        controls(final(out)@) == controls(old(out)@).push(
            placed(
                kind,
                text@,
                id as int,
                at.0 as int,
                at.1 as int,
                size.0 as int,
                size.1 as int,
                dpi as int,
            ),
        ),
{
    proof {
        lemma_scale_fits(at.0 as int, dpi as int);
        lemma_scale_fits(at.1 as int, dpi as int);
        lemma_scale_fits(size.0 as int, dpi as int);
        lemma_scale_fits(size.1 as int, dpi as int);
    }
    let c = Control {
        kind,
        text,
        id,
        x: scale(at.0, dpi),
        y: scale(at.1, dpi),
        width: scale(size.0, dpi),
        height: scale(size.1, dpi),
    };
    out.push(c);
    assert(controls(out@) =~= controls(old(out)@).push(c@));
}

proof fn lemma_scale_fits(v: int, dpi: int)
    requires
        0 <= v <= 458,
        0 <= dpi,
        458 * dpi + 48 <= i32::MAX,
    ensures
        v * dpi + 48 <= i32::MAX,
{
    assert(v * dpi <= 458 * dpi) by (nonlinear_arith)
        requires
            0 <= v <= 458,
            0 <= dpi,
    ;
}

/// The controls of the grant dialog at a resolution.
pub fn dialog_controls(dpi: i32) -> (r: Vec<Control>)
    requires
        0 <= dpi,
        458 * dpi + 48 <= i32::MAX,
    ensures
        controls(r@) == dialog_design(dpi as int),
{
    let mut r: Vec<Control> = Vec::new();
    assert(controls(r@) =~= Seq::<ControlView>::empty());
    place(&mut r, ControlKind::Label, "Friend's node id:", 0, (12, 19), (120, 16), dpi);
    place(&mut r, ControlKind::Edit, "", ID_EDIT_NODE, (138, 16), (308, 21), dpi);
    place(&mut r, ControlKind::Label, "Nickname:", 0, (12, 55), (120, 16), dpi);
    place(&mut r, ControlKind::Edit, "", ID_EDIT_NICK, (138, 52), (308, 21), dpi);
    place(&mut r, ControlKind::Label, "Repository:", 0, (12, 91), (120, 16), dpi);
    place(&mut r, ControlKind::Edit, "", ID_EDIT_REPO, (138, 88), (224, 21), dpi);
    place(&mut r, ControlKind::Button, "Browse…", ID_BTN_BROWSE, (371, 87), (75, 23), dpi);
    place(&mut r, ControlKind::CheckBox, "Allow push (read-write)", ID_CHK_WRITE, (138, 122), (250, 20), dpi);
    place(&mut r, ControlKind::CheckBox, "Allow Git LFS transfer", ID_CHK_LFS, (138, 146), (250, 20), dpi);
    place(&mut r, ControlKind::DefaultButton, "Grant", ID_OK, (290, 170), (75, 25), dpi);
    place(&mut r, ControlKind::Button, "Cancel", ID_CANCEL, (371, 170), (75, 25), dpi);
    assert(controls(r@) =~= dialog_design(dpi as int));
    r
}

/// How far the grant dialog has come.
#[derive(Clone, Copy, Debug, PartialEq, Eq, Structural)]
pub struct DialogState {
    /// The dialog is to be closed.
    pub done: bool,
    /// Its values are to be used.
    pub accepted: bool,
}

impl DialogState {
    /// The dialog has just been opened.
    pub fn open() -> (r: DialogState)
        ensures
            r == (DialogState { done: false, accepted: false }),
    {
        DialogState { done: false, accepted: false }
    }

    /// A control was used. Returns whether a folder is to be picked.
    pub fn on_command(&mut self, id: i32) -> (browse: bool)
        ensures
            browse == (id == ID_BTN_BROWSE),
            *final(self) == if id == ID_OK {
                DialogState { done: true, accepted: true }
            } else if id == ID_CANCEL {
                DialogState { done: true, accepted: false }
            } else {
                *old(self)
            },
    {
        if id == ID_OK {
            self.accepted = true;
            self.done = true;
        } else if id == ID_CANCEL {
            self.accepted = false;
            self.done = true;
        }
        id == ID_BTN_BROWSE
    }

    /// The window was closed.
    pub fn on_close(&mut self)
        ensures
            *final(self) == (DialogState { done: true, ..*old(self) }),
    {
        self.done = true;
    }
}

/// The item with this text and switch does this on the repository.
pub open spec fn says_what_it_does(text: Seq<char>, checked: Option<bool>, act: MenuActionView, repo: RepoView) -> bool {
    match act {
        MenuActionView::OpenInExplorer(path) => path == repo.path && text == "Open in Explorer"@,
        MenuActionView::CopyTicket(path) => path == repo.path && text == "Copy remote URL"@,
        MenuActionView::AddMember(path) => path == repo.path && text == "Add member…"@,
        MenuActionView::SetLfs { repo: path, enabled } => {
            &&& path == repo.path && text == "Share Git LFS objects"@
            &&& checked == Some(repo.lfs_enabled) && enabled != repo.lfs_enabled
        },
        MenuActionView::RevokeMember { repo: path, node, name } => path == repo.path && exists|i: int|
            {
                &&& 0 <= i < repo.members.len()
                &&& (#[trigger] repo.members[i]).node_id == node
                &&& repo.members[i].nickname.len() > 0 ==> name == repo.members[i].nickname
                &&& repo.members[i].nickname.len() == 0 ==> name == clipped(node, 12) + "…"@
                &&& repo.members[i].allow_push ==> text == "Revoke "@ + name + "'s access (read-write)"@
                &&& !repo.members[i].allow_push ==> text == "Revoke "@ + name + "'s access (read-only)"@
            },
        MenuActionView::StopSharing(path) => path == repo.path && text == "Stop sharing"@,
    }
}

/// Every item in the menu of a shared repository does what it says, on that repository: the action that
/// its id selects. Every action has its item, and every member their own.
pub proof fn items_do_what_they_say(repo: RepoView, first: int, j: int, k: int)
    ensures
        0 <= j < repo_entries(repo, first).len() && repo_entries(repo, first)[j] is Item ==> {
            &&& repo_entries(repo, first)[j] matches EntryView::Item { id, text, checked } && 0 <= id - first
                < repo_actions(repo).len() && says_what_it_does(text, checked, repo_actions(repo)[id - first], repo)
        },
        0 <= k < repo_actions(repo).len() ==> exists|e: int|
            0 <= e < repo_entries(repo, first).len() && ((#[trigger] repo_entries(repo, first)[e]) matches EntryView::Item {
                id,
                text,
                checked,
            } && id == first + k),
        0 <= k < repo.members.len() ==> (repo_actions(repo)[4 + k] matches MenuActionView::RevokeMember {
            repo: path,
            node,
            name,
        } && node == repo.members[k].node_id),
        repo_actions(repo).len() == repo.members.len() + 5,
        repo_actions(repo)[0] is OpenInExplorer,
        repo_actions(repo)[1] is CopyTicket,
        repo_actions(repo)[2] is AddMember,
        repo_actions(repo)[3] is SetLfs,
        repo_actions(repo).last() is StopSharing,
{
    let (es, acts) = (repo_entries(repo, first), repo_actions(repo));
    let n = repo.members.len() as int;
    assert(acts.len() == n + 5);
    assert(acts[n + 4] == MenuActionView::StopSharing(repo.path));
    let middle = if n == 0 { 1 } else { n };
    assert(es.len() == 5 + middle + 2);
    assert(es[5 + middle + 1] == (EntryView::Item { id: first + 4 + n, text: "Stop sharing"@, checked: None }));
    assert(es[5 + middle] == EntryView::Separator);
    assert forall|i: int| 0 <= i < n implies #[trigger] acts[4 + i] == (MenuActionView::RevokeMember {
        repo: repo.path,
        node: repo.members[i].node_id,
        name: member_name(repo.members[i]),
    }) && es[5 + i] == (EntryView::Item { id: first + 4 + i, text: revoke_text(repo.members[i]), checked: None })
        && says_what_it_does(revoke_text(repo.members[i]), None, acts[4 + i], repo) by {
        let m = repo.members[i];
        reveal_strlit("'s access (");
        reveal_strlit("read-write");
        reveal_strlit("read-only");
        reveal_strlit(")");
        reveal_strlit("'s access (read-write)");
        reveal_strlit("'s access (read-only)");
        let start = "Revoke "@ + member_name(m);
        assert(start + "'s access ("@ + "read-write"@ + ")"@ =~= start + "'s access (read-write)"@);
        assert(start + "'s access ("@ + "read-only"@ + ")"@ =~= start + "'s access (read-only)"@);
        assert(repo.members[i].node_id == m.node_id);
    }
    if 0 <= j < es.len() && es[j] is Item {
        if 5 <= j < 5 + n {
            assert(acts[4 + (j - 5)] == acts[j - 1]);
        }
    }
    if 0 <= k < acts.len() {
        if k < 4 {
            assert(es[k] is Item);
        } else if k < 4 + n {
            assert(acts[4 + (k - 4)] == acts[k]);
            assert(es[5 + (k - 4)] is Item);
        } else {
            assert(es[5 + middle + 1] is Item);
        }
    }
    if 0 <= k < n {
        assert(acts[4 + k] is RevokeMember);
    }
}

/// The items of the menus of all shared repositories have ids of their own, from 2000 on, and choosing
/// one runs an action on the repository in whose menu it stands: the one that it says.
pub proof fn choosing_an_item_runs_its_action(
    grants: &Grants,
    menu: SharedMenu,
    i: int,
    j: int,
    chosen: usize,
    command: Command,
)
    requires
        call_ensures(shared_menu, (grants,), menu),
        call_ensures(self::command, (chosen, &menu.actions), command),
        0 <= i < grants@.len(),
        0 <= j < menu.repos@[i].entries@.len(),
        menu.repos@[i].entries@[j] matches Entry::Item { id, text, checked } && id == chosen,
    ensures
        chosen >= 2000,
        menu.repos@.len() == grants@.len(),
        menu.repos@[i].name@ == folder_name(grants@[i].path),
        menu.repos@[i].entries@[j] matches Entry::Item { id, text, checked } && (command matches Command::Run(act)
            && says_what_it_does(text@, checked, act@, grants@[i])),
{
    let first = ID_DYN_BASE + items_in(grants@.take(i));
    let repo = grants@[i];
    assert(is_menu_of(menu.repos@[i], repo, first));
    assert(entries(menu.repos@[i].entries@)[j] == menu.repos@[i].entries@[j]@);
    items_do_what_they_say(repo, first, j, 0);
    let k = chosen - first;
    items_lead_to_their_repository(grants@, i, k);
    assert(actions(menu.actions@)[chosen - ID_DYN_BASE] == menu.actions@[chosen - ID_DYN_BASE]@);
    assert(actions(menu.actions@).len() == menu.actions@.len());
}

/// Every item of the tray's own menu asks for what it says.
pub proof fn fixed_items_ask_for_what_they_say(
    status: &Status,
    startup: bool,
    menu: Vec<Entry>,
    j: int,
    chosen: usize,
    acts: &Vec<MenuAction>,
    command: Command,
)
    requires
        call_ensures(main_menu, (status, startup), menu),
        call_ensures(self::command, (chosen, acts), command),
        0 <= j < menu@.len(),
        menu@[j] matches Entry::Item { id, text, checked } && id == chosen,
    ensures
        menu@[j] matches Entry::Item { id, text, checked } && ({
            ||| text@ == "Grant access…"@ && command is Grant && checked is None
            ||| text@ == "Copy my node id"@ && command is CopyMyId && checked is None
            ||| text@ == "Start at login"@ && command is ToggleStartup && checked == Some(startup)
            ||| text@ == "Open config folder"@ && command is OpenConfigFolder && checked is None
            ||| text@ == "Quit"@ && command is Quit && checked is None
        }),
{
    let es = entries(menu@);
    assert(es[j] == menu@[j]@);
    assert(es.len() == menu@.len());
    let top = if status.node_id is Some { 2int } else { 1 };
    assert(j < top ==> es[j] is Label);
    assert(es[top] is Separator && es[top + 1] is SharedRepos && es[top + 3] is Separator);
    assert(es[top + 2] == (EntryView::Item { id: ID_GRANT as int, text: "Grant access…"@, checked: None }));
    assert(es[top + 4] == (EntryView::Item { id: ID_COPY as int, text: "Copy my node id"@, checked: None }));
    assert(es[top + 5] == (EntryView::Item {
        id: ID_TOGGLE_STARTUP as int,
        text: "Start at login"@,
        checked: Some(startup),
    }));
    assert(es[top + 6] == (EntryView::Item {
        id: ID_OPEN_CONFIG as int,
        text: "Open config folder"@,
        checked: None,
    }));
    assert(es[top + 7] is Separator);
    assert(es[top + 8] == (EntryView::Item { id: ID_QUIT as int, text: "Quit"@, checked: None }));
    assert(es.len() == top + 9);
}

/// An ASCII text, such as a node id, is cut after its first `n` characters, and left whole where it is
/// no longer than that.
pub proof fn node_ids_are_cut_to_their_beginning(s: Seq<char>, n: nat)
    requires
        is_ascii_chars(s),
    ensures
        s.len() <= n ==> clipped(s, n) == s,
        s.len() > n ==> clipped(s, n) == s.take(n as int),
{
    is_ascii_chars_encode_utf8(s);
    let k = clip_len(s, n) as int;
    let t = s.take(k);
    assert forall|i: int| 0 <= i < t.len() implies '\0' <= #[trigger] t[i] <= '\u{7f}' by {
        assert(t[i] == s[i]);
    }
    is_ascii_chars_encode_utf8(t);
    assert forall|i: int| 0 <= i < k implies encode_utf8(t)[i] == #[trigger] encode_utf8(s).take(k)[i] by {
        assert(t[i] == s[i]);
        assert(t[i] as u8 == encode_utf8(t)[i]);
        assert(s[i] as u8 == encode_utf8(s)[i]);
    }
    assert(encode_utf8(t) =~= encode_utf8(s).take(k));
    encode_utf8_decode_utf8(t);
    if s.len() <= n {
        assert(t =~= s);
    }
}

/// A repository is shown by the name of its folder, whatever slashes follow it.
pub proof fn repositories_are_shown_by_their_folder(dir: Seq<char>, slash: char, name: Seq<char>, slashes: Seq<char>)
    requires
        is_slash(slash),
        name.len() > 0,
        forall|i: int| 0 <= i < name.len() ==> !is_slash(#[trigger] name[i]),
        forall|i: int| 0 <= i < slashes.len() ==> is_slash(#[trigger] slashes[i]),
    ensures
        folder_name(dir + seq![slash] + name + slashes) == name,
{
    the_last_name_is_what_was_written(dir, slash, name, slashes);
}

/// What is asked before an action takes something away names what it takes: the member, or the
/// repository's folder. Nothing is asked before the others.
pub proof fn only_what_takes_away_is_asked_about(act: &MenuAction, asked: Option<(String, String)>)
    requires
        call_ensures(confirmation, (act,), asked),
    ensures
        asked is Some <==> act is RevokeMember || act is StopSharing,
        act matches MenuAction::RevokeMember { repo, node, name } ==> (asked matches Some((ask, done)) && contains_text(
            ask@,
            name@,
        ) && contains_text(done@, name@)),
        act matches MenuAction::StopSharing(repo) ==> (asked matches Some((ask, done)) && contains_text(
            ask@,
            folder_name(repo@),
        ) && contains_text(done@, folder_name(repo@))),
{
    match act {
        MenuAction::RevokeMember { repo, node, name } => {
            a_part_stands_between_two_others("Revoke "@, name@, "'s access to this repository?"@, name@);
            a_part_stands_between_two_others("Revoked "@, name@, "'s access."@, name@);
        },
        MenuAction::StopSharing(repo) => {
            let name = folder_name(repo@);
            a_part_stands_between_two_others(
                "Stop sharing \""@,
                name,
                "\"?\n\nThis removes the repository and everyone you granted. Their clones will no longer be able to fetch or push."@,
                name,
            );
            a_part_stands_between_two_others("Stopped sharing \""@, name, "\"."@, name);
        },
        _ => {},
    }
}

/// A scaled length is the nearest to the exact one, the greater of two that are equally near: the design's
/// own at 96 dots per inch.
pub proof fn lengths_are_scaled_to_the_nearest(v: int, dpi: int)
    requires
        0 <= v,
        0 <= dpi,
    ensures
        -48 < 96 * scaled(v, dpi) - v * dpi <= 48,
        scaled(v, 96) == v,
{
    let x = v * dpi;
    assert(-48 < 96 * ((x + 48) / 96) - x <= 48);
    assert((v * 96 + 48) / 96 == v);
}

/// The controls of the grant dialog lie inside it and beside each other, at every resolution that it is
/// drawn at.
pub proof fn the_dialogs_controls_do_not_overlap(dpi: int, i: int, j: int)
    requires
        96 <= dpi,
        0 <= i < j < dialog_design(dpi).len(),
    ensures
        ({
            let (a, b) = (dialog_design(dpi)[i], dialog_design(dpi)[j]);
            &&& 0 <= a.x && a.x + a.width <= scaled(458, dpi)
            &&& 0 <= a.y && a.y + a.height <= scaled(208, dpi)
            &&& a.x + a.width <= b.x || b.x + b.width <= a.x || a.y + a.height <= b.y || b.y + b.height <= a.y
            &&& a.id == b.id ==> a.id == 0
        }),
{
}

/// The values of the grant dialog are used only if it was accepted last, and once it is done it stays so
/// but for its being used again; closing the window accepts nothing.
pub proof fn the_dialog_is_accepted_only_by_its_button(
    used: &mut DialogState,
    id: i32,
    browse: bool,
    closed: &mut DialogState,
    unit: (),
    fresh: DialogState,
)
    requires
        call_ensures(DialogState::on_command, (used, id), browse),
        call_ensures(DialogState::on_close, (closed,), unit),
        call_ensures(DialogState::open, (), fresh),
    ensures
        !fresh.done && !fresh.accepted,
        id == ID_OK ==> final(used).done && final(used).accepted,
        id == ID_CANCEL ==> final(used).done && !final(used).accepted,
        id != ID_OK && id != ID_CANCEL ==> *final(used) == *old(used),
        browse <==> id == ID_BTN_BROWSE,
        final(closed).done,
        final(closed).accepted == old(closed).accepted,
{
}

/// The menu begins with how the daemon stands, and the beginning of its node id where it has one.
pub proof fn the_menu_begins_with_the_daemon(status: &Status, startup: bool, menu: Vec<Entry>)
    requires
        call_ensures(main_menu, (status, startup), menu),
    ensures
        menu@[0] matches Entry::Label(text) && text@ == if !status.online {
            "iroh-git - starting…"@
        } else if status.repos == 1 {
            "iroh-git - online · "@ + decimal(1) + " repo"@
        } else {
            "iroh-git - online · "@ + decimal(status.repos as nat) + " repos"@
        },
        status.node_id matches Some(id) ==> (menu@[1] matches Entry::Label(text) && text@ == "node "@ + clipped(id@, 16)
            + "…"@),
        status.node_id is None ==> menu@[1] is Separator,
{
    reveal_strlit("");
    reveal_strlit("s");
    reveal_strlit(" repo");
    reveal_strlit(" repos");
    let es = entries(menu@);
    assert(es.len() == menu@.len());
    assert(es.len() >= 10);
    assert(es[0] == menu@[0]@ && es[1] == menu@[1]@);
    let head = "iroh-git - online · "@ + decimal(status.repos as nat);
    assert(head + " repo"@ + "s"@ =~= head + " repos"@);
    assert(head + " repo"@ + ""@ =~= head + " repo"@);
}

/// The grant dialog is filled in exactly if both the node id and the repository hold more than white
/// space.
pub proof fn a_grant_needs_a_node_and_a_repository(input: &GrantInput, complete: bool)
    requires
        call_ensures(GrantInput::is_complete, (input,), complete),
    ensures
        complete <==> !is_blank(input.node@) && !is_blank(input.repo@),
{
    trimming_leaves_the_rest(input.node@);
    trimming_leaves_the_rest(input.repo@);
}

/// An id that no item has asks for nothing.
pub proof fn unknown_ids_ask_for_nothing(id: usize, acts: &Vec<MenuAction>, command: Command)
    requires
        call_ensures(self::command, (id, acts), command),
    ensures
        command is Run <==> 2000 <= id < 2000 + acts@.len(),
        command is Nothing <==> !(101 <= id <= 105) && !(2000 <= id < 2000 + acts@.len()),
        command matches Command::Run(act) ==> act@ == acts@[id - 2000]@,
{
}

/// After a grant the access that was given and the repository are told.
pub proof fn a_grant_tells_the_access_it_gave(write: bool, path: &str, text: String)
    requires
        call_ensures(granted_text, (write, path), text),
    ensures
        starts_with(
            text@,
            (if write {
                "Granted read-write access to:\n"@
            } else {
                "Granted read-only access to:\n"@
            }) + path@,
        ),
{
    reveal_strlit("Granted ");
    reveal_strlit("read-write");
    reveal_strlit("read-only");
    reveal_strlit(" access to:\n");
    reveal_strlit("Granted read-write access to:\n");
    reveal_strlit("Granted read-only access to:\n");
    let mode = if write { "read-write"@ } else { "read-only"@ };
    let head = if write { "Granted read-write access to:\n"@ } else { "Granted read-only access to:\n"@ };
    assert("Granted "@ + mode + " access to:\n"@ =~= head);
    assert(text@.take((head + path@).len() as int) =~= head + path@);
}

/// A font of nine points is as high as nine seventy-seconds of an inch, and the dialog's size is that of
/// its design at the resolution.
pub proof fn the_dialog_is_drawn_to_scale(dpi: i32, height: i32, size: (i32, i32))
    requires
        call_ensures(font_height, (dpi,), height),
        call_ensures(dialog_size, (dpi,), size),
        0 <= dpi,
    ensures
        height <= 0,
        0 <= 9 * dpi + 72 * height < 72,
        -48 < 96 * size.0 - 458 * dpi <= 48,
        -48 < 96 * size.1 - 208 * dpi <= 48,
{
    lengths_are_scaled_to_the_nearest(458, dpi as int);
    lengths_are_scaled_to_the_nearest(208, dpi as int);
}

/// A path without a folder's name is shown whole.
pub proof fn the_root_is_shown_whole(slashes: Seq<char>)
    requires
        forall|i: int| 0 <= i < slashes.len() ==> is_slash(#[trigger] slashes[i]),
    ensures
        folder_name(slashes) == slashes,
{
    only_slashes_have_no_name(slashes);
}

} // verus!
