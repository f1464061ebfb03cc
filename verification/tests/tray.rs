use iroh_git::config::{Grants, Member, RepoGrant};
use iroh_git::daemon::Status;
use iroh_git::tray::{
    command, confirmation, dialog_controls, dialog_size, font_height, granted_text, main_menu,
    repo_basename, scale, shared_menu, Command, ControlKind, DialogState, Entry, GrantInput,
    MenuAction, BASE_DPI, ID_BTN_BROWSE, ID_CANCEL, ID_CHK_LFS, ID_COPY, ID_DYN_BASE, ID_GRANT,
    ID_OK, ID_OPEN_CONFIG, ID_QUIT, ID_TOGGLE_STARTUP,
};

fn label(text: &str) -> Entry {
    Entry::Label(text.to_string())
}

fn item(id: usize, text: &str, checked: Option<bool>) -> Entry {
    Entry::Item { id, text: text.to_string(), checked }
}

#[test]
fn the_menu_shows_the_daemon() {
    let mut s = Status::default();
    let menu = main_menu(&s, false);
    assert_eq!(menu[0], label("iroh-git - starting…"));
    assert_eq!(menu[1], Entry::Separator);
    s.repos = 1;
    s.come_online("0123456789abcdef0123".to_string(), None);
    assert_eq!(
        main_menu(&s, true),
        vec![
            label("iroh-git - online · 1 repo"),
            label("node 0123456789abcdef…"),
            Entry::Separator,
            Entry::SharedRepos("Shared repos".to_string()),
            item(ID_GRANT, "Grant access…", None),
            Entry::Separator,
            item(ID_COPY, "Copy my node id", None),
            item(ID_TOGGLE_STARTUP, "Start at login", Some(true)),
            item(ID_OPEN_CONFIG, "Open config folder", None),
            Entry::Separator,
            item(ID_QUIT, "Quit", None),
        ]
    );
    s.repos = 2;
    assert_eq!(main_menu(&s, true)[0], label("iroh-git - online · 2 repos"));
}

fn shared() -> Grants {
    let member = |node: &str, nick: &str, push: bool| Member {
        node_id: node.to_string(),
        nickname: nick.to_string(),
        allow_push: push,
        allow_lfs: false,
    };
    let repo = |path: &str, lfs: bool, members: Vec<Member>| RepoGrant {
        id: "i".to_string(),
        path: path.to_string(),
        lfs_enabled: lfs,
        members,
    };
    Grants {
        repos: vec![
            repo("C:\\a\\one", false, vec![]),
            repo(
                "/two/",
                true,
                vec![member("0123456789abcdef", "", true), member("99", "erik", false)],
            ),
        ],
    }
}

#[test]
fn each_shared_repository_has_a_menu() {
    let menu = shared_menu(&shared());
    assert_eq!(menu.repos.len(), 2);
    assert_eq!(menu.repos[0].name, "one");
    assert_eq!(
        menu.repos[0].entries,
        vec![
            item(ID_DYN_BASE, "Open in Explorer", None),
            item(ID_DYN_BASE + 1, "Copy remote URL", None),
            item(ID_DYN_BASE + 2, "Add member…", None),
            item(ID_DYN_BASE + 3, "Share Git LFS objects", Some(false)),
            Entry::Separator,
            label("(no members)"),
            Entry::Separator,
            item(ID_DYN_BASE + 4, "Stop sharing", None),
        ]
    );
    assert_eq!(menu.repos[1].name, "two");
    assert_eq!(
        menu.repos[1].entries[3..],
        vec![
            item(ID_DYN_BASE + 8, "Share Git LFS objects", Some(true)),
            Entry::Separator,
            item(ID_DYN_BASE + 9, "Revoke 0123456789ab…'s access (read-write)", None),
            item(ID_DYN_BASE + 10, "Revoke erik's access (read-only)", None),
            Entry::Separator,
            item(ID_DYN_BASE + 11, "Stop sharing", None),
        ]
    );
    assert_eq!(menu.actions.len(), 12);
    assert_eq!(menu.nothing, None);
    let none = shared_menu(&Grants::default());
    assert!(none.repos.is_empty() && none.actions.is_empty());
    assert_eq!(none.nothing.as_deref(), Some("(nothing shared yet)"));
}

#[test]
fn commands_lead_to_actions() {
    let acts = shared_menu(&shared()).actions;
    assert_eq!(command(ID_COPY, &acts), Command::CopyMyId);
    assert_eq!(command(ID_OPEN_CONFIG, &acts), Command::OpenConfigFolder);
    assert_eq!(command(ID_TOGGLE_STARTUP, &acts), Command::ToggleStartup);
    assert_eq!(command(ID_GRANT, &acts), Command::Grant);
    assert_eq!(command(ID_QUIT, &acts), Command::Quit);
    assert_eq!(command(0, &acts), Command::Nothing);
    assert_eq!(command(ID_DYN_BASE + 12, &acts), Command::Nothing);
    assert_eq!(
        command(ID_DYN_BASE + 3, &acts),
        Command::Run(MenuAction::SetLfs { repo: "C:\\a\\one".to_string(), enabled: true })
    );
    assert_eq!(
        command(ID_DYN_BASE + 10, &acts),
        Command::Run(MenuAction::RevokeMember {
            repo: "/two/".to_string(),
            node: "99".to_string(),
            name: "erik".to_string(),
        })
    );
    assert_eq!(
        command(ID_DYN_BASE + 11, &acts),
        Command::Run(MenuAction::StopSharing("/two/".to_string()))
    );
}

#[test]
fn what_takes_access_away_is_asked_about() {
    let revoke = MenuAction::RevokeMember {
        repo: "/r".to_string(),
        node: "n".to_string(),
        name: "erik".to_string(),
    };
    assert_eq!(
        confirmation(&revoke),
        Some((
            "Revoke erik's access to this repository?".to_string(),
            "Revoked erik's access.".to_string()
        ))
    );
    let (ask, done) = confirmation(&MenuAction::StopSharing("/a/two".to_string())).unwrap();
    assert_eq!(
        ask,
        "Stop sharing \"two\"?\n\nThis removes the repository and everyone you granted. \
         Their clones will no longer be able to fetch or push."
    );
    assert_eq!(done, "Stopped sharing \"two\".");
    assert_eq!(confirmation(&MenuAction::CopyTicket("/r".to_string())), None);
}

#[test]
fn folder_names_are_last_components() {
    assert_eq!(repo_basename("/a/b/"), "b");
    assert_eq!(repo_basename("C:\\a\\b"), "b");
    assert_eq!(repo_basename("x"), "x");
    assert_eq!(repo_basename("//"), "//");
    assert_eq!(repo_basename(""), "");
}

#[test]
fn a_grant_needs_a_node_and_a_repository() {
    let input = |node: &str, repo: &str| GrantInput {
        node: node.to_string(),
        nickname: String::new(),
        repo: repo.to_string(),
        write: false,
        lfs: false,
    };
    assert!(input("n", "/r").is_complete());
    assert!(!input(" ", "/r").is_complete());
    assert!(!input("n", "\t").is_complete());
    assert_eq!(
        granted_text(true, "/r"),
        "Granted read-write access to:\n/r\n\nThe remote URL is on your clipboard - send it to your friend."
    );
    assert!(granted_text(false, "/r").starts_with("Granted read-only access to:\n/r\n"));
}

#[test]
fn the_dialog_scales_with_the_resolution() {
    assert_eq!(scale(21, BASE_DPI), 21);
    assert_eq!(scale(21, 144), 32);
    assert_eq!(scale(1, 143), 1);
    assert_eq!(scale(1, 144), 2);
    assert_eq!(font_height(96), -12);
    assert_eq!(font_height(144), -18);
    assert_eq!(dialog_size(96), (458, 208));
    let controls = dialog_controls(192);
    assert_eq!(controls.len(), 11);
    assert_eq!(controls[0].text, "Friend's node id:");
    let lfs = controls.iter().find(|c| c.id == ID_CHK_LFS).unwrap();
    assert_eq!(lfs.kind, ControlKind::CheckBox);
    assert_eq!(lfs.text, "Allow Git LFS transfer");
    assert_eq!((lfs.x, lfs.y, lfs.width, lfs.height), (276, 292, 500, 40));
}

#[test]
fn the_dialog_ends_by_its_buttons() {
    let mut d = DialogState::open();
    assert!(d.on_command(ID_BTN_BROWSE));
    assert_eq!(d, DialogState::open());
    assert!(!d.on_command(77));
    assert_eq!(d, DialogState::open());
    assert!(!d.on_command(ID_OK));
    assert!(d.done && d.accepted);
    let mut d = DialogState::open();
    d.on_command(ID_CANCEL);
    assert!(d.done && !d.accepted);
    let mut d = DialogState::open();
    d.on_close();
    assert!(d.done && !d.accepted);
}
