use iroh_git::config::{
    grants_path, read_relay_hint, relay_hint_path, staging_name, write_relay_hint, GrantOutcome,
    Grants, Member, RepoGrant, RevokeLfsOutcome, RevokeOutcome, RevokeWriteOutcome,
};
use iroh_git::daemon::authorize;
use iroh_git::error::Failure;
use iroh_git::node::NodeId;
use iroh_git::paths::PathStyle;
use iroh_git::protocol::{Request, Service, VERSION};
use iroh_git::share::{
    canonical_node_id, grant, grant_in, revoke_at, revoke_everywhere, set_repo_lfs, ticket_for, unshare,
    unshare_all, unshare_by_id, LfsToggle, RevokeWhat, Revoked,
};
use iroh_git::ticket::RepoId;

fn key(n: u8) -> NodeId {
    NodeId::of_seed(&[n; 32])
}

fn member(node: &str, push: bool, lfs: bool) -> Member {
    Member {
        node_id: node.to_string(),
        nickname: String::new(),
        allow_push: push,
        allow_lfs: lfs,
    }
}

fn repo(members: Vec<Member>) -> RepoGrant {
    RepoGrant {
        id: RepoId::from_bytes([1; 16]).to_text(),
        path: "/r".to_string(),
        lfs_enabled: false,
        members,
    }
}

#[test]
fn node_ids_have_one_canonical_form() {
    let id = key(1);
    let hex = id.to_text();
    let base32 = data_encoding::BASE32_NOPAD.encode(id.as_bytes());
    assert_eq!(canonical_node_id(&hex).unwrap(), hex);
    assert_eq!(canonical_node_id(&format!(" {base32}\n")).unwrap(), hex);
    assert_eq!(canonical_node_id(&base32.to_lowercase()).unwrap(), hex);
}

#[test]
fn a_text_that_is_no_node_id_is_refused_with_the_reason() {
    let reason = |text: &str| match canonical_node_id(text) {
        Err(Failure::InvalidNodeId { node_id, cause }) => {
            assert_eq!(node_id, text);
            cause
        }
        other => panic!("{other:?}"),
    };
    assert_eq!(reason("x"), "invalid length");
    assert_eq!(reason(&"G".repeat(64)), "failed to decode hex string");
    assert_eq!(reason(&key(1).to_text().to_uppercase()), "failed to decode hex string");
    assert_eq!(reason(&"1".repeat(52)), "failed to decode base32 string");
    assert_eq!(reason(&format!("02{}", "0".repeat(62))), "data is not a valid public key");
    assert_eq!(
        canonical_node_id(" x").unwrap_err().message(),
        "invalid NODE_ID \" x\": invalid length"
    );
}

#[test]
fn granting_is_additive() {
    let mut r = repo(vec![]);
    assert_eq!(r.grant_member("n", false, false, "erik"), GrantOutcome::Added);
    assert_eq!(r.grant_member("m", true, true, ""), GrantOutcome::AddedWrite);
    assert_eq!(r.grant_member("n", false, true, ""), GrantOutcome::Unchanged);
    assert_eq!(r.grant_member("n", true, false, "e"), GrantOutcome::UpgradedToWrite);
    assert_eq!(r.grant_member("n", false, false, ""), GrantOutcome::Unchanged);
    assert_eq!(r.members.len(), 2);
    assert_eq!(
        r.members[0],
        Member {
            node_id: "n".to_string(),
            nickname: "e".to_string(),
            allow_push: true,
            allow_lfs: true,
        }
    );
    assert_eq!(r.members[1], member("m", true, true));
}

#[test]
fn revoking_takes_away_what_is_named() {
    let mut r = repo(vec![member("n", true, true), member("m", false, false), member("n", false, true)]);
    assert_eq!(r.revoke_write("n"), RevokeWriteOutcome::Downgraded);
    assert_eq!(r.members[0], member("n", false, true));
    assert_eq!(r.revoke_write("n"), RevokeWriteOutcome::AlreadyReadOnly);
    assert_eq!(r.revoke_write("x"), RevokeWriteOutcome::NotAMember);
    assert_eq!(r.revoke_lfs("n"), RevokeLfsOutcome::Revoked);
    assert_eq!(r.members[0], member("n", false, false));
    assert_eq!(r.revoke_lfs("n"), RevokeLfsOutcome::AlreadyNoLfs);
    assert_eq!(r.revoke_lfs("x"), RevokeLfsOutcome::NotAMember);
    assert_eq!(r.revoke_member("x"), RevokeOutcome::NotAMember);
    assert_eq!(r.members.len(), 3);
    assert_eq!(r.revoke_member("n"), RevokeOutcome::Removed);
    assert_eq!(r.members, vec![member("m", false, false)]);
}

#[test]
fn a_repository_is_created_once() {
    let mut g = Grants::default();
    let id = g.find_or_create_repo("/r").unwrap().id.clone();
    assert!(RepoId::parse(&id).is_ok());
    g.find_or_create_repo("/r").unwrap().lfs_enabled = true;
    assert_eq!(g.repos.len(), 1);
    assert_eq!(g.repos[0].id, id);
    assert!(g.repos[0].lfs_enabled);
    g.find_or_create_repo("/s").unwrap();
    assert_eq!(g.repos.len(), 2);
    assert!(g.repos[1].members.is_empty() && !g.repos[1].lfs_enabled);
    g.insert_repo(&RepoId::from_bytes([4; 16]), "/t");
    assert_eq!(g.repos[2].id, RepoId::from_bytes([4; 16]).to_text());
}

#[test]
fn a_grant_reports_what_changed() {
    let mut g = Grants::default();
    let node = key(1).to_text();
    let first = grant(&mut g, "/r", &format!(" {node} "), false, false, " erik ").unwrap();
    assert_eq!(first.outcome, GrantOutcome::Added);
    assert_eq!(first.node_id, node);
    assert_eq!(first.repo_path, "/r");
    assert_eq!(first.repo_id, g.repos[0].id);
    assert!(!first.allow_lfs && !first.lfs_added && !first.lfs_enabled);
    assert_eq!(g.repos[0].members[0].nickname, "erik");

    g.repos[0].lfs_enabled = true;
    let second = grant(&mut g, "/r", &node, true, true, "").unwrap();
    assert_eq!(second.outcome, GrantOutcome::UpgradedToWrite);
    assert!(second.allow_lfs && second.lfs_added && second.lfs_enabled);
    let third = grant(&mut g, "/r", &node, false, true, "").unwrap();
    assert_eq!(third.outcome, GrantOutcome::Unchanged);
    assert!(third.allow_lfs && !third.lfs_added);
    let fourth = grant(&mut g, "/r", &node, false, false, "").unwrap();
    assert!(fourth.allow_lfs && !fourth.lfs_added);
    assert_eq!(g.repos.len(), 1);
    assert_eq!(g.repos[0].members.len(), 1);

    let before = format!("{g:?}");
    assert!(grant(&mut g, "/s", "junk", true, true, "").is_err());
    assert_eq!(format!("{g:?}"), before);
}

#[test]
fn a_granted_node_is_authorized_until_it_is_revoked() {
    let mut g = Grants::default();
    let id = key(3);
    let granted = grant(&mut g, "/r", &id.to_text(), true, false, "").unwrap();
    let repo_id = *RepoId::parse(&granted.repo_id).unwrap().as_bytes();
    let ask = |service| Request { version: VERSION, repo_id, service };
    assert!(authorize(&g, &ask(Service::ReceivePack), &id).is_ok());
    revoke_at(&mut g, "/r", &id.to_text(), RevokeWhat::Write).unwrap();
    assert!(authorize(&g, &ask(Service::ReceivePack), &id).is_err());
    assert!(authorize(&g, &ask(Service::UploadPack), &id).is_ok());
    revoke_at(&mut g, "/r", &id.to_text(), RevokeWhat::Member).unwrap();
    assert!(authorize(&g, &ask(Service::UploadPack), &id).is_err());
}

#[test]
fn revoking_reports_what_it_did() {
    let node = key(1).to_text();
    let mut g = Grants { repos: vec![repo(vec![member(&node, true, true)])] };
    let at = |g: &mut Grants, path: &str, what| revoke_at(g, path, &node, what).unwrap();
    assert_eq!(at(&mut g, "/x", RevokeWhat::Member), Revoked::RepoNotShared);
    assert_eq!(at(&mut g, "/r", RevokeWhat::Write), Revoked::DowngradedToReadOnly);
    assert_eq!(at(&mut g, "/r", RevokeWhat::Write), Revoked::AlreadyReadOnly);
    assert_eq!(at(&mut g, "/r", RevokeWhat::Lfs), Revoked::LfsRevoked);
    assert_eq!(at(&mut g, "/r", RevokeWhat::Lfs), Revoked::AlreadyNoLfs);
    assert_eq!(at(&mut g, "/r", RevokeWhat::Member), Revoked::RemovedMember);
    assert_eq!(at(&mut g, "/r", RevokeWhat::Member), Revoked::NotAMember);
    assert!(revoke_at(&mut g, "/r", "junk", RevokeWhat::Member).is_err());
    assert!(Revoked::AlreadyReadOnly.saves() && Revoked::RemovedMember.saves());
    assert!(!Revoked::NotAMember.saves() && !Revoked::RepoNotShared.saves());
}

#[test]
fn revoking_everywhere_counts_the_changes() {
    let node = key(1).to_text();
    let repos = || {
        let mut a = repo(vec![member(&node, true, false)]);
        a.path = "/a".to_string();
        let mut b = repo(vec![member(&node, false, true), member("m", true, true)]);
        b.path = "/b".to_string();
        let c = repo(vec![]);
        Grants { repos: vec![a, b, c] }
    };
    let mut g = repos();
    assert_eq!(revoke_everywhere(&mut g, &node, RevokeWhat::Write), Ok(1));
    assert!(!g.repos[0].members[0].allow_push);
    let mut g = repos();
    assert_eq!(revoke_everywhere(&mut g, &node, RevokeWhat::Lfs), Ok(1));
    assert!(!g.repos[1].members[0].allow_lfs && g.repos[1].members[1].allow_lfs);
    let mut g = repos();
    assert_eq!(revoke_everywhere(&mut g, &node, RevokeWhat::Member), Ok(2));
    assert_eq!(g.repos[1].members, vec![member("m", true, true)]);
    assert_eq!(revoke_everywhere(&mut g, &node, RevokeWhat::Member), Ok(0));
    assert!(revoke_everywhere(&mut g, "junk", RevokeWhat::Member).is_err());
}

#[test]
fn the_lfs_switch_needs_a_share() {
    let mut g = Grants { repos: vec![repo(vec![])] };
    assert_eq!(set_repo_lfs(&mut g, "/x", true), LfsToggle::NotShared);
    assert_eq!(g.repos.len(), 1);
    assert_eq!(set_repo_lfs(&mut g, "/r", false), LfsToggle::AlreadyInThatState);
    assert_eq!(set_repo_lfs(&mut g, "/r", true), LfsToggle::Enabled);
    assert!(g.repos[0].lfs_enabled);
    assert_eq!(set_repo_lfs(&mut g, "/r", true), LfsToggle::AlreadyInThatState);
    assert_eq!(set_repo_lfs(&mut g, "/r", false), LfsToggle::Disabled);
    assert!(!g.repos[0].lfs_enabled);
    assert!(LfsToggle::Enabled.saves() && LfsToggle::Disabled.saves());
    assert!(!LfsToggle::AlreadyInThatState.saves() && !LfsToggle::NotShared.saves());
}

#[test]
fn stopping_removes_repositories() {
    let shared = || {
        let mut g = Grants::default();
        g.insert_repo(&RepoId::from_bytes([1; 16]), "/a");
        g.insert_repo(&RepoId::from_bytes([2; 16]), "/b");
        g.insert_repo(&RepoId::from_bytes([3; 16]), "/a");
        g
    };
    let mut g = shared();
    assert!(unshare(&mut g, "/a"));
    assert_eq!(g.repos.len(), 1);
    assert!(!unshare(&mut g, "/a"));
    let mut g = shared();
    // An id in capitals is the same id, and a broken one is none.
    g.repos[0].id = g.repos[0].id.to_uppercase();
    g.repos[2].id = "junk!".to_string();
    assert!(unshare_by_id(&mut g, RepoId::from_bytes([1; 16])));
    assert_eq!(g.repos.len(), 2);
    assert!(!unshare_by_id(&mut g, RepoId::from_bytes([3; 16])));
    assert_eq!(unshare_all(&mut g), 2);
    assert_eq!(unshare_all(&mut g), 0);
}

#[test]
fn a_shared_repository_has_a_ticket() {
    let g = Grants { repos: vec![repo(vec![])] };
    let t = ticket_for(&g, "/r", &key(1), None).unwrap().unwrap();
    assert_eq!(t.repo_id, RepoId::from_bytes([1; 16]));
    assert_eq!(t.node_id, key(1));
    assert_eq!(t.name, "r");
    assert_eq!(ticket_for(&g, "/x", &key(1), None), Ok(None));
    let mut g = g;
    g.repos[0].id = "aa".to_string();
    assert_eq!(
        ticket_for(&g, "/r", &key(1), None).unwrap_err(),
        RepoId::parse("aa").unwrap_err()
    );
    assert!(matches!(RepoId::parse("aa"), Err(Failure::RepoIdLength { .. })));
}

#[test]
fn configuration_files_have_their_places() {
    assert_eq!(grants_path(PathStyle::Unix, "/c"), "/c/grants.toml");
    assert_eq!(grants_path(PathStyle::Windows, "C:\\c"), "C:\\c\\grants.toml");
    assert_eq!(relay_hint_path(PathStyle::Unix, "/c"), "/c/daemon-relay.txt");
    assert_eq!(staging_name("grants.toml", 42), "grants.toml.42.tmp");
}

#[test]
fn the_relay_hint_is_trimmed_and_may_be_empty() {
    assert_eq!(write_relay_hint(Some("https://r/")), "https://r/");
    assert_eq!(write_relay_hint(None), "");
    assert_eq!(read_relay_hint(Some(" https://r/\n")), Some("https://r/".to_string()));
    assert_eq!(read_relay_hint(Some(" \n")), None);
    assert_eq!(read_relay_hint(None), None);
    assert_eq!(read_relay_hint(Some(&write_relay_hint(None))), None);
}

#[test]
fn a_node_listed_in_another_form_is_judged_by_that_entry() {
    let id = key(4);
    let base32 = data_encoding::BASE32_NOPAD.encode(id.as_bytes());
    let mut g = Grants { repos: vec![repo(vec![member(&base32, false, false)])] };
    let repo_id = [1; 16];
    let ask = |service| Request { version: VERSION, repo_id, service };
    assert!(authorize(&g, &ask(Service::UploadPack), &id).is_ok());
    grant(&mut g, "/r", &base32, true, false, "").unwrap();
    // The grant is stored in hexadecimal, behind the entry that counts.
    assert_eq!(g.repos[0].members[1].node_id, id.to_text());
    assert!(authorize(&g, &ask(Service::UploadPack), &id).is_ok());
    assert!(authorize(&g, &ask(Service::ReceivePack), &id).is_err());
    revoke_at(&mut g, "/r", &base32, RevokeWhat::Member).unwrap();
    assert!(authorize(&g, &ask(Service::UploadPack), &id).is_ok());
}

#[test]
fn a_stopped_path_is_not_served() {
    let id = key(5);
    let mut g = Grants { repos: vec![repo(vec![member(&id.to_text(), true, true)])] };
    let req = Request { version: VERSION, repo_id: [1; 16], service: Service::UploadPack };
    assert_eq!(authorize(&g, &req, &id).unwrap().0, "/r");
    assert!(unshare(&mut g, "/r"));
    assert!(authorize(&g, &req, &id).is_err());
}

#[test]
fn a_grant_on_an_entry_reports_as_a_grant() {
    let mut r = repo(vec![member("n", false, false)]);
    let g = grant_in(&mut r, "n", true, true, " x ");
    assert_eq!(g.outcome, GrantOutcome::UpgradedToWrite);
    assert!(g.lfs_added && g.allow_lfs && !g.lfs_enabled);
    assert_eq!((g.repo_id, g.repo_path, g.node_id), (r.id.clone(), "/r".to_string(), "n".to_string()));
    assert_eq!(r.members[0].nickname, "x");
}

#[test]
fn failures_that_no_text_brings_about_have_their_messages() {
    let text = |f: Failure| f.message();
    assert_eq!(RepoId::from_drawn(Ok([7; 16])), Ok(RepoId::from_bytes([7; 16])));
    assert_eq!(
        text(RepoId::from_drawn(Err("out of luck".to_string())).unwrap_err()),
        "gathering randomness for a repo id: out of luck"
    );
    assert_eq!(text(Failure::TicketTooLong), "ticket is too long");
    assert_eq!(text(Failure::RepoIdTooLong), "repo id is too long");
}

#[test]
fn revoking_undoes_a_grant_and_stopping_a_share() {
    let node = key(6).to_text();
    let mut g = Grants { repos: vec![repo(vec![member("m", true, true)])] };
    let shown = |g: &Grants| format!("{g:?}");
    let before = shown(&g);
    grant(&mut g, "/r", &node, true, true, "x").unwrap();
    let granted = shown(&g);
    grant(&mut g, "/r", &node, true, true, "x").unwrap();
    assert_eq!(shown(&g), granted);
    assert_eq!(revoke_at(&mut g, "/r", &node, RevokeWhat::Member), Ok(Revoked::RemovedMember));
    assert_eq!(shown(&g), before);
    assert_eq!(revoke_at(&mut g, "/r", &node, RevokeWhat::Member), Ok(Revoked::NotAMember));
    assert_eq!(shown(&g), before);
    grant(&mut g, "/new", &node, false, false, "").unwrap();
    assert!(unshare(&mut g, "/new"));
    assert_eq!(shown(&g), before);
}
