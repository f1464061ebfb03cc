//! The human-facing porcelain, `git iroh <cmd>`: what its options mean and what it prints.

use crate::config::{GrantOutcome, Grants, Member, MemberView, RepoGrant, RepoView};
use crate::error::Failure;
use crate::identity::Role;
use crate::lfs::UploadOutcome;
use crate::lfs_hook::Outcome;
use crate::sequences::lemma_filter_step;
use crate::share::{Granted, LfsToggle, RevokeWhat, Revoked};
use crate::text::{
    a_part_stands_between_two_others, contains_text, decimal, decimal_text, ends_with,
    starts_with, texts,
};
use crate::ticket::{
    names_repo, refuses_repo_id, repo_id_is_what_the_text_names, repo_id_of, RepoId,
};
use vstd::prelude::*;

verus! {

/// Concurrent object transfers for `lfs-pull` and `lfs-push`: in-process fan-out over one connection.
pub const PARALLEL: usize = 8;

/// The keys that `keygen` works on: the selected ones, or both where none is selected.
pub open spec fn selected_roles(client: bool, server: bool) -> Seq<Role> {
    if client && !server {
        seq![Role::Client]
    } else if server && !client {
        seq![Role::Server]
    } else {
        seq![Role::Client, Role::Server]
    }
}

/// The keys that `keygen` works on. Overwriting takes an explicit selection.
pub fn keygen_roles(client: bool, server: bool, force: bool) -> (r: Result<Vec<Role>, Failure>)
    ensures
        if force && !client && !server {
            r == Err::<Vec<Role>, Failure>(Failure::ForceNeedsSelection)
        } else {
            r matches Ok(roles) && roles@ == selected_roles(client, server)
        },
{
    let explicit = client || server;
    if force && !explicit {
        return Err(Failure::ForceNeedsSelection);
    }
    let mut roles: Vec<Role> = Vec::new();
    if client || !explicit {
        roles.push(Role::Client);
    }
    if server || !explicit {
        roles.push(Role::Server);
    }
    assert(roles@ =~= selected_roles(client, server));
    Ok(roles)
}

/// What `keygen` does about one key.
#[derive(Clone, Copy, Debug, PartialEq, Eq, Structural)]
pub enum KeygenAction {
    /// It exists: leave it.
    Keep,
    /// It is missing: create it.
    Create,
    /// It exists: overwrite it.
    Regenerate,
}

/// Decide about one selected key: an existing key is overwritten only by force.
pub fn keygen_action(there: bool, force: bool) -> (r: KeygenAction)
    ensures
        r == if !there {
            KeygenAction::Create
        } else if force {
            KeygenAction::Regenerate
        } else {
            KeygenAction::Keep
        },
{
    if there && !force {
        KeygenAction::Keep
    } else if there {
        KeygenAction::Regenerate
    } else {
        KeygenAction::Create
    }
}

/// What a role is called.
pub open spec fn role_label(role: Role) -> Seq<char> {
    match role {
        Role::Client => "client"@,
        Role::Server => "server"@,
    }
}

/// The line that `keygen` prints for a key.
pub fn keygen_line(role: Role, action: KeygenAction, node_id: &str) -> (r: String)
    ensures
        r@ == match action {
            KeygenAction::Keep => role_label(role) + ": exists ("@ + node_id@
                + ") - use --force to regenerate"@,
            KeygenAction::Create => role_label(role) + ": created ("@ + node_id@ + ")"@,
            KeygenAction::Regenerate => role_label(role) + ": regenerated ("@ + node_id@ + ")"@,
        },
{
    let label = match role {
        Role::Client => "client",
        Role::Server => "server",
    };
    match action {
        KeygenAction::Keep => label.to_owned().concat(": exists (").concat(node_id).concat(
            ") - use --force to regenerate",
        ),
        KeygenAction::Create => label.to_owned().concat(": created (").concat(node_id).concat(")"),
        KeygenAction::Regenerate => label.to_owned().concat(": regenerated (").concat(node_id).concat(")"),
    }
}

/// What a grant says about read and write access.
pub open spec fn access_news(outcome: GrantOutcome, path: Seq<char>, node: Seq<char>, lfs_added: bool) -> Seq<Seq<char>> {
    match outcome {
        GrantOutcome::Added => seq!["granted read-only access to "@ + path],
        GrantOutcome::AddedWrite => seq!["granted read-write access to "@ + path],
        GrantOutcome::UpgradedToWrite => seq![
            "upgraded "@ + node + " to read-write - their existing remote is unchanged"@,
        ],
        GrantOutcome::Unchanged => if lfs_added {
            Seq::empty()
        } else {
            seq![node + " already has access - their existing remote is unchanged"@]
        },
    }
}

/// What a grant says about LFS access, where that was asked for.
pub open spec fn lfs_news(node: Seq<char>, lfs: bool, lfs_added: bool, lfs_enabled: bool) -> Seq<Seq<char>> {
    if !lfs {
        Seq::empty()
    } else {
        seq![
            if lfs_added {
                "granted LFS access to "@ + node
            } else {
                node + " already had LFS access"@
            },
        ] + if lfs_enabled {
            Seq::empty()
        } else {
            seq![
                "note: LFS isn't enabled on this repository yet - run `git iroh lfs-enable` so members can use it"@,
            ]
        }
    }
}

/// What `grant` reports, line by line; the ticket's url follows on standard output.
pub fn grant_lines(g: &Granted, lfs: bool) -> (r: Vec<String>)
    ensures
        texts(r@) == access_news(g.outcome, g.repo_path@, g.node_id@, g.lfs_added) + lfs_news(
            g.node_id@,
            lfs,
            g.lfs_added,
            g.lfs_enabled,
        ),
{
    let mut r: Vec<String> = Vec::new();
    let node = g.node_id.as_str();
    match g.outcome {
        GrantOutcome::Added => {
            r.push("granted read-only access to ".to_owned().concat(g.repo_path.as_str()));
        },
        GrantOutcome::AddedWrite => {
            r.push("granted read-write access to ".to_owned().concat(g.repo_path.as_str()));
        },
        GrantOutcome::UpgradedToWrite => {
            r.push(
                "upgraded ".to_owned().concat(node).concat(" to read-write - their existing remote is unchanged"),
            );
        },
        GrantOutcome::Unchanged => {
            // Only claim nothing changed when LFS didn't change either.
            if !g.lfs_added {
                r.push(node.to_owned().concat(" already has access - their existing remote is unchanged"));
            }
        },
    }
    let ghost access = access_news(g.outcome, g.repo_path@, g.node_id@, g.lfs_added);
    assert(texts(r@) =~= access);
    if lfs {
        if g.lfs_added {
            r.push("granted LFS access to ".to_owned().concat(node));
        } else {
            r.push(node.to_owned().concat(" already had LFS access"));
        }
        if !g.lfs_enabled {
            r.push(
                "note: LFS isn't enabled on this repository yet - run `git iroh lfs-enable` so members can use it".to_owned(),
            );
        }
    }
    assert(texts(r@) =~= access + lfs_news(g.node_id@, lfs, g.lfs_added, g.lfs_enabled));
    r
}

/// Which access `revoke` removes: all of it, unless only one right is named.
pub fn revoke_selection(write_only: bool, lfs_only: bool) -> (r: Result<RevokeWhat, Failure>)
    ensures
        r == if write_only && lfs_only {
            Err(Failure::WriteOrLfs)
        } else if write_only {
            Ok(RevokeWhat::Write)
        } else if lfs_only {
            Ok(RevokeWhat::Lfs)
        } else {
            Ok(RevokeWhat::Member)
        },
{
    if write_only && lfs_only {
        return Err(Failure::WriteOrLfs);
    }
    if write_only {
        Ok(RevokeWhat::Write)
    } else if lfs_only {
        Ok(RevokeWhat::Lfs)
    } else {
        Ok(RevokeWhat::Member)
    }
}

/// A repository count in words.
pub open spec fn repos_text(n: nat) -> Seq<char> {
    if n == 1 {
        "1 repository"@
    } else {
        decimal(n) + " repositories"@
    }
}

/// Pluralize a repository count for human-readable output.
pub fn repos(n: usize) -> (r: String)
    ensures
        r@ == repos_text(n as nat),
{
    if n == 1 {
        "1 repository".to_owned()
    } else {
        decimal_text(n as u64).concat(" repositories")
    }
}

/// What `revoke --all` reports.
pub fn revoke_all_line(node: &str, changed: usize, what: RevokeWhat) -> (r: String)
    ensures
        r@ == if changed == 0 {
            match what {
                RevokeWhat::Write => node@ + " had no write access to revoke in any repository"@,
                RevokeWhat::Lfs => node@ + " had no LFS access to revoke in any repository"@,
                RevokeWhat::Member => node@ + " was not a member of any repository"@,
            }
        } else {
            match what {
                RevokeWhat::Write => "revoked write access for "@ + node@ + " in "@ + repos_text(changed as nat),
                RevokeWhat::Lfs => "revoked LFS access for "@ + node@ + " in "@ + repos_text(changed as nat),
                RevokeWhat::Member => "revoked all access for "@ + node@ + " in "@ + repos_text(changed as nat),
            }
        },
{
    if changed == 0 {
        return match what {
            RevokeWhat::Write => node.to_owned().concat(" had no write access to revoke in any repository"),
            RevokeWhat::Lfs => node.to_owned().concat(" had no LFS access to revoke in any repository"),
            RevokeWhat::Member => node.to_owned().concat(" was not a member of any repository"),
        };
    }
    let lead = match what {
        RevokeWhat::Write => "revoked write access for ",
        RevokeWhat::Lfs => "revoked LFS access for ",
        RevokeWhat::Member => "revoked all access for ",
    };
    lead.to_owned().concat(node).concat(" in ").concat(repos(changed).as_str())
}

/// What `revoke` reports on one repository.
pub fn revoke_line(node: &str, revoked: Revoked) -> (r: Result<String, Failure>)
    ensures
        match revoked {
            Revoked::RemovedMember => r matches Ok(m) && m@ == "revoked all access for "@ + node@,
            Revoked::DowngradedToReadOnly => r matches Ok(m) && m@ == "revoked write access for "@ + node@
                + " (still read-only)"@,
            Revoked::AlreadyReadOnly => r matches Ok(m) && m@ == node@ + " already had read-only access"@,
            Revoked::LfsRevoked => r matches Ok(m) && m@ == "revoked LFS access for "@ + node@,
            Revoked::AlreadyNoLfs => r matches Ok(m) && m@ == node@ + " already had no LFS access"@,
            Revoked::NotAMember => r matches Err(Failure::NotGranted { node: n }) && n@ == node@,
            Revoked::RepoNotShared => r == Err::<String, Failure>(Failure::RepoNotShared),
        },
{
    match revoked {
        Revoked::RemovedMember => Ok("revoked all access for ".to_owned().concat(node)),
        Revoked::DowngradedToReadOnly => Ok(
            "revoked write access for ".to_owned().concat(node).concat(" (still read-only)"),
        ),
        Revoked::AlreadyReadOnly => Ok(node.to_owned().concat(" already had read-only access")),
        Revoked::LfsRevoked => Ok("revoked LFS access for ".to_owned().concat(node)),
        Revoked::AlreadyNoLfs => Ok(node.to_owned().concat(" already had no LFS access")),
        Revoked::NotAMember => Err(Failure::NotGranted { node: node.to_owned() }),
        Revoked::RepoNotShared => Err(Failure::RepoNotShared),
    }
}

/// Which repositories `stop` is about.
#[derive(Clone, Copy, Debug, PartialEq, Eq)]
pub enum StopWhat {
    /// All of them.
    All,
    /// The one in the current directory.
    This,
    /// The one with this share id.
    Share(RepoId),
}

/// How many selectors are given.
pub open spec fn selectors(share_id: bool, this: bool, all: bool) -> int {
    (if share_id { 1int } else { 0 }) + (if this { 1int } else { 0 }) + (if all { 1int } else { 0 })
}

/// The failure says that `id` is no SHARE_ID, and why it is no repository id.
pub open spec fn refuses_share_id(e: Failure, id: Seq<char>) -> bool {
    e matches Failure::InvalidShareId { id: i, cause } && i@ == id && exists|why: Failure|
        refuses_repo_id(why, id) && cause@ == #[trigger] why.text()
}

/// Which repositories `stop` is about: exactly one selector is wanted.
pub fn stop_selection(share_id: Option<&str>, this: bool, all: bool) -> (r: Result<StopWhat, Failure>)
    ensures
        ({
            let n = selectors(share_id is Some, this, all);
            if n > 1 {
                r == Err::<StopWhat, Failure>(Failure::ManySelectors)
            } else if n == 0 {
                r == Err::<StopWhat, Failure>(Failure::NoSelector)
            } else if all {
                r == Ok::<StopWhat, Failure>(StopWhat::All)
            } else if this {
                r == Ok::<StopWhat, Failure>(StopWhat::This)
            } else {
                share_id matches Some(id) && match repo_id_of(id@) {
                    Some(bytes) => r matches Ok(StopWhat::Share(x)) && x@ == bytes,
                    None => r matches Err(e) && refuses_share_id(e, id@),
                }
            }
        }),
{
    match share_id {
        Some(id) => {
            if this || all {
                return Err(Failure::ManySelectors);
            }
            match RepoId::parse(id) {
                Ok(repo_id) => Ok(StopWhat::Share(repo_id)),
                Err(e) => Err(Failure::InvalidShareId { id: id.to_owned(), cause: e.message() }),
            }
        },
        None => {
            if this && all {
                Err(Failure::ManySelectors)
            } else if all {
                Ok(StopWhat::All)
            } else if this {
                Ok(StopWhat::This)
            } else {
                Err(Failure::NoSelector)
            }
        },
    }
}

/// What `stop --all` reports.
pub fn stop_all_line(removed: usize) -> (r: String)
    ensures
        r@ == if removed == 0 {
            "no shared repositories"@
        } else {
            "stopped sharing "@ + repos_text(removed as nat)
        },
{
    if removed == 0 {
        "no shared repositories".to_owned()
    } else {
        "stopped sharing ".to_owned().concat(repos(removed).as_str())
    }
}

/// What `stop --this` reports.
pub fn stop_this_line(repo_path: &str, removed: bool) -> (r: Result<String, Failure>)
    ensures
        if removed {
            r matches Ok(m) && m@ == "stopped sharing "@ + repo_path@
        } else {
            r == Err::<String, Failure>(Failure::RepoNotShared)
        },
{
    if removed {
        Ok("stopped sharing ".to_owned().concat(repo_path))
    } else {
        Err(Failure::RepoNotShared)
    }
}

/// What `stop <share id>` reports.
pub fn stop_share_line(id: &str, removed: bool) -> (r: Result<String, Failure>)
    ensures
        if removed {
            r matches Ok(m) && m@ == "stopped sharing the repository with id "@ + id@
        } else {
            r matches Err(Failure::NoSuchShare { id: i }) && i@ == id@
        },
{
    if removed {
        Ok("stopped sharing the repository with id ".to_owned().concat(id))
    } else {
        Err(Failure::NoSuchShare { id: id.to_owned() })
    }
}

/// The line that `list` prints for a member.
pub open spec fn member_line(m: MemberView) -> Seq<char> {
    let head = "    "@ + (if m.allow_push {
        "rw"@
    } else {
        "ro"@
    }) + (if m.allow_lfs {
        " +lfs"@
    } else {
        ""@
    }) + "  "@;
    if m.nickname.len() == 0 {
        head + m.node_id
    } else {
        head + m.nickname + "  ("@ + m.node_id + ")"@
    }
}

/// The lines that `list` prints for some members.
pub open spec fn member_lines(members: Seq<MemberView>) -> Seq<Seq<char>> {
    members.map_values(|m: MemberView| member_line(m))
}

/// The lines that `list` prints for a repository.
pub open spec fn repo_lines(repo: RepoView) -> Seq<Seq<char>> {
    seq![
        repo.path + "  ["@ + repo.id + "]"@ + (if repo.lfs_enabled {
            "  (LFS on)"@
        } else {
            ""@
        }),
    ] + if repo.members.len() == 0 {
        seq!["    (no members)"@]
    } else {
        member_lines(repo.members)
    }
}

/// The lines that `list` prints for some repositories.
pub open spec fn all_repo_lines(repos: Seq<RepoView>) -> Seq<Seq<char>>
    decreases repos.len(),
{
    if repos.len() == 0 {
        Seq::empty()
    } else {
        all_repo_lines(repos.drop_last()) + repo_lines(repos.last())
    }
}

fn member_text(m: &Member) -> (r: String)
    ensures
        r@ == member_line(m@),
{
    let mode = if m.allow_push { "rw" } else { "ro" };
    let lfs = if m.allow_lfs { " +lfs" } else { "" };
    let head = "    ".to_owned().concat(mode).concat(lfs).concat("  ");
    if m.nickname.as_str().is_empty() {
        head.concat(m.node_id.as_str())
    } else {
        head.concat(m.nickname.as_str()).concat("  (").concat(m.node_id.as_str()).concat(")")
    }
}

fn push_repo_lines(out: &mut Vec<String>, repo: &RepoGrant)
    ensures
        texts(final(out)@) == texts(old(out)@) + repo_lines(repo@),
{
    let ghost before = texts(out@);
    let lfs = if repo.lfs_enabled { "  (LFS on)" } else { "" };
    out.push(repo.path.clone().concat("  [").concat(repo.id.as_str()).concat("]").concat(lfs));
    if repo.members.len() == 0 {
        out.push("    (no members)".to_owned());
        assert(texts(out@) =~= before + repo_lines(repo@));
        return;
    }
    let ghost head = texts(out@);
    assert(member_lines(repo@.members.take(0)) =~= Seq::<Seq<char>>::empty());
    let mut i: usize = 0;
    while i < repo.members.len()
        invariant
            i <= repo.members.len(),
            texts(out@) == head + member_lines(repo@.members.take(i as int)),
        decreases repo.members.len() - i,
    {
        let ghost was = texts(out@);
        out.push(member_text(&repo.members[i]));
        assert(texts(out@) =~= was.push(member_line(repo@.members[i as int])));
        i = i + 1;
        assert(texts(out@) =~= head + member_lines(repo@.members.take(i as int)));
    }
    assert(repo@.members.take(i as int) =~= repo@.members);
    assert(texts(out@) =~= before + repo_lines(repo@));
}

/// What `list` prints: the shared repositories and their authorized members.
pub fn list(grants: &Grants) -> (r: Vec<String>)
    ensures
        texts(r@) == if grants@.len() == 0 {
            seq!["no shared repositories"@]
        } else {
            all_repo_lines(grants@)
        },
{
    let mut r: Vec<String> = Vec::new();
    assert(grants@.len() == grants.repos@.len());
    if grants.repos.len() == 0 {
        r.push("no shared repositories".to_owned());
        assert(texts(r@) =~= seq!["no shared repositories"@]);
        return r;
    }
    assert(texts(r@) =~= all_repo_lines(grants@.take(0)));
    let mut i: usize = 0;
    while i < grants.repos.len()
        invariant
            i <= grants.repos.len(),
            grants@.len() == grants.repos@.len(),
            texts(r@) == all_repo_lines(grants@.take(i as int)),
        decreases grants.repos.len() - i,
    {
        push_repo_lines(&mut r, &grants.repos[i]);
        assert(grants@.take(i + 1).drop_last() =~= grants@.take(i as int));
        assert(grants@.take(i + 1).last() == grants.repos@[i as int]@);
        i = i + 1;
    }
    assert(grants@.take(i as int) =~= grants@);
    r
}

/// What `lfs-enable` prints on standard output, and the hint that follows on standard error where
/// the switch was turned.
pub fn lfs_enable_lines(repo: &str, outcome: LfsToggle) -> (r: Result<(String, Option<String>), Failure>)
    requires
        outcome != LfsToggle::Disabled,
    ensures
        match outcome {
            LfsToggle::Enabled => r matches Ok((out, Some(hint))) && out@ == "LFS enabled for "@ + repo@ && hint@
                == "grant members LFS access with `git iroh grant <node_id> --lfs [--write]`"@,
            LfsToggle::NotShared => r matches Err(Failure::NotSharedYet { repo: p }) && p@ == repo@,
            _ => r matches Ok((out, None)) && out@ == "LFS already enabled for "@ + repo@,
        },
{
    match outcome {
        LfsToggle::Enabled => Ok(
            (
                "LFS enabled for ".to_owned().concat(repo),
                Some("grant members LFS access with `git iroh grant <node_id> --lfs [--write]`".to_owned()),
            ),
        ),
        LfsToggle::NotShared => Err(Failure::NotSharedYet { repo: repo.to_owned() }),
        _ => Ok(("LFS already enabled for ".to_owned().concat(repo), None)),
    }
}

/// What `lfs-disable` prints.
pub fn lfs_disable_line(repo: &str, outcome: LfsToggle) -> (r: String)
    requires
        outcome != LfsToggle::Enabled,
    ensures
        r@ == match outcome {
            LfsToggle::Disabled => "LFS disabled for "@ + repo@,
            LfsToggle::NotShared => repo@ + " isn't shared; nothing to disable"@,
            _ => "LFS already disabled for "@ + repo@,
        },
{
    match outcome {
        LfsToggle::Disabled => "LFS disabled for ".to_owned().concat(repo),
        LfsToggle::NotShared => repo.to_owned().concat(" isn't shared; nothing to disable"),
        _ => "LFS already disabled for ".to_owned().concat(repo),
    }
}

/// The local git settings that point Git LFS at the transfer agent. One agent process, one
/// connection: several would each bind the client identity and collide on the relay.
pub fn setup_config(agent: &str) -> (r: Vec<(&'static str, String)>)
    ensures
        r@.len() == 3,
        r@[0].0@ == "lfs.standalonetransferagent"@ && r@[0].1@ == "iroh"@,
        r@[1].0@ == "lfs.customtransfer.iroh.path"@ && r@[1].1@ == agent@,
        r@[2].0@ == "lfs.customtransfer.iroh.concurrent"@ && r@[2].1@ == "false"@,
{
    let mut r: Vec<(&'static str, String)> = Vec::new();
    r.push(("lfs.standalonetransferagent", "iroh".to_owned()));
    r.push(("lfs.customtransfer.iroh.path", agent.to_owned()));
    r.push(("lfs.customtransfer.iroh.concurrent", "false".to_owned()));
    r
}

/// What `lfs-setup` prints.
pub fn setup_lines(agent: &str) -> (r: Vec<String>)
    ensures
        texts(r@) == seq![
            "configured Git LFS to transfer objects over iroh"@,
            "  agent: "@ + agent@,
            "`git lfs pull`/`push` will now ride your iroh remote."@,
        ],
{
    let mut r: Vec<String> = Vec::new();
    r.push("configured Git LFS to transfer objects over iroh".to_owned());
    r.push("  agent: ".to_owned().concat(agent));
    r.push("`git lfs pull`/`push` will now ride your iroh remote.".to_owned());
    assert(texts(r@) =~= seq![
        "configured Git LFS to transfer objects over iroh"@,
        "  agent: "@ + agent@,
        "`git lfs pull`/`push` will now ride your iroh remote."@,
    ]);
    r
}

/// What `guard-lfs-hook` prints, given the hook's path where there is a hook.
pub open spec fn guard_text(outcome: Outcome, hook: Option<Seq<char>>) -> Seq<Seq<char>> {
    match outcome {
        Outcome::Added => seq![
            "guarded "@ + hook->0,
            "iroh:// pushes now skip git-lfs unless `git iroh lfs-setup` has run here;"@,
            "every other remote is unchanged."@,
        ],
        Outcome::AlreadyGuarded => seq!["already guarded; nothing to do."@],
        Outcome::NothingToDo => match hook {
            Some(path) => seq!["left "@ + path + " alone: it doesn't run git-lfs."@],
            None => seq!["no pre-push hook here; nothing to guard."@],
        },
    }
}

/// What `guard-lfs-hook` prints. A guarded hook has a path.
pub fn guard_lines(outcome: Outcome, hook: Option<&str>) -> (r: Vec<String>)
    requires
        outcome == Outcome::Added ==> hook is Some,
    ensures
        texts(r@) == guard_text(
            outcome,
            match hook {
                Some(path) => Some(path@),
                None => None,
            },
        ),
{
    let mut r: Vec<String> = Vec::new();
    match outcome {
        Outcome::Added => {
            if let Some(path) = hook {
                r.push("guarded ".to_owned().concat(path));
            }
            r.push("iroh:// pushes now skip git-lfs unless `git iroh lfs-setup` has run here;".to_owned());
            r.push("every other remote is unchanged.".to_owned());
        },
        Outcome::AlreadyGuarded => {
            r.push("already guarded; nothing to do.".to_owned());
        },
        Outcome::NothingToDo => match hook {
            Some(path) => {
                r.push("left ".to_owned().concat(path).concat(" alone: it doesn't run git-lfs."));
            },
            None => {
                r.push("no pre-push hook here; nothing to guard.".to_owned());
            },
        },
    }
    assert(texts(r@) =~= guard_text(
        outcome,
        match hook {
            Some(path) => Some(path@),
            None => None,
        },
    ));
    r
}

/// The objects whose mark is `want`.
pub open spec fn marked(oids: Seq<Seq<char>>, marks: Seq<bool>, want: bool) -> Seq<Seq<char>>
    decreases oids.len(),
{
    if oids.len() == 0 {
        Seq::empty()
    } else {
        let before = marked(oids.drop_last(), marks.drop_last(), want);
        if marks.last() == want {
            before.push(oids.last())
        } else {
            before
        }
    }
}

/// Part the referenced objects into those that are present in the local store and those that are
/// missing from it. A pull fetches the missing ones; a push sends the present ones, since a clone
/// that has not fetched an object has nothing to send.
pub fn split_present(oids: &Vec<String>, present: &Vec<bool>) -> (r: (Vec<String>, Vec<String>))
    requires
        oids@.len() == present@.len(),
    ensures
        texts(r.0@) == marked(texts(oids@), present@, true),
        texts(r.1@) == marked(texts(oids@), present@, false),
{
    let mut here: Vec<String> = Vec::new();
    let mut missing: Vec<String> = Vec::new();
    let ghost all = texts(oids@);
    assert(texts(here@) =~= marked(all.take(0), present@.take(0), true));
    assert(texts(missing@) =~= marked(all.take(0), present@.take(0), false));
    let mut i: usize = 0;
    while i < oids.len()
        invariant
            i <= oids.len(),
            oids@.len() == present@.len(),
            all == texts(oids@),
            texts(here@) == marked(all.take(i as int), present@.take(i as int), true),
            texts(missing@) == marked(all.take(i as int), present@.take(i as int), false),
        decreases oids.len() - i,
    {
        let ghost (h, m) = (texts(here@), texts(missing@));
        assert(all.take(i + 1).drop_last() =~= all.take(i as int));
        assert(present@.take(i + 1).drop_last() =~= present@.take(i as int));
        if present[i] {
            here.push(oids[i].clone());
            assert(texts(here@) =~= h.push(all[i as int]));
        } else {
            missing.push(oids[i].clone());
            assert(texts(missing@) =~= m.push(all[i as int]));
        }
        i = i + 1;
    }
    assert(all.take(i as int) =~= all);
    assert(present@.take(i as int) =~= present@);
    (here, missing)
}

/// What `lfs-pull` prints before it fetches.
pub fn pull_start_line(missing: usize) -> (r: String)
    ensures
        r@ == if missing == 0 {
            "LFS: all referenced objects already present"@
        } else {
            "LFS: fetching "@ + decimal(missing as nat) + " object(s) over iroh..."@
        },
{
    if missing == 0 {
        "LFS: all referenced objects already present".to_owned()
    } else {
        "LFS: fetching ".to_owned().concat(decimal_text(missing as u64).as_str()).concat(
            " object(s) over iroh...",
        )
    }
}

/// The line that reports an object that could not be transferred.
pub fn failure_line(oid: &str, error: &str) -> (r: String)
    ensures
        r@ == "  failed "@ + oid@ + ": "@ + error@,
{
    "  failed ".to_owned().concat(oid).concat(": ").concat(error)
}

/// What `lfs-pull` prints after it has fetched, and whether it succeeded.
pub fn pull_end(fetched: usize, failed: usize) -> (r: (String, Result<(), Failure>))
    ensures
        r.0@ == "LFS: fetched "@ + decimal(fetched as nat) + " object(s)"@,
        r.1 == if failed == 0 {
            Ok(())
        } else {
            Err(Failure::DownloadsFailed { count: failed as u64 })
        },
{
    let line = "LFS: fetched ".to_owned().concat(decimal_text(fetched as u64).as_str()).concat(" object(s)");
    if failed == 0 {
        (line, Ok(()))
    } else {
        (line, Err(Failure::DownloadsFailed { count: failed as u64 }))
    }
}

/// What `lfs-push` prints before it sends: what it skips, and what it sends.
pub fn push_start_lines(present: usize, missing: usize) -> (r: Vec<String>)
    ensures
        texts(r@) == (if missing == 0 {
            Seq::empty()
        } else {
            seq![
                "LFS: skipping "@ + decimal(missing as nat)
                    + " referenced object(s) not present in the local store"@,
            ]
        }) + seq![
            if present == 0 {
                "LFS: no local objects to push"@
            } else {
                "LFS: pushing "@ + decimal(present as nat) + " object(s) over iroh..."@
            },
        ],
{
    let mut r: Vec<String> = Vec::new();
    if missing != 0 {
        r.push(
            "LFS: skipping ".to_owned().concat(decimal_text(missing as u64).as_str()).concat(
                " referenced object(s) not present in the local store",
            ),
        );
    }
    if present == 0 {
        r.push("LFS: no local objects to push".to_owned());
    } else {
        r.push(
            "LFS: pushing ".to_owned().concat(decimal_text(present as u64).as_str()).concat(
                " object(s) over iroh...",
            ),
        );
    }
    assert(texts(r@) =~= (if missing == 0 {
        Seq::empty()
    } else {
        seq![
            "LFS: skipping "@ + decimal(missing as nat)
                + " referenced object(s) not present in the local store"@,
        ]
    }) + seq![
        if present == 0 {
            "LFS: no local objects to push"@
        } else {
            "LFS: pushing "@ + decimal(present as nat) + " object(s) over iroh..."@
        },
    ]);
    r
}

/// How many of the outcomes are uploads.
pub open spec fn uploads(outcomes: Seq<UploadOutcome>) -> nat {
    outcomes.filter(|o: UploadOutcome| o == UploadOutcome::Uploaded).len()
}

/// What `lfs-push` prints after it has sent, and whether it succeeded.
pub fn push_end(outcomes: &Vec<UploadOutcome>, failed: usize) -> (r: (String, Result<(), Failure>))
    ensures
        r.0@ == "LFS: uploaded "@ + decimal(uploads(outcomes@)) + ", already present "@ + decimal(
            (outcomes@.len() - uploads(outcomes@)) as nat,
        ),
        uploads(outcomes@) <= outcomes@.len(),
        r.1 == if failed == 0 {
            Ok(())
        } else {
            Err(Failure::UploadsFailed { count: failed as u64 })
        },
{
    let ghost sent = |o: UploadOutcome| o == UploadOutcome::Uploaded;
    let mut uploaded: usize = 0;
    let mut i: usize = 0;
    assert(outcomes@.take(0).filter(sent) =~= Seq::<UploadOutcome>::empty());
    while i < outcomes.len()
        invariant
            i <= outcomes.len(),
            uploaded <= i,
            sent == (|o: UploadOutcome| o == UploadOutcome::Uploaded),
            uploaded == outcomes@.take(i as int).filter(sent).len(),
        decreases outcomes.len() - i,
    {
        proof {
            lemma_filter_step(outcomes@, sent, i as int);
        }
        if outcomes[i] == UploadOutcome::Uploaded {
            uploaded = uploaded + 1;
        }
        i = i + 1;
    }
    assert(outcomes@.take(i as int) =~= outcomes@);
    let skipped: usize = outcomes.len() - uploaded;
    let line = "LFS: uploaded ".to_owned().concat(decimal_text(uploaded as u64).as_str()).concat(
        ", already present ",
    ).concat(decimal_text(skipped as u64).as_str());
    if failed == 0 {
        (line, Ok(()))
    } else {
        (line, Err(Failure::UploadsFailed { count: failed as u64 }))
    }
}

/// The file name of the transfer agent, which ships next to this program.
pub fn agent_name(exe_suffix: &str) -> (r: String)
    ensures
        r@ == "git-lfs-iroh"@ + exe_suffix@,
{
    "git-lfs-iroh".to_owned().concat(exe_suffix)
}

/// Where neither key is selected `keygen` works on both, and otherwise on the selected ones; nothing is
/// overwritten but by force, and force takes a selection.
pub proof fn keygen_overwrites_only_what_is_selected_by_force(
    client: bool,
    server: bool,
    force: bool,
    there: bool,
    roles: Result<Vec<Role>, Failure>,
    action: KeygenAction,
)
    requires
        call_ensures(keygen_roles, (client, server, force), roles),
        call_ensures(keygen_action, (there, force), action),
    ensures
        roles is Err <==> force && !client && !server,
        roles matches Ok(v) ==> {
            &&& v@.no_duplicates()
            &&& v@.contains(Role::Client) <==> client || !server
            &&& v@.contains(Role::Server) <==> server || !client
        },
        action == KeygenAction::Regenerate <==> there && force,
        action == KeygenAction::Keep <==> there && !force,
        action == KeygenAction::Create <==> !there,
{
    if let Ok(v) = roles {
        if client == server {
            assert(v@[0] == Role::Client && v@[1] == Role::Server);
        } else {
            assert(v@.len() == 1);
            assert(v@[0] == if client { Role::Client } else { Role::Server });
        }
    }
}

/// Every object has the mark or has not: those that are wanted are among the marked exactly where their
/// mark is the wanted one, in their order, and none is lost.
pub proof fn marks_part_the_objects(oids: Seq<Seq<char>>, marks: Seq<bool>, want: bool, oid: Seq<char>, n: int)
    requires
        oids.len() == marks.len(),
        0 <= n <= oids.len(),
    ensures
        marked(oids, marks, want).contains(oid) <==> exists|i: int|
            0 <= i < oids.len() && #[trigger] oids[i] == oid && marks[i] == want,
        marked(oids, marks, true).len() + marked(oids, marks, false).len() == oids.len(),
        marked(oids, marks, want) == marked(oids.take(n), marks.take(n), want) + marked(
            oids.skip(n),
            marks.skip(n),
            want,
        ),
    decreases oids.len(),
{
    if oids.len() == 0 {
        assert(oids.take(n) =~= oids && marks.take(n) =~= marks);
        assert(oids.skip(n) =~= oids && marks.skip(n) =~= marks);
    } else {
        let (less, fewer) = (oids.drop_last(), marks.drop_last());
        let (before, now) = (marked(less, fewer, want), marked(oids, marks, want));
        let k = oids.len() - 1;
        marks_part_the_objects(less, fewer, want, oid, if n <= k { n } else { k });
        assert(marked(oids, marks, true).len() + marked(oids, marks, false).len() == oids.len()) by {
            assert(marks.last() == true || marks.last() == false);
        }
        if now.contains(oid) {
            let j = choose|j: int| 0 <= j < now.len() && now[j] == oid;
            if j < before.len() {
                assert(before[j] == oid);
                let i = choose|i: int| 0 <= i < less.len() && #[trigger] less[i] == oid && fewer[i] == want;
                assert(oids[i] == oid && marks[i] == want);
            } else {
                assert(oids[k] == oid && marks[k] == want);
            }
        }
        if exists|i: int| 0 <= i < oids.len() && #[trigger] oids[i] == oid && marks[i] == want {
            let i = choose|i: int| 0 <= i < oids.len() && #[trigger] oids[i] == oid && marks[i] == want;
            if i < k {
                assert(less[i] == oid && fewer[i] == want);
                let j = choose|j: int| 0 <= j < before.len() && before[j] == oid;
                assert(now[j] == oid);
            } else {
                assert(now[before.len() as int] == oid);
            }
        }
        if n <= k {
            assert(oids.take(n) =~= less.take(n) && marks.take(n) =~= fewer.take(n));
            let (rest, more) = (oids.skip(n), marks.skip(n));
            assert(rest.drop_last() =~= less.skip(n) && more.drop_last() =~= fewer.skip(n));
            assert(rest.last() == oids.last() && more.last() == marks.last());
            assert(now =~= marked(oids.take(n), marks.take(n), want) + marked(rest, more, want));
        } else {
            assert(oids.take(n) =~= oids && marks.take(n) =~= marks);
            assert(marked(oids.skip(n), marks.skip(n), want) =~= Seq::<Seq<char>>::empty());
            assert(now + Seq::<Seq<char>>::empty() =~= now);
        }
    }
}

/// A push sends every referenced object that is present and a pull fetches every one that is missing;
/// each object is one or the other.
pub proof fn no_referenced_object_is_passed_over(
    oids: &Vec<String>,
    present: &Vec<bool>,
    parts: (Vec<String>, Vec<String>),
    i: int,
)
    requires
        call_ensures(split_present, (oids, present), parts),
        oids@.len() == present@.len(),
        0 <= i < oids@.len(),
    ensures
        present@[i] ==> texts(parts.0@).contains(oids@[i]@),
        !present@[i] ==> texts(parts.1@).contains(oids@[i]@),
        parts.0@.len() + parts.1@.len() == oids@.len(),
{
    let all = texts(oids@);
    marks_part_the_objects(all, present@, true, all[i], 0);
    marks_part_the_objects(all, present@, false, all[i], 0);
    assert(all[i] == oids@[i]@);
    assert(texts(parts.0@).len() == parts.0@.len() && texts(parts.1@).len() == parts.1@.len());
}

/// The uploads are counted one by one.
pub proof fn uploads_are_counted_one_by_one(outcomes: Seq<UploadOutcome>, o: UploadOutcome)
    ensures
        uploads(Seq::empty()) == 0,
        uploads(outcomes.push(o)) == uploads(outcomes) + if o == UploadOutcome::Uploaded {
            1nat
        } else {
            0
        },
{
    reveal(Seq::filter);
    let sent = |o: UploadOutcome| o == UploadOutcome::Uploaded;
    assert(Seq::<UploadOutcome>::empty().filter(sent) =~= Seq::<UploadOutcome>::empty());
    assert(outcomes.push(o).drop_last() =~= outcomes);
}

/// A pull or a push has succeeded exactly if no object failed, and otherwise says how many did.
pub proof fn transfers_fail_with_their_objects(
    fetched: usize,
    failed: usize,
    outcomes: &Vec<UploadOutcome>,
    pull: (String, Result<(), Failure>),
    push: (String, Result<(), Failure>),
)
    requires
        call_ensures(pull_end, (fetched, failed), pull),
        call_ensures(push_end, (outcomes, failed), push),
    ensures
        pull.1 is Ok <==> failed == 0,
        push.1 is Ok <==> failed == 0,
        pull.1 matches Err(e) ==> e.text() == decimal(failed as nat) + " LFS object(s) failed to download"@,
        push.1 matches Err(e) ==> e.text() == decimal(failed as nat) + " LFS object(s) failed to upload"@,
        pull.0@ == "LFS: fetched "@ + decimal(fetched as nat) + " object(s)"@,
        push.0@ == "LFS: uploaded "@ + decimal(uploads(outcomes@)) + ", already present "@ + decimal(
            (outcomes@.len() - uploads(outcomes@)) as nat,
        ),
{
}

/// The three ways to say what `stop` is about exclude each other, and one is needed: then it is about
/// that.
pub proof fn stop_is_about_the_one_selector(
    share_id: Option<&str>,
    this: bool,
    all: bool,
    what: Result<StopWhat, Failure>,
)
    requires
        call_ensures(stop_selection, (share_id, this, all), what),
    ensures
        what == Ok::<StopWhat, Failure>(StopWhat::All) <==> all && !this && share_id is None,
        what == Ok::<StopWhat, Failure>(StopWhat::This) <==> this && !all && share_id is None,
        what matches Ok(StopWhat::Share(id)) ==> !this && !all && (share_id matches Some(text) && names_repo(
            text@,
            id@,
        )),
        (share_id matches Some(text) && !this && !all && exists|id: Seq<u8>| names_repo(text@, id)) ==> what is Ok,
        what == Err::<StopWhat, Failure>(Failure::NoSelector) <==> !this && !all && share_id is None,
        what == Err::<StopWhat, Failure>(Failure::ManySelectors) <==> (this && all) || (share_id is Some && (this
            || all)),
{
    if let Some(text) = share_id {
        if let Ok(StopWhat::Share(id)) = what {
            repo_id_is_what_the_text_names(text@, id@);
        }
        if exists|id: Seq<u8>| names_repo(text@, id) {
            let id = choose|id: Seq<u8>| names_repo(text@, id);
            repo_id_is_what_the_text_names(text@, id);
        }
    }
}

/// `revoke` takes everything unless one right is named, and then only that.
pub proof fn revoke_takes_what_is_named(write_only: bool, lfs_only: bool, what: Result<RevokeWhat, Failure>)
    requires
        call_ensures(revoke_selection, (write_only, lfs_only), what),
    ensures
        what is Err <==> write_only && lfs_only,
        what == Ok::<RevokeWhat, Failure>(RevokeWhat::Write) <==> write_only && !lfs_only,
        what == Ok::<RevokeWhat, Failure>(RevokeWhat::Lfs) <==> lfs_only && !write_only,
        what == Ok::<RevokeWhat, Failure>(RevokeWhat::Member) <==> !write_only && !lfs_only,
{
}

/// A member's line shows the access and the LFS right in their columns, and the node id, behind the
/// nickname where there is one.
pub proof fn a_members_line_shows_their_rights(m: MemberView)
    ensures
        member_line(m).take(4) == "    "@,
        m.allow_push <==> member_line(m).subrange(4, 6) == "rw"@,
        !m.allow_push <==> member_line(m).subrange(4, 6) == "ro"@,
        m.allow_lfs <==> member_line(m).subrange(6, 8) == " +"@,
        m.allow_lfs ==> member_line(m).subrange(6, 13) == " +lfs  "@,
        !m.allow_lfs ==> member_line(m).subrange(6, 8) == "  "@,
        member_line(m).len() == 8 + (if m.allow_lfs {
            5int
        } else {
            0
        }) + m.node_id.len() + (if m.nickname.len() > 0 {
            m.nickname.len() + 4
        } else {
            0
        }),
        m.nickname.len() == 0 ==> ends_with(member_line(m), "  "@ + m.node_id),
        m.nickname.len() > 0 ==> ends_with(member_line(m), "  "@ + m.nickname + "  ("@ + m.node_id + ")"@),
{
    reveal_strlit("    ");
    reveal_strlit("rw");
    reveal_strlit("ro");
    reveal_strlit(" +lfs");
    reveal_strlit("");
    reveal_strlit("  ");
    reveal_strlit(" +");
    reveal_strlit(" +lfs  ");
    reveal_strlit("  (");
    reveal_strlit(")");
    let line = member_line(m);
    assert(line.take(4) =~= "    "@);
    let mode = if m.allow_push { "rw"@ } else { "ro"@ };
    assert(line.subrange(4, 6) =~= mode);
    assert("rw"@[1] != "ro"@[1]);
    if m.allow_lfs {
        assert(line.subrange(6, 13) =~= " +lfs  "@);
        assert(line.subrange(6, 8) =~= " +"@);
    } else {
        assert(line.subrange(6, 8) =~= "  "@);
        assert("  "@[1] != " +"@[1]);
    }
    let tail = if m.nickname.len() == 0 {
        "  "@ + m.node_id
    } else {
        "  "@ + m.nickname + "  ("@ + m.node_id + ")"@
    };
    assert(line.skip(line.len() - tail.len()) =~= tail);
}

/// A list of repositories shows each in turn: a line with its path and its id, which tells whether its
/// LFS switch is on, and then a line for each of its members, or one that tells that it has none.
pub proof fn a_list_shows_each_repository_in_turn(a: Seq<RepoView>, repo: RepoView, i: int)
    ensures
        all_repo_lines(Seq::empty()).len() == 0,
        all_repo_lines(a.push(repo)) == all_repo_lines(a) + repo_lines(repo),
        repo_lines(repo)[0] == repo.path + "  ["@ + repo.id + "]"@ + if repo.lfs_enabled {
            "  (LFS on)"@
        } else {
            ""@
        },
        repo.members.len() == 0 ==> repo_lines(repo).len() == 2 && repo_lines(repo)[1] == "    (no members)"@,
        repo.members.len() > 0 ==> repo_lines(repo).len() == 1 + repo.members.len(),
        0 <= i < repo.members.len() ==> repo_lines(repo)[1 + i] == member_line(repo.members[i]),
{
    assert(a.push(repo).drop_last() =~= a);
}

/// A grant always says something, and never that nothing has changed where something has.
pub proof fn a_grant_never_denies_what_it_did(g: &Granted, lfs: bool, lines: Vec<String>)
    requires
        call_ensures(grant_lines, (g, lfs), lines),
        g.lfs_added ==> lfs,
    ensures
        lines@.len() > 0,
        g.outcome == GrantOutcome::Added ==> lines@[0]@ == "granted read-only access to "@ + g.repo_path@,
        g.outcome == GrantOutcome::AddedWrite ==> lines@[0]@ == "granted read-write access to "@ + g.repo_path@,
        g.outcome == GrantOutcome::UpgradedToWrite ==> lines@[0]@ == "upgraded "@ + g.node_id@
            + " to read-write - their existing remote is unchanged"@,
        g.outcome == GrantOutcome::Unchanged && !g.lfs_added ==> lines@[0]@ == g.node_id@
            + " already has access - their existing remote is unchanged"@,
        g.outcome == GrantOutcome::Unchanged && g.lfs_added ==> lines@[0]@ == "granted LFS access to "@ + g.node_id@,
        g.outcome != GrantOutcome::Unchanged && g.lfs_added ==> lines@[1]@ == "granted LFS access to "@ + g.node_id@,
        lfs && !g.lfs_added ==> lines@[1]@ == g.node_id@ + " already had LFS access"@,
        lfs && !g.lfs_enabled ==> lines@.last()@
            == "note: LFS isn't enabled on this repository yet - run `git iroh lfs-enable` so members can use it"@,
        !lfs ==> lines@.len() == 1,
        lfs && g.lfs_enabled ==> lines@.len() == if g.outcome == GrantOutcome::Unchanged && g.lfs_added {
            1int
        } else {
            2
        },
{
    let t = texts(lines@);
    assert(t.len() == lines@.len());
    assert(t[0] == lines@[0]@);
    if t.len() > 1 {
        assert(t[1] == lines@[1]@);
    }
    assert(t[t.len() - 1] == lines@[lines@.len() - 1]@);
}

/// Reports name what they are about: which node, which repository, how many.
pub proof fn reports_tell_success_from_failure(
    node: &str,
    revoked: Revoked,
    line: Result<String, Failure>,
    path: &str,
    this: bool,
    stopped: Result<String, Failure>,
    by_id: Result<String, Failure>,
    toggle: LfsToggle,
    enabled: Result<(String, Option<String>), Failure>,
)
    requires
        call_ensures(revoke_line, (node, revoked), line),
        call_ensures(stop_this_line, (path, this), stopped),
        call_ensures(stop_share_line, (path, this), by_id),
        call_ensures(lfs_enable_lines, (path, toggle), enabled),
    ensures
        line is Err <==> revoked == Revoked::NotAMember || revoked == Revoked::RepoNotShared,
        line matches Ok(m) ==> contains_text(m@, node@),
        stopped is Ok <==> this,
        by_id is Ok <==> this,
        stopped matches Ok(m) ==> m@ == "stopped sharing "@ + path@,
        by_id matches Ok(m) ==> m@ == "stopped sharing the repository with id "@ + path@,
        enabled is Err <==> toggle == LfsToggle::NotShared,
        enabled matches Ok((m, hint)) ==> (hint is Some <==> toggle == LfsToggle::Enabled),
        enabled matches Ok((m, hint)) ==> contains_text(m@, path@),
{
    if let Ok(m) = line {
        a_part_stands_between_two_others("revoked all access for "@, node@, Seq::empty(), m@);
        a_part_stands_between_two_others("revoked LFS access for "@, node@, Seq::empty(), m@);
        a_part_stands_between_two_others("revoked write access for "@, node@, " (still read-only)"@, m@);
        a_part_stands_between_two_others(Seq::empty(), node@, " already had read-only access"@, m@);
        a_part_stands_between_two_others(Seq::empty(), node@, " already had no LFS access"@, m@);
        let e = Seq::<char>::empty();
        assert("revoked all access for "@ + node@ + e =~= "revoked all access for "@ + node@);
        assert("revoked LFS access for "@ + node@ + e =~= "revoked LFS access for "@ + node@);
        assert(e + node@ + " already had read-only access"@ =~= node@ + " already had read-only access"@);
        assert(e + node@ + " already had no LFS access"@ =~= node@ + " already had no LFS access"@);
    }
    if let Ok((m, hint)) = enabled {
        a_part_stands_between_two_others("LFS enabled for "@, path@, Seq::empty(), m@);
        a_part_stands_between_two_others("LFS already enabled for "@, path@, Seq::empty(), m@);
        let e = Seq::<char>::empty();
        assert("LFS enabled for "@ + path@ + e =~= "LFS enabled for "@ + path@);
        assert("LFS already enabled for "@ + path@ + e =~= "LFS already enabled for "@ + path@);
    }
}

/// Numbers of repositories are said in words that fit them.
pub proof fn repositories_are_counted_in_words(n: nat)
    ensures
        n == 1 ==> repos_text(n) == "1 repository"@,
        n != 1 ==> repos_text(n) == decimal(n) + " repositories"@,
{
}

/// Git LFS is pointed at the agent as its only standalone transfer agent, under the name `iroh`, and told
/// not to run more than one at a time.
pub proof fn git_lfs_is_pointed_at_the_agent(agent: &str, settings: Vec<(&'static str, String)>, suffix: &str, name: String)
    requires
        call_ensures(setup_config, (agent,), settings),
        call_ensures(agent_name, (suffix,), name),
    ensures
        settings@.len() == 3,
        settings@[0].0@ == "lfs.standalonetransferagent"@ && settings@[0].1@ == "iroh"@,
        settings@[1].0@ == "lfs.customtransfer.iroh.path"@ && settings@[1].1@ == agent@,
        settings@[2].0@ == "lfs.customtransfer.iroh.concurrent"@ && settings@[2].1@ == "false"@,
        name@ == "git-lfs-iroh"@ + suffix@,
{
}

/// What is printed before a pull or a push tells exactly what there is to do: how much is missing or
/// present, and that there is nothing where there is nothing.
pub proof fn what_there_is_to_transfer_is_told(
    present: usize,
    missing: usize,
    pull: String,
    push: Vec<String>,
)
    requires
        call_ensures(pull_start_line, (missing,), pull),
        call_ensures(push_start_lines, (present, missing), push),
    ensures
        missing == 0 ==> pull@ == "LFS: all referenced objects already present"@ && push@.len() == 1,
        missing > 0 ==> pull@ == "LFS: fetching "@ + decimal(missing as nat) + " object(s) over iroh..."@,
        missing > 0 ==> push@.len() == 2 && push@[0]@ == "LFS: skipping "@ + decimal(missing as nat)
            + " referenced object(s) not present in the local store"@,
        present == 0 ==> push@.last()@ == "LFS: no local objects to push"@,
        present > 0 ==> push@.last()@ == "LFS: pushing "@ + decimal(present as nat) + " object(s) over iroh..."@,
{
    let t = texts(push@);
    assert(t.len() == push@.len());
    assert(t[0] == push@[0]@);
    assert(t[t.len() - 1] == push@[push@.len() - 1]@);
}

/// A revoke from every repository tells how many it changed, and that there was nothing to take where it
/// changed none; a stop of everything tells how many it stopped.
pub proof fn changes_everywhere_are_counted(
    node: &str,
    changed: usize,
    what: RevokeWhat,
    line: String,
    stopped: String,
)
    requires
        call_ensures(revoke_all_line, (node, changed, what), line),
        call_ensures(stop_all_line, (changed,), stopped),
    ensures
        changed > 0 ==> ends_with(line@, " in "@ + repos_text(changed as nat)),
        changed > 0 ==> ends_with(stopped@, repos_text(changed as nat)),
        changed == 0 ==> starts_with(line@, node@) && stopped@ == "no shared repositories"@,
        changed > 0 ==> contains_text(line@, node@),
        changed > 0 ==> starts_with(
            line@,
            match what {
                RevokeWhat::Write => "revoked write access for "@,
                RevokeWhat::Lfs => "revoked LFS access for "@,
                RevokeWhat::Member => "revoked all access for "@,
            },
        ),
{
    let count = repos_text(changed as nat);
    let lead = match what {
        RevokeWhat::Write => "revoked write access for "@,
        RevokeWhat::Lfs => "revoked LFS access for "@,
        RevokeWhat::Member => "revoked all access for "@,
    };
    if changed > 0 {
        let tail = " in "@ + count;
        assert(line@ =~= lead + node@ + tail);
        a_part_stands_between_two_others(lead, node@, tail, line@);
        assert(line@.skip(line@.len() - tail.len()) =~= tail);
        assert(line@.take(lead.len() as int) =~= lead);
        assert(stopped@.skip(stopped@.len() - count.len()) =~= count);
    } else {
        assert(line@.take(node@.len() as int) =~= node@);
    }
}

/// What is told of a hook names it where there is one, and tells the guarded from the one left alone.
pub proof fn the_hook_is_named(outcome: Outcome, hook: Option<&str>, lines: Vec<String>)
    requires
        call_ensures(guard_lines, (outcome, hook), lines),
        outcome == Outcome::Added ==> hook is Some,
    ensures
        outcome == Outcome::Added ==> lines@.len() == 3 && (hook matches Some(path) && lines@[0]@
            == "guarded "@ + path@),
        outcome == Outcome::AlreadyGuarded ==> lines@.len() == 1 && lines@[0]@ == "already guarded; nothing to do."@,
        outcome == Outcome::NothingToDo && hook is Some ==> lines@.len() == 1 && (hook matches Some(path) && lines@[0]@
            == "left "@ + path@ + " alone: it doesn't run git-lfs."@),
        outcome == Outcome::NothingToDo && hook is None ==> lines@.len() == 1 && lines@[0]@
            == "no pre-push hook here; nothing to guard."@,
{
    let t = texts(lines@);
    assert(t.len() == lines@.len());
    let shown = guard_text(
        outcome,
        match hook {
            Some(path) => Some(path@),
            None => None,
        },
    );
    assert(t == shown);
    assert(shown.len() >= 1);
    assert(t[0] == lines@[0]@);
}

/// The line of a key names its role and its node id, and tells whether it was kept, created or
/// overwritten.
pub proof fn a_keys_line_names_it(role: Role, action: KeygenAction, node: &str, line: String)
    requires
        call_ensures(keygen_line, (role, action, node), line),
    ensures
        line@ == (if role == Role::Client {
            "client"@
        } else {
            "server"@
        }) + (match action {
            KeygenAction::Keep => ": exists ("@,
            KeygenAction::Create => ": created ("@,
            KeygenAction::Regenerate => ": regenerated ("@,
        }) + node@ + (if action == KeygenAction::Keep {
            ") - use --force to regenerate"@
        } else {
            ")"@
        }),
{
}

} // verus!
