//! Grant and revoke operations shared by the `git-iroh` command line and the tray.
//!
//! These edit the grants and (for a grant) mint the `iroh://` ticket. The daemon picks up changes by
//! watching the grants file.

use crate::config::{
    after_grant, after_revoke_lfs, after_revoke_member, after_revoke_write, grant_outcome,
    is_member, member_of, new_repo, repo_at, GrantOutcome, Grants, RepoGrant, RepoView,
    RevokeLfsOutcome, RevokeOutcome, RevokeWriteOutcome,
};
use crate::error::Failure;
use crate::node::{is_public_key, key_named, key_refusal, lemma_key_named, NodeId};
use crate::paths::{base_name, last_segment, without_end_slashes};
use crate::sequences::{first_where, lemma_filter_step, lemma_first_where_bounds};
use crate::text::{cut_suffix, hex_text, option_view, trim, trimmed, without_suffix};
use crate::ticket::{
    names_repo, refuses_repo_id, repo_id_is_what_the_text_names, repo_id_of, ticket_of,
    ticket_roundtrip, ticket_url, RepoId, Ticket, TicketView,
};
use crate::wire::ticket_record;
use vstd::prelude::*;

verus! {

/// A NODE_ID in the form in which grants store it: hexadecimal, whichever way it was written.
pub open spec fn canonical(node_id: Seq<char>) -> Option<Seq<char>> {
    match key_named(trim(node_id)) {
        Some(key) => Some(hex_text(key)),
        None => None,
    }
}

/// Parse and canonicalize a NODE_ID to its hexadecimal form, so that stored ids compare cleanly
/// regardless of which encoding was pasted.
pub fn canonical_node_id(node_id: &str) -> (r: Result<String, Failure>)
    ensures
        match r {
            Ok(t) => canonical(node_id@) == Some(t@),
            Err(e) => canonical(node_id@) is None && refuses_node(e, node_id@),
        },
{
    match NodeId::parse(trimmed(node_id)) {
        Ok(id) => {
            proof {
                lemma_key_named(trim(node_id@), id@);
            }
            Ok(id.to_text())
        },
        Err(cause) => Err(Failure::InvalidNodeId { node_id: node_id.to_owned(), cause }),
    }
}

/// The failure says that `node_id` is no NODE_ID, and why.
pub open spec fn refuses_node(e: Failure, node_id: Seq<char>) -> bool {
    e matches Failure::InvalidNodeId { node_id: n, cause } && n@ == node_id && cause@ == key_refusal(
        trim(node_id),
    )
}

/// The result of a [`grant`].
#[derive(Debug, PartialEq, Eq)]
pub struct Granted {
    pub outcome: GrantOutcome,
    pub node_id: String,
    pub repo_path: String,
    /// The id under which the repository is shared, for its ticket.
    pub repo_id: String,
    /// The member's resulting LFS right after this grant.
    pub allow_lfs: bool,
    /// Whether this grant newly turned on the member's LFS right (rather than it already being
    /// set), so the caller can word the message without contradicting the read/write outcome.
    pub lfs_added: bool,
    /// Whether the repository currently has LFS serving enabled (so the caller can warn when LFS
    /// was granted but the repository's LFS switch is still off).
    pub lfs_enabled: bool,
}

/// Whether the node has the LFS right on the repository.
pub open spec fn has_lfs(repo: RepoView, node: Seq<char>) -> bool {
    is_member(repo, node) && member_of(repo, node).allow_lfs
}

impl Granted {
    /// This is what a grant on `repo` reports.
    pub open spec fn reports(self, repo: RepoView, node: Seq<char>, write: bool, lfs: bool) -> bool {
        &&& self.outcome == grant_outcome(repo, node, write)
        &&& self.node_id@ == node
        &&& self.repo_path@ == repo.path
        &&& self.repo_id@ == repo.id
        &&& self.allow_lfs == (lfs || has_lfs(repo, node))
        &&& self.lfs_added == (lfs && !has_lfs(repo, node))
        &&& self.lfs_enabled == repo.lfs_enabled
    }
}

/// Grant the canonical `node` access to the shared repository `repo`.
pub fn grant_in(repo: &mut RepoGrant, node: &str, write: bool, lfs: bool, nickname: &str) -> (r: Granted)
    ensures
        final(repo)@ == after_grant(old(repo)@, node@, write, lfs, trim(nickname@)),
        r.reports(old(repo)@, node@, write, lfs),
{
    let k = repo.find_member(node);
    let had_lfs = k < repo.members.len() && repo.members[k].allow_lfs;
    let outcome = repo.grant_member(node, write, lfs, trimmed(nickname));
    Granted {
        outcome,
        node_id: node.to_owned(),
        repo_path: repo.path.clone(),
        repo_id: repo.id.clone(),
        allow_lfs: lfs || had_lfs,
        lfs_added: lfs && !had_lfs,
        lfs_enabled: repo.lfs_enabled,
    }
}

/// Grant `node_id` access to the repository at the resolved path `repo_path`, minting the repository
/// on first use. Additive: a read-only grant never lowers existing write access. `lfs` additionally
/// grants LFS transfer (download; upload also needs `write`). A non-empty `nickname` labels the
/// member.
pub fn grant(grants: &mut Grants, repo_path: &str, node_id: &str, write: bool, lfs: bool, nickname: &str) -> (r: Result<
    Granted,
    Failure,
>)
    ensures
        match canonical(node_id@) {
            None => {
                &&& r matches Err(e) && refuses_node(e, node_id@)
                &&& final(grants)@ == old(grants)@
            },
            Some(node) => {
                let at = repo_at(old(grants)@, repo_path@);
                match r {
                    Ok(g) => if at < old(grants)@.len() {
                        let repo = old(grants)@[at];
                        &&& final(grants)@ == old(grants)@.update(
                            at,
                            after_grant(repo, node, write, lfs, trim(nickname@)),
                        )
                        &&& g.reports(repo, node, write, lfs)
                    } else {
                        exists|id: Seq<u8>|
                            {
                                let repo = #[trigger] new_repo(id, repo_path@);
                                &&& id.len() == 16
                                &&& final(grants)@ == old(grants)@.push(
                                    after_grant(repo, node, write, lfs, trim(nickname@)),
                                )
                                &&& g.reports(repo, node, write, lfs)
                            }
                    },
                    Err(e) => {
                        &&& at == old(grants)@.len()
                        &&& e is NoRandomRepoId
                        &&& final(grants)@ == old(grants)@
                    },
                }
            },
        },
{
    let node = match canonical_node_id(node_id) {
        Ok(node) => node,
        Err(e) => {
            return Err(e);
        },
    };
    proof {
        lemma_first_where_bounds(grants@, |r: RepoView| r.path == repo_path@);
    }
    match grants.find_or_create_repo(repo_path) {
        Ok(repo) => Ok(grant_in(repo, node.as_str(), write, lfs, nickname)),
        Err(e) => Err(e),
    }
}

/// What a [`revoke_at`] did.
#[derive(Clone, Copy, Debug, PartialEq, Eq, Structural)]
pub enum Revoked {
    RemovedMember,
    DowngradedToReadOnly,
    AlreadyReadOnly,
    LfsRevoked,
    AlreadyNoLfs,
    NotAMember,
    RepoNotShared,
}

impl Revoked {
    /// Whether the grants have to be written back after this.
    pub fn saves(self) -> (r: bool)
        ensures
            r == (self != Revoked::NotAMember && self != Revoked::RepoNotShared),
    {
        !matches!(self, Revoked::NotAMember | Revoked::RepoNotShared)
    }
}

/// Which access a revoke should remove.
#[derive(Clone, Copy, Debug, PartialEq, Eq, Structural)]
pub enum RevokeWhat {
    /// Remove the member entirely.
    Member,
    /// Downgrade to read-only: keep clone access, drop push.
    Write,
    /// Drop only LFS access: keep clone/push.
    Lfs,
}

/// The repository after a revoke.
pub open spec fn after_revoke(repo: RepoView, node: Seq<char>, what: RevokeWhat) -> RepoView {
    match what {
        RevokeWhat::Member => after_revoke_member(repo, node),
        RevokeWhat::Write => after_revoke_write(repo, node),
        RevokeWhat::Lfs => after_revoke_lfs(repo, node),
    }
}

/// What a revoke on the repository reports.
pub open spec fn revoke_report(repo: RepoView, node: Seq<char>, what: RevokeWhat) -> Revoked {
    if !is_member(repo, node) {
        Revoked::NotAMember
    } else {
        match what {
            RevokeWhat::Member => Revoked::RemovedMember,
            RevokeWhat::Write => if member_of(repo, node).allow_push {
                Revoked::DowngradedToReadOnly
            } else {
                Revoked::AlreadyReadOnly
            },
            RevokeWhat::Lfs => if member_of(repo, node).allow_lfs {
                Revoked::LfsRevoked
            } else {
                Revoked::AlreadyNoLfs
            },
        }
    }
}

/// Whether a revoke takes anything away from the node on this repository.
pub open spec fn revoke_hits(repo: RepoView, node: Seq<char>, what: RevokeWhat) -> bool {
    let report = revoke_report(repo, node, what);
    report == Revoked::RemovedMember || report == Revoked::DowngradedToReadOnly || report
        == Revoked::LfsRevoked
}

/// Revoke access of the canonical `node` to one repository.
pub(crate) fn revoke_in(repo: &mut RepoGrant, node: &str, what: RevokeWhat) -> (r: Revoked)
    ensures
        final(repo)@ == after_revoke(old(repo)@, node@, what),
        r == revoke_report(old(repo)@, node@, what),
{
    match what {
        RevokeWhat::Write => match repo.revoke_write(node) {
            RevokeWriteOutcome::Downgraded => Revoked::DowngradedToReadOnly,
            RevokeWriteOutcome::AlreadyReadOnly => Revoked::AlreadyReadOnly,
            RevokeWriteOutcome::NotAMember => Revoked::NotAMember,
        },
        RevokeWhat::Lfs => match repo.revoke_lfs(node) {
            RevokeLfsOutcome::Revoked => Revoked::LfsRevoked,
            RevokeLfsOutcome::AlreadyNoLfs => Revoked::AlreadyNoLfs,
            RevokeLfsOutcome::NotAMember => Revoked::NotAMember,
        },
        RevokeWhat::Member => match repo.revoke_member(node) {
            RevokeOutcome::Removed => Revoked::RemovedMember,
            RevokeOutcome::NotAMember => Revoked::NotAMember,
        },
    }
}

/// Revoke access for `node_id` at an already-resolved repository path. `what` selects whether to
/// remove the member, downgrade write, or drop LFS only.
pub fn revoke_at(grants: &mut Grants, repo_path: &str, node_id: &str, what: RevokeWhat) -> (r: Result<Revoked, Failure>)
    ensures
        match canonical(node_id@) {
            None => {
                &&& r matches Err(e) && refuses_node(e, node_id@)
                &&& final(grants)@ == old(grants)@
            },
            Some(node) => {
                let at = repo_at(old(grants)@, repo_path@);
                if at < old(grants)@.len() {
                    let repo = old(grants)@[at];
                    &&& r == Ok::<Revoked, Failure>(revoke_report(repo, node, what))
                    &&& final(grants)@ == old(grants)@.update(at, after_revoke(repo, node, what))
                } else {
                    &&& r == Ok::<Revoked, Failure>(Revoked::RepoNotShared)
                    &&& final(grants)@ == old(grants)@
                }
            },
        },
{
    let node = match canonical_node_id(node_id) {
        Ok(node) => node,
        Err(e) => {
            return Err(e);
        },
    };
    let k = grants.find_repo(repo_path);
    assert(grants@.len() == grants.repos@.len());
    if k == grants.repos.len() {
        return Ok(Revoked::RepoNotShared);
    }
    assert(grants@[k as int] == grants.repos@[k as int]@);
    let report = revoke_in(&mut grants.repos[k], node.as_str(), what);
    assert(grants@ =~= old(grants)@.update(k as int, after_revoke(old(grants)@[k as int], node@, what)));
    Ok(report)
}

/// Revoke `node_id` from every shared repository per `what` (remove / downgrade write / drop LFS).
/// Returns the number of repositories actually changed.
pub fn revoke_everywhere(grants: &mut Grants, node_id: &str, what: RevokeWhat) -> (r: Result<usize, Failure>)
    ensures
        match canonical(node_id@) {
            None => {
                &&& r matches Err(e) && refuses_node(e, node_id@)
                &&& final(grants)@ == old(grants)@
            },
            Some(node) => {
                &&& r matches Ok(n) && n == old(grants)@.filter(|repo: RepoView| revoke_hits(repo, node, what)).len()
                &&& final(grants)@ == old(grants)@.map_values(|repo: RepoView| after_revoke(repo, node, what))
            },
        },
{
    let node = match canonical_node_id(node_id) {
        Ok(node) => node,
        Err(e) => {
            return Err(e);
        },
    };
    let ghost before = grants@;
    let ghost hit = |repo: RepoView| revoke_hits(repo, node@, what);
    let mut changed: usize = 0;
    let mut i: usize = 0;
    assert(before.take(0).filter(hit) =~= Seq::<RepoView>::empty());
    while i < grants.repos.len()
        invariant
            i <= grants.repos.len(),
            grants@.len() == before.len(),
            hit == (|repo: RepoView| revoke_hits(repo, node@, what)),
            changed == before.take(i as int).filter(hit).len(),
            changed <= i,
            forall|j: int| 0 <= j < i ==> #[trigger] grants@[j] == after_revoke(before[j], node@, what),
            forall|j: int| i <= j < before.len() ==> #[trigger] grants@[j] == before[j],
        decreases grants.repos.len() - i,
    {
        let ghost now = grants@;
        assert(now[i as int] == grants.repos@[i as int]@);
        let report = revoke_in(&mut grants.repos[i], node.as_str(), what);
        assert(grants@ =~= now.update(i as int, after_revoke(before[i as int], node@, what)));
        proof {
            lemma_filter_step(before, hit, i as int);
        }
        match report {
            Revoked::RemovedMember | Revoked::DowngradedToReadOnly | Revoked::LfsRevoked => {
                changed = changed + 1;
            },
            _ => {},
        }
        i = i + 1;
    }
    assert(before.take(i as int) =~= before);
    assert(grants@ =~= before.map_values(|repo: RepoView| after_revoke(repo, node@, what)));
    Ok(changed)
}

/// Result of [`set_repo_lfs`].
#[derive(Clone, Copy, Debug, PartialEq, Eq, Structural)]
pub enum LfsToggle {
    Enabled,
    Disabled,
    AlreadyInThatState,
    NotShared,
}

impl LfsToggle {
    /// Whether the grants have to be written back after this.
    pub fn saves(self) -> (r: bool)
        ensures
            r == (self == LfsToggle::Enabled || self == LfsToggle::Disabled),
    {
        matches!(self, LfsToggle::Enabled | LfsToggle::Disabled)
    }
}

/// Enable or disable Git LFS serving for the repository at the resolved path `repo_path`. The
/// repository must already be shared (by a grant): enabling LFS mints no member-less share, and
/// disabling one that isn't shared is a no-op.
pub fn set_repo_lfs(grants: &mut Grants, repo_path: &str, enabled: bool) -> (r: LfsToggle)
    ensures
        ({
            let at = repo_at(old(grants)@, repo_path@);
            if at == old(grants)@.len() {
                r == LfsToggle::NotShared && final(grants)@ == old(grants)@
            } else {
                let repo = old(grants)@[at];
                &&& r == if repo.lfs_enabled == enabled {
                    LfsToggle::AlreadyInThatState
                } else if enabled {
                    LfsToggle::Enabled
                } else {
                    LfsToggle::Disabled
                }
                &&& final(grants)@ == old(grants)@.update(at, RepoView { lfs_enabled: enabled, ..repo })
            }
        }),
{
    let k = grants.find_repo(repo_path);
    assert(grants@.len() == grants.repos@.len());
    if k == grants.repos.len() {
        return LfsToggle::NotShared;
    }
    assert(grants@[k as int] == grants.repos@[k as int]@);
    if grants.repos[k].lfs_enabled == enabled {
        assert(grants@ =~= old(grants)@.update(
            k as int,
            RepoView { lfs_enabled: enabled, ..old(grants)@[k as int] },
        ));
        return LfsToggle::AlreadyInThatState;
    }
    grants.repos[k].lfs_enabled = enabled;
    assert(grants@ =~= old(grants)@.update(
        k as int,
        RepoView { lfs_enabled: enabled, ..old(grants)@[k as int] },
    ));
    if enabled { LfsToggle::Enabled } else { LfsToggle::Disabled }
}

/// Stop sharing a repository entirely (removes the repository and all its members). Returns whether
/// a repository was actually removed.
pub fn unshare(grants: &mut Grants, repo_path: &str) -> (r: bool)
    ensures
        final(grants)@ == old(grants)@.filter(|repo: RepoView| repo.path != repo_path@),
        r == (repo_at(old(grants)@, repo_path@) < old(grants)@.len()),
{
    let ghost before = grants@;
    let ghost keep = |repo: RepoView| repo.path != repo_path@;
    let ghost is_it = |repo: RepoView| repo.path == repo_path@;
    let mut k: usize = 0;
    let mut removed: bool = false;
    let ghost mut seen: int = 0;
    assert(before.take(0).filter(keep) =~= Seq::<RepoView>::empty());
    assert(grants@ =~= before.take(0).filter(keep) + before.skip(0));
    while k < grants.repos.len()
        invariant
            0 <= seen <= before.len(),
            keep == (|repo: RepoView| repo.path != repo_path@),
            is_it == (|repo: RepoView| repo.path == repo_path@),
            k == before.take(seen).filter(keep).len(),
            grants@ == before.take(seen).filter(keep) + before.skip(seen),
            removed <==> exists|j: int| 0 <= j < seen && is_it(#[trigger] before[j]),
        decreases before.len() - seen,
    {
        let ghost kept = before.take(seen).filter(keep);
        assert(grants@[k as int] == before[seen]);
        proof {
            lemma_filter_step(before, keep, seen);
        }
        if grants.repos[k].path.as_str().eq(repo_path) {
            let ghost now = grants@;
            grants.repos.remove(k);
            removed = true;
            assert(grants@ =~= now.remove(k as int));
            assert(grants@ =~= kept + before.skip(seen + 1));
            assert(is_it(before[seen]));
        } else {
            k = k + 1;
            assert(grants@ =~= kept.push(before[seen]) + before.skip(seen + 1));
        }
        proof {
            seen = seen + 1;
        }
    }
    proof {
        assert(seen == before.len());
        assert(before.take(seen) =~= before);
        assert(grants@ =~= before.filter(keep));
        lemma_first_where_bounds(before, is_it);
    }
    removed
}

/// The offset of the first repository whose id is `id`, or the number of repositories.
pub open spec fn repo_with_id(repos: Seq<RepoView>, id: Seq<u8>) -> int {
    first_where(repos, |repo: RepoView| names_repo(repo.id, id))
}

/// Whether the repository's stored id is `id`.
pub(crate) fn repo_has_id(repo: &RepoGrant, id: &RepoId) -> (r: bool)
    ensures
        r == names_repo(repo@.id, id@),
{
    proof {
        repo_id_is_what_the_text_names(repo@.id, id@);
    }
    match RepoId::parse(repo.id.as_str()) {
        Ok(found) => found.same(id),
        Err(_) => false,
    }
}

/// Stop sharing the repository with the given share (repository) id, from anywhere. Returns whether
/// a repository was actually removed.
pub fn unshare_by_id(grants: &mut Grants, repo_id: RepoId) -> (r: bool)
    ensures
        final(grants)@ == old(grants)@.filter(|repo: RepoView| !names_repo(repo.id, repo_id@)),
        r == (repo_with_id(old(grants)@, repo_id@) < old(grants)@.len()),
{
    let ghost before = grants@;
    let ghost keep = |repo: RepoView| !names_repo(repo.id, repo_id@);
    let ghost is_it = |repo: RepoView| names_repo(repo.id, repo_id@);
    let mut k: usize = 0;
    let mut removed: bool = false;
    let ghost mut seen: int = 0;
    assert(before.take(0).filter(keep) =~= Seq::<RepoView>::empty());
    assert(grants@ =~= before.take(0).filter(keep) + before.skip(0));
    while k < grants.repos.len()
        invariant
            0 <= seen <= before.len(),
            keep == (|repo: RepoView| !names_repo(repo.id, repo_id@)),
            is_it == (|repo: RepoView| names_repo(repo.id, repo_id@)),
            k == before.take(seen).filter(keep).len(),
            grants@ == before.take(seen).filter(keep) + before.skip(seen),
            removed <==> exists|j: int| 0 <= j < seen && is_it(#[trigger] before[j]),
        decreases before.len() - seen,
    {
        let ghost kept = before.take(seen).filter(keep);
        assert(grants@[k as int] == before[seen]);
        proof {
            lemma_filter_step(before, keep, seen);
        }
        if repo_has_id(&grants.repos[k], &repo_id) {
            let ghost now = grants@;
            grants.repos.remove(k);
            removed = true;
            assert(grants@ =~= now.remove(k as int));
            assert(grants@ =~= kept + before.skip(seen + 1));
            assert(is_it(before[seen]));
        } else {
            k = k + 1;
            assert(grants@ =~= kept.push(before[seen]) + before.skip(seen + 1));
        }
        proof {
            seen = seen + 1;
        }
    }
    proof {
        assert(seen == before.len());
        assert(before.take(seen) =~= before);
        assert(grants@ =~= before.filter(keep));
        lemma_first_where_bounds(before, is_it);
    }
    removed
}

/// Stop sharing every repository. Returns how many repositories were removed.
pub fn unshare_all(grants: &mut Grants) -> (r: usize)
    ensures
        final(grants)@ == Seq::<RepoView>::empty(),
        r == old(grants)@.len(),
{
    let n = grants.repos.len();
    grants.repos.clear();
    assert(grants@ =~= Seq::<RepoView>::empty());
    n
}

/// A character that the name in a ticket may hold.
pub open spec fn is_name_char(c: char) -> bool {
    ||| 'a' <= c <= 'z'
    ||| 'A' <= c <= 'Z'
    ||| '0' <= c <= '9'
    ||| c == '-'
    ||| c == '_'
    ||| c == '.'
}

/// `s` with a `-` for every character that a name may not hold.
pub open spec fn sanitized(s: Seq<char>) -> Seq<char> {
    s.map_values(|c: char| if is_name_char(c) { c } else { '-' })
}

/// The name that a repository at `repo_path` gets in its ticket: its directory's name without
/// `.git`, or `repo` where nothing is left.
pub open spec fn repo_name_of(repo_path: Seq<char>) -> Seq<char> {
    let base = without_suffix(last_segment(without_end_slashes(repo_path)), ".git"@);
    if base.len() == 0 {
        "repo"@
    } else {
        sanitized(base)
    }
}

/// The repository's directory name, sanitized for use as a URL path segment. A trailing `.git` (the
/// bare-repository convention) is stripped so that `foo.git` clones into `foo`, not `foo.git`.
pub fn repo_name(repo_path: &str) -> (r: String)
    ensures
        r@ == repo_name_of(repo_path@),
{
    let base = cut_suffix(base_name(repo_path), ".git");
    if base.is_empty() {
        return "repo".to_owned();
    }
    let mut r = String::new();
    for c in it: base.chars()
        invariant
            r@ == sanitized(it.seq().take(it.index() as int)),
            it.seq() == base@,
    {
        let plain = ('a' <= c && c <= 'z') || ('A' <= c && c <= 'Z') || ('0' <= c && c <= '9') || c == '-'
            || c == '_' || c == '.';
        r.push(if plain { c } else { '-' });
        assert(r@ =~= sanitized(it.seq().take(it.index() + 1)));
    }
    r
}

/// The ticket for a shared repository: the server's node id, its relay if it is known, the stored
/// repository id, and the directory's name.
pub fn build_ticket(repo_id: &str, repo_path: &str, server: &NodeId, relay_url: Option<String>) -> (r: Result<Ticket, Failure>)
    ensures
        match repo_id_of(repo_id@) {
            Some(id) => r matches Ok(t) && t@ == (TicketView {
                node_id: server@,
                relay_url: option_view(relay_url),
                repo_id: id,
                name: repo_name_of(repo_path@),
            }),
            None => r matches Err(e) && refuses_repo_id(e, repo_id@),
        },
{
    match RepoId::parse(repo_id) {
        Ok(id) => Ok(Ticket { node_id: *server, relay_url, repo_id: id, name: repo_name(repo_path) }),
        Err(e) => Err(e),
    }
}

/// Build the shareable ticket for an already-shared repository path.
pub fn ticket_for(grants: &Grants, repo_path: &str, server: &NodeId, relay_url: Option<String>) -> (r: Result<
    Option<Ticket>,
    Failure,
>)
    ensures
        ({
            let at = repo_at(grants@, repo_path@);
            if at == grants@.len() {
                r matches Ok(None)
            } else {
                match repo_id_of(grants@[at].id) {
                    Some(id) => r matches Ok(Some(t)) && t@ == (TicketView {
                        node_id: server@,
                        relay_url: option_view(relay_url),
                        repo_id: id,
                        name: repo_name_of(repo_path@),
                    }),
                    None => r matches Err(e) && refuses_repo_id(e, grants@[at].id),
                }
            }
        }),
{
    let k = grants.find_repo(repo_path);
    assert(grants@.len() == grants.repos@.len());
    if k == grants.repos.len() {
        return Ok(None);
    }
    assert(grants@[k as int] == grants.repos@[k as int]@);
    match build_ticket(grants.repos[k].id.as_str(), repo_path, server, relay_url) {
        Ok(t) => Ok(Some(t)),
        Err(e) => Err(e),
    }
}

/// A minted name is not empty and holds only characters that a name may hold, so that it is one
/// segment of a url.
pub proof fn minted_names_are_url_segments(repo_path: Seq<char>)
    ensures
        repo_name_of(repo_path).len() > 0,
        forall|i: int| 0 <= i < repo_name_of(repo_path).len() ==> is_name_char(#[trigger] repo_name_of(repo_path)[i]),
        !repo_name_of(repo_path).contains('/'),
{
    reveal_strlit("repo");
    let name = repo_name_of(repo_path);
    assert forall|i: int| 0 <= i < name.len() implies is_name_char(#[trigger] name[i]) by {}
    if name.contains('/') {
        let i = choose|i: int| 0 <= i < name.len() && name[i] == '/';
        assert(is_name_char(name[i]));
    }
}

/// Every ticket that is minted for a shared repository is read back from its url as it was minted:
/// whoever gets the url addresses that daemon and that repository.
pub proof fn minted_tickets_roundtrip(server: Seq<u8>, relay_url: Option<Seq<char>>, id: Seq<u8>, repo_path: Seq<char>)
    requires
        server.len() == 32,
        is_public_key(server),
        id.len() == 16,
        ticket_record(server, relay_url, id).len() <= usize::MAX / 512,
    ensures
        ({
            let t = TicketView { node_id: server, relay_url, repo_id: id, name: repo_name_of(repo_path) };
            ticket_of(ticket_url(t)) == Some(t)
        }),
{
    minted_names_are_url_segments(repo_path);
    ticket_roundtrip(
        TicketView { node_id: server, relay_url, repo_id: id, name: repo_name_of(repo_path) },
    );
}

} // verus!
