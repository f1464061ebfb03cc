//! The grants file: which node ids may access which repositories.
//!
//! Written only by `git iroh` (the porcelain), read and watched by the daemon. Authorization is a
//! per-repository allowlist of node ids - there is no secret here.

use crate::error::Failure;
use crate::paths::{join, joined, PathStyle};
use crate::sequences::{first_where, lemma_filter_step, lemma_first_where, lemma_first_where_bounds};
use crate::text::{
    decimal, decimal_digits_write_the_number, decimal_text, is_blank, is_white_space, option_view,
    trim, trimmed, trimming_leaves_the_rest, trimming_takes_white_space_off,
};
use crate::ticket::{repo_id_text, RepoId};
use vstd::prelude::*;

verus! {

/// The whole grants file.
#[derive(Debug, PartialEq, Eq)]
pub struct Grants {
    pub repos: Vec<RepoGrant>,
}

/// One shared repository and the members allowed to reach it.
#[derive(Debug, PartialEq, Eq)]
pub struct RepoGrant {
    /// Opaque repository id, minted on first share; appears in tickets.
    pub id: String,
    /// Absolute path to the repository on disk.
    pub path: String,
    /// Whether this repository serves and accepts Git LFS objects. Off by default.
    pub lfs_enabled: bool,
    pub members: Vec<Member>,
}

/// A node id authorized to reach a repository.
#[derive(Debug, PartialEq, Eq)]
pub struct Member {
    pub node_id: String,
    /// Optional human label so the owner can tell friends apart.
    pub nickname: String,
    pub allow_push: bool,
    /// Whether this member may transfer Git LFS objects: download requires this, upload requires
    /// this and `allow_push`.
    pub allow_lfs: bool,
}

/// What the grants file says of a member.
#[verifier::ext_equal]
pub struct MemberView {
    pub node_id: Seq<char>,
    pub nickname: Seq<char>,
    pub allow_push: bool,
    pub allow_lfs: bool,
}

/// What the grants file says of a repository.
#[verifier::ext_equal]
pub struct RepoView {
    pub id: Seq<char>,
    pub path: Seq<char>,
    pub lfs_enabled: bool,
    pub members: Seq<MemberView>,
}

impl View for Member {
    type V = MemberView;

    open spec fn view(&self) -> MemberView {
        MemberView {
            node_id: self.node_id@,
            nickname: self.nickname@,
            allow_push: self.allow_push,
            allow_lfs: self.allow_lfs,
        }
    }
}

impl View for RepoGrant {
    type V = RepoView;

    open spec fn view(&self) -> RepoView {
        RepoView {
            id: self.id@,
            path: self.path@,
            lfs_enabled: self.lfs_enabled,
            members: self.members@.map_values(|m: Member| m@),
        }
    }
}

impl View for Grants {
    type V = Seq<RepoView>;

    open spec fn view(&self) -> Seq<RepoView> {
        self.repos@.map_values(|r: RepoGrant| r@)
    }
}

/// The offset of the first member with this node id, or the number of members.
pub open spec fn member_at(members: Seq<MemberView>, node_id: Seq<char>) -> int {
    first_where(members, |m: MemberView| m.node_id == node_id)
}

/// The offset of the first repository with this path, or the number of repositories.
pub open spec fn repo_at(repos: Seq<RepoView>, path: Seq<char>) -> int {
    first_where(repos, |r: RepoView| r.path == path)
}

/// Whether the node id is on the member list.
pub open spec fn is_member(repo: RepoView, node_id: Seq<char>) -> bool {
    member_at(repo.members, node_id) < repo.members.len()
}

/// The first member with this node id.
pub open spec fn member_of(repo: RepoView, node_id: Seq<char>) -> MemberView {
    repo.members[member_at(repo.members, node_id)]
}

/// The repository with its first member of this node id replaced.
pub open spec fn with_member(repo: RepoView, node_id: Seq<char>, m: MemberView) -> RepoView {
    RepoView { members: repo.members.update(member_at(repo.members, node_id), m), ..repo }
}

/// The repository after granting: rights are only ever added, and only a non-empty nickname
/// replaces the one that stands.
pub open spec fn after_grant(repo: RepoView, node_id: Seq<char>, write: bool, lfs: bool, nickname: Seq<char>) -> RepoView {
    if is_member(repo, node_id) {
        let m = member_of(repo, node_id);
        with_member(
            repo,
            node_id,
            MemberView {
                node_id: m.node_id,
                nickname: if nickname.len() > 0 { nickname } else { m.nickname },
                allow_push: m.allow_push || write,
                allow_lfs: m.allow_lfs || lfs,
            },
        )
    } else {
        RepoView {
            members: repo.members.push(MemberView { node_id, nickname, allow_push: write, allow_lfs: lfs }),
            ..repo
        }
    }
}

/// What a grant reports: the change in read and write access.
pub open spec fn grant_outcome(repo: RepoView, node_id: Seq<char>, write: bool) -> GrantOutcome {
    if !is_member(repo, node_id) {
        if write {
            GrantOutcome::AddedWrite
        } else {
            GrantOutcome::Added
        }
    } else if write && !member_of(repo, node_id).allow_push {
        GrantOutcome::UpgradedToWrite
    } else {
        GrantOutcome::Unchanged
    }
}

/// The repository without any member of this node id.
pub open spec fn after_revoke_member(repo: RepoView, node_id: Seq<char>) -> RepoView {
    RepoView { members: repo.members.filter(|m: MemberView| m.node_id != node_id), ..repo }
}

/// The repository with the member's write access taken away.
pub open spec fn after_revoke_write(repo: RepoView, node_id: Seq<char>) -> RepoView {
    if is_member(repo, node_id) {
        with_member(repo, node_id, MemberView { allow_push: false, ..member_of(repo, node_id) })
    } else {
        repo
    }
}

/// The repository with the member's LFS access taken away.
pub open spec fn after_revoke_lfs(repo: RepoView, node_id: Seq<char>) -> RepoView {
    if is_member(repo, node_id) {
        with_member(repo, node_id, MemberView { allow_lfs: false, ..member_of(repo, node_id) })
    } else {
        repo
    }
}

/// Result of [`RepoGrant::grant_member`]. Grant is additive - it never lowers an existing member's
/// access.
#[derive(Clone, Copy, Debug, PartialEq, Eq, Structural)]
pub enum GrantOutcome {
    /// New member, read-only.
    Added,
    /// New member, read-write.
    AddedWrite,
    /// Existing read-only member raised to read-write.
    UpgradedToWrite,
    /// Member already had the requested access; nothing changed.
    Unchanged,
}

/// Result of [`RepoGrant::revoke_member`].
#[derive(Clone, Copy, Debug, PartialEq, Eq, Structural)]
pub enum RevokeOutcome {
    Removed,
    NotAMember,
}

/// Result of [`RepoGrant::revoke_write`].
#[derive(Clone, Copy, Debug, PartialEq, Eq, Structural)]
pub enum RevokeWriteOutcome {
    Downgraded,
    AlreadyReadOnly,
    NotAMember,
}

/// Result of [`RepoGrant::revoke_lfs`].
#[derive(Clone, Copy, Debug, PartialEq, Eq, Structural)]
pub enum RevokeLfsOutcome {
    Revoked,
    AlreadyNoLfs,
    NotAMember,
}

impl RepoGrant {
    /// The offset of the first member with this node id, or the number of members.
    pub(crate) fn find_member(&self, node_id: &str) -> (r: usize)
        ensures
            r == member_at(self@.members, node_id@),
            r <= self.members@.len(),
            r < self.members@.len() <==> is_member(self@, node_id@),
    {
        let ghost p = |m: MemberView| m.node_id == node_id@;
        let mut k: usize = 0;
        while k < self.members.len() && !self.members[k].node_id.as_str().eq(node_id)
            invariant
                k <= self.members.len(),
                p == (|m: MemberView| m.node_id == node_id@),
                forall|i: int| 0 <= i < k ==> !p(#[trigger] self@.members[i]),
            decreases self.members.len() - k,
        {
            k = k + 1;
        }
        proof {
            lemma_first_where(self@.members, p, k as int);
        }
        k
    }

    /// Grant access to `node_id`. Additive: a read-only grant on an existing member leaves write
    /// access intact; `write` and `lfs` only ever raise access, never lower it. A non-empty
    /// `nickname` updates the member's label. The outcome reflects the change in read and write
    /// access; a change of the LFS right is applied beside it.
    pub fn grant_member(&mut self, node_id: &str, write: bool, lfs: bool, nickname: &str) -> (r: GrantOutcome)
        ensures
            final(self)@ == after_grant(old(self)@, node_id@, write, lfs, nickname@),
            r == grant_outcome(old(self)@, node_id@, write),
    {
        let k = self.find_member(node_id);
        if k < self.members.len() {
            let upgraded = write && !self.members[k].allow_push;
            if !nickname.is_empty() {
                self.members[k].nickname = nickname.to_owned();
            }
            if lfs {
                self.members[k].allow_lfs = true;
            }
            if upgraded {
                self.members[k].allow_push = true;
            }
            assert(self@.members =~= after_grant(old(self)@, node_id@, write, lfs, nickname@).members);
            if upgraded { GrantOutcome::UpgradedToWrite } else { GrantOutcome::Unchanged }
        } else {
            self.members.push(
                Member {
                    node_id: node_id.to_owned(),
                    nickname: nickname.to_owned(),
                    allow_push: write,
                    allow_lfs: lfs,
                },
            );
            assert(self@.members =~= after_grant(old(self)@, node_id@, write, lfs, nickname@).members);
            if write { GrantOutcome::AddedWrite } else { GrantOutcome::Added }
        }
    }

    /// Remove `node_id` from the member list entirely.
    pub fn revoke_member(&mut self, node_id: &str) -> (r: RevokeOutcome)
        ensures
            final(self)@ == after_revoke_member(old(self)@, node_id@),
            r == if is_member(old(self)@, node_id@) {
                RevokeOutcome::Removed
            } else {
                RevokeOutcome::NotAMember
            },
    {
        let ghost before = self@;
        let ghost keep = |m: MemberView| m.node_id != node_id@;
        let ghost is_it = |m: MemberView| m.node_id == node_id@;
        let mut k: usize = 0;
        let mut removed: bool = false;
        let ghost mut seen: int = 0;
        assert(before.members.take(0).filter(keep) =~= Seq::<MemberView>::empty());
        assert(self@.members =~= before.members.take(0).filter(keep) + before.members.skip(0));
        while k < self.members.len()
            invariant
                0 <= seen <= before.members.len(),
                keep == (|m: MemberView| m.node_id != node_id@),
                is_it == (|m: MemberView| m.node_id == node_id@),
                k == before.members.take(seen).filter(keep).len(),
                self@.members == before.members.take(seen).filter(keep) + before.members.skip(seen),
                self@ == (RepoView { members: self@.members, ..before }),
                removed <==> exists|j: int| 0 <= j < seen && is_it(#[trigger] before.members[j]),
            decreases before.members.len() - seen,
        {
            let ghost kept = before.members.take(seen).filter(keep);
            assert(self@.members[k as int] == before.members[seen]);
            proof {
                lemma_filter_step(before.members, keep, seen);
            }
            if self.members[k].node_id.as_str().eq(node_id) {
                let ghost old_members = self@.members;
                self.members.remove(k);
                removed = true;
                assert(self@.members =~= old_members.remove(k as int));
                assert(self@.members =~= kept + before.members.skip(seen + 1));
                assert(is_it(before.members[seen]));
            } else {
                k = k + 1;
                assert(self@.members =~= kept.push(before.members[seen]) + before.members.skip(seen + 1));
            }
            proof {
                seen = seen + 1;
            }
        }
        proof {
            assert(seen == before.members.len());
            assert(before.members.take(seen) =~= before.members);
            assert(self@.members =~= before.members.filter(keep));
            lemma_first_where_bounds(before.members, is_it);
        }
        if removed { RevokeOutcome::Removed } else { RevokeOutcome::NotAMember }
    }

    /// Revoke only write access from `node_id`, keeping read access.
    pub fn revoke_write(&mut self, node_id: &str) -> (r: RevokeWriteOutcome)
        ensures
            final(self)@ == after_revoke_write(old(self)@, node_id@),
            r == if !is_member(old(self)@, node_id@) {
                RevokeWriteOutcome::NotAMember
            } else if member_of(old(self)@, node_id@).allow_push {
                RevokeWriteOutcome::Downgraded
            } else {
                RevokeWriteOutcome::AlreadyReadOnly
            },
    {
        let k = self.find_member(node_id);
        if k == self.members.len() {
            return RevokeWriteOutcome::NotAMember;
        }
        let had = self.members[k].allow_push;
        if had {
            self.members[k].allow_push = false;
        }
        assert(self@.members =~= after_revoke_write(old(self)@, node_id@).members);
        if had { RevokeWriteOutcome::Downgraded } else { RevokeWriteOutcome::AlreadyReadOnly }
    }

    /// Revoke only LFS access from `node_id`, keeping clone and push access.
    pub fn revoke_lfs(&mut self, node_id: &str) -> (r: RevokeLfsOutcome)
        ensures
            final(self)@ == after_revoke_lfs(old(self)@, node_id@),
            r == if !is_member(old(self)@, node_id@) {
                RevokeLfsOutcome::NotAMember
            } else if member_of(old(self)@, node_id@).allow_lfs {
                RevokeLfsOutcome::Revoked
            } else {
                RevokeLfsOutcome::AlreadyNoLfs
            },
    {
        let k = self.find_member(node_id);
        if k == self.members.len() {
            return RevokeLfsOutcome::NotAMember;
        }
        let had = self.members[k].allow_lfs;
        if had {
            self.members[k].allow_lfs = false;
        }
        assert(self@.members =~= after_revoke_lfs(old(self)@, node_id@).members);
        if had { RevokeLfsOutcome::Revoked } else { RevokeLfsOutcome::AlreadyNoLfs }
    }
}

/// A repository that has just been shared: a fresh id, LFS off, no members.
pub open spec fn new_repo(id: Seq<u8>, path: Seq<char>) -> RepoView {
    RepoView { id: repo_id_text(id), path, lfs_enabled: false, members: Seq::empty() }
}

impl Default for Grants {
    /// The grants of an owner who shares nothing.
    fn default() -> (r: Grants)
        ensures
            r@ == Seq::<RepoView>::empty(),
    {
        let r = Grants { repos: Vec::new() };
        assert(r@ =~= Seq::<RepoView>::empty());
        r
    }
}

impl Grants {
    /// The offset of the first repository with this path, or the number of repositories.
    pub(crate) fn find_repo(&self, path: &str) -> (r: usize)
        ensures
            r == repo_at(self@, path@),
            r <= self.repos@.len(),
    {
        let ghost p = |r: RepoView| r.path == path@;
        let mut k: usize = 0;
        while k < self.repos.len() && !self.repos[k].path.as_str().eq(path)
            invariant
                k <= self.repos.len(),
                p == (|r: RepoView| r.path == path@),
                forall|i: int| 0 <= i < k ==> !p(#[trigger] self@[i]),
            decreases self.repos.len() - k,
        {
            k = k + 1;
        }
        proof {
            lemma_first_where(self@, p, k as int);
        }
        k
    }

    /// Share the repository at `path` under the id `id`, with no members yet.
    pub fn insert_repo(&mut self, id: &RepoId, path: &str)
        ensures
            final(self)@ == old(self)@.push(new_repo(id@, path@)),
    {
        let repo = RepoGrant {
            id: id.to_text(),
            path: path.to_owned(),
            lfs_enabled: false,
            members: Vec::new(),
        };
        assert(repo@ =~= new_repo(id@, path@));
        self.repos.push(repo);
        assert(self@ =~= old(self)@.push(new_repo(id@, path@)));
    }

    /// Find the repository entry for `path`, creating one with a fresh id if absent.
    pub fn find_or_create_repo(&mut self, path: &str) -> (r: Result<&mut RepoGrant, Failure>)
        ensures
            match r {
                Ok(repo) => {
                    let at = repo_at(old(self)@, path@);
                    if at < old(self)@.len() {
                        &&& (*repo)@ == old(self)@[at]
                        &&& final(self)@ == old(self)@.update(at, (*final(repo))@)
                    } else {
                        &&& exists|id: Seq<u8>| id.len() == 16 && (*repo)@ == #[trigger] new_repo(id, path@)
                        &&& final(self)@ == old(self)@.push((*final(repo))@)
                    }
                },
                Err(e) => {
                    &&& repo_at(old(self)@, path@) == old(self)@.len()
                    &&& e is NoRandomRepoId
                    &&& final(self)@ == old(self)@
                },
            },
    {
        let k = self.find_repo(path);
        if k == self.repos.len() {
            let id = match RepoId::random() {
                Ok(id) => id,
                Err(e) => {
                    return Err(e);
                },
            };
            self.insert_repo(&id, path);
            assert(self@[k as int] == new_repo(id@, path@));
            assert(forall|x: RepoView| #[trigger] self@.update(k as int, x) =~= old(self)@.push(x));
        }
        assert(self@.len() == self.repos@.len());
        assert(self.repos@[k as int]@ == self@[k as int]);
        assert(forall|x: RepoGrant|
            (#[trigger] self.repos@.update(k as int, x)).map_values(|r: RepoGrant| r@)
                =~= self@.update(k as int, x@));
        let repo = &mut self.repos[k];
        Ok(repo)
    }
}

/// Path to the grants file in the configuration directory.
pub fn grants_path(style: PathStyle, config_dir: &str) -> (r: String)
    ensures
        r@ == joined(style, config_dir@, "grants.toml"@),
{
    proof {
        reveal_strlit("grants.toml");
    }
    join(style, config_dir, "grants.toml")
}

/// The name of the file in which grants are staged before they replace `file_name`. The process id
/// keeps concurrent invocations from colliding.
pub fn staging_name(file_name: &str, pid: u32) -> (r: String)
    ensures
        r@ == file_name@ + "."@ + decimal(pid as nat) + ".tmp"@,
{
    file_name.to_owned().concat(".").concat(decimal_text(pid as u64).as_str()).concat(".tmp")
}

/// Where the running daemon records its current relay, so that a grant made offline can embed a relay
/// hint in tickets.
pub fn relay_hint_path(style: PathStyle, config_dir: &str) -> (r: String)
    ensures
        r@ == joined(style, config_dir@, "daemon-relay.txt"@),
{
    proof {
        reveal_strlit("daemon-relay.txt");
    }
    join(style, config_dir, "daemon-relay.txt")
}

/// What the relay hint file holds for a relay.
pub open spec fn hint_text(relay: Option<Seq<char>>) -> Seq<char> {
    match relay {
        Some(url) => url,
        None => Seq::empty(),
    }
}

/// The relay that the contents of the relay hint file name: what stands there without white space
/// around it, if that is anything.
pub open spec fn hinted(contents: Seq<char>) -> Option<Seq<char>> {
    if trim(contents).len() == 0 {
        None
    } else {
        Some(trim(contents))
    }
}

/// What the relay hint file holds for a relay (nothing clears it).
pub fn write_relay_hint(relay: Option<&str>) -> (r: String)
    ensures
        r@ == hint_text(
            match relay {
                Some(url) => Some(url@),
                None => None,
            },
        ),
{
    match relay {
        Some(url) => url.to_owned(),
        None => String::new(),
    }
}

/// The daemon's last-known relay, if any, from the contents of the relay hint file, if they could be
/// read.
pub fn read_relay_hint(contents: Option<&str>) -> (r: Option<String>)
    ensures
        option_view(r) == match contents {
            None => None,
            Some(text) => hinted(text@),
        },
{
    match contents {
        None => None,
        Some(text) => {
            let url = trimmed(text);
            if url.is_empty() {
                None
            } else {
                Some(url.to_owned())
            }
        },
    }
}

/// The relay that the daemon has recorded is the one that is read back, and clearing it is too. (A
/// url has no white space around it.)
pub proof fn relay_hint_roundtrip(relay: Option<Seq<char>>)
    requires
        relay matches Some(url) ==> url.len() > 0 && trim(url) == url,
    ensures
        hinted(hint_text(relay)) == relay,
{
}

/// No two repositories have the same path.
pub open spec fn distinct_paths(repos: Seq<RepoView>) -> bool {
    forall|i: int, j: int| 0 <= i < j < repos.len() ==> #[trigger] repos[i].path != #[trigger] repos[j].path
}

/// Sharing a repository that is not shared yet keeps the paths apart, and finds it afterwards: a path
/// has at most one entry.
pub proof fn sharing_keeps_paths_distinct(repos: Seq<RepoView>, id: Seq<u8>, path: Seq<char>)
    requires
        distinct_paths(repos),
        repo_at(repos, path) == repos.len(),
    ensures
        distinct_paths(repos.push(new_repo(id, path))),
        repo_at(repos.push(new_repo(id, path)), path) == repos.len(),
{
    let p = |r: RepoView| r.path == path;
    lemma_first_where_bounds(repos, p);
    let after = repos.push(new_repo(id, path));
    assert forall|i: int| 0 <= i < repos.len() implies !p(#[trigger] after[i]) by {
        assert(after[i] == repos[i]);
    }
    assert(p(after[repos.len() as int]));
    lemma_first_where(after, p, repos.len() as int);
    assert forall|i: int, j: int| 0 <= i < j < after.len() implies #[trigger] after[i].path != #[trigger] after[j].path by {
        if j == repos.len() {
            assert(!p(after[i]));
        } else {
            assert(after[i] == repos[i] && after[j] == repos[j]);
        }
    }
}

/// The relay is what stands in the hint file, without the white space around it, and there is none
/// exactly if nothing else stands there.
pub proof fn the_hint_is_what_stands_in_the_file(before: Seq<char>, url: Seq<char>, after: Seq<char>, contents: Seq<char>)
    requires
        is_blank(before),
        is_blank(after),
        url.len() > 0,
        !is_white_space(url[0]),
        !is_white_space(url.last()),
    ensures
        hinted(before + url + after) == Some(url),
        hinted(contents) is None <==> is_blank(contents),
        hint_text(Some(url)) == url,
        hint_text(None).len() == 0,
{
    trimming_takes_white_space_off(before, url, after);
    trimming_leaves_the_rest(contents);
}

/// The files of the configuration lie in its directory under their names, and grants are staged under a
/// name of their own for each process.
pub proof fn configuration_files_lie_in_their_directory(
    dir: &str,
    grants: String,
    relay: String,
    name: &str,
    a: u32,
    b: u32,
    first: String,
    second: String,
)
    requires
        call_ensures(grants_path, (PathStyle::Unix, dir), grants),
        call_ensures(relay_hint_path, (PathStyle::Unix, dir), relay),
        call_ensures(staging_name, (name, a), first),
        call_ensures(staging_name, (name, b), second),
        dir@.len() > 0,
        dir@.last() != '/',
    ensures
        grants@ == dir@ + "/grants.toml"@,
        relay@ == dir@ + "/daemon-relay.txt"@,
        first@ == second@ ==> a == b,
        first@ != name@,
{
    reveal_strlit("/");
    reveal_strlit("grants.toml");
    reveal_strlit("/grants.toml");
    reveal_strlit("daemon-relay.txt");
    reveal_strlit("/daemon-relay.txt");
    reveal_strlit(".");
    reveal_strlit(".tmp");
    assert(dir@ + "/"@ + "grants.toml"@ =~= dir@ + "/grants.toml"@);
    assert(dir@ + "/"@ + "daemon-relay.txt"@ =~= dir@ + "/daemon-relay.txt"@);
    decimal_digits_write_the_number(a as nat);
    decimal_digits_write_the_number(b as nat);
    if first@ == second@ {
        let (x, y) = (decimal(a as nat), decimal(b as nat));
        let n = name@.len() as int + 1;
        assert(first@.len() == name@.len() + 1 + x.len() + 4);
        assert(second@.len() == name@.len() + 1 + y.len() + 4);
        assert(first@.subrange(n, n + x.len()) =~= x);
        assert(second@.subrange(n, n + y.len()) =~= y);
    }
}

/// What the revoking methods report is whether they changed the entry of the node: a member was removed
/// exactly if the list is another, and write or LFS access was revoked exactly if the entry had it.
pub proof fn revoking_methods_report_what_they_did(
    a: &mut RepoGrant,
    b: &mut RepoGrant,
    c: &mut RepoGrant,
    node: &str,
    removed: RevokeOutcome,
    write: RevokeWriteOutcome,
    lfs: RevokeLfsOutcome,
)
    requires
        call_ensures(RepoGrant::revoke_member, (a, node), removed),
        call_ensures(RepoGrant::revoke_write, (b, node), write),
        call_ensures(RepoGrant::revoke_lfs, (c, node), lfs),
    ensures
        removed == RevokeOutcome::Removed <==> exists|i: int|
            0 <= i < old(a)@.members.len() && (#[trigger] old(a)@.members[i]).node_id == node@,
        forall|i: int| 0 <= i < final(a)@.members.len() ==> (#[trigger] final(a)@.members[i]).node_id != node@,
        write == RevokeWriteOutcome::NotAMember <==> forall|i: int|
            0 <= i < old(b)@.members.len() ==> (#[trigger] old(b)@.members[i]).node_id != node@,
        write == RevokeWriteOutcome::Downgraded <==> final(b)@ != old(b)@,
        lfs == RevokeLfsOutcome::NotAMember <==> forall|i: int|
            0 <= i < old(c)@.members.len() ==> (#[trigger] old(c)@.members[i]).node_id != node@,
        lfs == RevokeLfsOutcome::Revoked <==> final(c)@ != old(c)@,
{
    broadcast use vstd::seq_lib::group_filter_ensures;

    let p = |m: MemberView| m.node_id == node@;
    let keep = |m: MemberView| m.node_id != node@;
    lemma_first_where_bounds(old(a)@.members, p);
    lemma_first_where_bounds(old(b)@.members, p);
    lemma_first_where_bounds(old(c)@.members, p);
    let (i, j, k) = (
        member_at(old(a)@.members, node@),
        member_at(old(b)@.members, node@),
        member_at(old(c)@.members, node@),
    );
    if i < old(a)@.members.len() {
        assert(p(old(a)@.members[i]));
    }
    assert forall|n: int| 0 <= n < old(a)@.members.len() && (#[trigger] old(a)@.members[n]).node_id == node@ implies i
        < old(a)@.members.len() by {
        assert(p(old(a)@.members[n]));
    }
    assert forall|n: int| 0 <= n < final(a)@.members.len() implies (#[trigger] final(a)@.members[n]).node_id != node@ by {
        assert(keep(old(a)@.members.filter(keep)[n]));
    }
    if j < old(b)@.members.len() {
        assert(p(old(b)@.members[j]));
        if old(b)@.members[j].allow_push {
            assert(!final(b)@.members[j].allow_push);
        } else {
            assert(final(b)@.members =~= old(b)@.members);
        }
    } else {
        assert forall|n: int| 0 <= n < old(b)@.members.len() implies (#[trigger] old(b)@.members[n]).node_id != node@ by {
            assert(!p(old(b)@.members[n]));
        }
    }
    if k < old(c)@.members.len() {
        assert(p(old(c)@.members[k]));
        if old(c)@.members[k].allow_lfs {
            assert(!final(c)@.members[k].allow_lfs);
        } else {
            assert(final(c)@.members =~= old(c)@.members);
        }
    } else {
        assert forall|n: int| 0 <= n < old(c)@.members.len() implies (#[trigger] old(c)@.members[n]).node_id != node@ by {
            assert(!p(old(c)@.members[n]));
        }
    }
}

/// An owner who has shared nothing has no repositories.
pub proof fn nothing_is_shared_at_first(grants: Grants)
    requires
        call_ensures(<Grants as Default>::default, (), grants),
    ensures
        grants@.len() == 0,
{
}

} // verus!
