//! Git LFS objects over iroh.
//!
//! LFS keeps large blobs out of the git pack: a repository stores only small pointer files, while
//! the object bytes move over a separate transfer. This module holds what both ends of that transfer
//! decide: which object is meant, where it lies in a repository's store, and what each message of
//! the exchange leads to.

use crate::digest::{hex_encode, sha256};
use crate::error::Failure;
use crate::git::{answer, answer_of, GitOutput};
use crate::node::hex_text_is_injective;
use crate::paths::{is_plain_name, is_slash, join, joined, PathStyle};
use crate::protocol::{
    lfs_request_bytes, LfsOp, LfsRequest, LfsRequestView, LfsResponse, LfsResponseView, LFS_VERSION,
    MAX_FRAME,
};
use crate::random::draw;
use crate::text::{
    ascii_lower, byte_len, chars, cut_prefix, debug_text, decimal, decimal_text, first_word,
    first_word_of, from_utf8, from_utf8_lossy, has_prefix, hex_digit, hex_digit_value, hex_text,
    is_blank, is_white_space, lines, lossy_text, lowered, split_lines, starts_with, texts, to_lower,
    trim, trimmed, trimming_leaves_the_rest, trimming_takes_white_space_off, utf8_refusal,
};
use crate::ticket::{refuses_ticket, ticket_of, Ticket, SCHEME};
use crate::wire::{varint_is_short, varint_limit};
use vstd::prelude::*;
use vstd::utf8::{decode_utf8, is_ascii_chars_encode_utf8, valid_utf8};

verus! {

/// How many bytes to move per chunk when streaming object bodies.
pub const CHUNK: usize = 65536;

/// What an upload did.
#[derive(Clone, Copy, Debug, PartialEq, Eq, Structural)]
pub enum UploadOutcome {
    /// The object was streamed to and stored by the daemon.
    Uploaded,
    /// The daemon already had the object; nothing was sent.
    AlreadyHad,
}

/// A digit of an object id.
pub open spec fn is_oid_char(c: char) -> bool {
    '0' <= c <= '9' || 'a' <= c <= 'f'
}

/// An object id in its normal form: 64 lower-case hexadecimal digits.
pub open spec fn is_oid(s: Seq<char>) -> bool {
    s.len() == 64 && forall|i: int| 0 <= i < s.len() ==> is_oid_char(#[trigger] s[i])
}

/// The text before it is looked at as an object id: without `sha256:`, without white space around
/// it, in lower case.
pub open spec fn oid_candidate(text: Seq<char>) -> Seq<char> {
    let bare = if starts_with(text, "sha256:"@) {
        text.skip("sha256:"@.len() as int)
    } else {
        text
    };
    lowered(trim(bare))
}

/// The object id that a text stands for.
pub open spec fn oid_of(text: Seq<char>) -> Option<Seq<char>> {
    if is_oid(oid_candidate(text)) {
        Some(oid_candidate(text))
    } else {
        None
    }
}

/// Normalize an LFS oid to a bare lowercase 64-hex sha256, rejecting anything else. This also
/// defends the server against path traversal and junk oids.
pub fn normalize_oid(oid: &str) -> (r: Result<String, Failure>)
    ensures
        match oid_of(oid@) {
            Some(o) => r matches Ok(t) && t@ == o,
            None => r matches Err(Failure::NotAnOid { oid: bad }) && bad@ == oid@,
        },
{
    let bare = match cut_prefix(oid, "sha256:") {
        Some(rest) => rest,
        None => oid,
    };
    let s = to_lower(trimmed(bare));
    if is_oid_text(s.as_str()) {
        Ok(s)
    } else {
        Err(Failure::NotAnOid { oid: oid.to_owned() })
    }
}

fn is_oid_text(s: &str) -> (r: bool)
    ensures
        r == is_oid(s@),
{
    let v = chars(s);
    if v.len() != 64 {
        return false;
    }
    let mut i: usize = 0;
    while i < v.len()
        invariant
            i <= v.len(),
            v@ == s@,
            forall|j: int| 0 <= j < i ==> is_oid_char(#[trigger] s@[j]),
        decreases v.len() - i,
    {
        let c: char = v[i];
        if !(('0' <= c && c <= '9') || ('a' <= c && c <= 'f')) {
            assert(!is_oid_char(s@[i as int]));
            return false;
        }
        i = i + 1;
    }
    true
}

/// A normal object id is its own normal form, with or without `sha256:` before it.
pub proof fn normalizing_is_idempotent(oid: Seq<char>)
    requires
        is_oid(oid),
    ensures
        oid_of(oid) == Some(oid),
        oid_of("sha256:"@ + oid) == Some(oid),
{
    reveal_strlit("sha256:");
    assert(is_oid_char(oid[0]));
    assert(oid.take(7)[0] == oid[0]);
    assert(!starts_with(oid, "sha256:"@));
    assert(is_oid_char(oid[63]));
    assert(trim(oid) == oid);
    assert(lowered(oid) =~= oid) by {
        assert forall|i: int| 0 <= i < oid.len() implies #[trigger] lowered(oid)[i] == oid[i] by {
            assert(is_oid_char(oid[i]));
        }
    }
    let prefixed = "sha256:"@ + oid;
    assert(prefixed.take(7) =~= "sha256:"@);
    assert(prefixed.skip(7) =~= oid);
}

/// Every result of normalizing is a normal object id, and a plain name: it cannot lead a path
/// anywhere but to an entry of the directory that it is joined to.
pub proof fn normalized_oids_are_plain_names(text: Seq<char>)
    ensures
        oid_of(text) matches Some(oid) ==> {
            &&& is_oid(oid)
            &&& is_plain_name(oid)
            &&& is_plain_name(oid.take(2))
            &&& is_plain_name(oid.subrange(2, 4))
        },
{
    if let Some(oid) = oid_of(text) {
        lemma_oid_parts_are_plain(oid);
    }
}

proof fn lemma_oid_parts_are_plain(oid: Seq<char>)
    requires
        is_oid(oid),
    ensures
        is_plain_name(oid),
        is_plain_name(oid.take(2)),
        is_plain_name(oid.subrange(2, 4)),
{
    assert(forall|i: int| 0 <= i < oid.len() ==> is_oid_char(#[trigger] oid[i]));
    assert(is_oid_char(oid[0]) && is_oid_char(oid[1]) && is_oid_char(oid[2]) && is_oid_char(oid[3]));
}

/// What stands at `<repository>/.git`.
#[derive(Clone, Copy, Debug, PartialEq, Eq, Structural)]
pub enum DotGit {
    /// A file, as in linked worktrees and submodules.
    File,
    /// A directory, as in a normal work tree.
    Directory,
    /// Neither: the repository is bare.
    Absent,
}

/// The path at which to look whether a repository is a work tree.
pub fn dot_git_path(style: PathStyle, repo: &str) -> (r: String)
    ensures
        r@ == joined(style, repo@, ".git"@),
{
    proof {
        reveal_strlit(".git");
    }
    join(style, repo, ".git")
}

/// Resolve a repository path to its git directory without spawning git: `<repo>/.git` for a normal
/// work tree, and `<repo>` itself for a bare repository.
///
/// A `.git` *file* is deliberately rejected rather than followed: chasing a pointer that others may
/// influence could redirect the LFS store outside the shared repository.
pub fn git_dir(style: PathStyle, repo: &str, dot_git: DotGit) -> (r: Result<String, Failure>)
    ensures
        match dot_git {
            DotGit::File => r matches Err(Failure::LinkedWorktree { repo: p }) && p@ == repo@,
            DotGit::Directory => r matches Ok(d) && d@ == joined(style, repo@, ".git"@),
            DotGit::Absent => r matches Ok(d) && d@ == repo@,
        },
{
    match dot_git {
        DotGit::File => Err(Failure::LinkedWorktree { repo: repo.to_owned() }),
        DotGit::Directory => Ok(dot_git_path(style, repo)),
        DotGit::Absent => Ok(repo.to_owned()),
    }
}

/// The git directory of a repository that is not a linked worktree.
pub open spec fn git_dir_of(style: PathStyle, repo: Seq<char>, dot_git: DotGit) -> Seq<char> {
    if dot_git == DotGit::Directory {
        joined(style, repo, ".git"@)
    } else {
        repo
    }
}

/// The LFS object store for a repository: `<git-dir>/lfs/objects`.
pub fn object_store(style: PathStyle, repo: &str, dot_git: DotGit) -> (r: Result<String, Failure>)
    ensures
        dot_git == DotGit::File ==> (r matches Err(Failure::LinkedWorktree { repo: p }) && p@ == repo@),
        dot_git != DotGit::File ==> (r matches Ok(d) && d@ == joined(
            style,
            joined(style, git_dir_of(style, repo@, dot_git), "lfs"@),
            "objects"@,
        )),
{
    proof {
        reveal_strlit("lfs");
        reveal_strlit("objects");
    }
    match git_dir(style, repo, dot_git) {
        Ok(dir) => Ok(join(style, join(style, dir.as_str(), "lfs").as_str(), "objects")),
        Err(e) => Err(e),
    }
}

/// Where to stage downloads for the transfer agent: `<git-dir>/lfs/tmp` (on the same filesystem as
/// the object store), or nowhere in particular for a linked worktree.
pub fn stage_dir(style: PathStyle, repo: &str, dot_git: DotGit) -> (r: Option<String>)
    ensures
        dot_git == DotGit::File ==> r is None,
        dot_git != DotGit::File ==> (r matches Some(d) && d@ == joined(
            style,
            joined(style, git_dir_of(style, repo@, dot_git), "lfs"@),
            "tmp"@,
        )),
{
    proof {
        reveal_strlit("lfs");
        reveal_strlit("tmp");
    }
    match git_dir(style, repo, dot_git) {
        Ok(dir) => Some(join(style, join(style, dir.as_str(), "lfs").as_str(), "tmp")),
        Err(_) => None,
    }
}

/// Where an object lies in a store: `<store>/ab/cd/<oid>`.
pub open spec fn object_path_of(style: PathStyle, store: Seq<char>, oid: Seq<char>) -> Seq<char> {
    joined(style, joined(style, joined(style, store, oid.take(2)), oid.subrange(2, 4)), oid)
}

/// Path of object `oid` within `store`: `<store>/ab/cd/<oid>` (the LFS layout). `oid` must be
/// normalized (see [`normalize_oid`]).
pub fn object_path(style: PathStyle, store: &str, oid: &str) -> (r: String)
    requires
        is_oid(oid@),
    ensures
        r@ == object_path_of(style, store@, oid@),
{
    proof {
        lemma_oid_parts_are_plain(oid@);
    }
    let outer = oid.substring_char(0, 2);
    let inner = oid.substring_char(2, 4);
    assert(outer@ =~= oid@.take(2));
    let dir = join(style, join(style, store, outer).as_str(), inner);
    join(style, dir.as_str(), oid)
}

/// An object lies below the store, and different objects lie at different paths.
pub proof fn objects_lie_apart_in_the_store(style: PathStyle, store: Seq<char>, a: Seq<char>, b: Seq<char>)
    requires
        is_oid(a),
        is_oid(b),
    ensures
        starts_with(object_path_of(style, store, a), store),
        object_path_of(style, store, a) == object_path_of(style, store, b) ==> a == b,
{
    let pa = object_path_of(style, store, a);
    let pb = object_path_of(style, store, b);
    assert(pa.take(store.len() as int) =~= store);
    assert(pa.skip(pa.len() - 64) =~= a);
    assert(pb.skip(pb.len() - 64) =~= b);
}

/// The object ids that some lines begin with, each once, in the order in which they first come.
pub open spec fn oids_in(ls: Seq<Seq<char>>) -> Seq<Seq<char>>
    decreases ls.len(),
{
    if ls.len() == 0 {
        Seq::empty()
    } else {
        let before = oids_in(ls.drop_last());
        match first_word(ls.last()) {
            Some(word) => match oid_of(word) {
                Some(oid) => if before.contains(oid) {
                    before
                } else {
                    before.push(oid)
                },
                None => before,
            },
            None => before,
        }
    }
}

/// The object ids that are found are normal, and no two are the same.
pub proof fn referenced_oids_are_distinct(ls: Seq<Seq<char>>)
    ensures
        forall|i: int| 0 <= i < oids_in(ls).len() ==> is_oid(#[trigger] oids_in(ls)[i]),
        oids_in(ls).no_duplicates(),
    decreases ls.len(),
{
    if ls.len() > 0 {
        let before = oids_in(ls.drop_last());
        referenced_oids_are_distinct(ls.drop_last());
        let now = oids_in(ls);
        assert forall|i: int, j: int| 0 <= i < now.len() && 0 <= j < now.len() && i != j implies now[i]
            != now[j] by {
            if now.len() > before.len() {
                if i == before.len() {
                    assert(before.contains(before[j]));
                } else if j == before.len() {
                    assert(before.contains(before[i]));
                }
            }
        }
    }
}

fn has_string(v: &Vec<String>, s: &str) -> (r: bool)
    ensures
        r == texts(v@).contains(s@),
{
    let mut i: usize = 0;
    while i < v.len()
        invariant
            i <= v.len(),
            forall|j: int| 0 <= j < i ==> #[trigger] texts(v@)[j] != s@,
        decreases v.len() - i,
    {
        if v[i].as_str().eq(s) {
            assert(texts(v@)[i as int] == s@);
            return true;
        }
        i = i + 1;
    }
    false
}

/// Add the object id that a line begins with, unless it has none or the id is there.
fn note_line(oids: &mut Vec<String>, line: &str, Ghost(before): Ghost<Seq<Seq<char>>>)
    requires
        texts(old(oids)@) == oids_in(before),
    ensures
        texts(final(oids)@) == oids_in(before.push(line@)),
{
    assert(before.push(line@).drop_last() =~= before);
    match first_word_of(line) {
        Some(word) => match normalize_oid(word) {
            Ok(oid) => {
                if !has_string(oids, oid.as_str()) {
                    let ghost was = texts(oids@);
                    oids.push(oid);
                    assert(texts(oids@) =~= was.push(oid@));
                }
            },
            Err(_) => {},
        },
        None => {},
    }
}

/// The object ids in what `git lfs ls-files --long` prints.
pub fn oids_in_listing(text: &str) -> (r: Vec<String>)
    ensures
        texts(r@) == oids_in(lines(text@)),
{
    let mut oids: Vec<String> = Vec::new();
    let listed = split_lines(text);
    let mut i: usize = 0;
    assert(texts(listed@).take(0) =~= Seq::<Seq<char>>::empty());
    assert(texts(oids@) =~= Seq::<Seq<char>>::empty());
    while i < listed.len()
        invariant
            i <= listed.len(),
            texts(oids@) == oids_in(texts(listed@).take(i as int)),
        decreases listed.len() - i,
    {
        let ghost done = texts(listed@).take(i as int);
        assert(texts(listed@).take(i + 1) =~= done.push(listed@[i as int]@));
        note_line(&mut oids, listed[i].as_str(), Ghost(done));
        i = i + 1;
    }
    assert(texts(listed@).take(i as int) =~= texts(listed@));
    oids
}

/// The set of LFS object ids that git refers to, from the output of `git lfs ls-files --long` (each
/// line is the id, a mark and the path). Deduplicated.
pub fn referenced_oids(listing: GitOutput) -> (r: Result<Vec<String>, Failure>)
    ensures
        if !listing.success {
            r matches Err(Failure::LsFilesFailed { stderr }) && stderr@ == trim(lossy_text(listing.stderr@))
        } else if !valid_utf8(listing.stdout@) {
            r matches Err(Failure::LsFilesNotUtf8 { cause }) && cause@ == utf8_refusal(listing.stdout@)
        } else {
            r matches Ok(oids) && texts(oids@) == oids_in(lines(decode_utf8(listing.stdout@)))
        },
{
    if !listing.success {
        let said = from_utf8_lossy(listing.stderr.as_slice());
        return Err(Failure::LsFilesFailed { stderr: trimmed(said.as_str()).to_owned() });
    }
    match from_utf8(listing.stdout) {
        Ok(text) => Ok(oids_in_listing(text.as_str())),
        Err(cause) => Err(Failure::LsFilesNotUtf8 { cause }),
    }
}

/// The arguments with which git lists the LFS objects of some refs (the current HEAD if there are
/// none).
pub fn ls_files_args(refs: &Vec<String>) -> (r: Vec<String>)
    ensures
        texts(r@) == seq!["lfs"@, "ls-files"@, "--long"@] + texts(refs@),
{
    let mut args: Vec<String> = Vec::new();
    args.push("lfs".to_owned());
    args.push("ls-files".to_owned());
    args.push("--long".to_owned());
    let ghost head = texts(args@);
    assert(head =~= seq!["lfs"@, "ls-files"@, "--long"@]);
    assert(texts(refs@.take(0)) =~= Seq::<Seq<char>>::empty());
    let mut i: usize = 0;
    while i < refs.len()
        invariant
            i <= refs.len(),
            texts(args@) == head + texts(refs@.take(i as int)),
        decreases refs.len() - i,
    {
        let ghost was = texts(args@);
        args.push(refs[i].clone());
        assert(texts(args@) =~= was.push(refs@[i as int]@));
        i = i + 1;
        assert(texts(args@) =~= head + texts(refs@.take(i as int)));
    }
    assert(refs@.take(i as int) =~= refs@);
    args
}

/// What finding a remote's url takes next.
#[derive(Debug, PartialEq, Eq)]
pub enum RemoteStep {
    /// Ask `git config --get` for this key.
    Ask(String),
    /// The url.
    Url(String),
}

/// Resolve a git remote (a name like `origin`, or an `iroh://` url) to its url. Where git has not
/// been asked yet and must be, the step says for which key; a second call takes its answer.
pub fn resolve_remote_url(remote: &str, config: Option<GitOutput>) -> (r: Result<RemoteStep, Failure>)
    ensures
        if starts_with(remote@, SCHEME@) {
            r matches Ok(RemoteStep::Url(url)) && url@ == remote@
        } else {
            match config {
                None => r matches Ok(RemoteStep::Ask(key)) && key@ == "remote."@ + remote@ + ".url"@,
                Some(output) => if !output.success {
                    r matches Err(Failure::NoRemoteUrl { remote: name }) && name@ == remote@
                } else {
                    match answer(output) {
                        Some(said) => r matches Ok(RemoteStep::Url(url)) && url@ == said,
                        None => r matches Err(Failure::RemoteUrlNotUtf8 { cause }) && cause@ == utf8_refusal(
                            output.stdout@,
                        ),
                    }
                },
            }
        },
{
    if has_prefix(remote, SCHEME) {
        return Ok(RemoteStep::Url(remote.to_owned()));
    }
    match config {
        None => Ok(RemoteStep::Ask("remote.".to_owned().concat(remote).concat(".url"))),
        Some(output) => {
            if !output.success {
                return Err(Failure::NoRemoteUrl { remote: remote.to_owned() });
            }
            match answer_of(output) {
                Ok(url) => Ok(RemoteStep::Url(url)),
                Err(cause) => Err(Failure::RemoteUrlNotUtf8 { cause }),
            }
        },
    }
}

/// The failure says that the url of `remote` is no ticket, and why.
pub open spec fn refuses_remote(e: Failure, remote: Seq<char>, url: Seq<char>) -> bool {
    e matches Failure::NotIrohRemote { remote: r, url: u, cause } && r@ == remote && u@ == url && exists|
        why: Failure,
    |
        refuses_ticket(why, url) && cause@ == #[trigger] why.text()
}

/// The ticket in a remote's url.
pub fn remote_ticket(remote: &str, url: &str) -> (r: Result<Ticket, Failure>)
    ensures
        match ticket_of(url@) {
            Some(t) => r matches Ok(x) && x@ == t,
            None => r matches Err(e) && refuses_remote(e, remote@, url@),
        },
{
    match Ticket::parse(url) {
        Ok(t) => Ok(t),
        Err(e) => Err(
            Failure::NotIrohRemote { remote: remote.to_owned(), url: url.to_owned(), cause: e.message() },
        ),
    }
}

/// The name of the file in which an object is staged before it gets the name `file_name`. The random
/// suffix keeps concurrent transfers of the same object apart.
pub fn tmp_name(file_name: &str, random: &[u8; 8]) -> (r: String)
    ensures
        r@ == file_name@ + "."@ + hex_text(random@) + ".tmp"@,
{
    file_name.to_owned().concat(".").concat(hex_encode(random.as_slice()).as_str()).concat(".tmp")
}

/// Eight random bytes for [`tmp_name`], or zeros where the system gives none: a collision only risks
/// a retry.
pub fn random_suffix() -> [u8; 8] {
    suffix_of(draw::<8>())
}

/// The suffix of the random bytes that were drawn for it: these, or zeros where there are none.
pub fn suffix_of(drawn: Result<[u8; 8], String>) -> (r: [u8; 8])
    ensures
        match drawn {
            Ok(bytes) => r == bytes,
            Err(_) => r@ == Seq::new(8, |i: int| 0u8),
        },
{
    match drawn {
        Ok(bytes) => bytes,
        Err(_) => {
            let zeros = [0u8; 8];
            assert(zeros@ =~= Seq::new(8, |i: int| 0u8));
            zeros
        },
    }
}

/// Where the transfer agent stages the download of an object, for git-lfs to move.
pub fn staged_path(style: PathStyle, stage: &str, oid: &str) -> (r: Result<String, Failure>)
    ensures
        match oid_of(oid@) {
            Some(o) => r matches Ok(p) && p@ == joined(style, stage@, o),
            None => r matches Err(Failure::NotAnOid { oid: bad }) && bad@ == oid@,
        },
{
    match normalize_oid(oid) {
        Ok(o) => {
            proof {
                lemma_oid_parts_are_plain(o@);
            }
            Ok(join(style, stage, o.as_str()))
        },
        Err(e) => Err(e),
    }
}

/// The client side of a connection to a daemon for transferring LFS objects: which repository its
/// transfers address. Each transfer runs on a stream of its own.
#[derive(Clone, Copy, Debug, PartialEq, Eq)]
pub struct Session {
    repo_id: [u8; 16],
}

impl View for Session {
    type V = Seq<u8>;

    /// The repository's id.
    closed spec fn view(&self) -> Seq<u8> {
        self.repo_id@
    }
}

/// The request that opens the transfer of an object.
pub open spec fn transfer_request(repo_id: Seq<u8>, op: LfsOp, oid: Seq<char>, size: u64) -> LfsRequestView {
    LfsRequestView { version: LFS_VERSION, repo_id, op, oid, size: size as nat }
}

impl Session {
    /// The session for the repository that a ticket addresses.
    pub fn connect(ticket: &Ticket) -> (r: Session)
        ensures
            r@ == ticket@.repo_id,
    {
        Session { repo_id: *ticket.repo_id.as_bytes() }
    }

    /// The request that opens the transfer of one object.
    pub fn request(&self, op: LfsOp, oid: &str, size: u64) -> (r: LfsRequest)
        ensures
            r@ == transfer_request(self@, op, oid@, size),
    {
        LfsRequest { version: LFS_VERSION, repo_id: self.repo_id, op, oid: oid.to_owned(), size }
    }

    /// Begin to fetch an object: the request to send, which holds the normal form of its id. The
    /// answer goes to [`download_reply`], and the digest of the body to [`check_download`].
    pub fn download(&self, oid: &str) -> (r: Result<LfsRequest, Failure>)
        ensures
            match oid_of(oid@) {
                Some(o) => r matches Ok(q) && q@ == transfer_request(self@, LfsOp::Download, o, 0),
                None => r matches Err(Failure::NotAnOid { oid: bad }) && bad@ == oid@,
            },
    {
        match normalize_oid(oid) {
            Ok(o) => Ok(self.request(LfsOp::Download, o.as_str(), 0)),
            Err(e) => Err(e),
        }
    }

    /// Begin to send an object of `size` bytes: the request to send, which holds the normal form of
    /// its id. The first answer goes to [`upload_reply`], and the one after the body to
    /// [`upload_result`].
    pub fn upload(&self, oid: &str, size: u64) -> (r: Result<LfsRequest, Failure>)
        ensures
            match oid_of(oid@) {
                Some(o) => r matches Ok(q) && q@ == transfer_request(self@, LfsOp::Upload, o, size),
                None => r matches Err(Failure::NotAnOid { oid: bad }) && bad@ == oid@,
            },
    {
        match normalize_oid(oid) {
            Ok(o) => Ok(self.request(LfsOp::Upload, o.as_str(), size)),
            Err(e) => Err(e),
        }
    }
}

/// Every request that a session makes for a transfer fits a frame, and so arrives.
pub proof fn transfer_requests_fit_a_frame(repo_id: Seq<u8>, op: LfsOp, oid: Seq<char>, size: u64)
    requires
        repo_id.len() == 16,
        is_oid(oid),
    ensures
        lfs_request_bytes(transfer_request(repo_id, op, oid, size)).len() <= MAX_FRAME,
{
    reveal_with_fuel(varint_limit, 11);
    assert forall|i: int| 0 <= i < oid.len() implies '\0' <= #[trigger] oid[i] <= '\u{7f}' by {
        assert(is_oid_char(oid[i]));
    }
    is_ascii_chars_encode_utf8(oid);
    varint_is_short(op.tag(), 1);
    varint_is_short(byte_len(oid), 1);
    varint_is_short(size as nat, 10);
}

/// What the client makes of the daemon's answer to a download request: on success the object's bytes
/// follow.
pub fn download_reply(oid: &str, reply: LfsResponse) -> (r: Result<(), Failure>)
    ensures
        match reply {
            LfsResponse::Proceed => r is Ok,
            LfsResponse::Have => r == Err::<(), Failure>(Failure::UnexpectedHave),
            LfsResponse::Error(m) => r matches Err(Failure::DownloadRefused { oid: o, reason }) && o@ == oid@
                && reason@ == m@,
        },
{
    match reply {
        LfsResponse::Proceed => Ok(()),
        LfsResponse::Have => Err(Failure::UnexpectedHave),
        LfsResponse::Error(reason) => Err(Failure::DownloadRefused { oid: oid.to_owned(), reason }),
    }
}

/// Whether a downloaded body may take its place: its digest must be the object's id.
pub fn check_download(oid: &str, got: &str) -> (r: Result<(), Failure>)
    ensures
        if got@ == oid@ {
            r is Ok
        } else {
            r matches Err(Failure::VerificationFailed { oid: o, got: g }) && o@ == oid@ && g@ == got@
        },
{
    if got.eq(oid) {
        Ok(())
    } else {
        Err(Failure::VerificationFailed { oid: oid.to_owned(), got: got.to_owned() })
    }
}

/// What the client makes of the daemon's first answer to an upload request: `None` means that the
/// body is to be sent.
pub fn upload_reply(oid: &str, reply: LfsResponse) -> (r: Result<Option<UploadOutcome>, Failure>)
    ensures
        match reply {
            LfsResponse::Proceed => r == Ok::<Option<UploadOutcome>, Failure>(None),
            LfsResponse::Have => r == Ok::<Option<UploadOutcome>, Failure>(Some(UploadOutcome::AlreadyHad)),
            LfsResponse::Error(m) => r matches Err(Failure::UploadRefused { oid: o, reason }) && o@ == oid@
                && reason@ == m@,
        },
{
    match reply {
        LfsResponse::Have => Ok(Some(UploadOutcome::AlreadyHad)),
        LfsResponse::Proceed => Ok(None),
        LfsResponse::Error(reason) => Err(Failure::UploadRefused { oid: oid.to_owned(), reason }),
    }
}

/// What the client makes of the daemon's answer after the body of an upload.
pub fn upload_result(oid: &str, reply: LfsResponse) -> (r: Result<UploadOutcome, Failure>)
    ensures
        match reply {
            LfsResponse::Error(m) => r matches Err(Failure::UploadRejected { oid: o, reason }) && o@ == oid@
                && reason@ == m@,
            _ => r == Ok::<UploadOutcome, Failure>(UploadOutcome::Uploaded),
        },
{
    match reply {
        LfsResponse::Proceed | LfsResponse::Have => Ok(UploadOutcome::Uploaded),
        LfsResponse::Error(reason) => Err(Failure::UploadRejected { oid: oid.to_owned(), reason }),
    }
}

/// Where the daemon stands in serving an authorized request.
#[derive(Debug, PartialEq, Eq)]
pub enum ServeState {
    /// The request has been authorized.
    Start { op: LfsOp, oid: String, size: u64 },
    /// The repository's object store is being located.
    Locating { op: LfsOp, oid: String, size: u64 },
    /// The object of a download is being opened.
    Opening { oid: String },
    /// It is being found out whether the object of an upload is present at `path`.
    Looking { oid: String, size: u64, path: String },
    /// The body of an upload is arriving, for an object that belongs at `path`.
    Receiving { oid: String, size: u64, path: String },
    /// The last reply has been given.
    Ended,
}

/// What the daemon learns while it serves a request.
#[derive(Debug, PartialEq, Eq)]
pub enum ServeEvent {
    /// Nothing: begin.
    Begin,
    /// The object store is here.
    Located { store: String },
    /// The object could be opened, or not.
    Opened(bool),
    /// The object is present, or not.
    Present(bool),
    /// A body has arrived: its digest, its length, and whether the object has appeared in the
    /// meantime.
    Received { got: String, total: u64, present: bool },
}

/// What the daemon does next to serve a request. Every reply but one that is followed by a body ends
/// the stream.
#[derive(Debug, PartialEq, Eq)]
pub enum ServeAction {
    /// Locate the repository's object store.
    Locate,
    /// Open the file at this path for reading.
    Open(String),
    /// Find out whether there is a file at this path.
    Look(String),
    /// Send the reply.
    Reply(LfsResponse),
    /// Send the reply, and then the file that was opened.
    ReplyAndSend(LfsResponse),
    /// Send the reply, and then receive a body into a staging file.
    ReplyAndReceive(LfsResponse),
    /// Move the staging file to `path`, and then send the reply.
    Store { path: String, reply: LfsResponse },
    /// Remove the staging file, and send the reply.
    Discard(LfsResponse),
    /// There is nothing left to do.
    Nothing,
}

/// Where the daemon stands, over characters.
pub enum ServeStateView {
    Start { op: LfsOp, oid: Seq<char>, size: u64 },
    Locating { op: LfsOp, oid: Seq<char>, size: u64 },
    Opening { oid: Seq<char> },
    Looking { oid: Seq<char>, size: u64, path: Seq<char> },
    Receiving { oid: Seq<char>, size: u64, path: Seq<char> },
    Ended,
}

/// What the daemon learns, over characters.
pub enum ServeEventView {
    Begin,
    Located { store: Seq<char> },
    Opened(bool),
    Present(bool),
    Received { got: Seq<char>, total: u64, present: bool },
}

/// What the daemon does next, over characters.
pub enum ServeActionView {
    Locate,
    Open(Seq<char>),
    Look(Seq<char>),
    Reply(LfsResponseView),
    ReplyAndSend(LfsResponseView),
    ReplyAndReceive(LfsResponseView),
    Store { path: Seq<char>, reply: LfsResponseView },
    Discard(LfsResponseView),
    Nothing,
}

impl View for ServeState {
    type V = ServeStateView;

    open spec fn view(&self) -> ServeStateView {
        match self {
            ServeState::Start { op, oid, size } => ServeStateView::Start { op: *op, oid: oid@, size: *size },
            ServeState::Locating { op, oid, size } => ServeStateView::Locating { op: *op, oid: oid@, size: *size },
            ServeState::Opening { oid } => ServeStateView::Opening { oid: oid@ },
            ServeState::Looking { oid, size, path } => ServeStateView::Looking {
                oid: oid@,
                size: *size,
                path: path@,
            },
            ServeState::Receiving { oid, size, path } => ServeStateView::Receiving {
                oid: oid@,
                size: *size,
                path: path@,
            },
            ServeState::Ended => ServeStateView::Ended,
        }
    }
}

impl View for ServeEvent {
    type V = ServeEventView;

    open spec fn view(&self) -> ServeEventView {
        match self {
            ServeEvent::Begin => ServeEventView::Begin,
            ServeEvent::Located { store } => ServeEventView::Located { store: store@ },
            ServeEvent::Opened(b) => ServeEventView::Opened(*b),
            ServeEvent::Present(b) => ServeEventView::Present(*b),
            ServeEvent::Received { got, total, present } => ServeEventView::Received {
                got: got@,
                total: *total,
                present: *present,
            },
        }
    }
}

impl View for ServeAction {
    type V = ServeActionView;

    open spec fn view(&self) -> ServeActionView {
        match self {
            ServeAction::Locate => ServeActionView::Locate,
            ServeAction::Open(path) => ServeActionView::Open(path@),
            ServeAction::Look(path) => ServeActionView::Look(path@),
            ServeAction::Reply(reply) => ServeActionView::Reply(reply@),
            ServeAction::ReplyAndSend(reply) => ServeActionView::ReplyAndSend(reply@),
            ServeAction::ReplyAndReceive(reply) => ServeActionView::ReplyAndReceive(reply@),
            ServeAction::Store { path, reply } => ServeActionView::Store { path: path@, reply: reply@ },
            ServeAction::Discard(reply) => ServeActionView::Discard(reply@),
            ServeAction::Nothing => ServeActionView::Nothing,
        }
    }
}

/// How serving goes on. A download is answered with the object or its absence. An upload is answered
/// at once where the object is present; otherwise its body is wanted, and kept only if its digest is
/// the object's id and its length the announced one.
pub open spec fn serve_step(style: PathStyle, state: ServeStateView, event: ServeEventView) -> (
    ServeStateView,
    ServeActionView,
) {
    match (state, event) {
        (ServeStateView::Start { op, oid, size }, ServeEventView::Begin) => match oid_of(oid) {
            Some(o) => (ServeStateView::Locating { op, oid: o, size }, ServeActionView::Locate),
            None => (
                ServeStateView::Ended,
                ServeActionView::Reply(LfsResponseView::Error("not a sha256 lfs oid: "@ + debug_text(oid))),
            ),
        },
        (ServeStateView::Locating { op, oid, size }, ServeEventView::Located { store }) => {
            let path = object_path_of(style, store, oid);
            match op {
                LfsOp::Download => (ServeStateView::Opening { oid }, ServeActionView::Open(path)),
                LfsOp::Upload => (ServeStateView::Looking { oid, size, path }, ServeActionView::Look(path)),
            }
        },
        (ServeStateView::Opening { oid }, ServeEventView::Opened(opened)) => (
            ServeStateView::Ended,
            if opened {
                ServeActionView::ReplyAndSend(LfsResponseView::Proceed)
            } else {
                ServeActionView::Reply(LfsResponseView::Error("object "@ + oid + " not present"@))
            },
        ),
        (ServeStateView::Looking { oid, size, path }, ServeEventView::Present(present)) => if present {
            (ServeStateView::Ended, ServeActionView::Reply(LfsResponseView::Have))
        } else {
            (
                ServeStateView::Receiving { oid, size, path },
                ServeActionView::ReplyAndReceive(LfsResponseView::Proceed),
            )
        },
        (ServeStateView::Receiving { oid, size, path }, ServeEventView::Received { got, total, present }) => (
            ServeStateView::Ended,
            if got != oid || total != size {
                ServeActionView::Discard(
                    LfsResponseView::Error(
                        "verification failed (oid "@ + got + ", "@ + decimal(total as nat) + " bytes)"@,
                    ),
                )
            } else if present {
                ServeActionView::Discard(LfsResponseView::Proceed)
            } else {
                ServeActionView::Store { path, reply: LfsResponseView::Proceed }
            },
        ),
        _ => (ServeStateView::Ended, ServeActionView::Nothing),
    }
}

/// Server side of an LFS transfer, run by the daemon once it has authorized the request: from where it
/// stands and what it has learned, where it stands next and what it does.
pub fn serve(style: PathStyle, state: ServeState, event: ServeEvent) -> (r: (ServeState, ServeAction))
    requires
        state matches ServeState::Locating { op, oid, size } ==> is_oid(oid@),
    ensures
        r.0@ == serve_step(style, state@, event@).0,
        r.1@ == serve_step(style, state@, event@).1,
{
    match (state, event) {
        (ServeState::Start { op, oid, size }, ServeEvent::Begin) => match normalize_oid(oid.as_str()) {
            Ok(o) => (ServeState::Locating { op, oid: o, size }, ServeAction::Locate),
            Err(e) => (ServeState::Ended, ServeAction::Reply(LfsResponse::Error(e.message()))),
        },
        (ServeState::Locating { op, oid, size }, ServeEvent::Located { store }) => {
            let path = object_path(style, store.as_str(), oid.as_str());
            match op {
                LfsOp::Download => (ServeState::Opening { oid }, ServeAction::Open(path)),
                LfsOp::Upload => (
                    ServeState::Looking { oid, size, path: path.clone() },
                    ServeAction::Look(path),
                ),
            }
        },
        (ServeState::Opening { oid }, ServeEvent::Opened(opened)) => {
            if opened {
                (ServeState::Ended, ServeAction::ReplyAndSend(LfsResponse::Proceed))
            } else {
                let m = "object ".to_owned().concat(oid.as_str()).concat(" not present");
                (ServeState::Ended, ServeAction::Reply(LfsResponse::Error(m)))
            }
        },
        (ServeState::Looking { oid, size, path }, ServeEvent::Present(present)) => {
            if present {
                (ServeState::Ended, ServeAction::Reply(LfsResponse::Have))
            } else {
                (
                    ServeState::Receiving { oid, size, path },
                    ServeAction::ReplyAndReceive(LfsResponse::Proceed),
                )
            }
        },
        (ServeState::Receiving { oid, size, path }, ServeEvent::Received { got, total, present }) => {
            if !got.as_str().eq(oid.as_str()) || total != size {
                let m = "verification failed (oid ".to_owned().concat(got.as_str()).concat(", ").concat(
                    decimal_text(total).as_str(),
                ).concat(" bytes)");
                (ServeState::Ended, ServeAction::Discard(LfsResponse::Error(m)))
            } else if present {
                (ServeState::Ended, ServeAction::Discard(LfsResponse::Proceed))
            } else {
                (ServeState::Ended, ServeAction::Store { path, reply: LfsResponse::Proceed })
            }
        },
        _ => (ServeState::Ended, ServeAction::Nothing),
    }
}

/// What every state of serving keeps, for a store: the object's id is normal, and an object to
/// upload belongs at its own path in the store.
pub open spec fn serves_well(style: PathStyle, store: Seq<char>, state: ServeStateView) -> bool {
    match state {
        ServeStateView::Locating { op, oid, size } => is_oid(oid),
        ServeStateView::Looking { oid, size, path } => is_oid(oid) && path == object_path_of(style, store, oid),
        ServeStateView::Receiving { oid, size, path } => is_oid(oid) && path == object_path_of(style, store, oid),
        _ => true,
    }
}

/// Serving only ever stores a verified object, and only in its place: every step keeps what the
/// states promise, and a step that stores a body does so at the path of an object in the store whose
/// id is the body's digest and whose announced size is the body's length.
pub proof fn only_verified_objects_are_stored(style: PathStyle, store: Seq<char>, state: ServeStateView, event: ServeEventView)
    requires
        serves_well(style, store, state),
        event matches ServeEventView::Located { store: s } ==> s == store,
    ensures
        serves_well(style, store, serve_step(style, state, event).0),
        serve_step(style, state, event).1 matches ServeActionView::Store { path, reply } ==> {
            &&& event matches ServeEventView::Received { got, total, present } && !present && is_oid(got)
                && path == object_path_of(style, store, got)
                && (state matches ServeStateView::Receiving { oid, size, path: p } && size == total)
            &&& reply == LfsResponseView::Proceed
        },
{
    if let ServeStateView::Start { op, oid, size } = state {
        if let Some(o) = oid_of(oid) {
            assert(is_oid(o));
        }
    }
}

/// What an upload has stored is what a download serves: a download of the same object opens the file
/// to which the upload's body was moved, and that body passes the client's check, since its digest is
/// the object's id.
pub proof fn stored_objects_are_served_and_verify(
    style: PathStyle,
    store: Seq<char>,
    oid: Seq<char>,
    size: u64,
    path: Seq<char>,
    body: Seq<u8>,
    total: u64,
)
    requires
        serves_well(style, store, ServeStateView::Receiving { oid, size, path }),
    ensures
        ({
            let got = hex_text(sha256(body));
            let received = ServeEventView::Received { got, total, present: false };
            let stored = serve_step(style, ServeStateView::Receiving { oid, size, path }, received).1;
            let asked = ServeStateView::Locating { op: LfsOp::Download, oid, size: 0 };
            let opened = serve_step(style, asked, ServeEventView::Located { store }).1;
            stored matches ServeActionView::Store { path: to, reply } ==> opened == ServeActionView::Open(to)
                && got == oid
        }),
{
}

/// Object ids are exactly the digests of 32 bytes in hexadecimal.
pub proof fn object_ids_are_digests(s: Seq<char>, digest: Seq<u8>)
    ensures
        digest.len() == 32 ==> is_oid(hex_text(digest)),
        is_oid(s) ==> exists|bytes: Seq<u8>| bytes.len() == 32 && #[trigger] hex_text(bytes) == s,
{
    if digest.len() == 32 {
        let t = hex_text(digest);
        assert forall|i: int| 0 <= i < t.len() implies is_oid_char(#[trigger] t[i]) by {
            let n = if i % 2 == 0 { digest[i / 2] as int / 16 } else { digest[i / 2] as int % 16 };
            assert(0 <= n < 16);
            assert(t[i] == hex_digit(n));
            assert(hex_digit(n) as int == if n < 10 { 48 + n } else { 87 + n });
        }
    }
    if is_oid(s) {
        let bytes = Seq::new(
            32,
            |i: int| (16 * hex_digit_value(s[2 * i]) + hex_digit_value(s[2 * i + 1])) as u8,
        );
        assert forall|i: int| 0 <= i < 64 implies #[trigger] hex_text(bytes)[i] == s[i] by {
            let k = i / 2;
            assert(is_oid_char(s[2 * k]) && is_oid_char(s[2 * k + 1]));
            let (high, low) = (hex_digit_value(s[2 * k]), hex_digit_value(s[2 * k + 1]));
            assert(0 <= high < 16 && 0 <= low < 16);
            assert(bytes[k] as int == 16 * high + low);
            assert((16 * high + low) / 16 == high && (16 * high + low) % 16 == low);
            lemma_digit_of_value(s[2 * k]);
            lemma_digit_of_value(s[2 * k + 1]);
            assert(i == 2 * k || i == 2 * k + 1);
        }
        assert(hex_text(bytes) =~= s);
    }
}

proof fn lemma_digit_of_value(c: char)
    requires
        is_oid_char(c),
    ensures
        hex_digit(hex_digit_value(c)) == c,
{
    let n = hex_digit_value(c);
    assert(hex_digit(n) as int == if n < 10 { 48 + n } else { 87 + n });
    assert(hex_digit(n) as int == c as int);
    assert(hex_digit(n) as u32 == c as u32);
}

/// A text stands for an object id exactly if it is the 64 digits of the id, in either case, perhaps with
/// white space around them and `sha256:` before that; the id is the digits in lower case.
pub proof fn texts_stand_for_the_digits_in_them(before: Seq<char>, digits: Seq<char>, after: Seq<char>, text: Seq<char>)
    requires
        is_blank(before),
        is_blank(after),
    ensures
        is_oid(lowered(digits)) ==> oid_of(before + digits + after) == Some(lowered(digits)),
        is_oid(lowered(digits)) ==> oid_of("sha256:"@ + (before + digits + after)) == Some(lowered(digits)),
        oid_of(text) matches Some(oid) ==> is_oid(oid) && exists|a: Seq<char>, d: Seq<char>, b: Seq<char>|
            {
                &&& is_blank(a) && is_blank(b) && lowered(d) == oid
                &&& text == #[trigger] (a + d + b) || text == "sha256:"@ + (a + d + b)
            },
{
    reveal_strlit("sha256:");
    let prefix = "sha256:"@;
    if is_oid(lowered(digits)) {
        let s = before + digits + after;
        assert(lowered(digits).len() == digits.len());
        assert forall|i: int| 0 <= i < 64 implies !is_white_space(#[trigger] digits[i]) && digits[i] != 's' by {
            assert(is_oid_char(lowered(digits)[i]));
            assert(lowered(digits)[i] == ascii_lower(digits[i]));
        }
        trimming_takes_white_space_off(before, digits, after);
        assert(!starts_with(s, prefix)) by {
            if starts_with(s, prefix) {
                assert(s.take(7)[0] == s[0]);
                if before.len() > 0 {
                    assert(s[0] == before[0]);
                } else {
                    assert(s[0] == digits[0]);
                }
            }
        }
        assert((prefix + s).take(7) =~= prefix);
        assert((prefix + s).skip(7) =~= s);
    }
    if oid_of(text) is Some {
        let bare = if starts_with(text, prefix) { text.skip(7) } else { text };
        trimming_leaves_the_rest(bare);
        let (a, b) = choose|a: Seq<char>, b: Seq<char>|
            #[trigger] is_blank(a) && #[trigger] is_blank(b) && bare == a + trim(bare) + b;
        let d = trim(bare);
        assert(bare == a + d + b);
        if starts_with(text, prefix) {
            assert(text =~= prefix + bare) by {
                assert(text.take(7) + text.skip(7) =~= text);
            }
        }
    }
}

/// The layout of the store, character by character: in a directory of the first two digits of the id is
/// one of the next two, and in that the object under its whole id.
pub proof fn objects_lie_where_git_lfs_keeps_them(store: Seq<char>, oid: Seq<char>)
    requires
        is_oid(oid),
        store.len() > 0,
    ensures
        store.last() != '/' ==> object_path_of(PathStyle::Unix, store, oid) == store + seq![
            '/',
            oid[0],
            oid[1],
            '/',
            oid[2],
            oid[3],
            '/',
        ] + oid,
        store.last() == '/' ==> object_path_of(PathStyle::Unix, store, oid) == store + seq![
            oid[0],
            oid[1],
            '/',
            oid[2],
            oid[3],
            '/',
        ] + oid,
        !is_slash(store.last()) && store.last() != ':' ==> object_path_of(PathStyle::Windows, store, oid) == store
            + seq!['\\', oid[0], oid[1], '\\', oid[2], oid[3], '\\'] + oid,
{
    reveal_strlit("/");
    reveal_strlit("\\");
    assert(is_oid_char(oid[1]) && is_oid_char(oid[3]));
    assert(oid.take(2) =~= seq![oid[0], oid[1]]);
    assert(oid.subrange(2, 4) =~= seq![oid[2], oid[3]]);
    let unix = if store.last() != '/' { store + seq!['/'] } else { store };
    let (one, two) = (unix + oid.take(2), unix + oid.take(2) + seq!['/'] + oid.subrange(2, 4));
    assert(one.last() == oid[1] && two.last() == oid[3]);
    assert(joined(PathStyle::Unix, store, oid.take(2)) =~= one);
    assert(joined(PathStyle::Unix, one, oid.subrange(2, 4)) =~= two);
    assert(joined(PathStyle::Unix, two, oid) =~= two + seq!['/'] + oid);
    assert(store.last() != '/' ==> two + seq!['/'] + oid =~= store + seq![
        '/',
        oid[0],
        oid[1],
        '/',
        oid[2],
        oid[3],
        '/',
    ] + oid);
    assert(store.last() == '/' ==> two + seq!['/'] + oid =~= store + seq![oid[0], oid[1], '/', oid[2], oid[3], '/']
        + oid);
    if !is_slash(store.last()) && store.last() != ':' {
        let first = store + seq!['\\'] + oid.take(2);
        let second = first + seq!['\\'] + oid.subrange(2, 4);
        assert(first.last() == oid[1] && second.last() == oid[3]);
        assert(joined(PathStyle::Windows, store, oid.take(2)) =~= first);
        assert(joined(PathStyle::Windows, first, oid.subrange(2, 4)) =~= second);
        assert(joined(PathStyle::Windows, second, oid) =~= second + seq!['\\'] + oid);
        assert(second + seq!['\\'] + oid =~= store + seq![
            '\\',
            oid[0],
            oid[1],
            '\\',
            oid[2],
            oid[3],
            '\\',
        ] + oid);
    }
}

/// The line begins with a word that stands for the object id.
pub open spec fn lists(line: Seq<char>, oid: Seq<char>) -> bool {
    first_word(line) matches Some(word) && oid_of(word) == Some(oid)
}

/// Nothing that is listed is lost and nothing else is found: an object is found exactly if some line
/// begins with its id, whatever follows it in the line. More lines only add objects, behind those that
/// were found before.
pub proof fn every_listed_object_is_found(ls: Seq<Seq<char>>, oid: Seq<char>, n: int)
    requires
        0 <= n <= ls.len(),
    ensures
        oids_in(ls).contains(oid) <==> exists|i: int| 0 <= i < ls.len() && lists(#[trigger] ls[i], oid),
        oids_in(ls.take(n)).len() <= oids_in(ls).len(),
        oids_in(ls).take(oids_in(ls.take(n)).len() as int) == oids_in(ls.take(n)),
    decreases ls.len(),
{
    if ls.len() == 0 {
        assert(ls.take(n) =~= ls);
    } else {
        let less = ls.drop_last();
        let (before, now) = (oids_in(less), oids_in(ls));
        every_listed_object_is_found(less, oid, if n < ls.len() { n } else { less.len() as int });
        assert(now == before || now.drop_last() =~= before && now.len() == before.len() + 1);
        assert forall|i: int| 0 <= i < before.len() implies now.contains(#[trigger] before[i]) by {
            assert(now[i] == before[i]);
        }
        if now.contains(oid) {
            let k = choose|k: int| 0 <= k < now.len() && now[k] == oid;
            if k < before.len() {
                assert(before[k] == oid);
                let i = choose|i: int| 0 <= i < less.len() && lists(#[trigger] less[i], oid);
                assert(lists(ls[i], oid));
            } else {
                assert(lists(ls[ls.len() - 1], oid));
            }
        }
        if exists|i: int| 0 <= i < ls.len() && lists(#[trigger] ls[i], oid) {
            let i = choose|i: int| 0 <= i < ls.len() && lists(#[trigger] ls[i], oid);
            if i < less.len() {
                assert(lists(less[i], oid));
                assert(before.contains(oid));
            } else if !before.contains(oid) {
                assert(now == before.push(oid));
                assert(now[before.len() as int] == oid);
            }
        }
        if n == ls.len() {
            assert(ls.take(n) =~= ls);
            assert(now.take(now.len() as int) =~= now);
        } else {
            assert(ls.take(n) =~= less.take(n));
            let k = oids_in(ls.take(n)).len() as int;
            assert(now.take(k) =~= before.take(k));
        }
    }
}

/// The objects that git refers to are those whose ids begin the lines that it prints, each once.
pub proof fn referenced_objects_are_those_listed(
    listing: GitOutput,
    found: Result<Vec<String>, Failure>,
    oid: Seq<char>,
)
    requires
        call_ensures(referenced_oids, (listing,), found),
    ensures
        found is Ok <==> listing.success && valid_utf8(listing.stdout@),
        found matches Ok(oids) ==> {
            let ls = lines(decode_utf8(listing.stdout@));
            &&& texts(oids@).contains(oid) <==> exists|i: int| 0 <= i < ls.len() && lists(#[trigger] ls[i], oid)
            &&& texts(oids@).no_duplicates()
        },
{
    let ls = lines(decode_utf8(listing.stdout@));
    every_listed_object_is_found(ls, oid, 0);
    referenced_oids_are_distinct(ls);
}

/// A repository's objects lie in its git directory, under `lfs/objects`, and downloads are staged beside
/// them, under `lfs/tmp`: the git directory is `.git` in a work tree, and the repository itself where it
/// is bare. A linked worktree has neither.
pub proof fn the_store_is_in_the_git_directory(
    repo: &str,
    dot_git: DotGit,
    store: Result<String, Failure>,
    stage: Option<String>,
)
    requires
        call_ensures(object_store, (PathStyle::Unix, repo, dot_git), store),
        call_ensures(stage_dir, (PathStyle::Unix, repo, dot_git), stage),
        repo@.len() > 0,
        repo@.last() != '/',
    ensures
        dot_git == DotGit::File ==> store is Err && stage is None,
        dot_git == DotGit::Directory ==> (store matches Ok(d) && d@ == repo@ + "/.git/lfs/objects"@),
        dot_git == DotGit::Absent ==> (store matches Ok(d) && d@ == repo@ + "/lfs/objects"@),
        dot_git == DotGit::Directory ==> (stage matches Some(d) && d@ == repo@ + "/.git/lfs/tmp"@),
        dot_git == DotGit::Absent ==> (stage matches Some(d) && d@ == repo@ + "/lfs/tmp"@),
{
    reveal_strlit("/");
    reveal_strlit(".git");
    reveal_strlit("lfs");
    reveal_strlit("objects");
    reveal_strlit("tmp");
    reveal_strlit("/.git/lfs/objects");
    reveal_strlit("/lfs/objects");
    reveal_strlit("/.git/lfs/tmp");
    reveal_strlit("/lfs/tmp");
    let dot = repo@ + "/"@ + ".git"@;
    assert(dot.last() == 't');
    assert((dot + "/"@ + "lfs"@).last() == 's');
    assert((repo@ + "/"@ + "lfs"@).last() == 's');
    assert(dot + "/"@ + "lfs"@ + "/"@ + "objects"@ =~= repo@ + "/.git/lfs/objects"@);
    assert(repo@ + "/"@ + "lfs"@ + "/"@ + "objects"@ =~= repo@ + "/lfs/objects"@);
    assert(dot + "/"@ + "lfs"@ + "/"@ + "tmp"@ =~= repo@ + "/.git/lfs/tmp"@);
    assert(repo@ + "/"@ + "lfs"@ + "/"@ + "tmp"@ =~= repo@ + "/lfs/tmp"@);
}

/// A download is served from the object's place in the store, where it can be opened, and otherwise the
/// client is told that the object is not there. An id that is none is refused before anything is looked
/// for.
pub proof fn a_download_serves_the_object_in_its_place(
    style: PathStyle,
    store: Seq<char>,
    text: Seq<char>,
    size: u64,
    opened: bool,
)
    ensures
        ({
            let (s1, a1) = serve_step(
                style,
                ServeStateView::Start { op: LfsOp::Download, oid: text, size },
                ServeEventView::Begin,
            );
            let (s2, a2) = serve_step(style, s1, ServeEventView::Located { store });
            let (s3, a3) = serve_step(style, s2, ServeEventView::Opened(opened));
            match oid_of(text) {
                None => s1 == ServeStateView::Ended && a1 == ServeActionView::Reply(
                    LfsResponseView::Error("not a sha256 lfs oid: "@ + debug_text(text)),
                ),
                Some(oid) => {
                    &&& a1 == ServeActionView::Locate
                    &&& a2 == ServeActionView::Open(object_path_of(style, store, oid))
                    &&& s3 == ServeStateView::Ended
                    &&& opened ==> a3 == ServeActionView::ReplyAndSend(LfsResponseView::Proceed)
                    &&& !opened ==> a3 == ServeActionView::Reply(
                        LfsResponseView::Error("object "@ + oid + " not present"@),
                    )
                },
            }
        }),
{
}

/// An upload asks for the object's place in the store. An object that is there is not sent; one that is
/// not is received, and moved there exactly if its digest is the announced id, its length the announced
/// size, and nothing has appeared there meanwhile. The client is told that it is stored exactly if
/// digest and length are right; otherwise what was received is thrown away, and the client is told what
/// it was.
pub proof fn an_upload_stores_the_object_in_its_place(
    style: PathStyle,
    store: Seq<char>,
    text: Seq<char>,
    size: u64,
    got: Seq<char>,
    total: u64,
    appeared: bool,
)
    ensures
        ({
            let (s1, a1) = serve_step(
                style,
                ServeStateView::Start { op: LfsOp::Upload, oid: text, size },
                ServeEventView::Begin,
            );
            let (s2, a2) = serve_step(style, s1, ServeEventView::Located { store });
            let (s3, a3) = serve_step(style, s2, ServeEventView::Present(false));
            let (s4, a4) = serve_step(style, s3, ServeEventView::Received { got, total, present: appeared });
            let (there, answer) = serve_step(style, s2, ServeEventView::Present(true));
            match oid_of(text) {
                None => s1 == ServeStateView::Ended && a1 == ServeActionView::Reply(
                    LfsResponseView::Error("not a sha256 lfs oid: "@ + debug_text(text)),
                ),
                Some(oid) => {
                    let place = object_path_of(style, store, oid);
                    let right = got == oid && total == size;
                    &&& a1 == ServeActionView::Locate
                    &&& a2 == ServeActionView::Look(place)
                    &&& there == ServeStateView::Ended && answer == ServeActionView::Reply(LfsResponseView::Have)
                    &&& a3 == ServeActionView::ReplyAndReceive(LfsResponseView::Proceed)
                    &&& s4 == ServeStateView::Ended
                    &&& right && !appeared <==> a4 == (ServeActionView::Store {
                        path: place,
                        reply: LfsResponseView::Proceed,
                    })
                    &&& right && appeared <==> a4 == ServeActionView::Discard(LfsResponseView::Proceed)
                    &&& !right <==> a4 == ServeActionView::Discard(
                        LfsResponseView::Error(
                            "verification failed (oid "@ + got + ", "@ + decimal(total as nat) + " bytes)"@,
                        ),
                    )
                },
            }
        }),
{
}

/// An ended stream stays ended, and nothing more is done on it.
pub proof fn an_ended_stream_stays_ended(style: PathStyle, event: ServeEventView)
    ensures
        serve_step(style, ServeStateView::Ended, event) == (ServeStateView::Ended, ServeActionView::Nothing),
{
}

/// A session asks for the object by its normal id, in the repository of its ticket, with the size that is
/// to be sent; a text that is no object id is not asked for.
pub proof fn a_session_asks_for_the_object_in_its_repository(
    ticket: &Ticket,
    session: Session,
    oid: &str,
    size: u64,
    down: Result<LfsRequest, Failure>,
    up: Result<LfsRequest, Failure>,
)
    requires
        call_ensures(Session::connect, (ticket,), session),
        call_ensures(Session::download, (&session, oid), down),
        call_ensures(Session::upload, (&session, oid, size), up),
    ensures
        down is Ok <==> oid_of(oid@) is Some,
        up is Ok <==> oid_of(oid@) is Some,
        down matches Ok(q) ==> q.version == 0 && q.repo_id@ == ticket.repo_id@ && q.op == LfsOp::Download && Some(
            q.oid@,
        ) == oid_of(oid@),
        up matches Ok(q) ==> q.version == 0 && q.repo_id@ == ticket.repo_id@ && q.op == LfsOp::Upload && Some(
            q.oid@,
        ) == oid_of(oid@) && q.size == size,
{
    if let Ok(q) = down {
        assert(q@.repo_id == ticket@.repo_id);
    }
    if let Ok(q) = up {
        assert(q@.repo_id == ticket@.repo_id);
    }
}

/// The client goes on exactly where the daemon lets it: a download is taken only after `Proceed`, and
/// kept only if its digest is the object's id; an upload's body is sent only after `Proceed`, and counts
/// as stored unless the daemon then says otherwise. What the daemon says is passed on, with the object.
pub proof fn the_client_does_as_the_daemon_says(
    oid: &str,
    got: &str,
    reply: LfsResponse,
    down: Result<(), Failure>,
    kept: Result<(), Failure>,
    up: Result<Option<UploadOutcome>, Failure>,
    end: Result<UploadOutcome, Failure>,
)
    requires
        call_ensures(download_reply, (oid, reply), down),
        call_ensures(check_download, (oid, got), kept),
        call_ensures(upload_reply, (oid, reply), up),
        call_ensures(upload_result, (oid, reply), end),
    ensures
        down is Ok <==> reply is Proceed,
        kept is Ok <==> got@ == oid@,
        up == Ok::<Option<UploadOutcome>, Failure>(None) <==> reply is Proceed,
        up == Ok::<Option<UploadOutcome>, Failure>(Some(UploadOutcome::AlreadyHad)) <==> reply is Have,
        end == Ok::<UploadOutcome, Failure>(UploadOutcome::Uploaded) <==> !(reply is Error),
        reply matches LfsResponse::Error(m) ==> {
            &&& down matches Err(e) && e.text() == "daemon refused download of "@ + oid@ + ": "@ + m@
            &&& up matches Err(e) && e.text() == "daemon refused upload of "@ + oid@ + ": "@ + m@
            &&& end matches Err(e) && e.text() == "daemon rejected upload of "@ + oid@ + ": "@ + m@
        },
        kept matches Err(e) ==> e.text() == "object "@ + oid@ + " failed verification (got "@ + got@ + ")"@,
{
}

/// Files in which objects are staged under different random suffixes have different names, and none has
/// the name of an object.
pub proof fn staging_names_are_apart(name: &str, a: &[u8; 8], b: &[u8; 8], first: String, second: String)
    requires
        call_ensures(tmp_name, (name, a), first),
        call_ensures(tmp_name, (name, b), second),
    ensures
        first@ == second@ ==> a@ == b@,
        starts_with(first@, name@),
        !is_oid(first@),
{
    reveal_strlit(".");
    reveal_strlit(".tmp");
    let n = name@.len() as int;
    let head = name@ + "."@;
    assert(first@.take(n) =~= name@);
    if first@ == second@ {
        assert(hex_text(a@).len() == 16 && hex_text(b@).len() == 16);
        assert(first@.subrange(n + 1, n + 17) =~= hex_text(a@));
        assert(second@.subrange(n + 1, n + 17) =~= hex_text(b@));
        hex_text_is_injective(a@, b@);
    }
    assert(first@[n] == '.');
    assert(!is_oid_char('.'));
}

/// A remote that is a ticket's url stands for itself, whatever git's settings are; any other is looked up
/// under its name in git's settings, where it stands for what is found, without white space around it.
pub proof fn remotes_stand_for_their_urls(
    remote: &str,
    said: GitOutput,
    first: Result<RemoteStep, Failure>,
    second: Result<RemoteStep, Failure>,
)
    requires
        call_ensures(resolve_remote_url, (remote, None::<GitOutput>), first),
        call_ensures(resolve_remote_url, (remote, Some(said)), second),
    ensures
        starts_with(remote@, "iroh://"@) ==> (first matches Ok(RemoteStep::Url(url)) && url@ == remote@),
        starts_with(remote@, "iroh://"@) ==> (second matches Ok(RemoteStep::Url(url)) && url@ == remote@),
        !starts_with(remote@, "iroh://"@) ==> (first matches Ok(RemoteStep::Ask(key)) && key@ == "remote."@ + remote@
            + ".url"@),
        !starts_with(remote@, "iroh://"@) ==> (second is Ok <==> said.success && valid_utf8(said.stdout@)),
        !starts_with(remote@, "iroh://"@) && second is Ok ==> (second matches Ok(RemoteStep::Url(url)) && url@ == trim(
            decode_utf8(said.stdout@),
        )),
{
}

/// A download is staged in the staging directory under the object's normal id.
pub proof fn downloads_are_staged_under_their_id(stage: &str, oid: &str, path: Result<String, Failure>)
    requires
        call_ensures(staged_path, (PathStyle::Unix, stage, oid), path),
        stage@.len() > 0,
        stage@.last() != '/',
    ensures
        path is Ok <==> oid_of(oid@) is Some,
        path matches Ok(p) ==> (oid_of(oid@) matches Some(o) && p@ == stage@ + seq!['/'] + o),
{
    reveal_strlit("/");
    assert("/"@ =~= seq!['/']);
}

/// Git is asked for the long listing of the objects of the given refs, in their order.
pub proof fn git_is_asked_for_the_objects_of_the_refs(refs: &Vec<String>, args: Vec<String>, i: int)
    requires
        call_ensures(ls_files_args, (refs,), args),
    ensures
        args@.len() == 3 + refs@.len(),
        args@[0]@ == "lfs"@ && args@[1]@ == "ls-files"@ && args@[2]@ == "--long"@,
        0 <= i < refs@.len() ==> args@[3 + i]@ == refs@[i]@,
{
    let t = texts(args@);
    assert(t.len() == args@.len());
    assert(t[0] == args@[0]@ && t[1] == args@[1]@ && t[2] == args@[2]@);
    if 0 <= i < refs@.len() {
        assert(t[3 + i] == args@[3 + i]@);
        assert(texts(refs@)[i] == refs@[i]@);
    }
}

/// The suffix of a staging file is what was drawn, and all zeros where nothing was.
pub proof fn suffixes_are_what_was_drawn(drawn: Result<[u8; 8], String>, suffix: [u8; 8], i: int)
    requires
        call_ensures(suffix_of, (drawn,), suffix),
        0 <= i < 8,
    ensures
        drawn matches Ok(bytes) ==> suffix@[i] == bytes@[i],
        drawn is Err ==> suffix@[i] == 0,
{
}

/// An event that comes out of turn ends the stream, and nothing is done about it: each state waits for
/// one kind of event.
pub proof fn events_out_of_turn_end_the_stream(style: PathStyle, state: ServeStateView, event: ServeEventView)
    ensures
        ({
            let in_turn = match state {
                ServeStateView::Start { op, oid, size } => event is Begin,
                ServeStateView::Locating { op, oid, size } => event is Located,
                ServeStateView::Opening { oid } => event is Opened,
                ServeStateView::Looking { oid, size, path } => event is Present,
                ServeStateView::Receiving { oid, size, path } => event is Received,
                ServeStateView::Ended => false,
            };
            &&& !in_turn ==> serve_step(style, state, event) == (ServeStateView::Ended, ServeActionView::Nothing)
            &&& in_turn ==> serve_step(style, state, event).1 != ServeActionView::Nothing
        }),
{
}

} // verus!
