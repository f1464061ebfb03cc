//! What can go wrong, and how it is said.

use crate::text::{
    a_part_stands_between_two_others, contains_text, debug_text, decimal, decimal_text, quoted,
};
use vstd::prelude::*;

verus! {

/// Why an operation did not succeed. Each variant holds what its message mentions; a `cause` is the
/// message of the error behind it, and ends the message.
#[derive(Debug, PartialEq, Eq)]
pub enum Failure {
    /// The url does not begin with the scheme.
    NotIrohUrl { url: String },
    /// The ticket's token is too long to decode.
    TicketTooLong,
    /// The ticket's token is not base32.
    TicketNotBase32 { cause: String },
    /// The ticket's bytes are not a ticket record.
    TicketLayout { cause: String },
    /// The ticket's node id is not a public key.
    TicketNodeId { cause: String },
    /// The text is too long to decode.
    RepoIdTooLong,
    /// The text is not base32.
    RepoIdNotBase32 { cause: String },
    /// The text is base32 of another length.
    RepoIdLength { cause: String },
    /// The system gave no randomness for a repository id.
    NoRandomRepoId { cause: String },
    /// The system gave no randomness for a key.
    NoRandomKey { cause: String },
    /// The text is not a node id.
    InvalidNodeId { node_id: String, cause: String },
    /// The key file does not hold 32 bytes.
    KeyLength { path: String },
    /// The message does not fit a frame.
    MessageTooLarge { cause: String },
    /// The announced frame exceeds the limit.
    FrameTooLong { len: u64 },
    /// The bytes are not a message.
    MessageLayout { cause: String },
    /// The text is not a sha256 object id.
    NotAnOid { oid: String },
    /// The repository's `.git` is a file.
    LinkedWorktree { repo: String },
    /// `git lfs ls-files` failed.
    LsFilesFailed { stderr: String },
    /// `git lfs ls-files` wrote bytes that are not text.
    LsFilesNotUtf8 { cause: String },
    /// The remote has no url.
    NoRemoteUrl { remote: String },
    /// `git config` wrote bytes that are not text.
    RemoteUrlNotUtf8 { cause: String },
    /// The remote's url is not a ticket.
    NotIrohRemote { remote: String, url: String, cause: String },
    /// The directory is not in a git repository.
    NotARepository { dir: String },
    /// Git did not say where the repository is.
    RepoPathUnresolved { dir: String },
    /// Git wrote bytes that are not text.
    GitOutputNotUtf8 { cause: String },
    /// The daemon answered a download as if it were an upload.
    UnexpectedHave,
    /// The daemon refused a download.
    DownloadRefused { oid: String, reason: String },
    /// The daemon refused an upload before its body was sent.
    UploadRefused { oid: String, reason: String },
    /// The daemon rejected an upload after its body was sent.
    UploadRejected { oid: String, reason: String },
    /// The downloaded bytes are not the object.
    VerificationFailed { oid: String, got: String },
    /// Git asked for a service that is not served.
    UnsupportedService { service: String },
    /// Git sent a command that is not known.
    UnexpectedCommand { command: String },
    /// `--force` without a selection.
    ForceNeedsSelection,
    /// Both `--write` and `--lfs`.
    WriteOrLfs,
    /// The node is not a member.
    NotGranted { node: String },
    /// The repository is not shared.
    RepoNotShared,
    /// More than one repository selector.
    ManySelectors,
    /// No repository selector.
    NoSelector,
    /// The SHARE_ID is not a repository id.
    InvalidShareId { id: String, cause: String },
    /// No repository has the SHARE_ID.
    NoSuchShare { id: String },
    /// LFS cannot be enabled on a repository that is not shared.
    NotSharedYet { repo: String },
    /// Some objects were not downloaded.
    DownloadsFailed { count: u64 },
    /// Some objects were not uploaded.
    UploadsFailed { count: u64 },
    /// Git did not say where the hooks are.
    HooksPathFailed,
    /// Git exited with an error.
    GitFailed { command: String },
}

impl Failure {
    /// The message for this error.
    pub open spec fn text(self) -> Seq<char> {
        match self {
            Failure::NotIrohUrl { url } => "not an iroh:// url: "@ + url@,
            Failure::TicketTooLong => "ticket is too long"@,
            Failure::TicketNotBase32 { cause } => "ticket is not valid base32: "@ + cause@,
            Failure::TicketLayout { cause } => "ticket has an unexpected layout: "@ + cause@,
            Failure::TicketNodeId { cause } => "ticket has an invalid node id: "@ + cause@,
            Failure::RepoIdTooLong => "repo id is too long"@,
            Failure::RepoIdNotBase32 { cause } => "repo id is not valid base32: "@ + cause@,
            Failure::RepoIdLength { cause } => "repo id is not 16 bytes: "@ + cause@,
            Failure::NoRandomRepoId { cause } => "gathering randomness for a repo id: "@ + cause@,
            Failure::NoRandomKey { cause } => "gathering randomness for a new key: "@ + cause@,
            Failure::InvalidNodeId { node_id, cause } => "invalid NODE_ID "@ + debug_text(node_id@) + ": "@ + cause@,
            Failure::KeyLength { path } => "key "@ + path@ + " is not 32 bytes"@,
            Failure::MessageTooLarge { cause } => "message too large: "@ + cause@,
            Failure::FrameTooLong { len } => "handshake frame of "@ + decimal(len as nat) + " bytes exceeds 65536 limit"@,
            Failure::MessageLayout { cause } => "decoding message: "@ + cause@,
            Failure::NotAnOid { oid } => "not a sha256 lfs oid: "@ + debug_text(oid@),
            Failure::LinkedWorktree { repo } => repo@ + " is a linked worktree or submodule (.git file); LFS over iroh needs a normal or bare repository"@,
            Failure::LsFilesFailed { stderr } => "git lfs ls-files failed: "@ + stderr@,
            Failure::LsFilesNotUtf8 { cause } => "git lfs ls-files output was not UTF-8: "@ + cause@,
            Failure::NoRemoteUrl { remote } => "no url configured for remote "@ + debug_text(remote@),
            Failure::RemoteUrlNotUtf8 { cause } => "git config output was not UTF-8: "@ + cause@,
            Failure::NotIrohRemote { remote, url, cause } => "remote "@ + debug_text(remote@) + " is not an iroh:// remote (url: "@ + url@ + "): "@ + cause@,
            Failure::NotARepository { dir } => "not a git repository: "@ + dir@,
            Failure::RepoPathUnresolved { dir } => "could not resolve repository path for "@ + dir@,
            Failure::GitOutputNotUtf8 { cause } => "git output was not UTF-8: "@ + cause@,
            Failure::UnexpectedHave => "daemon returned Have for a download"@,
            Failure::DownloadRefused { oid, reason } => "daemon refused download of "@ + oid@ + ": "@ + reason@,
            Failure::UploadRefused { oid, reason } => "daemon refused upload of "@ + oid@ + ": "@ + reason@,
            Failure::UploadRejected { oid, reason } => "daemon rejected upload of "@ + oid@ + ": "@ + reason@,
            Failure::VerificationFailed { oid, got } => "object "@ + oid@ + " failed verification (got "@ + got@ + ")"@,
            Failure::UnsupportedService { service } => "unsupported service: "@ + service@,
            Failure::UnexpectedCommand { command } => "unexpected command from git: "@ + debug_text(command@),
            Failure::ForceNeedsSelection => "--force requires --client and/or --server (refusing to overwrite both keys implicitly)"@,
            Failure::WriteOrLfs => "pass only one of --write or --lfs"@,
            Failure::NotGranted { node } => node@ + " was not granted access to this repository"@,
            Failure::RepoNotShared => "this repository isn't shared"@,
            Failure::ManySelectors => "pass only one of a SHARE_ID, --this, or --all"@,
            Failure::NoSelector => "give a SHARE_ID (from `list`), or pass --this for the current repository or --all for every repository"@,
            Failure::InvalidShareId { id, cause } => "invalid SHARE_ID "@ + debug_text(id@) + ": "@ + cause@,
            Failure::NoSuchShare { id } => "no shared repository with id "@ + id@,
            Failure::NotSharedYet { repo } => repo@ + " isn't shared yet; grant someone access first (e.g. `git iroh grant <node_id> --lfs`)"@,
            Failure::DownloadsFailed { count } => decimal(count as nat) + " LFS object(s) failed to download"@,
            Failure::UploadsFailed { count } => decimal(count as nat) + " LFS object(s) failed to upload"@,
            Failure::HooksPathFailed => "git rev-parse --git-path hooks failed"@,
            Failure::GitFailed { command } => "git "@ + command@ + " failed"@,
        }
    }

    /// The message for this error.
    pub fn message(&self) -> (r: String)
        ensures
            r@ == self.text(),
    {
        match self {
            Failure::NotIrohUrl { url } => "not an iroh:// url: ".to_owned().concat(url.as_str()),
            Failure::TicketTooLong => "ticket is too long".to_owned(),
            Failure::TicketNotBase32 { cause } => "ticket is not valid base32: ".to_owned().concat(cause.as_str()),
            Failure::TicketLayout { cause } => "ticket has an unexpected layout: ".to_owned().concat(cause.as_str()),
            Failure::TicketNodeId { cause } => "ticket has an invalid node id: ".to_owned().concat(cause.as_str()),
            Failure::RepoIdTooLong => "repo id is too long".to_owned(),
            Failure::RepoIdNotBase32 { cause } => "repo id is not valid base32: ".to_owned().concat(cause.as_str()),
            Failure::RepoIdLength { cause } => "repo id is not 16 bytes: ".to_owned().concat(cause.as_str()),
            Failure::NoRandomRepoId { cause } => "gathering randomness for a repo id: ".to_owned().concat(cause.as_str()),
            Failure::NoRandomKey { cause } => "gathering randomness for a new key: ".to_owned().concat(cause.as_str()),
            Failure::InvalidNodeId { node_id, cause } => "invalid NODE_ID ".to_owned().concat(quoted(node_id.as_str()).as_str()).concat(": ").concat(cause.as_str()),
            Failure::KeyLength { path } => "key ".to_owned().concat(path.as_str()).concat(" is not 32 bytes"),
            Failure::MessageTooLarge { cause } => "message too large: ".to_owned().concat(cause.as_str()),
            Failure::FrameTooLong { len } => "handshake frame of ".to_owned().concat(decimal_text(*len).as_str()).concat(" bytes exceeds 65536 limit"),
            Failure::MessageLayout { cause } => "decoding message: ".to_owned().concat(cause.as_str()),
            Failure::NotAnOid { oid } => "not a sha256 lfs oid: ".to_owned().concat(quoted(oid.as_str()).as_str()),
            Failure::LinkedWorktree { repo } => repo.clone().concat(" is a linked worktree or submodule (.git file); LFS over iroh needs a normal or bare repository"),
            Failure::LsFilesFailed { stderr } => "git lfs ls-files failed: ".to_owned().concat(stderr.as_str()),
            Failure::LsFilesNotUtf8 { cause } => "git lfs ls-files output was not UTF-8: ".to_owned().concat(cause.as_str()),
            Failure::NoRemoteUrl { remote } => "no url configured for remote ".to_owned().concat(quoted(remote.as_str()).as_str()),
            Failure::RemoteUrlNotUtf8 { cause } => "git config output was not UTF-8: ".to_owned().concat(cause.as_str()),
            Failure::NotIrohRemote { remote, url, cause } => "remote ".to_owned().concat(quoted(remote.as_str()).as_str()).concat(" is not an iroh:// remote (url: ").concat(url.as_str()).concat("): ").concat(cause.as_str()),
            Failure::NotARepository { dir } => "not a git repository: ".to_owned().concat(dir.as_str()),
            Failure::RepoPathUnresolved { dir } => "could not resolve repository path for ".to_owned().concat(dir.as_str()),
            Failure::GitOutputNotUtf8 { cause } => "git output was not UTF-8: ".to_owned().concat(cause.as_str()),
            Failure::UnexpectedHave => "daemon returned Have for a download".to_owned(),
            Failure::DownloadRefused { oid, reason } => "daemon refused download of ".to_owned().concat(oid.as_str()).concat(": ").concat(reason.as_str()),
            Failure::UploadRefused { oid, reason } => "daemon refused upload of ".to_owned().concat(oid.as_str()).concat(": ").concat(reason.as_str()),
            Failure::UploadRejected { oid, reason } => "daemon rejected upload of ".to_owned().concat(oid.as_str()).concat(": ").concat(reason.as_str()),
            Failure::VerificationFailed { oid, got } => "object ".to_owned().concat(oid.as_str()).concat(" failed verification (got ").concat(got.as_str()).concat(")"),
            Failure::UnsupportedService { service } => "unsupported service: ".to_owned().concat(service.as_str()),
            Failure::UnexpectedCommand { command } => "unexpected command from git: ".to_owned().concat(quoted(command.as_str()).as_str()),
            Failure::ForceNeedsSelection => "--force requires --client and/or --server (refusing to overwrite both keys implicitly)".to_owned(),
            Failure::WriteOrLfs => "pass only one of --write or --lfs".to_owned(),
            Failure::NotGranted { node } => node.clone().concat(" was not granted access to this repository"),
            Failure::RepoNotShared => "this repository isn't shared".to_owned(),
            Failure::ManySelectors => "pass only one of a SHARE_ID, --this, or --all".to_owned(),
            Failure::NoSelector => "give a SHARE_ID (from `list`), or pass --this for the current repository or --all for every repository".to_owned(),
            Failure::InvalidShareId { id, cause } => "invalid SHARE_ID ".to_owned().concat(quoted(id.as_str()).as_str()).concat(": ").concat(cause.as_str()),
            Failure::NoSuchShare { id } => "no shared repository with id ".to_owned().concat(id.as_str()),
            Failure::NotSharedYet { repo } => repo.clone().concat(" isn't shared yet; grant someone access first (e.g. `git iroh grant <node_id> --lfs`)"),
            Failure::DownloadsFailed { count } => decimal_text(*count).concat(" LFS object(s) failed to download"),
            Failure::UploadsFailed { count } => decimal_text(*count).concat(" LFS object(s) failed to upload"),
            Failure::HooksPathFailed => "git rev-parse --git-path hooks failed".to_owned(),
            Failure::GitFailed { command } => "git ".to_owned().concat(command.as_str()).concat(" failed"),
        }
    }
}

/// Every message names what it is about: the text, path, id, number or command that the failure holds,
/// and the cause where there is one.
pub proof fn messages_name_what_they_are_about(e: Failure)
    ensures
        ({
            let text = e.text();
            match e {
                Failure::NotIrohUrl { url } => contains_text(text, url@),
                Failure::TicketNotBase32 { cause } => contains_text(text, cause@),
                Failure::TicketLayout { cause } => contains_text(text, cause@),
                Failure::TicketNodeId { cause } => contains_text(text, cause@),
                Failure::RepoIdNotBase32 { cause } => contains_text(text, cause@),
                Failure::RepoIdLength { cause } => contains_text(text, cause@),
                Failure::NoRandomRepoId { cause } => contains_text(text, cause@),
                Failure::NoRandomKey { cause } => contains_text(text, cause@),
                Failure::InvalidNodeId { node_id, cause } => contains_text(text, debug_text(node_id@)) && contains_text(text, cause@),
                Failure::KeyLength { path } => contains_text(text, path@),
                Failure::MessageTooLarge { cause } => contains_text(text, cause@),
                Failure::FrameTooLong { len } => contains_text(text, decimal(len as nat)),
                Failure::MessageLayout { cause } => contains_text(text, cause@),
                Failure::NotAnOid { oid } => contains_text(text, debug_text(oid@)),
                Failure::LinkedWorktree { repo } => contains_text(text, repo@),
                Failure::LsFilesFailed { stderr } => contains_text(text, stderr@),
                Failure::LsFilesNotUtf8 { cause } => contains_text(text, cause@),
                Failure::NoRemoteUrl { remote } => contains_text(text, debug_text(remote@)),
                Failure::RemoteUrlNotUtf8 { cause } => contains_text(text, cause@),
                Failure::NotIrohRemote { remote, url, cause } => contains_text(text, debug_text(remote@)) && contains_text(text, url@) && contains_text(text, cause@),
                Failure::NotARepository { dir } => contains_text(text, dir@),
                Failure::RepoPathUnresolved { dir } => contains_text(text, dir@),
                Failure::GitOutputNotUtf8 { cause } => contains_text(text, cause@),
                Failure::DownloadRefused { oid, reason } => contains_text(text, oid@) && contains_text(text, reason@),
                Failure::UploadRefused { oid, reason } => contains_text(text, oid@) && contains_text(text, reason@),
                Failure::UploadRejected { oid, reason } => contains_text(text, oid@) && contains_text(text, reason@),
                Failure::VerificationFailed { oid, got } => contains_text(text, oid@) && contains_text(text, got@),
                Failure::UnsupportedService { service } => contains_text(text, service@),
                Failure::UnexpectedCommand { command } => contains_text(text, debug_text(command@)),
                Failure::NotGranted { node } => contains_text(text, node@),
                Failure::InvalidShareId { id, cause } => contains_text(text, debug_text(id@)) && contains_text(text, cause@),
                Failure::NoSuchShare { id } => contains_text(text, id@),
                Failure::NotSharedYet { repo } => contains_text(text, repo@),
                Failure::DownloadsFailed { count } => contains_text(text, decimal(count as nat)),
                Failure::UploadsFailed { count } => contains_text(text, decimal(count as nat)),
                Failure::GitFailed { command } => contains_text(text, command@),
                _ => text.len() > 0,
            }
        }),
{
    let text = e.text();
    let none = Seq::<char>::empty();
    match e {
        Failure::NotIrohUrl { url } => {
            a_part_stands_between_two_others("not an iroh:// url: "@, url@, none, text);
            assert("not an iroh:// url: "@ + url@ + none =~= text);
        },
        Failure::TicketNotBase32 { cause } => {
            a_part_stands_between_two_others("ticket is not valid base32: "@, cause@, none, text);
            assert("ticket is not valid base32: "@ + cause@ + none =~= text);
        },
        Failure::TicketLayout { cause } => {
            a_part_stands_between_two_others("ticket has an unexpected layout: "@, cause@, none, text);
            assert("ticket has an unexpected layout: "@ + cause@ + none =~= text);
        },
        Failure::TicketNodeId { cause } => {
            a_part_stands_between_two_others("ticket has an invalid node id: "@, cause@, none, text);
            assert("ticket has an invalid node id: "@ + cause@ + none =~= text);
        },
        Failure::RepoIdNotBase32 { cause } => {
            a_part_stands_between_two_others("repo id is not valid base32: "@, cause@, none, text);
            assert("repo id is not valid base32: "@ + cause@ + none =~= text);
        },
        Failure::RepoIdLength { cause } => {
            a_part_stands_between_two_others("repo id is not 16 bytes: "@, cause@, none, text);
            assert("repo id is not 16 bytes: "@ + cause@ + none =~= text);
        },
        Failure::NoRandomRepoId { cause } => {
            a_part_stands_between_two_others("gathering randomness for a repo id: "@, cause@, none, text);
            assert("gathering randomness for a repo id: "@ + cause@ + none =~= text);
        },
        Failure::NoRandomKey { cause } => {
            a_part_stands_between_two_others("gathering randomness for a new key: "@, cause@, none, text);
            assert("gathering randomness for a new key: "@ + cause@ + none =~= text);
        },
        Failure::InvalidNodeId { node_id, cause } => {
            a_part_stands_between_two_others("invalid NODE_ID "@, debug_text(node_id@), ": "@ + cause@, text);
            assert("invalid NODE_ID "@ + debug_text(node_id@) + (": "@ + cause@) =~= text);
            a_part_stands_between_two_others("invalid NODE_ID "@ + debug_text(node_id@) + ": "@, cause@, none, text);
            assert("invalid NODE_ID "@ + debug_text(node_id@) + ": "@ + cause@ + none =~= text);
        },
        Failure::KeyLength { path } => {
            a_part_stands_between_two_others("key "@, path@, " is not 32 bytes"@, text);
            assert("key "@ + path@ + (" is not 32 bytes"@) =~= text);
        },
        Failure::MessageTooLarge { cause } => {
            a_part_stands_between_two_others("message too large: "@, cause@, none, text);
            assert("message too large: "@ + cause@ + none =~= text);
        },
        Failure::FrameTooLong { len } => {
            a_part_stands_between_two_others("handshake frame of "@, decimal(len as nat), " bytes exceeds 65536 limit"@, text);
            assert("handshake frame of "@ + decimal(len as nat) + (" bytes exceeds 65536 limit"@) =~= text);
        },
        Failure::MessageLayout { cause } => {
            a_part_stands_between_two_others("decoding message: "@, cause@, none, text);
            assert("decoding message: "@ + cause@ + none =~= text);
        },
        Failure::NotAnOid { oid } => {
            a_part_stands_between_two_others("not a sha256 lfs oid: "@, debug_text(oid@), none, text);
            assert("not a sha256 lfs oid: "@ + debug_text(oid@) + none =~= text);
        },
        Failure::LinkedWorktree { repo } => {
            a_part_stands_between_two_others(none, repo@, " is a linked worktree or submodule (.git file); LFS over iroh needs a normal or bare repository"@, text);
            assert(none + repo@ + (" is a linked worktree or submodule (.git file); LFS over iroh needs a normal or bare repository"@) =~= text);
        },
        Failure::LsFilesFailed { stderr } => {
            a_part_stands_between_two_others("git lfs ls-files failed: "@, stderr@, none, text);
            assert("git lfs ls-files failed: "@ + stderr@ + none =~= text);
        },
        Failure::LsFilesNotUtf8 { cause } => {
            a_part_stands_between_two_others("git lfs ls-files output was not UTF-8: "@, cause@, none, text);
            assert("git lfs ls-files output was not UTF-8: "@ + cause@ + none =~= text);
        },
        Failure::NoRemoteUrl { remote } => {
            a_part_stands_between_two_others("no url configured for remote "@, debug_text(remote@), none, text);
            assert("no url configured for remote "@ + debug_text(remote@) + none =~= text);
        },
        Failure::RemoteUrlNotUtf8 { cause } => {
            a_part_stands_between_two_others("git config output was not UTF-8: "@, cause@, none, text);
            assert("git config output was not UTF-8: "@ + cause@ + none =~= text);
        },
        Failure::NotIrohRemote { remote, url, cause } => {
            a_part_stands_between_two_others("remote "@, debug_text(remote@), " is not an iroh:// remote (url: "@ + url@ + "): "@ + cause@, text);
            assert("remote "@ + debug_text(remote@) + (" is not an iroh:// remote (url: "@ + url@ + "): "@ + cause@) =~= text);
            a_part_stands_between_two_others("remote "@ + debug_text(remote@) + " is not an iroh:// remote (url: "@, url@, "): "@ + cause@, text);
            assert("remote "@ + debug_text(remote@) + " is not an iroh:// remote (url: "@ + url@ + ("): "@ + cause@) =~= text);
            a_part_stands_between_two_others("remote "@ + debug_text(remote@) + " is not an iroh:// remote (url: "@ + url@ + "): "@, cause@, none, text);
            assert("remote "@ + debug_text(remote@) + " is not an iroh:// remote (url: "@ + url@ + "): "@ + cause@ + none =~= text);
        },
        Failure::NotARepository { dir } => {
            a_part_stands_between_two_others("not a git repository: "@, dir@, none, text);
            assert("not a git repository: "@ + dir@ + none =~= text);
        },
        Failure::RepoPathUnresolved { dir } => {
            a_part_stands_between_two_others("could not resolve repository path for "@, dir@, none, text);
            assert("could not resolve repository path for "@ + dir@ + none =~= text);
        },
        Failure::GitOutputNotUtf8 { cause } => {
            a_part_stands_between_two_others("git output was not UTF-8: "@, cause@, none, text);
            assert("git output was not UTF-8: "@ + cause@ + none =~= text);
        },
        Failure::DownloadRefused { oid, reason } => {
            a_part_stands_between_two_others("daemon refused download of "@, oid@, ": "@ + reason@, text);
            assert("daemon refused download of "@ + oid@ + (": "@ + reason@) =~= text);
            a_part_stands_between_two_others("daemon refused download of "@ + oid@ + ": "@, reason@, none, text);
            assert("daemon refused download of "@ + oid@ + ": "@ + reason@ + none =~= text);
        },
        Failure::UploadRefused { oid, reason } => {
            a_part_stands_between_two_others("daemon refused upload of "@, oid@, ": "@ + reason@, text);
            assert("daemon refused upload of "@ + oid@ + (": "@ + reason@) =~= text);
            a_part_stands_between_two_others("daemon refused upload of "@ + oid@ + ": "@, reason@, none, text);
            assert("daemon refused upload of "@ + oid@ + ": "@ + reason@ + none =~= text);
        },
        Failure::UploadRejected { oid, reason } => {
            a_part_stands_between_two_others("daemon rejected upload of "@, oid@, ": "@ + reason@, text);
            assert("daemon rejected upload of "@ + oid@ + (": "@ + reason@) =~= text);
            a_part_stands_between_two_others("daemon rejected upload of "@ + oid@ + ": "@, reason@, none, text);
            assert("daemon rejected upload of "@ + oid@ + ": "@ + reason@ + none =~= text);
        },
        Failure::VerificationFailed { oid, got } => {
            a_part_stands_between_two_others("object "@, oid@, " failed verification (got "@ + got@ + ")"@, text);
            assert("object "@ + oid@ + (" failed verification (got "@ + got@ + ")"@) =~= text);
            a_part_stands_between_two_others("object "@ + oid@ + " failed verification (got "@, got@, ")"@, text);
            assert("object "@ + oid@ + " failed verification (got "@ + got@ + (")"@) =~= text);
        },
        Failure::UnsupportedService { service } => {
            a_part_stands_between_two_others("unsupported service: "@, service@, none, text);
            assert("unsupported service: "@ + service@ + none =~= text);
        },
        Failure::UnexpectedCommand { command } => {
            a_part_stands_between_two_others("unexpected command from git: "@, debug_text(command@), none, text);
            assert("unexpected command from git: "@ + debug_text(command@) + none =~= text);
        },
        Failure::NotGranted { node } => {
            a_part_stands_between_two_others(none, node@, " was not granted access to this repository"@, text);
            assert(none + node@ + (" was not granted access to this repository"@) =~= text);
        },
        Failure::InvalidShareId { id, cause } => {
            a_part_stands_between_two_others("invalid SHARE_ID "@, debug_text(id@), ": "@ + cause@, text);
            assert("invalid SHARE_ID "@ + debug_text(id@) + (": "@ + cause@) =~= text);
            a_part_stands_between_two_others("invalid SHARE_ID "@ + debug_text(id@) + ": "@, cause@, none, text);
            assert("invalid SHARE_ID "@ + debug_text(id@) + ": "@ + cause@ + none =~= text);
        },
        Failure::NoSuchShare { id } => {
            a_part_stands_between_two_others("no shared repository with id "@, id@, none, text);
            assert("no shared repository with id "@ + id@ + none =~= text);
        },
        Failure::NotSharedYet { repo } => {
            a_part_stands_between_two_others(none, repo@, " isn't shared yet; grant someone access first (e.g. `git iroh grant <node_id> --lfs`)"@, text);
            assert(none + repo@ + (" isn't shared yet; grant someone access first (e.g. `git iroh grant <node_id> --lfs`)"@) =~= text);
        },
        Failure::DownloadsFailed { count } => {
            a_part_stands_between_two_others(none, decimal(count as nat), " LFS object(s) failed to download"@, text);
            assert(none + decimal(count as nat) + (" LFS object(s) failed to download"@) =~= text);
        },
        Failure::UploadsFailed { count } => {
            a_part_stands_between_two_others(none, decimal(count as nat), " LFS object(s) failed to upload"@, text);
            assert(none + decimal(count as nat) + (" LFS object(s) failed to upload"@) =~= text);
        },
        Failure::GitFailed { command } => {
            a_part_stands_between_two_others("git "@, command@, " failed"@, text);
            assert("git "@ + command@ + (" failed"@) =~= text);
        },
        _ => {
            lemma_plain_messages(e);
        },
    }
}

proof fn lemma_plain_messages(e: Failure)
    ensures
        e is TicketTooLong || e is RepoIdTooLong || e is UnexpectedHave || e is ForceNeedsSelection || e is WriteOrLfs || e is RepoNotShared || e is ManySelectors || e is NoSelector || e is HooksPathFailed ==> e.text().len() > 0,
{
    reveal_strlit("ticket is too long");
    reveal_strlit("repo id is too long");
    reveal_strlit("daemon returned Have for a download");
    reveal_strlit("--force requires --client and/or --server (refusing to overwrite both keys implicitly)");
    reveal_strlit("pass only one of --write or --lfs");
    reveal_strlit("this repository isn't shared");
    reveal_strlit("pass only one of a SHARE_ID, --this, or --all");
    reveal_strlit("give a SHARE_ID (from `list`), or pass --this for the current repository or --all for every repository");
    reveal_strlit("git rev-parse --git-path hooks failed");
}

} // verus!
