//! What git prints when it is asked something, and what follows from it.

use crate::error::Failure;
use crate::paths::{join, joined, PathStyle};
use crate::sequences::{first_where, lemma_first_where, lemma_first_where_bounds};
use crate::text::{
    from_utf8, is_blank, is_white_space, texts, trim, trimmed, trimming_takes_white_space_off,
    utf8_refusal,
};
use vstd::prelude::*;
use vstd::utf8::{
    decode_utf8, encode_utf8, encode_utf8_decode_utf8, encode_utf8_valid_utf8, valid_utf8,
};

verus! {

/// What a finished git process left behind.
#[derive(Debug, PartialEq, Eq)]
pub struct GitOutput {
    /// Whether it exited with success.
    pub success: bool,
    pub stdout: Vec<u8>,
    pub stderr: Vec<u8>,
}

/// The text on standard output without white space around it, where it is text.
pub open spec fn answer(output: GitOutput) -> Option<Seq<char>> {
    if valid_utf8(output.stdout@) {
        Some(trim(decode_utf8(output.stdout@)))
    } else {
        None
    }
}

pub(crate) fn answer_of(output: GitOutput) -> (r: Result<String, String>)
    ensures
        match r {
            Ok(t) => answer(output) == Some(t@),
            Err(cause) => answer(output) is None && cause@ == utf8_refusal(output.stdout@),
        },
{
    match from_utf8(output.stdout) {
        Ok(t) => Ok(trimmed(t.as_str()).to_owned()),
        Err(cause) => Err(cause),
    }
}

/// A question to `git rev-parse` about a repository.
#[derive(Clone, Copy, Debug, PartialEq, Eq, Structural)]
pub enum RepoQuery {
    /// Is the repository bare?
    IsBare,
    /// Where is its git directory?
    AbsoluteGitDir,
    /// Where is its work tree?
    ShowToplevel,
}

impl RepoQuery {
    /// The argument of `git rev-parse` that asks it.
    pub open spec fn flag_text(self) -> Seq<char> {
        match self {
            RepoQuery::IsBare => "--is-bare-repository"@,
            RepoQuery::AbsoluteGitDir => "--absolute-git-dir"@,
            RepoQuery::ShowToplevel => "--show-toplevel"@,
        }
    }

    /// The argument of `git rev-parse` that asks it.
    pub fn flag(self) -> (r: &'static str)
        ensures
            r@ == self.flag_text(),
    {
        match self {
            RepoQuery::IsBare => "--is-bare-repository",
            RepoQuery::AbsoluteGitDir => "--absolute-git-dir",
            RepoQuery::ShowToplevel => "--show-toplevel",
        }
    }
}

/// What comes after git has answered a question about a repository.
#[derive(Debug, PartialEq, Eq)]
pub enum ResolveStep {
    /// Ask git this.
    Ask(RepoQuery),
    /// The repository is at this path, still to be normalized.
    Path(String),
}

/// `r` is what comes after git has answered `query` about `dir` with `output`.
pub open spec fn steps_to(dir: Seq<char>, query: RepoQuery, output: GitOutput, r: Result<ResolveStep, Failure>) -> bool {
    match query {
        RepoQuery::IsBare => if !output.success {
            r matches Err(Failure::NotARepository { dir: d }) && d@ == dir
        } else {
            r == Ok::<ResolveStep, Failure>(ResolveStep::Ask(place_query(output)))
        },
        _ => if !output.success {
            r matches Err(Failure::RepoPathUnresolved { dir: d }) && d@ == dir
        } else {
            match answer(output) {
                Some(path) => r matches Ok(ResolveStep::Path(p)) && p@ == path,
                None => r matches Err(Failure::GitOutputNotUtf8 { cause }) && cause@ == utf8_refusal(
                    output.stdout@,
                ),
            }
        },
    }
}

/// Which question follows the answer to whether the repository is bare: a bare one has no work tree,
/// so its git directory is asked for.
pub open spec fn place_query(bare: GitOutput) -> RepoQuery {
    if answer(bare) == Some("true"@) {
        RepoQuery::AbsoluteGitDir
    } else {
        RepoQuery::ShowToplevel
    }
}

/// Resolve a directory to the path of its git repository, one question to git at a time: the first
/// is [`RepoQuery::IsBare`]. Works for both work trees (uses the top level) and bare repositories
/// (uses the git directory, since a bare repository has no work tree).
pub fn resolve_repo(dir: &str, query: RepoQuery, output: GitOutput) -> (r: Result<ResolveStep, Failure>)
    ensures
        steps_to(dir@, query, output, r),
{
    let success = output.success;
    let said = answer_of(output);
    match query {
        RepoQuery::IsBare => {
            if !success {
                return Err(Failure::NotARepository { dir: dir.to_owned() });
            }
            let bare = match said {
                Ok(t) => t.as_str().eq("true"),
                Err(_) => false,
            };
            if bare {
                Ok(ResolveStep::Ask(RepoQuery::AbsoluteGitDir))
            } else {
                Ok(ResolveStep::Ask(RepoQuery::ShowToplevel))
            }
        },
        _ => {
            if !success {
                return Err(Failure::RepoPathUnresolved { dir: dir.to_owned() });
            }
            match said {
                Ok(path) => Ok(ResolveStep::Path(path)),
                Err(cause) => Err(Failure::GitOutputNotUtf8 { cause }),
            }
        },
    }
}

/// What a directory resolves to.
pub enum Resolution {
    /// This path, still to be normalized.
    Path(Seq<char>),
    /// The directory is not in a repository.
    NotARepository { dir: Seq<char> },
    /// Git did not say where the repository is.
    Unresolved { dir: Seq<char> },
    /// Git wrote bytes that are not text.
    NotUtf8 { cause: Seq<char> },
}

/// What a directory resolves to by git's two answers: to whether the repository is bare, and to where
/// it is.
pub open spec fn resolved(dir: Seq<char>, bare: GitOutput, place: GitOutput) -> Resolution {
    if !bare.success {
        Resolution::NotARepository { dir }
    } else if !place.success {
        Resolution::Unresolved { dir }
    } else {
        match answer(place) {
            Some(path) => Resolution::Path(path),
            None => Resolution::NotUtf8 { cause: utf8_refusal(place.stdout@) },
        }
    }
}

/// Resolving takes at most two questions: whether the repository is bare, and then where its git
/// directory is if it is bare, or its work tree if it is not. What the directory resolves to is what
/// the two steps come to.
pub proof fn two_answers_resolve_a_directory(
    dir: Seq<char>,
    bare: GitOutput,
    place: GitOutput,
    first: Result<ResolveStep, Failure>,
    second: Result<ResolveStep, Failure>,
)
    requires
        steps_to(dir, RepoQuery::IsBare, bare, first),
        steps_to(dir, place_query(bare), place, second),
    ensures
        first is Ok ==> first == Ok::<ResolveStep, Failure>(ResolveStep::Ask(place_query(bare))),
        match resolved(dir, bare, place) {
            Resolution::Path(path) => first is Ok && (second matches Ok(ResolveStep::Path(p)) && p@ == path),
            Resolution::NotARepository { dir: d } => first matches Err(Failure::NotARepository { dir: e }) && e@ == d,
            Resolution::Unresolved { dir: d } => first is Ok && (second matches Err(
                Failure::RepoPathUnresolved { dir: e },
            ) && e@ == d),
            Resolution::NotUtf8 { cause } => first is Ok && (second matches Err(
                Failure::GitOutputNotUtf8 { cause: c },
            ) && c@ == cause),
        },
{
}

/// Two directories about which git says the same, as it does of any two in one work tree, resolve to
/// the same path.
pub proof fn same_answers_resolve_alike(a: Seq<char>, b: Seq<char>, bare: GitOutput, place: GitOutput)
    requires
        resolved(a, bare, place) is Path,
    ensures
        resolved(b, bare, place) == resolved(a, bare, place),
{
}

/// Resolving again changes nothing: a directory that git gives back as the place of its repository
/// resolves to itself.
pub proof fn resolving_again_changes_nothing(dir: Seq<char>, bare: GitOutput, place: GitOutput)
    requires
        bare.success,
        place.success,
        answer(place) == Some(dir),
    ensures
        resolved(dir, bare, place) == Resolution::Path(dir),
{
}


/// Words with a space between each two.
pub open spec fn joined_words(words: Seq<Seq<char>>) -> Seq<char>
    decreases words.len(),
{
    if words.len() == 0 {
        Seq::empty()
    } else if words.len() == 1 {
        words[0]
    } else {
        joined_words(words.drop_last()) + " "@ + words.last()
    }
}

fn join_words(words: &Vec<String>) -> (r: String)
    ensures
        r@ == joined_words(texts(words@)),
{
    let mut r = String::new();
    let mut i: usize = 0;
    assert(texts(words@).take(0) =~= Seq::<Seq<char>>::empty());
    while i < words.len()
        invariant
            i <= words.len(),
            r@ == joined_words(texts(words@).take(i as int)),
        decreases words.len() - i,
    {
        let ghost next = texts(words@).take(i + 1);
        assert(next.drop_last() =~= texts(words@).take(i as int));
        assert(next.last() == words@[i as int]@);
        if i > 0 {
            r.append(" ");
        }
        let ghost before = r@;
        r.append(words[i].as_str());
        assert(i == 0 ==> r@ =~= words@[i as int]@);
        i = i + 1;
    }
    assert(texts(words@).take(i as int) =~= texts(words@));
    r
}

/// What a git command that was run for its effect comes to.
pub fn run_git(args: &Vec<String>, success: bool) -> (r: Result<(), Failure>)
    ensures
        if success {
            r is Ok
        } else {
            r matches Err(Failure::GitFailed { command }) && command@ == joined_words(texts(args@))
        },
{
    if success {
        Ok(())
    } else {
        Err(Failure::GitFailed { command: join_words(args) })
    }
}

/// A directory on the search path for programs.
#[derive(Debug, PartialEq, Eq)]
pub struct SearchDir {
    pub dir: String,
    /// Whether the path of the directory is absolute.
    pub absolute: bool,
    /// Whether it holds a file `git.exe`.
    pub has_git: bool,
}

/// The git executable on Windows: the first `git.exe` in an absolute directory on the search path, or
/// the bare name where there is none. The bare name alone would let the current directory be searched
/// first, so that a `git.exe` planted there (for example in an untrusted clone) would be run; empty
/// and relative entries resolve against the current directory too, and are passed over.
pub fn git_program(search_path: &Vec<SearchDir>) -> (r: String)
    ensures
        ({
            let at = first_where(search_path@, |d: SearchDir| d.absolute && d.has_git);
            r@ == if at < search_path@.len() {
                joined(PathStyle::Windows, search_path@[at].dir@, "git.exe"@)
            } else {
                "git"@
            }
        }),
{
    let ghost p = |d: SearchDir| d.absolute && d.has_git;
    let mut i: usize = 0;
    while i < search_path.len() && !(search_path[i].absolute && search_path[i].has_git)
        invariant
            i <= search_path.len(),
            p == (|d: SearchDir| d.absolute && d.has_git),
            forall|j: int| 0 <= j < i ==> !p(#[trigger] search_path@[j]),
        decreases search_path.len() - i,
    {
        i = i + 1;
    }
    proof {
        lemma_first_where(search_path@, p, i as int);
        reveal_strlit("git.exe");
    }
    if i < search_path.len() {
        join(PathStyle::Windows, search_path[i].dir.as_str(), "git.exe")
    } else {
        "git".to_owned()
    }
}

/// What git says is its output without the white space around it.
pub proof fn the_answer_is_what_was_printed(output: GitOutput, before: Seq<char>, said: Seq<char>, after: Seq<char>)
    requires
        is_blank(before),
        is_blank(after),
        said.len() > 0 ==> !is_white_space(said[0]) && !is_white_space(said.last()),
    ensures
        output.stdout@ == encode_utf8(before + said + after) ==> answer(output) == Some(said),
        answer(output) is Some <==> valid_utf8(output.stdout@),
{
    trimming_takes_white_space_off(before, said, after);
    encode_utf8_valid_utf8(before + said + after);
    encode_utf8_decode_utf8(before + said + after);
}

/// The words of a failed command are named one after the other, with a space between each two.
pub proof fn words_are_joined_in_order(a: Seq<Seq<char>>, word: Seq<char>)
    ensures
        joined_words(seq![word]) == word,
        a.len() > 0 ==> joined_words(a.push(word)) == joined_words(a) + seq![' '] + word,
{
    reveal_strlit(" ");
    assert(a.push(word).drop_last() =~= a);
    assert(" "@ =~= seq![' ']);
}

/// The git that is run on Windows lies in an absolute directory of the search path that has one, and no
/// such directory comes before it; where there is none, git is run by its bare name.
pub proof fn git_is_never_taken_from_a_relative_directory(search_path: &Vec<SearchDir>, program: String)
    requires
        call_ensures(git_program, (search_path,), program),
    ensures
        (forall|i: int| 0 <= i < search_path@.len() ==> !((#[trigger] search_path@[i]).absolute && search_path@[i].has_git))
            ==> program@ == "git"@,
        (exists|i: int| 0 <= i < search_path@.len() && (#[trigger] search_path@[i]).absolute && search_path@[i].has_git)
            ==> exists|i: int|
            {
                &&& 0 <= i < search_path@.len()
                &&& (#[trigger] search_path@[i]).absolute && search_path@[i].has_git
                &&& program@ == joined(PathStyle::Windows, search_path@[i].dir@, "git.exe"@)
                &&& forall|j: int|
                    0 <= j < i ==> !((#[trigger] search_path@[j]).absolute && search_path@[j].has_git)
            },
{
    let p = |d: SearchDir| d.absolute && d.has_git;
    lemma_first_where_bounds(search_path@, p);
    let at = first_where(search_path@, p);
    assert forall|j: int| 0 <= j < at implies !((#[trigger] search_path@[j]).absolute && search_path@[j].has_git) by {
        assert(!p(search_path@[j]));
    }
    if at < search_path@.len() {
        assert(p(search_path@[at]));
        assert(search_path@[at].absolute);
    }
}

/// Whether a repository is bare is asked first: where git says `true`, its git directory is asked for
/// next, and its work tree where it says anything else. Each question is the argument that git knows it
/// by.
pub proof fn bare_repositories_are_asked_for_their_git_directory(
    dir: &str,
    output: GitOutput,
    step: Result<ResolveStep, Failure>,
)
    requires
        call_ensures(resolve_repo, (dir, RepoQuery::IsBare, output), step),
    ensures
        step is Err <==> !output.success,
        step == Ok::<ResolveStep, Failure>(ResolveStep::Ask(RepoQuery::AbsoluteGitDir)) <==> output.success && answer(
            output,
        ) == Some("true"@),
        step == Ok::<ResolveStep, Failure>(ResolveStep::Ask(RepoQuery::ShowToplevel)) <==> output.success && answer(
            output,
        ) != Some("true"@),
        RepoQuery::IsBare.flag_text() == "--is-bare-repository"@,
        RepoQuery::AbsoluteGitDir.flag_text() == "--absolute-git-dir"@,
        RepoQuery::ShowToplevel.flag_text() == "--show-toplevel"@,
{
}

/// Once it is known whether the repository is bare, it is where git says that it is.
pub proof fn repositories_are_where_git_says(
    dir: &str,
    query: RepoQuery,
    output: GitOutput,
    step: Result<ResolveStep, Failure>,
)
    requires
        call_ensures(resolve_repo, (dir, query, output), step),
        query != RepoQuery::IsBare,
    ensures
        step is Ok <==> output.success && answer(output) is Some,
        step is Ok ==> (step matches Ok(ResolveStep::Path(path)) && answer(output) == Some(path@)),
        !output.success ==> (step matches Err(e) && e.text() == "could not resolve repository path for "@ + dir@),
{
}

/// A git command that was run for its effect has come to what git's exit says, and is named where it
/// failed.
pub proof fn commands_succeed_as_git_exits(args: &Vec<String>, success: bool, done: Result<(), Failure>)
    requires
        call_ensures(run_git, (args, success), done),
    ensures
        done is Ok <==> success,
        done matches Err(e) ==> e.text() == "git "@ + joined_words(texts(args@)) + " failed"@,
{
}

} // verus!
