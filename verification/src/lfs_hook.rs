//! Detecting - and defusing - the `git-lfs` pre-push hook on iroh remotes.
//!
//! `git lfs install` leaves a `pre-push` hook that runs `git lfs pre-push` for *every* remote, and
//! git-lfs cannot parse an `iroh://` url: it takes `iroh` for an SSH hostname and retries a doomed
//! `ssh iroh` several times. A repository in which `git iroh lfs-setup` has run does not have that
//! problem, because a standalone transfer agent makes git-lfs skip endpoint resolution. The guard
//! keys on exactly that: a repository that has run `lfs-setup` still runs git-lfs on push, and one
//! that has not skips it, because there git-lfs has no way to transfer over the remote anyway.

use crate::error::Failure;
use crate::git::{answer, answer_of, GitOutput};
use crate::paths::{join, joined, PathStyle};
use crate::text::{
    a_line_ends_at_its_line_feed, a_part_stands_between_two_others, contains_text, find_char, first_at,
    has_prefix, has_text, lemma_first_at, lemma_first_at_bounds, lemma_lines_step, lines,
    lines_of_concat, occurs_at, split_lines, starts_with, texts, trim_start, trimmed_start,
    utf8_refusal, within_a_line,
};
use vstd::prelude::*;

verus! {

/// Marks a hook that has already been guarded, so guarding twice is a no-op and a reader can see
/// what added the lines and why.
pub const GUARD_MARKER: &'static str = "git-iroh: skip git-lfs on iroh:// remotes it cannot transfer over";

/// What follows the marker in the guard, but for the end of its last line. `$2` is the remote url that git passes to `pre-push`;
/// exiting 0 tells git that the hook approved the push.
pub const GUARD_BODY: &'static str = "\n# git-lfs reads the iroh:// scheme as an SSH hostname and retries a doomed\n# `ssh iroh` several times, adding ~20 s to every push - even in a repository\n# that tracks no LFS files. Once `git iroh lfs-setup` has run, git-lfs uses the\n# iroh transfer agent instead and works normally, so only an unconfigured\n# repository skips it. Every other remote falls through untouched.\ncase \"$2\" in iroh://*)\n\tgit config --get lfs.standalonetransferagent >/dev/null 2>&1 || exit 0 ;;\nesac";

/// The guard: a comment with the marker, then the body.
pub open spec fn guard_text() -> Seq<char> {
    "# "@ + GUARD_MARKER@ + GUARD_BODY@ + "\n"@
}

/// What a `pre-push` hook is, as far as this concerns us.
#[derive(Clone, Copy, Debug, PartialEq, Eq, Structural)]
pub enum HookKind {
    /// Runs `git lfs pre-push`, and nothing has guarded it yet.
    UnguardedGitLfs,
    /// Runs `git lfs pre-push` but already skips the iroh remotes it can't serve.
    GuardedGitLfs,
    /// Some other hook. Never touched.
    Other,
}

/// Whether a line of a hook is a comment: its first character that is not white space is `#`, and it
/// is not the shebang line.
pub open spec fn is_comment(ls: Seq<Seq<char>>, i: int) -> bool {
    let t = trim_start(ls[i]);
    t.len() > 0 && t[0] == '#' && !(i == 0 && starts_with(ls[i], "#!"@))
}

/// Whether a line holds the invocation of git-lfs, in either spelling.
pub open spec fn invokes_git_lfs(line: Seq<char>) -> bool {
    contains_text(line, "lfs pre-push"@) || contains_text(line, "lfs-pre-push"@)
}

/// Whether a hook runs git-lfs: the invocation, not the mere word, stands in a line of it that is not
/// a comment.
pub open spec fn runs_git_lfs(contents: Seq<char>) -> bool {
    let ls = lines(contents);
    exists|i: int| 0 <= i < ls.len() && !is_comment(ls, i) && invokes_git_lfs(#[trigger] ls[i])
}

/// What kind of hook has these contents.
pub open spec fn kind_of(contents: Seq<char>) -> HookKind {
    if !runs_git_lfs(contents) {
        HookKind::Other
    } else if contains_text(contents, GUARD_MARKER@) {
        HookKind::GuardedGitLfs
    } else {
        HookKind::UnguardedGitLfs
    }
}

fn invokes(line: &str) -> (r: bool)
    ensures
        r == invokes_git_lfs(line@),
{
    has_text(line, "lfs pre-push") || has_text(line, "lfs-pre-push")
}

/// Whether the line at `i` of a hook is a comment.
fn comments(ls: &Vec<String>, i: usize) -> (r: bool)
    requires
        i < ls.len(),
    ensures
        r == is_comment(texts(ls@), i as int),
{
    let line = ls[i].as_str();
    let t = trimmed_start(line);
    if t.is_empty() || t.get_char(0) != '#' {
        return false;
    }
    !(i == 0 && has_prefix(line, "#!"))
}

/// Classify a hook from its contents. One that merely mentions git-lfs, or names the invocation in a
/// comment, is not one to rewrite.
pub fn classify(contents: &str) -> (r: HookKind)
    ensures
        r == kind_of(contents@),
{
    let ls = split_lines(contents);
    let mut i: usize = 0;
    while i < ls.len()
        invariant
            i <= ls.len(),
            texts(ls@) == lines(contents@),
            forall|j: int|
                0 <= j < i ==> is_comment(texts(ls@), j) || !invokes_git_lfs(#[trigger] texts(ls@)[j]),
        decreases ls.len() - i,
    {
        assert(texts(ls@)[i as int] == ls@[i as int]@);
        if invokes(ls[i].as_str()) && !comments(&ls, i) {
            assert(runs_git_lfs(contents@));
            return if has_text(contents, GUARD_MARKER) {
                HookKind::GuardedGitLfs
            } else {
                HookKind::UnguardedGitLfs
            };
        }
        i = i + 1;
    }
    HookKind::Other
}

/// How many characters of a hook come before the guard: its first line if that is a shebang, and
/// otherwise none.
pub open spec fn shebang_len(contents: Seq<char>) -> int {
    if starts_with(contents, "#!"@) {
        let end = first_at(contents, '\n');
        if end < contents.len() {
            end + 1
        } else {
            end
        }
    } else {
        0
    }
}

/// The hook with the guard in it.
pub open spec fn guarded(contents: Seq<char>) -> Seq<char> {
    let k = shebang_len(contents);
    contents.take(k) + guard_text() + contents.skip(k)
}

/// The hook's contents with the guard inserted directly after its shebang (so that it runs before
/// git-lfs), preserving everything else verbatim.
pub fn insert_guard(contents: &str) -> (r: String)
    ensures
        r@ == guarded(contents@),
{
    let n = contents.unicode_len();
    let mut k: usize = 0;
    if has_prefix(contents, "#!") {
        k = find_char(contents, '\n');
        if k < n {
            k = k + 1;
        }
    }
    let r = contents.substring_char(0, k).to_owned().concat("# ").concat(GUARD_MARKER).concat(GUARD_BODY).concat("\n").concat(
        contents.substring_char(k, n),
    );
    assert(contents@.subrange(0, k as int) =~= contents@.take(k as int));
    assert(contents@.subrange(k as int, n as int) =~= contents@.skip(k as int));
    assert(r@ =~= guarded(contents@));
    r
}

/// What [`guard`] did.
#[derive(Clone, Copy, Debug, PartialEq, Eq, Structural)]
pub enum Outcome {
    /// The guard was inserted.
    Added,
    /// The hook already had it.
    AlreadyGuarded,
    /// No `pre-push` hook, or one that does not run git-lfs.
    NothingToDo,
}

/// What to do about a repository's `pre-push` hook, given its contents if there is one: what to
/// report, and the contents to write instead where they change.
pub fn guard(hook: Option<&str>) -> (r: (Outcome, Option<String>))
    ensures
        match hook {
            None => r.0 == Outcome::NothingToDo && r.1 is None,
            Some(contents) => match kind_of(contents@) {
                HookKind::Other => r.0 == Outcome::NothingToDo && r.1 is None,
                HookKind::GuardedGitLfs => r.0 == Outcome::AlreadyGuarded && r.1 is None,
                HookKind::UnguardedGitLfs => r.0 == Outcome::Added && (r.1 matches Some(new) && new@
                    == guarded(contents@)),
            },
        },
{
    match hook {
        None => (Outcome::NothingToDo, None),
        Some(contents) => match classify(contents) {
            HookKind::Other => (Outcome::NothingToDo, None),
            HookKind::GuardedGitLfs => (Outcome::AlreadyGuarded, None),
            HookKind::UnguardedGitLfs => (Outcome::Added, Some(insert_guard(contents))),
        },
    }
}

/// Whether a repository's `pre-push` hook, given its contents if they could be read, is an unguarded
/// git-lfs hook.
pub fn find_unguarded(hook: Option<&str>) -> (r: bool)
    ensures
        r == (hook matches Some(contents) && kind_of(contents@) == HookKind::UnguardedGitLfs),
{
    match hook {
        Some(contents) => matches!(classify(contents), HookKind::UnguardedGitLfs),
        None => false,
    }
}

proof fn lemma_shebang_len(contents: Seq<char>)
    ensures
        0 <= shebang_len(contents) <= contents.len(),
        0 < shebang_len(contents) < contents.len() ==> contents[shebang_len(contents) - 1] == '\n',
{
    lemma_first_at_bounds(contents, '\n');
}

/// Text that holds `part` still does with more text after it.
proof fn lemma_contains_in_longer(s: Seq<char>, more: Seq<char>, part: Seq<char>)
    requires
        contains_text(s, part),
    ensures
        contains_text(s + more, part),
{
    let at = choose|at: int| occurs_at(s, part, at);
    assert((s + more).subrange(at, at + part.len()) =~= s.subrange(at, at + part.len()));
    assert(occurs_at(s + more, part, at));
}

/// The lines of the guard followed by more are the lines of each.
proof fn lemma_lines_after_guard(rest: Seq<char>)
    ensures
        lines(guard_text() + rest) == lines(guard_text()) + lines(rest),
{
    reveal_strlit("\n");
    assert(guard_text().last() == '\n');
    lines_of_concat(guard_text(), rest);
}

/// Where a hook has no shebang, its lines follow those of the guard.
proof fn lemma_guard_keeps_running_without_shebang(contents: Seq<char>)
    requires
        runs_git_lfs(contents),
        !starts_with(contents, "#!"@),
    ensures
        runs_git_lfs(guarded(contents)),
{
    let ls = lines(contents);
    let i = choose|i: int| 0 <= i < ls.len() && !is_comment(ls, i) && invokes_git_lfs(#[trigger] ls[i]);
    assert(contents.take(0) + guard_text() + contents.skip(0) =~= guard_text() + contents);
    lemma_lines_after_guard(contents);
    let gs = lines(guarded(contents));
    let j = lines(guard_text()).len() + i;
    assert(gs[j] == ls[i]);
    if i == 0 && starts_with(ls[0], "#!"@) {
        lemma_lines_step(contents);
        reveal_strlit("#!");
        assert(ls[0].take(2) =~= contents.take(2));
    }
}

/// Where a hook has a shebang line that ends, the guard comes between it and the other lines.
proof fn lemma_guard_keeps_running_after_shebang(contents: Seq<char>)
    requires
        runs_git_lfs(contents),
        starts_with(contents, "#!"@),
        first_at(contents, '\n') < contents.len(),
    ensures
        runs_git_lfs(guarded(contents)),
{
    let ls = lines(contents);
    let i = choose|i: int| 0 <= i < ls.len() && !is_comment(ls, i) && invokes_git_lfs(#[trigger] ls[i]);
    let k = shebang_len(contents);
    lemma_first_at_bounds(contents, '\n');
    let head = contents.take(k);
    let rest = contents.skip(k);
    assert(head.last() == '\n');
    assert(head + rest =~= contents);
    assert(guarded(contents) =~= head + (guard_text() + rest));
    lines_of_concat(head, rest);
    lines_of_concat(head, guard_text() + rest);
    lemma_lines_after_guard(rest);
    lemma_first_at(head, '\n', k - 1);
    lemma_lines_step(head);
    assert(head.skip(k) =~= Seq::<char>::empty());
    assert(lines(head).len() == 1);
    let gs = lines(guarded(contents));
    if i == 0 {
        assert(gs[0] == ls[0]);
    } else {
        let j = lines(guard_text()).len() + i;
        assert(gs[j] == ls[i]);
    }
}

/// Where a hook is a shebang line that does not end, the line goes on with the guard.
proof fn lemma_guard_keeps_running_on_shebang(contents: Seq<char>)
    requires
        runs_git_lfs(contents),
        starts_with(contents, "#!"@),
        first_at(contents, '\n') >= contents.len(),
    ensures
        runs_git_lfs(guarded(contents)),
{
    reveal_strlit("#!");
    reveal_strlit("# ");
    lemma_first_at_bounds(contents, '\n');
    lemma_lines_step(contents);
    let n = contents.len() as int;
    let g = guarded(contents);
    assert(contents.take(n) =~= contents);
    assert(g =~= contents + guard_text());
    assert(g[n] == '#');
    lemma_first_at_bounds(g, '\n');
    lemma_lines_step(g);
    let end = first_at(g, '\n');
    if end <= n {
        if end < n {
            assert(g[end] == contents[end]);
        }
    }
    let line = lines(g)[0];
    let more = line.skip(n);
    assert(line.take(n) =~= contents);
    assert(line =~= contents + more);
    assert(line.take(2) =~= contents.take(2));
    if contains_text(contents, "lfs pre-push"@) {
        lemma_contains_in_longer(contents, more, "lfs pre-push"@);
    } else {
        lemma_contains_in_longer(contents, more, "lfs-pre-push"@);
    }
    assert(!is_comment(lines(g), 0));
    assert(invokes_git_lfs(lines(g)[0]));
}

/// Guarding is idempotent: a guarded hook is recognized as such, so a second pass leaves it alone.
pub proof fn guarding_is_idempotent(contents: Seq<char>)
    requires
        kind_of(contents) == HookKind::UnguardedGitLfs,
    ensures
        kind_of(guarded(contents)) == HookKind::GuardedGitLfs,
{
    if !starts_with(contents, "#!"@) {
        lemma_guard_keeps_running_without_shebang(contents);
    } else if first_at(contents, '\n') < contents.len() {
        lemma_guard_keeps_running_after_shebang(contents);
    } else {
        lemma_guard_keeps_running_on_shebang(contents);
    }
    let k = shebang_len(contents);
    lemma_shebang_len(contents);
    let g = guarded(contents);
    reveal_strlit("# ");
    let at = k + 2;
    assert(g.subrange(at, at + GUARD_MARKER@.len()) =~= GUARD_MARKER@);
    assert(occurs_at(g, GUARD_MARKER@, at));
}

/// A hook that names the invocation of git-lfs in comments alone, or nowhere, is some other hook.
pub proof fn mentioning_git_lfs_is_not_running_it(contents: Seq<char>)
    requires
        forall|i: int| 0 <= i < lines(contents).len() && invokes_git_lfs(#[trigger] lines(contents)[i])
            ==> is_comment(lines(contents), i),
    ensures
        kind_of(contents) == HookKind::Other,
{
}

/// The guard takes nothing away and comes first: the hook is the guarded hook without the guard, and
/// only a shebang line stands before it.
pub proof fn guard_comes_first_and_keeps_the_hook(contents: Seq<char>)
    ensures
        ({
            let k = shebang_len(contents);
            let n = guard_text().len() as int;
            let g = guarded(contents);
            &&& g.take(k) + g.skip(k + n) == contents
            &&& g.subrange(k, k + n) == guard_text()
            &&& k > 0 ==> starts_with(contents, "#!"@)
            &&& forall|i: int| 0 <= i < k - 1 ==> #[trigger] g[i] != '\n'
        }),
{
    lemma_shebang_len(contents);
    lemma_first_at_bounds(contents, '\n');
    let k = shebang_len(contents);
    let n = guard_text().len() as int;
    let g = guarded(contents);
    assert(g.take(k) =~= contents.take(k));
    assert(g.skip(k + n) =~= contents.skip(k));
    assert(contents.take(k) + contents.skip(k) =~= contents);
    assert(g.subrange(k, k + n) =~= guard_text());
    assert forall|i: int| 0 <= i < k - 1 implies #[trigger] g[i] != '\n' by {
        assert(g[i] == contents[i]);
    }
}

/// The path of a repository's hooks directory from the answer to `git rev-parse --git-path hooks`,
/// which may be relative to the repository.
pub fn hooks_dir(output: GitOutput) -> (r: Result<String, Failure>)
    ensures
        if !output.success {
            r == Err::<String, Failure>(Failure::HooksPathFailed)
        } else {
            match answer(output) {
                Some(path) => r matches Ok(p) && p@ == path,
                None => r matches Err(Failure::GitOutputNotUtf8 { cause }) && cause@ == utf8_refusal(
                    output.stdout@,
                ),
            }
        },
{
    if !output.success {
        return Err(Failure::HooksPathFailed);
    }
    match answer_of(output) {
        Ok(path) => Ok(path),
        Err(cause) => Err(Failure::GitOutputNotUtf8 { cause }),
    }
}

/// The `pre-push` hook's path in a hooks directory.
pub fn pre_push_path(style: PathStyle, hooks: &str) -> (r: String)
    ensures
        r@ == joined(style, hooks@, "pre-push"@),
{
    proof {
        reveal_strlit("pre-push");
    }
    join(style, hooks, "pre-push")
}

/// The lines that warn of an unguarded git-lfs hook.
pub open spec fn unguarded_warning(hook_path: Seq<char>) -> Seq<Seq<char>> {
    seq![
        ""@,
        "warning: this repository has a git-lfs pre-push hook ("@ + hook_path + ")."@,
        "  git-lfs can't parse iroh:// URLs - it reads the scheme as an SSH host and retries"@,
        "  a doomed `ssh iroh` several times, adding ~20 s to every push to an iroh remote."@,
        "  Run `git iroh guard-lfs-hook` to skip git-lfs where it can't transfer anyway."@,
    ]
}

/// The warning, line by line, that a repository's git-lfs hook will stall pushes to an iroh remote;
/// no lines where there is nothing to say. `hook` is the contents of the hook at `hook_path`, if
/// they could be read.
pub fn warn_if_unguarded(hook_path: &str, hook: Option<&str>) -> (r: Vec<String>)
    ensures
        texts(r@) == if hook matches Some(contents) && kind_of(contents@) == HookKind::UnguardedGitLfs {
            unguarded_warning(hook_path@)
        } else {
            Seq::empty()
        },
{
    let mut r: Vec<String> = Vec::new();
    if !find_unguarded(hook) {
        assert(texts(r@) =~= Seq::<Seq<char>>::empty());
        return r;
    }
    r.push("".to_owned());
    r.push("warning: this repository has a git-lfs pre-push hook (".to_owned().concat(hook_path).concat(")."));
    r.push("  git-lfs can't parse iroh:// URLs - it reads the scheme as an SSH host and retries".to_owned());
    r.push("  a doomed `ssh iroh` several times, adding ~20 s to every push to an iroh remote.".to_owned());
    r.push("  Run `git iroh guard-lfs-hook` to skip git-lfs where it can't transfer anyway.".to_owned());
    assert(texts(r@) =~= unguarded_warning(hook_path@));
    r
}

/// A line that invokes git-lfs is found wherever it stands in a hook, if it is no comment; a comment
/// behind the first line plays no part, whatever it mentions.
pub proof fn every_line_of_a_hook_is_looked_at(before: Seq<char>, line: Seq<char>, after: Seq<char>)
    requires
        before.len() > 0 ==> before.last() == '\n',
        within_a_line(line),
        line.len() > 0 ==> line.last() != '\r',
    ensures
        ({
            let t = trim_start(line);
            &&& (t.len() == 0 || t[0] != '#') && invokes_git_lfs(line) ==> kind_of(before + (line + seq!['\n'] + after))
                != HookKind::Other
            &&& t.len() > 0 && t[0] == '#' && before.len() > 0 ==> (runs_git_lfs(
                before + (line + seq!['\n'] + after),
            ) <==> runs_git_lfs(before + after))
        }),
{
    let rest = line + seq!['\n'] + after;
    let s = before + rest;
    lines_of_concat(before, rest);
    lines_of_concat(before, after);
    a_line_ends_at_its_line_feed(line, after);
    let (bs, all, less) = (lines(before), lines(s), lines(before + after));
    let k = bs.len() as int;
    assert(all == bs + (seq![line] + lines(after)));
    assert(less == bs + lines(after));
    assert(all[k] == line);
    let t = trim_start(line);
    if (t.len() == 0 || t[0] != '#') && invokes_git_lfs(line) {
        assert(!is_comment(all, k));
        assert(runs_git_lfs(s));
    }
    if t.len() > 0 && t[0] == '#' && before.len() > 0 {
        lemma_lines_step(before);
        assert(k > 0);
        assert(is_comment(all, k));
        if runs_git_lfs(s) {
            let i = choose|i: int|
                0 <= i < all.len() && !is_comment(all, i) && invokes_git_lfs(#[trigger] all[i]);
            let j = if i < k { i } else { i - 1 };
            assert(less[j] == all[i]);
            assert(!is_comment(less, j));
        }
        if runs_git_lfs(before + after) {
            let j = choose|j: int|
                0 <= j < less.len() && !is_comment(less, j) && invokes_git_lfs(#[trigger] less[j]);
            let i = if j < k { j } else { j + 1 };
            assert(all[i] == less[j]);
            assert(!is_comment(all, i));
        }
    }
}

/// A hook is rewritten exactly if it runs git-lfs without the guard, which is exactly where it is warned
/// about; the new hook has the old one's characters, and the guard.
pub proof fn only_unguarded_hooks_are_rewritten(
    hook: Option<&str>,
    done: (Outcome, Option<String>),
    found: bool,
    path: &str,
    warning: Vec<String>,
)
    requires
        call_ensures(guard, (hook,), done),
        call_ensures(find_unguarded, (hook,), found),
        call_ensures(warn_if_unguarded, (path, hook), warning),
    ensures
        found <==> done.0 == Outcome::Added,
        found <==> done.1 is Some,
        found <==> warning@.len() > 0,
        found <==> (hook matches Some(contents) && runs_git_lfs(contents@) && !contains_text(
            contents@,
            GUARD_MARKER@,
        )),
        done.0 == Outcome::AlreadyGuarded <==> (hook matches Some(contents) && runs_git_lfs(contents@)
            && contains_text(contents@, GUARD_MARKER@)),
        (hook matches Some(contents) && done.1 matches Some(new)) ==> (hook matches Some(contents) && done.1 matches Some(
            new,
        ) && new@.len() == contents@.len() + guard_text().len() && contains_text(new@, guard_text())),
        found ==> warning@.len() == 5 && contains_text(warning@[1]@, path@),
{
    assert(texts(warning@).len() == warning@.len());
    if found {
        let contents = hook->0@;
        let k = shebang_len(contents);
        lemma_shebang_len(contents);
        a_part_stands_between_two_others(contents.take(k), guard_text(), contents.skip(k), contents);
        assert(texts(warning@)[1] == warning@[1]@);
        a_part_stands_between_two_others(
            "warning: this repository has a git-lfs pre-push hook ("@,
            path@,
            ")."@,
            path@,
        );
    }
}

/// The hook that counts is the file `pre-push` in the directory that git names.
pub proof fn the_hook_lies_where_git_says(output: GitOutput, dir: Result<String, Failure>, hooks: &str, path: String)
    requires
        call_ensures(hooks_dir, (output,), dir),
        call_ensures(pre_push_path, (PathStyle::Unix, hooks), path),
        hooks@.len() > 0,
        hooks@.last() != '/',
    ensures
        dir is Ok <==> output.success && answer(output) is Some,
        dir matches Ok(d) ==> answer(output) == Some(d@),
        path@ == hooks@ + "/pre-push"@,
{
    reveal_strlit("/");
    reveal_strlit("pre-push");
    reveal_strlit("/pre-push");
    assert(hooks@ + "/"@ + "pre-push"@ =~= hooks@ + "/pre-push"@);
}

/// A shebang line is no comment: a hook that is run by git-lfs runs it, whatever follows.
pub proof fn a_shebang_can_run_git_lfs(line: Seq<char>, after: Seq<char>)
    requires
        within_a_line(line),
        line.len() > 0 ==> line.last() != '\r',
        starts_with(line, "#!"@),
        invokes_git_lfs(line),
    ensures
        runs_git_lfs(line + seq!['\n'] + after),
        runs_git_lfs(line),
{
    reveal_strlit("#!");
    a_line_ends_at_its_line_feed(line, after);
    let (one, more) = (lines(line), lines(line + seq!['\n'] + after));
    assert(one[0] == line && more[0] == line);
    assert(!is_comment(one, 0) && !is_comment(more, 0));
}

} // verus!
