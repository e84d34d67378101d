//! Git as a subprocess: the commands that are run, and what is made of their
//! output.

use crate::errors;
use crate::errors::{Error, ErrorView, FailureKind, RgcError};
use crate::refs;
use crate::refs::{RefEntry, RefEntryView};
use crate::state::ChainState;
use crate::text;
use vstd::prelude::*;

verus! {

#[derive(Debug)]
pub struct GitOutput {
    pub stdout: String,
    pub stderr: String,
}

// ----------------------------------------------------------------- the result

/// What a git command failed with.
pub open spec fn git_failure(
    kind: FailureKind,
    quoted_args: Seq<char>,
    stderr: Seq<char>,
) -> ErrorView {
    ErrorView::classified(
        kind,
        "git "@ + quoted_args + " failed: "@ + text::trimmed_end(stderr),
    )
}

pub fn git_error(kind: FailureKind, quoted_args: &str, stderr: &str) -> (r: Error)
    ensures
        r@ == git_failure(kind, quoted_args@, stderr@),
{
    let v = text::chars_of(stderr);
    let mut m = String::from_str("git ");
    m.append(quoted_args);
    m.append(" failed: ");
    m.append(text::string_of(text::trim_end(v.as_slice())).as_str());
    Error::Rgc(RgcError::from_kind(kind, m))
}

/// The result of a git command that has ended: its output, or, where it did not
/// succeed, a failure of the kind that its diagnostics tell of.
pub fn git_result(args: &Vec<String>, success: bool, stdout: &[u8], stderr: &[u8]) -> (r: Result<
    GitOutput,
    Error,
>)
    ensures
        r is Ok <==> success,
        r matches Ok(o) ==> o.stdout@ == text::lossy_text(stdout@) && o.stderr@
            == text::lossy_text(stderr@),
        r matches Err(e) ==> e@ == git_failure(
            errors::kind_told_by(text::lowercase(text::lossy_text(stderr@))),
            text::debug_list(text::texts(args@)),
            text::lossy_text(stderr@),
        ),
        r matches Err(e) ==> (vstd::utf8::is_ascii_chars(text::lossy_text(stderr@)) ==> e@.kind
            == Some(errors::kind_told_by(text::small_letters(text::lossy_text(stderr@))))),
{
    let out = GitOutput { stdout: text::from_bytes(stdout), stderr: text::from_bytes(stderr) };
    if success {
        Ok(out)
    } else {
        let kind = errors::classify(out.stderr.as_str());
        Err(git_error(kind, text::quote_list(args).as_str(), out.stderr.as_str()))
    }
}

/// What a git command ends with that could not be started.
pub fn spawn_error(args: &Vec<String>, cause: &str) -> (r: Error)
    ensures
        r@ == ErrorView::plain(
            "failed to spawn git "@ + text::debug_list(text::texts(args@)) + ": "@ + cause@,
        ),
{
    let mut m = String::from_str("failed to spawn git ");
    m.append(text::quote_list(args).as_str());
    m.append(": ");
    m.append(cause);
    Error::Other(m)
}

/// Does the main repository have any refs? A listing that failed counts as none.
pub fn main_has_refs(listing: &Result<GitOutput, Error>) -> (r: bool)
    ensures
        r == (listing matches Ok(o) && text::trimmed(o.stdout@).len() > 0),
{
    match listing {
        Ok(o) => {
            let v = text::chars_of(o.stdout.as_str());
            text::trim(v.as_slice()).len() > 0
        },
        Err(_) => false,
    }
}

/// The number of commits of a branch. A count that failed, or that is no number,
/// is zero.
pub open spec fn commits_counted(counted: Option<Seq<char>>) -> u32 {
    match counted {
        Some(s) => match text::number_in(text::trimmed(s)) {
            Some(n) => n,
            None => 0,
        },
        None => 0,
    }
}

pub fn commit_count(counted: &Result<GitOutput, Error>) -> (r: u32)
    ensures
        r == commits_counted(
            match counted {
                Ok(o) => Some(o.stdout@),
                Err(_) => None,
            },
        ),
{
    match counted {
        Ok(o) => {
            let v = text::chars_of(o.stdout.as_str());
            match text::parse_u32(text::trim(v.as_slice())) {
                Some(n) => n,
                None => 0,
            }
        },
        Err(_) => 0,
    }
}

// ------------------------------------------------------------ the environment

/// The variables that would send git to another repository. They are taken out of
/// the environment of every command.
pub open spec fn misleading_vars() -> Seq<Seq<char>> {
    seq![
        "GIT_DIR"@,
        "GIT_WORK_TREE"@,
        "GIT_INDEX_FILE"@,
        "GIT_OBJECT_DIRECTORY"@,
        "GIT_ALTERNATE_OBJECT_DIRECTORIES"@,
        "GIT_COMMON_DIR"@,
        "GIT_NAMESPACE"@,
    ]
}

pub fn scrubbed_vars() -> (r: Vec<String>)
    ensures
        text::texts(r@) == misleading_vars(),
{
    let r = text::words(
        vec![
            "GIT_DIR",
            "GIT_WORK_TREE",
            "GIT_INDEX_FILE",
            "GIT_OBJECT_DIRECTORY",
            "GIT_ALTERNATE_OBJECT_DIRECTORIES",
            "GIT_COMMON_DIR",
            "GIT_NAMESPACE",
        ],
    );
    assert(text::texts(r@) =~= misleading_vars());
    r
}

/// The variables that every command is given: no prompt for credentials, and
/// diagnostics in English.
pub fn fixed_vars() -> (r: Vec<(String, String)>)
    ensures
        r@.len() == 2,
        r@[0].0@ == "GIT_TERMINAL_PROMPT"@ && r@[0].1@ == "0"@,
        r@[1].0@ == "LC_ALL"@ && r@[1].1@ == "C"@,
{
    vec![
        (String::from_str("GIT_TERMINAL_PROMPT"), String::from_str("0")),
        (String::from_str("LC_ALL"), String::from_str("C")),
    ]
}

// ------------------------------------------------------- the main repository

pub fn list_some_ref_args() -> (r: Vec<String>)
    ensures
        text::texts(r@) == seq![
            "for-each-ref"@,
            "--count=1"@,
            "refs/remotes/origin"@,
            "refs/tags"@,
            "refs/heads"@,
        ],
{
    let r = text::words(
        vec!["for-each-ref", "--count=1", "refs/remotes/origin", "refs/tags", "refs/heads"],
    );
    assert(text::texts(r@) =~= seq![
        "for-each-ref"@,
        "--count=1"@,
        "refs/remotes/origin"@,
        "refs/tags"@,
        "refs/heads"@,
    ]);
    r
}

pub fn init_args(path: &str) -> (r: Vec<String>)
    ensures
        text::texts(r@) == seq!["init"@, "--quiet"@, path@],
{
    let r = text::words(vec!["init", "--quiet", path]);
    assert(text::texts(r@) =~= seq!["init"@, "--quiet"@, path@]);
    r
}

pub fn origin_url_args() -> (r: Vec<String>)
    ensures
        text::texts(r@) == seq!["remote"@, "get-url"@, "origin"@],
{
    let r = text::words(vec!["remote", "get-url", "origin"]);
    assert(text::texts(r@) =~= seq!["remote"@, "get-url"@, "origin"@]);
    r
}

pub fn add_origin_args(url: &str) -> (r: Vec<String>)
    ensures
        text::texts(r@) == seq!["remote"@, "add"@, "origin"@, url@],
{
    let r = text::words(vec!["remote", "add", "origin", url]);
    assert(text::texts(r@) =~= seq!["remote"@, "add"@, "origin"@, url@]);
    r
}

/// Nothing may be collected as garbage while pieces borrow objects.
pub fn no_gc_args() -> (r: Vec<String>)
    ensures
        text::texts(r@) == seq!["config"@, "gc.auto"@, "0"@],
{
    let r = text::words(vec!["config", "gc.auto", "0"]);
    assert(text::texts(r@) =~= seq!["config"@, "gc.auto"@, "0"@]);
    r
}

/// The object that a ref resolves to, if it resolves at all.
pub open spec fn resolve_command(name: Seq<char>) -> Seq<Seq<char>> {
    seq!["rev-parse"@, "--verify"@, name]
}

pub fn resolve_args(name: &str) -> (r: Vec<String>)
    ensures
        text::texts(r@) == resolve_command(name@),
{
    let r = text::words(vec!["rev-parse", "--verify", name]);
    assert(text::texts(r@) =~= resolve_command(name@));
    r
}

pub fn delete_ref_args(name: &str) -> (r: Vec<String>)
    ensures
        text::texts(r@) == seq!["update-ref"@, "-d"@, name@],
{
    let r = text::words(vec!["update-ref", "-d", name]);
    assert(text::texts(r@) =~= seq!["update-ref"@, "-d"@, name@]);
    r
}

// --------------------------------------------------- the repository of a piece

pub fn git_dir_args() -> (r: Vec<String>)
    ensures
        text::texts(r@) == seq!["rev-parse"@, "--git-dir"@],
{
    let r = text::words(vec!["rev-parse", "--git-dir"]);
    assert(text::texts(r@) =~= seq!["rev-parse"@, "--git-dir"@]);
    r
}

/// The repository of a piece borrows the objects of the main one.
pub fn clone_shared_args(main: &str, piece: &str) -> (r: Vec<String>)
    ensures
        text::texts(r@) == seq![
            "clone"@,
            "--shared"@,
            "--no-checkout"@,
            "--quiet"@,
            main@,
            piece@,
        ],
{
    let r = text::words(vec!["clone", "--shared", "--no-checkout", "--quiet", main, piece]);
    assert(text::texts(r@) =~= seq![
        "clone"@,
        "--shared"@,
        "--no-checkout"@,
        "--quiet"@,
        main@,
        piece@,
    ]);
    r
}

pub fn set_origin_args(url: &str) -> (r: Vec<String>)
    ensures
        text::texts(r@) == seq!["remote"@, "set-url"@, "origin"@, url@],
{
    let r = text::words(vec!["remote", "set-url", "origin", url]);
    assert(text::texts(r@) =~= seq!["remote"@, "set-url"@, "origin"@, url@]);
    r
}

/// What the main repository has, a piece need not fetch: it gets the refs too.
pub fn borrow_refs_args(main: &str) -> (r: Vec<String>)
    ensures
        text::texts(r@) == seq![
            "fetch"@,
            "--quiet"@,
            main@,
            "+refs/remotes/origin/*:refs/remotes/origin/*"@,
            "+refs/tags/*:refs/tags/*"@,
        ],
{
    let r = text::words(
        vec![
            "fetch",
            "--quiet",
            main,
            "+refs/remotes/origin/*:refs/remotes/origin/*",
            "+refs/tags/*:refs/tags/*",
        ],
    );
    assert(text::texts(r@) =~= seq![
        "fetch"@,
        "--quiet"@,
        main@,
        "+refs/remotes/origin/*:refs/remotes/origin/*"@,
        "+refs/tags/*:refs/tags/*"@,
    ]);
    r
}

pub fn count_commits_args(short: &str) -> (r: Vec<String>)
    ensures
        text::texts(r@) == seq!["rev-list"@, "--count"@, "refs/heads/"@ + short@],
{
    let branch = text::cat("refs/heads/", short);
    let r = text::words(vec!["rev-list", "--count", branch.as_str()]);
    assert(text::texts(r@) =~= seq!["rev-list"@, "--count"@, "refs/heads/"@ + short@]);
    r
}

/// `+from:to`.
pub open spec fn refspec(from: Seq<char>, to: Seq<char>) -> Seq<char> {
    "+"@ + from + ":"@ + to
}

fn refspec_of(from: &str, to: &str) -> (r: String)
    ensures
        r@ == refspec(from@, to@),
{
    let mut out = String::from_str("+");
    out.append(from);
    out.append(":");
    out.append(to);
    out
}

/// One step of a chain. Without shallow support the whole branch is fetched; a
/// branch that is there and shallow is deepened; one that is not there is begun
/// at the depth that it had and a step more; one that is complete needs nothing.
pub open spec fn chain_fetch(
    full_ref: Seq<char>,
    short: Seq<char>,
    at: ChainState,
    has_local: bool,
    shallow: bool,
) -> Option<Seq<Seq<char>>> {
    let spec = refspec(full_ref, "refs/heads/"@ + short);
    if at.no_shallow {
        Some(seq!["fetch"@, "--quiet"@, "origin"@, spec])
    } else if has_local && shallow {
        Some(
            seq![
                "fetch"@,
                "--quiet"@,
                "--deepen="@ + text::decimal(at.step as nat),
                "origin"@,
                spec,
            ],
        )
    } else if !has_local {
        Some(
            seq![
                "fetch"@,
                "--quiet"@,
                "--depth="@ + text::decimal((at.depth_done + at.step) as nat),
                "origin"@,
                spec,
            ],
        )
    } else {
        None
    }
}

pub open spec fn command(args: Option<Vec<String>>) -> Option<Seq<Seq<char>>> {
    match args {
        Some(v) => Some(text::texts(v@)),
        None => None,
    }
}

pub fn chain_fetch_args(
    full_ref: &str,
    short: &str,
    at: &ChainState,
    has_local: bool,
    shallow: bool,
) -> (r: Option<Vec<String>>)
    ensures
        command(r) == chain_fetch(full_ref@, short@, *at, has_local, shallow),
{
    let spec = refspec_of(full_ref, text::cat("refs/heads/", short).as_str());
    if at.no_shallow {
        let r = text::words(vec!["fetch", "--quiet", "origin", spec.as_str()]);
        assert(text::texts(r@) =~= chain_fetch(full_ref@, short@, *at, has_local, shallow)->0);
        Some(r)
    } else if has_local && shallow {
        let mut d = String::from_str("--deepen=");
        text::push_decimal(&mut d, at.step as u64);
        let r = text::words(vec!["fetch", "--quiet", d.as_str(), "origin", spec.as_str()]);
        assert(text::texts(r@) =~= chain_fetch(full_ref@, short@, *at, has_local, shallow)->0);
        Some(r)
    } else if !has_local {
        let mut d = String::from_str("--depth=");
        text::push_decimal(&mut d, at.depth_done as u64 + at.step as u64);
        let r = text::words(vec!["fetch", "--quiet", d.as_str(), "origin", spec.as_str()]);
        assert(text::texts(r@) =~= chain_fetch(full_ref@, short@, *at, has_local, shallow)->0);
        Some(r)
    } else {
        None
    }
}

/// Is the chain stuck? After the remote has rewritten its history the old
/// boundary can be no part of the branch any more, and then no deepening ever
/// removes it. `reachable` says of each boundary commit whether the branch has it.
pub fn is_wedged(reachable: &Vec<bool>) -> (r: bool)
    ensures
        r == (reachable@.len() > 0 && !reachable@.contains(true)),
{
    for i in 0..reachable.len()
        invariant
            forall|j: int| 0 <= j < i ==> !#[trigger] reachable@[j],
    {
        if reachable[i] {
            return false;
        }
    }
    reachable.len() > 0
}

/// The boundary commits that git has noted down, one on each line.
pub fn boundary_commits(noted: &str) -> (r: Vec<String>)
    ensures
        text::texts(r@) == text::lines_of(noted@),
{
    text::owned_lines(noted)
}

pub fn is_ancestor_args(commit: &str, short: &str) -> (r: Vec<String>)
    ensures
        text::texts(r@) == seq![
            "merge-base"@,
            "--is-ancestor"@,
            commit@,
            "refs/heads/"@ + short@,
        ],
{
    let branch = text::cat("refs/heads/", short);
    let r = text::words(vec!["merge-base", "--is-ancestor", commit, branch.as_str()]);
    assert(text::texts(r@) =~= seq![
        "merge-base"@,
        "--is-ancestor"@,
        commit@,
        "refs/heads/"@ + short@,
    ]);
    r
}

/// Where a branch is moved to: its final place, or, while it is not complete, one
/// that no other piece reads.
pub open spec fn destination(short: Seq<char>, last: bool) -> Seq<char> {
    if last {
        "refs/remotes/origin/"@ + short
    } else {
        "refs/rgc/wip/"@ + short
    }
}

/// Moves a branch from the repository of a piece into the main one. Git refuses to
/// do so from a shallow repository, and says nothing: that is an error here.
pub fn transport_args(
    piece: &str,
    full_ref: &str,
    short: &str,
    last: bool,
    shallow: bool,
) -> (r: Result<Vec<String>, Error>)
    ensures
        r is Err <==> shallow,
        r matches Err(e) ==> e@ == ErrorView::plain(
            "refusing to transport "@ + full_ref@ + " from a shallow piece repository"@,
        ),
        r matches Ok(v) ==> text::texts(v@) == seq![
            "fetch"@,
            "--quiet"@,
            piece@,
            refspec(full_ref@, destination(short@, last)),
        ],
{
    if shallow {
        let mut m = String::from_str("refusing to transport ");
        m.append(full_ref);
        m.append(" from a shallow piece repository");
        return Err(Error::Other(m));
    }
    let to = if last {
        text::cat("refs/remotes/origin/", short)
    } else {
        text::cat("refs/rgc/wip/", short)
    };
    let spec = refspec_of(full_ref, to.as_str());
    let r = text::words(vec!["fetch", "--quiet", piece, spec.as_str()]);
    assert(text::texts(r@) =~= seq![
        "fetch"@,
        "--quiet"@,
        piece@,
        refspec(full_ref@, destination(short@, last)),
    ]);
    Ok(r)
}

/// Where a branch stands that is moved before it is complete.
pub fn wip_ref(short: &str) -> (r: String)
    ensures
        r@ == destination(short@, false),
{
    text::cat("refs/rgc/wip/", short)
}

/// The refspecs of tags: the very object that the listing named for each.
pub open spec fn pinned_refspecs(tags: Seq<RefEntryView>) -> Seq<Seq<char>> {
    tags.map_values(|t: RefEntryView| refspec(t.oid, t.full_name))
}

/// The refspecs of tags under their own names.
pub open spec fn named_refspecs(tags: Seq<RefEntryView>) -> Seq<Seq<char>> {
    tags.map_values(|t: RefEntryView| refspec(t.full_name, t.full_name))
}

/// Fetches the tags of a batch in one connection, each pinned to its object and
/// never shallow.
pub fn fetch_tags_args(tags: &Vec<RefEntry>) -> (r: Vec<String>)
    ensures
        text::texts(r@) == seq!["fetch"@, "--quiet"@, "--no-tags"@, "origin"@] + pinned_refspecs(
            refs::entries(tags@),
        ),
{
    let ghost lead = seq!["fetch"@, "--quiet"@, "--no-tags"@, "origin"@];
    let ghost specs = pinned_refspecs(refs::entries(tags@));
    let mut r = text::words(vec!["fetch", "--quiet", "--no-tags", "origin"]);
    assert(text::texts(r@) =~= lead + specs.take(0));
    for i in 0..tags.len()
        invariant
            specs == pinned_refspecs(refs::entries(tags@)),
            text::texts(r@) == lead + specs.take(i as int),
    {
        let ghost before = r@;
        r.push(refspec_of(tags[i].oid.as_str(), tags[i].full_name.as_str()));
        assert(text::texts(r@) =~= text::texts(before).push(specs[i as int]));
        assert(text::texts(r@) =~= lead + specs.take(i + 1));
    }
    assert(specs.take(tags@.len() as int) =~= specs);
    r
}

/// Moves the tags of a batch from the repository of a piece into the main one.
pub fn transport_tags_args(piece: &str, tags: &Vec<RefEntry>) -> (r: Vec<String>)
    ensures
        text::texts(r@) == seq!["fetch"@, "--quiet"@, piece@] + named_refspecs(
            refs::entries(tags@),
        ),
{
    let ghost lead = seq!["fetch"@, "--quiet"@, piece@];
    let ghost specs = named_refspecs(refs::entries(tags@));
    let mut r = text::words(vec!["fetch", "--quiet", piece]);
    assert(text::texts(r@) =~= lead + specs.take(0));
    for i in 0..tags.len()
        invariant
            specs == named_refspecs(refs::entries(tags@)),
            text::texts(r@) == lead + specs.take(i as int),
    {
        let ghost before = r@;
        r.push(refspec_of(tags[i].full_name.as_str(), tags[i].full_name.as_str()));
        assert(text::texts(r@) =~= text::texts(before).push(specs[i as int]));
        assert(text::texts(r@) =~= lead + specs.take(i + 1));
    }
    assert(specs.take(tags@.len() as int) =~= specs);
    r
}

// ----------------------------------------------------------------------- laws

/// A chain that takes full fetches never asks for a depth, and a complete chain
/// asks for nothing.
pub proof fn law_depth_only_where_shallow(
    full_ref: Seq<char>,
    short: Seq<char>,
    at: ChainState,
    has_local: bool,
    shallow: bool,
)
    ensures
        at.no_shallow ==> chain_fetch(full_ref, short, at, has_local, shallow)->0.len() == 4,
        chain_fetch(full_ref, short, at, has_local, shallow) is None <==> !at.no_shallow
            && has_local && !shallow,
{
}

/// A branch that is still being fetched is never moved to where other pieces
/// would take it for complete.
pub proof fn law_unfinished_branches_stay_apart(short: Seq<char>, other: Seq<char>)
    ensures
        destination(short, false) != destination(other, true),
{
    reveal_strlit("refs/remotes/origin/");
    reveal_strlit("refs/rgc/wip/");
    assert(destination(short, false)[6] == 'g');
    assert(destination(other, true)[6] == 'e');
}

/// What a failed command is told as: the kind of the failure, the whole command, and all
/// that git wrote, but for the space at its end.
pub proof fn law_what_a_failed_command_is_told_as(
    kind: FailureKind,
    quoted: Seq<char>,
    stderr: Seq<char>,
    tail: Seq<char>,
)
    requires
        forall|i: int| 0 <= i < tail.len() ==> text::is_space(#[trigger] tail[i]),
        stderr.len() > 0 ==> !text::is_space(stderr[stderr.len() - 1]),
    ensures
        git_failure(kind, quoted, stderr + tail).kind == Some(kind),
        git_failure(kind, quoted, stderr + tail).context.len() == 0,
        git_failure(kind, quoted, stderr + tail).message == "git "@ + quoted + " failed: "@
            + stderr,
{
    assert(text::all_space(tail));
    lemma_end_is_trimmed(stderr, tail);
}

proof fn lemma_end_is_trimmed(s: Seq<char>, tail: Seq<char>)
    requires
        text::all_space(tail),
        s.len() > 0 ==> !text::is_space(s[s.len() - 1]),
    ensures
        text::trimmed_end(s + tail) == s,
    decreases tail.len(),
{
    let whole = s + tail;
    if tail.len() > 0 {
        assert(text::is_space(tail[tail.len() - 1]));
        assert(whole.drop_last() =~= s + tail.drop_last());
        lemma_end_is_trimmed(s, tail.drop_last());
    } else {
        assert(whole =~= s);
    }
}

/// A count of commits that git has written is the number it stands for, whatever space
/// stands round it; what is no number, and what was not written at all, counts as none.
pub proof fn law_commits_are_counted(n: u32, s: Seq<char>, lead: Seq<char>, tail: Seq<char>)
    requires
        forall|i: int| 0 <= i < lead.len() ==> text::is_space(#[trigger] lead[i]),
        forall|i: int| 0 <= i < tail.len() ==> text::is_space(#[trigger] tail[i]),
    ensures
        commits_counted(Some(lead + text::decimal(n as nat) + tail)) == n,
        commits_counted(None) == 0,
        text::number_in(text::trimmed(s)) is None ==> commits_counted(Some(s)) == 0,
        text::number_in(text::trimmed(s)) matches Some(k) ==> commits_counted(Some(s)) == k,
{
    let d = text::decimal(n as nat);
    text::law_decimal_reads_back(n as nat);
    assert('0' <= d[0] <= '9');
    assert('0' <= d[d.len() - 1] <= '9');
    text::law_trim_takes_off_space_alone(lead, d, tail);
}

/// The variables that would mislead git, all of them.
pub proof fn law_misleading_variables()
    ensures
        misleading_vars() == seq![
            "GIT_DIR"@,
            "GIT_WORK_TREE"@,
            "GIT_INDEX_FILE"@,
            "GIT_OBJECT_DIRECTORY"@,
            "GIT_ALTERNATE_OBJECT_DIRECTORIES"@,
            "GIT_COMMON_DIR"@,
            "GIT_NAMESPACE"@,
        ],
{
}

/// How a ref is looked up, and how one is fetched into another, by force.
pub proof fn law_how_refs_are_named(from: Seq<char>, to: Seq<char>)
    ensures
        resolve_command(from) == seq!["rev-parse"@, "--verify"@, from],
        refspec(from, to) == "+"@ + from + ":"@ + to,
        destination(to, true) == "refs/remotes/origin/"@ + to,
        destination(to, false) == "refs/rgc/wip/"@ + to,
{
}

/// The fetch of a step, argument by argument. In full where shallow fetches are not
/// taken, whatever is there; deeper by the step where the branch is there and shallow;
/// to the depth that it had and the step where it is not there; and none where it is
/// complete. It is always of that branch, into the branch of its name.
pub proof fn law_fetch_of_a_step(
    full_ref: Seq<char>,
    short: Seq<char>,
    depth: u32,
    step: u32,
    shallow: bool,
    local: bool,
)
    ensures
        ({
            let spec = "+"@ + full_ref + ":"@ + ("refs/heads/"@ + short);
            let full = ChainState { depth_done: depth, step, no_shallow: true };
            let at = ChainState { depth_done: depth, step, no_shallow: false };
            &&& chain_fetch(full_ref, short, full, local, shallow) == Some(
                seq!["fetch"@, "--quiet"@, "origin"@, spec],
            )
            &&& chain_fetch(full_ref, short, at, true, true) == Some(
                seq![
                    "fetch"@,
                    "--quiet"@,
                    "--deepen="@ + text::decimal(step as nat),
                    "origin"@,
                    spec,
                ],
            )
            &&& chain_fetch(full_ref, short, at, false, shallow) == Some(
                seq![
                    "fetch"@,
                    "--quiet"@,
                    "--depth="@ + text::decimal((depth + step) as nat),
                    "origin"@,
                    spec,
                ],
            )
            &&& chain_fetch(full_ref, short, at, true, false) is None
        }),
{
}

/// A tag is fetched as the very object that was listed for it, under its own name, and
/// moved under that name; every tag of a batch is, in their order.
pub proof fn law_tags_are_pinned(tags: Seq<RefEntryView>, i: int)
    ensures
        pinned_refspecs(tags).len() == tags.len(),
        named_refspecs(tags).len() == tags.len(),
        0 <= i < tags.len() ==> pinned_refspecs(tags)[i] == "+"@ + tags[i].oid + ":"@
            + tags[i].full_name,
        0 <= i < tags.len() ==> named_refspecs(tags)[i] == "+"@ + tags[i].full_name + ":"@
            + tags[i].full_name,
{
}

/// A command is spoken of by its arguments, one by one.
pub proof fn law_commands_are_spoken_of_by_arguments(args: Option<Vec<String>>)
    ensures
        match args {
            Some(v) => command(args) == Some(text::texts(v@)),
            None => command(args) is None,
        },
{
}

} // verus!
