//! The end of a clone: catch up with the remote, check out the default branch,
//! verify, and clean up.

use crate::errors::{Error, ErrorView};
use crate::planner::{Piece, PieceView, Plan, PlanView};
use crate::refs;
use crate::refs::{RefEntryView, RemoteRefs, RemoteRefsView};
use crate::text;
use vstd::prelude::*;

verus! {

// ---------------------------------------------------------- the default branch

/// The branch of the first chain.
pub open spec fn first_chain(pieces: Seq<PieceView>) -> Option<Seq<char>>
    decreases pieces.len(),
{
    if pieces.len() == 0 {
        None
    } else {
        match pieces[0] {
            PieceView::Chain { short_name, .. } => Some(short_name),
            PieceView::TagBatch { .. } => first_chain(pieces.skip(1)),
        }
    }
}

/// The branch to check out: the default branch of the remote, else that of the
/// first chain, else `main`.
pub open spec fn branch_to_check_out(plan: PlanView) -> Seq<char> {
    match plan.default_branch {
        Some(name) => name,
        None => match first_chain(plan.pieces) {
            Some(name) => name,
            None => "main"@,
        },
    }
}

pub fn default_branch(plan: &Plan) -> (r: String)
    ensures
        r@ == branch_to_check_out(plan@),
{
    if let Some(name) = &plan.default_branch {
        return name.clone();
    }
    let ghost all = plan@.pieces;
    assert(all.skip(0) =~= all);
    for i in 0..plan.pieces.len()
        invariant
            all == plan@.pieces,
            first_chain(all) == first_chain(all.skip(i as int)),
            plan@.default_branch is None,
    {
        assert(all[i as int] == plan.pieces@[i as int]@);
        assert(all.skip(i as int).skip(1) =~= all.skip(i + 1));
        if let Piece::Chain { short_name, .. } = &plan.pieces[i] {
            return short_name.clone();
        }
    }
    String::from_str("main")
}

// ------------------------------------------------------------------- the steps

/// A step of the end of a clone. The first that fails ends it.
#[derive(Debug)]
pub enum Step {
    Git(Vec<String>),
    /// Check out the default branch; a failure says so.
    CheckOut { args: Vec<String>, doing: String },
    Verify,
    /// Remove everything that the clone kept for itself.
    CleanUp,
}

pub enum StepView {
    Git(Seq<Seq<char>>),
    CheckOut { args: Seq<Seq<char>>, doing: Seq<char> },
    Verify,
    CleanUp,
}

impl View for Step {
    type V = StepView;

    open spec fn view(&self) -> StepView {
        match self {
            Step::Git(args) => StepView::Git(text::texts(args@)),
            Step::CheckOut { args, doing } => StepView::CheckOut {
                args: text::texts(args@),
                doing: doing@,
            },
            Step::Verify => StepView::Verify,
            Step::CleanUp => StepView::CleanUp,
        }
    }
}

pub open spec fn steps(v: Seq<Step>) -> Seq<StepView> {
    v.map_values(|s: Step| s@)
}

/// The origin as `git clone` would have set it up.
pub open spec fn set_up_origin(url: Seq<char>) -> Seq<StepView> {
    seq![
        StepView::Git(
            seq!["config"@, "remote.origin.fetch"@, "+refs/heads/*:refs/remotes/origin/*"@],
        ),
        StepView::Git(seq!["config"@, "remote.origin.url"@, url]),
    ]
}

/// What has changed at the remote since it was listed: moved and new refs come in,
/// and deleted ones go.
pub open spec fn catch_up() -> StepView {
    StepView::Git(
        seq![
            "fetch"@,
            "--quiet"@,
            "--prune"@,
            "--prune-tags"@,
            "--force"@,
            "--tags"@,
            "origin"@,
        ],
    )
}

pub open spec fn check_out(branch: Seq<char>) -> Seq<StepView> {
    seq![
        StepView::CheckOut {
            args: seq!["checkout"@, "-B"@, branch, "refs/remotes/origin/"@ + branch],
            doing: "checkout "@ + branch,
        },
        StepView::Git(seq!["config"@, "branch."@ + branch + ".remote"@, "origin"@]),
        StepView::Git(
            seq!["config"@, "branch."@ + branch + ".merge"@, "refs/heads/"@ + branch],
        ),
    ]
}

/// All steps in their order. Nothing is cleaned up before all is verified.
pub open spec fn finalizing(plan: PlanView, keep_state: bool) -> Seq<StepView> {
    let work = set_up_origin(plan.url).push(catch_up()) + check_out(branch_to_check_out(plan));
    if keep_state {
        work.push(StepView::Verify)
    } else {
        work.push(StepView::Verify).push(StepView::CleanUp)
    }
}

/// The steps that make a clone of the fetched pieces.
pub fn finalize(plan: &Plan, keep_state: bool) -> (r: Vec<Step>)
    ensures
        steps(r@) == finalizing(plan@, keep_state),
{
    let branch = default_branch(plan);
    let remote_branch = text::cat("refs/remotes/origin/", branch.as_str());
    let local_branch = text::cat("refs/heads/", branch.as_str());
    let section = text::cat("branch.", branch.as_str());
    let remote_key = text::cat(section.as_str(), ".remote");
    let merge_key = text::cat(section.as_str(), ".merge");
    let a = text::words(
        vec!["config", "remote.origin.fetch", "+refs/heads/*:refs/remotes/origin/*"],
    );
    let b = text::words(vec!["config", "remote.origin.url", plan.url.as_str()]);
    let c = text::words(
        vec!["fetch", "--quiet", "--prune", "--prune-tags", "--force", "--tags", "origin"],
    );
    let d = text::words(vec!["checkout", "-B", branch.as_str(), remote_branch.as_str()]);
    let e = text::words(vec!["config", remote_key.as_str(), "origin"]);
    let f = text::words(vec!["config", merge_key.as_str(), local_branch.as_str()]);
    proof {
        let name = branch_to_check_out(plan@);
        assert(text::texts(a@) =~= set_up_origin(plan@.url)[0]->Git_0);
        assert(text::texts(b@) =~= set_up_origin(plan@.url)[1]->Git_0);
        assert(text::texts(c@) =~= catch_up()->Git_0);
        assert(text::texts(d@) =~= check_out(name)[0]->args);
        assert(text::texts(e@) =~= check_out(name)[1]->Git_0);
        assert(text::texts(f@) =~= check_out(name)[2]->Git_0);
    }
    let doing = text::cat("checkout ", branch.as_str());
    let mut r = vec![
        Step::Git(a),
        Step::Git(b),
        Step::Git(c),
        Step::CheckOut { args: d, doing },
        Step::Git(e),
        Step::Git(f),
        Step::Verify,
    ];
    if !keep_state {
        r.push(Step::CleanUp);
    }
    assert(steps(r@) =~= finalizing(plan@, keep_state));
    r
}

// ---------------------------------------------------------------- verification

/// The refs of the clone that have to be what the remote lists, and the object
/// that each has to be.
pub open spec fn expected(remote: RemoteRefsView) -> Seq<(Seq<char>, Seq<char>)> {
    remote.branches.map_values(
        |b: RefEntryView| ("refs/remotes/origin/"@ + b.short_name, b.oid),
    ) + remote.tags.map_values(|t: RefEntryView| (t.full_name, t.oid))
}

/// The names of those refs.
pub fn refs_to_verify(remote: &RemoteRefs) -> (r: Vec<String>)
    ensures
        text::texts(r@) == expected(remote@).map_values(|p: (Seq<char>, Seq<char>)| p.0),
{
    let ghost goal = expected(remote@).map_values(|p: (Seq<char>, Seq<char>)| p.0);
    let mut out: Vec<String> = Vec::new();
    for i in 0..remote.branches.len()
        invariant
            goal == expected(remote@).map_values(|p: (Seq<char>, Seq<char>)| p.0),
            text::texts(out@) == goal.take(i as int),
    {
        let ghost so_far = out@;
        out.push(text::cat("refs/remotes/origin/", remote.branches[i].short_name.as_str()));
        assert(text::texts(out@) =~= text::texts(so_far).push(goal[i as int]));
        assert(text::texts(out@) =~= goal.take(i + 1));
    }
    let n: usize = remote.branches.len();
    for i in 0..remote.tags.len()
        invariant
            goal == expected(remote@).map_values(|p: (Seq<char>, Seq<char>)| p.0),
            n == remote.branches@.len(),
            text::texts(out@) == goal.take(n + i),
    {
        let ghost so_far = out@;
        out.push(remote.tags[i].full_name.clone());
        assert(text::texts(out@) =~= text::texts(so_far).push(goal[n + i]));
        assert(text::texts(out@) =~= goal.take(n + i + 1));
    }
    assert(goal.take(goal.len() as int) =~= goal);
    out
}

/// Does what a ref resolved to, without the space around it, name the object?
pub open spec fn matches_oid(resolved: Option<Seq<char>>, oid: Seq<char>) -> bool {
    resolved matches Some(s) && text::trimmed(s) == oid
}

/// The names among the first `n` expected refs that are missing or name another
/// object.
pub open spec fn bad_refs(
    wanted: Seq<(Seq<char>, Seq<char>)>,
    resolved: Seq<Option<Seq<char>>>,
    n: nat,
) -> Seq<Seq<char>>
    decreases n,
{
    if n == 0 {
        Seq::empty()
    } else {
        let before = bad_refs(wanted, resolved, (n - 1) as nat);
        if matches_oid(resolved[n - 1], wanted[n - 1].1) {
            before
        } else {
            before.push(wanted[n - 1].0)
        }
    }
}

pub open spec fn resolutions(v: Seq<Option<String>>) -> Seq<Option<Seq<char>>> {
    v.map_values(|s: Option<String>| refs::opt_text(s))
}

fn names_object(resolved: &Option<String>, oid: &String) -> (r: bool)
    ensures
        r == matches_oid(refs::opt_text(*resolved), oid@),
{
    match resolved {
        Some(s) => {
            let v = text::chars_of(s.as_str());
            let o = text::chars_of(oid.as_str());
            text::same_chars(text::trim(v.as_slice()), o.as_slice())
        },
        None => false,
    }
}

/// What a verification ends with that found the quoted refs to be wrong.
pub open spec fn not_verified(quoted_refs: Seq<char>) -> ErrorView {
    ErrorView::plain("verification failed, missing/mismatched refs: "@ + quoted_refs)
}

pub fn verification_error(quoted_refs: &str) -> (r: Error)
    ensures
        r@ == not_verified(quoted_refs@),
{
    Error::Other(text::cat("verification failed, missing/mismatched refs: ", quoted_refs))
}

/// Is the clone what the remote lists now? `resolved` gives what each of the refs
/// to verify resolved to.
pub fn verify(remote: &RemoteRefs, resolved: &Vec<Option<String>>) -> (r: Result<(), Error>)
    requires
        resolved@.len() == expected(remote@).len(),
    ensures
        ({
            let bad = bad_refs(expected(remote@), resolutions(resolved@), resolved@.len());
            &&& r is Ok <==> bad.len() == 0
            &&& r matches Err(e) ==> e@ == not_verified(text::debug_list(bad))
        }),
        r is Ok <==> {
            let n = remote.branches@.len() as int;
            &&& forall|i: int|
                0 <= i < n ==> (#[trigger] resolved@[i] matches Some(s) && text::trimmed(s@)
                    == remote.branches@[i].oid@)
            &&& forall|i: int|
                n <= i < n + remote.tags@.len() ==> (#[trigger] resolved@[i] matches Some(s)
                    && text::trimmed(s@) == remote.tags@[i - n].oid@)
        },
{
    let ghost wanted = expected(remote@);
    let ghost found = resolutions(resolved@);
    let names = refs_to_verify(remote);
    let n: usize = remote.branches.len();
    let mut bad: Vec<String> = Vec::new();
    assert(text::texts(bad@) =~= bad_refs(wanted, found, 0));
    assert(text::texts(names@).len() == names@.len());
    for i in 0..names.len()
        invariant
            wanted == expected(remote@),
            found == resolutions(resolved@),
            text::texts(names@) == wanted.map_values(|p: (Seq<char>, Seq<char>)| p.0),
            names@.len() == wanted.len() == resolved@.len(),
            n == remote.branches@.len(),
            text::texts(bad@) == bad_refs(wanted, found, i as nat),
    {
        let ghost so_far = bad@;
        assert(text::texts(names@)[i as int] == names@[i as int]@);
        assert(found[i as int] == refs::opt_text(resolved@[i as int]));
        let good: bool = if i < n {
            names_object(&resolved[i], &remote.branches[i].oid)
        } else {
            names_object(&resolved[i], &remote.tags[i - n].oid)
        };
        if !good {
            bad.push(names[i].clone());
            assert(text::texts(bad@) =~= text::texts(so_far).push(names@[i as int]@));
        }
    }
    proof {
        law_verified_means_all_match(wanted, found, resolved@.len());
        assert(text::texts(bad@).len() == bad@.len());
        assert forall|i: int| 0 <= i < resolved@.len() implies #[trigger] found[i]
            == refs::opt_text(resolved@[i]) by {}
        if bad@.len() == 0 {
            assert forall|i: int| 0 <= i < resolved@.len() implies (#[trigger] resolved@[i] matches
                Some(s) && text::trimmed(s@) == wanted[i].1) by {
                assert(matches_oid(found[i], wanted[i].1));
            }
        } else {
            let i = choose|i: int|
                0 <= i < resolved@.len() && !matches_oid(#[trigger] found[i], wanted[i].1);
            assert(found[i] == refs::opt_text(resolved@[i]));
        }
    }
    if bad.len() == 0 {
        return Ok(());
    }
    Err(verification_error(text::quote_list(&bad).as_str()))
}

/// Walks all objects that any ref reaches; it fails where one is missing.
pub fn connectivity_args() -> (r: Vec<String>)
    ensures
        text::texts(r@) == seq!["rev-list"@, "--objects"@, "--all"@, "--quiet"@],
{
    let r = text::words(vec!["rev-list", "--objects", "--all", "--quiet"]);
    assert(text::texts(r@) =~= seq!["rev-list"@, "--objects"@, "--all"@, "--quiet"@]);
    r
}

// ----------------------------------------------------------------------- laws

/// The state of a clone is removed last, after the verification, and never where
/// it is to be kept.
pub proof fn law_clean_up_comes_last(plan: PlanView, keep_state: bool, i: int)
    requires
        0 <= i < finalizing(plan, keep_state).len(),
        finalizing(plan, keep_state)[i] is CleanUp,
    ensures
        !keep_state,
        i == finalizing(plan, keep_state).len() - 1,
        finalizing(plan, keep_state)[i - 1] is Verify,
{
}

/// Whatever is kept, the clone is brought up to date before it is checked out, and
/// checked out before it is verified.
pub proof fn law_order_of_the_steps(plan: PlanView, keep_state: bool)
    ensures
        finalizing(plan, keep_state)[2] == catch_up(),
        finalizing(plan, keep_state)[3] is CheckOut,
        finalizing(plan, keep_state)[6] is Verify,
{
}

/// A verified clone has every branch and every tag that the remote lists, each at
/// the object that is listed for it.
pub proof fn law_verified_means_all_match(
    wanted: Seq<(Seq<char>, Seq<char>)>,
    resolved: Seq<Option<Seq<char>>>,
    n: nat,
)
    requires
        n <= wanted.len(),
        n <= resolved.len(),
    ensures
        bad_refs(wanted, resolved, n).len() == 0 <==> forall|i: int|
            0 <= i < n ==> matches_oid(#[trigger] resolved[i], wanted[i].1),
    decreases n,
{
    if n > 0 {
        law_verified_means_all_match(wanted, resolved, (n - 1) as nat);
        assert(matches_oid(resolved[n - 1], wanted[n - 1].1) || !matches_oid(
            resolved[n - 1],
            wanted[n - 1].1,
        ));
    }
}

/// What has to be found in a clone: for each branch that the remote lists the ref of
/// that branch below `refs/remotes/origin/`, and for each tag the tag itself, each at
/// the object that is listed; in the order of the listing, branches before tags.
pub proof fn law_what_is_expected(remote: RemoteRefsView, i: int)
    ensures
        expected(remote).len() == remote.branches.len() + remote.tags.len(),
        0 <= i < remote.branches.len() ==> expected(remote)[i] == (
            "refs/remotes/origin/"@ + remote.branches[i].short_name,
            remote.branches[i].oid,
        ),
        0 <= i < remote.tags.len() ==> expected(remote)[remote.branches.len() + i] == (
            remote.tags[i].full_name,
            remote.tags[i].oid,
        ),
{
}

/// A ref is right exactly if what it resolved to, the space round it aside, is the
/// listed object, character for character. Nothing shorter and no other object will do.
pub proof fn law_only_the_listed_object_is_right(
    wanted: Seq<(Seq<char>, Seq<char>)>,
    resolved: Seq<Option<Seq<char>>>,
    n: nat,
)
    requires
        n <= wanted.len(),
        n <= resolved.len(),
    ensures
        bad_refs(wanted, resolved, n).len() == 0 <==> forall|i: int|
            0 <= i < n ==> (#[trigger] resolved[i] matches Some(s) && text::trimmed(s)
                == wanted[i].1),
{
    law_verified_means_all_match(wanted, resolved, n);
    if bad_refs(wanted, resolved, n).len() == 0 {
        assert forall|i: int| 0 <= i < n implies (#[trigger] resolved[i] matches Some(s)
            && text::trimmed(s) == wanted[i].1) by {
            assert(matches_oid(resolved[i], wanted[i].1));
        }
    } else {
        let i = choose|i: int|
            0 <= i < n && !matches_oid(#[trigger] resolved[i], wanted[i].1);
        assert(!(resolved[i] matches Some(s) && text::trimmed(s) == wanted[i].1));
    }
}

/// Each further ref is judged by itself: one that is right adds nothing to what is
/// reported, and one that is missing or wrong adds its own name, at the end.
pub proof fn law_each_wrong_ref_is_reported(
    wanted: Seq<(Seq<char>, Seq<char>)>,
    resolved: Seq<Option<Seq<char>>>,
    name: Seq<char>,
    oid: Seq<char>,
    found: Option<Seq<char>>,
)
    requires
        wanted.len() == resolved.len(),
    ensures
        ({
            let before = bad_refs(wanted, resolved, wanted.len());
            let after = bad_refs(
                wanted.push((name, oid)),
                resolved.push(found),
                wanted.len() + 1,
            );
            &&& bad_refs(wanted, resolved, 0) == Seq::<Seq<char>>::empty()
            &&& found is None ==> after == before.push(name)
            &&& found matches Some(s) ==> after == if text::trimmed(s) == oid {
                before
            } else {
                before.push(name)
            }
        }),
{
    lemma_bad_refs_of_more(wanted, resolved, name, oid, found, wanted.len());
}

proof fn lemma_bad_refs_of_more(
    wanted: Seq<(Seq<char>, Seq<char>)>,
    resolved: Seq<Option<Seq<char>>>,
    name: Seq<char>,
    oid: Seq<char>,
    found: Option<Seq<char>>,
    n: nat,
)
    requires
        wanted.len() == resolved.len(),
        n <= wanted.len(),
    ensures
        bad_refs(wanted.push((name, oid)), resolved.push(found), n) == bad_refs(
            wanted,
            resolved,
            n,
        ),
    decreases n,
{
    if n > 0 {
        lemma_bad_refs_of_more(wanted, resolved, name, oid, found, (n - 1) as nat);
    }
}

/// A clone that fails the verification says so, and which refs are wrong.
pub proof fn law_verification_failure_says_which(quoted: Seq<char>)
    ensures
        not_verified(quoted).rendered() == "verification failed, missing/mismatched refs: "@
            + quoted,
        not_verified(quoted).kind is None,
{
    assert(not_verified(quoted).rendered() =~= "verification failed, missing/mismatched refs: "@
        + quoted);
}

/// The branch that is checked out: the default one of the remote where it names one;
/// otherwise that of the first chain, whatever batches of tags stand before it; and
/// `main` where there is no chain at all.
pub proof fn law_branch_to_check_out(plan: PlanView, i: int)
    ensures
        plan.default_branch matches Some(name) ==> branch_to_check_out(plan) == name,
        plan.default_branch is None && 0 <= i < plan.pieces.len() && plan.pieces[i] is Chain && (
        forall|j: int| 0 <= j < i ==> (#[trigger] plan.pieces[j]) is TagBatch)
            ==> branch_to_check_out(plan) == plan.pieces[i]->short_name,
        plan.default_branch is None && (forall|j: int|
            0 <= j < plan.pieces.len() ==> (#[trigger] plan.pieces[j]) is TagBatch)
            ==> branch_to_check_out(plan) == "main"@,
{
    if 0 <= i < plan.pieces.len() && plan.pieces[i] is Chain && (forall|j: int|
        0 <= j < i ==> (#[trigger] plan.pieces[j]) is TagBatch) {
        lemma_first_chain_at(plan.pieces, i);
    }
    if forall|j: int| 0 <= j < plan.pieces.len() ==> (#[trigger] plan.pieces[j]) is TagBatch {
        lemma_no_chain(plan.pieces);
    }
}

proof fn lemma_first_chain_at(pieces: Seq<PieceView>, i: int)
    requires
        0 <= i < pieces.len(),
        pieces[i] is Chain,
        forall|j: int| 0 <= j < i ==> (#[trigger] pieces[j]) is TagBatch,
    ensures
        first_chain(pieces) == Some(pieces[i]->short_name),
    decreases pieces.len(),
{
    if i > 0 {
        let rest = pieces.skip(1);
        assert(pieces[0] is TagBatch);
        assert forall|j: int| 0 <= j < i - 1 implies (#[trigger] rest[j]) is TagBatch by {
            assert(pieces[j + 1] is TagBatch);
        }
        lemma_first_chain_at(rest, i - 1);
    }
}

proof fn lemma_no_chain(pieces: Seq<PieceView>)
    requires
        forall|j: int| 0 <= j < pieces.len() ==> (#[trigger] pieces[j]) is TagBatch,
    ensures
        first_chain(pieces) is None,
    decreases pieces.len(),
{
    if pieces.len() > 0 {
        let rest = pieces.skip(1);
        assert(pieces[0] is TagBatch);
        assert forall|j: int| 0 <= j < rest.len() implies (#[trigger] rest[j]) is TagBatch by {
            assert(pieces[j + 1] is TagBatch);
        }
        lemma_no_chain(rest);
    }
}

/// The commands that make a clone of the fetched pieces, one by one: the origin and
/// what it fetches, the catching up, the check-out of the branch and what it follows,
/// the verification, and the cleaning up where nothing is to be kept. There is nothing
/// else, and the branch is the same throughout.
pub proof fn law_every_step_of_the_end(plan: PlanView, keep_state: bool)
    ensures
        ({
            let f = finalizing(plan, keep_state);
            let b = branch_to_check_out(plan);
            &&& f.len() == if keep_state {
                7int
            } else {
                8int
            }
            &&& f[0] == StepView::Git(
                seq!["config"@, "remote.origin.fetch"@, "+refs/heads/*:refs/remotes/origin/*"@],
            )
            &&& f[1] == StepView::Git(seq!["config"@, "remote.origin.url"@, plan.url])
            &&& f[2] == StepView::Git(
                seq![
                    "fetch"@,
                    "--quiet"@,
                    "--prune"@,
                    "--prune-tags"@,
                    "--force"@,
                    "--tags"@,
                    "origin"@,
                ],
            )
            &&& f[3] == (StepView::CheckOut {
                args: seq!["checkout"@, "-B"@, b, "refs/remotes/origin/"@ + b],
                doing: "checkout "@ + b,
            })
            &&& f[4] == StepView::Git(seq!["config"@, "branch."@ + b + ".remote"@, "origin"@])
            &&& f[5] == StepView::Git(
                seq!["config"@, "branch."@ + b + ".merge"@, "refs/heads/"@ + b],
            )
            &&& f[6] == StepView::Verify
            &&& !keep_state ==> f[7] == StepView::CleanUp
        }),
{
}

/// What the steps and the resolutions are spoken of by: item by item, each argument and
/// each resolution as its text.
pub proof fn law_steps_are_item_by_item(v: Seq<Step>, w: Seq<Option<String>>, i: int)
    ensures
        steps(v).len() == v.len(),
        0 <= i < v.len() ==> match v[i] {
            Step::Git(args) => steps(v)[i] == StepView::Git(text::texts(args@)),
            Step::CheckOut { args, doing } => steps(v)[i] == (StepView::CheckOut {
                args: text::texts(args@),
                doing: doing@,
            }),
            Step::Verify => steps(v)[i] is Verify,
            Step::CleanUp => steps(v)[i] is CleanUp,
        },
        resolutions(w).len() == w.len(),
        0 <= i < w.len() ==> match w[i] {
            Some(s) => resolutions(w)[i] == Some(s@),
            None => resolutions(w)[i] is None,
        },
{
}

} // verus!
