//! The flows behind the commands: `clone`, `resume` and `status`.
//!
//! A `Flow` decides the order of things and its driver does them, as with a
//! `PieceRun`. The lock comes first, a plan that is there is never replaced, and
//! nothing is done to the repository before plan and state are known to belong
//! together.

use crate::errors::{Error, ErrorView};
use crate::piece_run;
use crate::planner;
use crate::planner::{Plan, PlanView, PlannerConfig, INITIAL_STEP};
use crate::refs;
use crate::refs::{RemoteRefs, RemoteRefsView};
use crate::scheduler;
use crate::scheduler::SchedulerConfig;
use crate::state::{PieceState, PieceStateView, PieceStatus, State, StateView};
use crate::text;
use vstd::prelude::*;

verus! {

#[derive(Debug, Clone, Copy)]
pub struct CloneOptions {
    pub jobs: usize,
    pub keep_state: bool,
    pub initial_step: u32,
}

impl Default for CloneOptions {
    fn default() -> (r: CloneOptions)
        ensures
            r.jobs == 2,
            !r.keep_state,
            r.initial_step == INITIAL_STEP,
    {
        CloneOptions { jobs: 2, keep_state: false, initial_step: INITIAL_STEP }
    }
}

impl CloneOptions {
    /// The configuration of a run with these options.
    pub fn scheduler_config(&self) -> (r: SchedulerConfig)
        ensures
            r.jobs == self.jobs,
            r.max_attempts == 5,
            r.max_rate_limits == 10,
            r.rate_limit_breaker == 40,
            r.rate_limit_soft_cap == 10,
            r.cooldown_secs == 60,
    {
        let mut cfg = SchedulerConfig::default();
        cfg.jobs = self.jobs;
        cfg
    }
}

// -------------------------------------------------------------------- the lock

pub open spec fn lock_file(dir: Seq<char>) -> Seq<char> {
    text::path_below(text::path_below(dir, ".rgc"@), "lock"@)
}

/// The file that is locked as long as a clone is worked on.
pub fn lock_path(dir: &str) -> (r: String)
    ensures
        r@ == lock_file(dir@),
{
    text::path_join(text::path_join(dir, ".rgc").as_str(), "lock")
}

/// How an attempt to lock that file has gone.
#[derive(Debug)]
pub enum LockAttempt {
    Locked,
    /// Someone else holds the lock.
    WouldBlock,
    CannotOpen(String),
    CannotLock(String),
}

/// What the attempt means: only a lock that someone else holds is taken for
/// another instance.
pub open spec fn lock_refusal(path: Seq<char>, attempt: LockAttempt) -> Option<ErrorView> {
    match attempt {
        LockAttempt::Locked => None,
        LockAttempt::WouldBlock => Some(
            ErrorView::plain(
                "another rgc instance is running on this destination (lock: "@ + path + ")"@,
            ),
        ),
        LockAttempt::CannotOpen(cause) => Some(
            ErrorView::plain("cannot open lock file "@ + path + ": "@ + cause@),
        ),
        LockAttempt::CannotLock(cause) => Some(
            ErrorView::plain("cannot lock "@ + path + ": "@ + cause@),
        ),
    }
}

/// The outcome of an attempt to lock the destination. There is no waiting.
pub fn acquire_instance_lock(dir: &str, attempt: &LockAttempt) -> (r: Result<(), Error>)
    ensures
        r is Ok <==> lock_refusal(lock_file(dir@), *attempt) is None,
        r matches Err(e) ==> lock_refusal(lock_file(dir@), *attempt) == Some(e@),
{
    let path = lock_path(dir);
    match attempt {
        LockAttempt::Locked => Ok(()),
        LockAttempt::WouldBlock => {
            let mut m = String::from_str(
                "another rgc instance is running on this destination (lock: ",
            );
            m.append(path.as_str());
            m.append(")");
            Err(Error::Other(m))
        },
        LockAttempt::CannotOpen(cause) => {
            let mut m = String::from_str("cannot open lock file ");
            m.append(path.as_str());
            m.append(": ");
            m.append(cause.as_str());
            Err(Error::Other(m))
        },
        LockAttempt::CannotLock(cause) => {
            let mut m = String::from_str("cannot lock ");
            m.append(path.as_str());
            m.append(": ");
            m.append(cause.as_str());
            Err(Error::Other(m))
        },
    }
}

// ------------------------------------------------------------ the destination

/// `s` without the slashes at its end.
pub open spec fn without_slashes(s: Seq<char>) -> Seq<char>
    decreases s.len(),
{
    if s.len() > 0 && s.last() == '/' {
        without_slashes(s.drop_last())
    } else {
        s
    }
}

/// What follows the last slash of `s`; all of it where there is none.
pub open spec fn last_segment(s: Seq<char>) -> Seq<char>
    decreases s.len(),
{
    if s.len() == 0 || s.last() == '/' {
        Seq::empty()
    } else {
        last_segment(s.drop_last()).push(s.last())
    }
}

/// `s` without any `.git` at its end.
pub open spec fn without_git(s: Seq<char>) -> Seq<char>
    decreases s.len(),
{
    if s.len() >= 4 && text::finishes_with(s, ".git"@) {
        without_git(s.take(s.len() - 4))
    } else {
        s
    }
}

/// The directory that a clone goes to where none is given: the last part of the
/// URL, without `.git`.
pub open spec fn directory_for(url: Seq<char>) -> Seq<char> {
    without_git(last_segment(without_slashes(url)))
}

fn trim_slashes(s: &[char]) -> (r: &[char])
    ensures
        r@ == without_slashes(s@),
{
    let mut n: usize = s.len();
    assert(s@.take(n as int) =~= s@);
    while n > 0 && s[n - 1] == '/'
        invariant
            n <= s@.len(),
            without_slashes(s@) == without_slashes(s@.take(n as int)),
        decreases n,
    {
        assert(s@.take(n as int).drop_last() =~= s@.take(n - 1));
        n = n - 1;
    }
    let r = vstd::slice::slice_subrange(s, 0, n);
    assert(r@ =~= s@.take(n as int));
    r
}

fn after_last_slash(s: &[char]) -> (r: &[char])
    ensures
        r@ == last_segment(s@),
{
    let mut i: usize = s.len();
    while i > 0 && s[i - 1] != '/'
        invariant
            i <= s@.len(),
            forall|j: int| i <= j < s@.len() ==> s@[j] != '/',
        decreases i,
    {
        i = i - 1;
    }
    let r = vstd::slice::slice_subrange(s, i, s.len());
    proof {
        lemma_last_segment(s@, i as int);
    }
    r
}

proof fn lemma_last_segment(s: Seq<char>, i: int)
    requires
        0 <= i <= s.len(),
        i > 0 ==> s[i - 1] == '/',
        forall|j: int| i <= j < s.len() ==> s[j] != '/',
    ensures
        last_segment(s) == s.subrange(i, s.len() as int),
    decreases s.len(),
{
    if i < s.len() {
        lemma_last_segment(s.drop_last(), i);
        assert(s.subrange(i, s.len() as int) =~= s.drop_last().subrange(
            i,
            s.len() - 1,
        ).push(s.last()));
    } else {
        assert(s.subrange(i, s.len() as int) =~= Seq::empty());
    }
}

fn trim_git(s: &[char]) -> (r: &[char])
    ensures
        r@ == without_git(s@),
{
    proof {
        reveal_strlit(".git");
    }
    let mut t = s;
    loop
        invariant
            without_git(t@) == without_git(s@),
            ".git"@.len() == 4,
        decreases t@.len(),
    {
        match text::strip_suffix(t, ".git") {
            Some(rest) => {
                t = rest;
            },
            None => {
                return t;
            },
        }
    }
}

pub fn default_dir(url: &str) -> (r: String)
    ensures
        r@ == directory_for(url@),
{
    let v = text::chars_of(url);
    text::string_of(trim_git(after_last_slash(trim_slashes(v.as_slice()))))
}

/// The names that do not belong to a new clone: anything but its own `.rgc`.
pub open spec fn foreign(names: Seq<Seq<char>>) -> Seq<Seq<char>> {
    names.filter(|n: Seq<char>| n != ".rgc"@)
}

pub open spec fn not_empty(dest: Seq<char>, names: Seq<Seq<char>>) -> ErrorView {
    ErrorView::plain(
        "destination "@ + dest + " is not empty (contains "@ + text::joined(
            foreign(names),
            ", "@,
            foreign(names).len(),
        )
            + ") — rgc only clones into an empty directory; choose a new destination or delete its contents"@,
    )
}

/// A new clone goes into an empty directory, as with git. `names` is what the
/// directory holds; a directory that does not exist holds nothing.
pub fn ensure_dest_vacant_for_fresh(dest: &str, names: &Vec<String>) -> (r: Result<(), Error>)
    ensures
        r is Ok <==> foreign(text::texts(names@)).len() == 0,
        r matches Err(e) ==> e@ == not_empty(dest@, text::texts(names@)),
{
    let ghost all = text::texts(names@);
    let ghost pred = |n: Seq<char>| n != ".rgc"@;
    let mut found: Vec<String> = Vec::new();
    proof {
        reveal(Seq::filter);
        assert(text::texts(found@) =~= all.take(0).filter(pred));
    }
    for i in 0..names.len()
        invariant
            all == text::texts(names@),
            pred == (|n: Seq<char>| n != ".rgc"@),
            text::texts(found@) == all.take(i as int).filter(pred),
    {
        let ghost so_far = found@;
        proof {
            reveal(Seq::filter);
            assert(all.take(i + 1).drop_last() =~= all.take(i as int));
            assert(all.take(i + 1).last() == names@[i as int]@);
        }
        if !text::same_text(names[i].as_str(), ".rgc") {
            found.push(names[i].clone());
            assert(text::texts(found@) =~= text::texts(so_far).push(all[i as int]));
        }
    }
    assert(all.take(all.len() as int) =~= all);
    assert(text::texts(found@).len() == found@.len());
    if found.len() == 0 {
        return Ok(());
    }
    let mut m = String::from_str("destination ");
    m.append(dest);
    m.append(" is not empty (contains ");
    m.append(text::join(&found, ", ").as_str());
    m.append(
        ") — rgc only clones into an empty directory; choose a new destination or delete its contents",
    );
    Err(Error::Other(m))
}

// -------------------------------------------------------------------- the flow

/// What a flow asks of its driver.
#[derive(Debug, Clone, Copy, PartialEq, Eq, Structural)]
pub enum FlowRequest {
    Lock,
    LoadPlan,
    /// Is there a plan or a state, readable or not?
    CheckTraces,
    /// What does the destination hold?
    ListDest,
    ListRemote,
    SavePlan,
    /// Save the state of a plan that nothing has been done for.
    SaveNewState,
    LoadState,
    /// Fetch all pieces.
    Schedule,
    Finalize,
    Finished,
}

/// What the driver answers.
#[derive(Debug)]
pub enum FlowEvent {
    Done,
    Failed(Error),
    Plan(Option<Plan>),
    Traces(bool),
    Holds(Vec<String>),
    Remote(RemoteRefs),
    State(Option<State>),
}

pub enum FlowEventView {
    Done,
    Failed(ErrorView),
    Plan(Option<PlanView>),
    Traces(bool),
    Holds(Seq<Seq<char>>),
    Remote(RemoteRefsView),
    State(Option<StateView>),
}

pub open spec fn plan_view(p: Option<Plan>) -> Option<PlanView> {
    match p {
        Some(p) => Some(p@),
        None => None,
    }
}

impl View for FlowEvent {
    type V = FlowEventView;

    open spec fn view(&self) -> FlowEventView {
        match self {
            FlowEvent::Done => FlowEventView::Done,
            FlowEvent::Failed(e) => FlowEventView::Failed(e@),
            FlowEvent::Plan(p) => FlowEventView::Plan(plan_view(*p)),
            FlowEvent::Traces(t) => FlowEventView::Traces(*t),
            FlowEvent::Holds(v) => FlowEventView::Holds(text::texts(v@)),
            FlowEvent::Remote(r) => FlowEventView::Remote(r@),
            FlowEvent::State(s) => FlowEventView::State(scheduler::state_view(*s)),
        }
    }
}

/// Is the event an answer to the request?
pub open spec fn answers(asked: FlowRequest, ev: FlowEventView) -> bool {
    match asked {
        FlowRequest::Lock
        | FlowRequest::SavePlan
        | FlowRequest::SaveNewState
        | FlowRequest::Schedule
        | FlowRequest::Finalize => ev is Done || ev is Failed,
        FlowRequest::LoadPlan => ev is Plan || ev is Failed,
        FlowRequest::CheckTraces => ev is Traces,
        FlowRequest::ListDest => ev is Holds || ev is Failed,
        FlowRequest::ListRemote => ev is Remote || ev is Failed,
        FlowRequest::LoadState => ev is State || ev is Failed,
        FlowRequest::Finished => false,
    }
}

pub struct Flow {
    /// The URL to clone; nothing where a clone is resumed.
    url: Option<String>,
    dest: String,
    initial_step: u32,
    plan: Option<Plan>,
    asked: FlowRequest,
    failure: Option<Error>,
}

pub struct FlowView {
    pub url: Option<Seq<char>>,
    pub dest: Seq<char>,
    pub initial_step: u32,
    pub plan: Option<PlanView>,
    pub asked: FlowRequest,
    pub failure: Option<ErrorView>,
}

impl View for Flow {
    type V = FlowView;

    closed spec fn view(&self) -> FlowView {
        FlowView {
            url: refs::opt_text(self.url),
            dest: self.dest@,
            initial_step: self.initial_step,
            plan: plan_view(self.plan),
            asked: self.asked,
            failure: piece_run::failure_view(self.failure),
        }
    }
}

pub open spec fn other_url(dest: Seq<char>, url: Seq<char>) -> ErrorView {
    ErrorView::plain(
        "destination "@ + dest + " already holds an rgc plan for a different URL ("@ + url
            + ") — delete .rgc/ or rerun with the original URL"@,
    )
}

pub open spec fn unreadable_plan(dest: Seq<char>) -> ErrorView {
    ErrorView::plain(
        "plan/state mismatch — delete .rgc/ or restore plan.json (plan.json missing or unreadable in "@
            + dest + ")"@,
    )
}

pub open spec fn nothing_to_resume(dest: Seq<char>) -> ErrorView {
    ErrorView::plain("no .rgc/plan.json in "@ + dest + " — nothing to resume"@)
}

pub open spec fn mismatch() -> ErrorView {
    ErrorView::plain("plan/state mismatch — delete .rgc/ or restore plan.json"@)
}

pub open spec fn nothing_to_clone() -> ErrorView {
    ErrorView::plain("remote has no branches or tags — nothing to clone"@)
}

/// How a clone is planned.
pub open spec fn planning(initial_step: u32) -> PlannerConfig {
    PlannerConfig { tags_per_batch: 32, initial_step }
}

impl FlowView {
    pub open spec fn asking(self, asked: FlowRequest) -> FlowView {
        FlowView { asked, ..self }
    }

    pub open spec fn failed(self, e: ErrorView) -> FlowView {
        FlowView { asked: FlowRequest::Finished, failure: Some(e), ..self }
    }

    /// After the answer to what was asked last.
    pub open spec fn answered(self, ev: FlowEventView) -> FlowView {
        match ev {
            FlowEventView::Failed(e) => self.failed(e),
            FlowEventView::Done => match self.asked {
                FlowRequest::Lock => self.asking(FlowRequest::LoadPlan),
                FlowRequest::SavePlan => self.asking(FlowRequest::SaveNewState),
                FlowRequest::SaveNewState => self.asking(FlowRequest::LoadState),
                FlowRequest::Schedule => self.asking(FlowRequest::Finalize),
                _ => self.asking(FlowRequest::Finished),
            },
            FlowEventView::Plan(Some(plan)) => match self.url {
                Some(url) if url != plan.url => self.failed(other_url(self.dest, plan.url)),
                _ => FlowView { plan: Some(plan), asked: FlowRequest::LoadState, ..self },
            },
            FlowEventView::Plan(None) => if self.url is Some {
                self.asking(FlowRequest::CheckTraces)
            } else {
                self.failed(nothing_to_resume(self.dest))
            },
            FlowEventView::Traces(there) => if there {
                self.failed(unreadable_plan(self.dest))
            } else {
                self.asking(FlowRequest::ListDest)
            },
            FlowEventView::Holds(names) => if foreign(names).len() > 0 {
                self.failed(not_empty(self.dest, names))
            } else {
                self.asking(FlowRequest::ListRemote)
            },
            FlowEventView::Remote(remote) => if remote.branches.len() == 0 && remote.tags.len()
                == 0 {
                self.failed(nothing_to_clone())
            } else {
                FlowView {
                    plan: Some(
                        planner::planned(self.url->0, remote, planning(self.initial_step)),
                    ),
                    asked: FlowRequest::SavePlan,
                    ..self
                }
            },
            FlowEventView::State(found) => match (found, self.plan) {
                (Some(s), Some(plan)) if s.fingerprint != plan.fingerprint() => self.failed(
                    mismatch(),
                ),
                _ => self.asking(FlowRequest::Schedule),
            },
        }
    }

    /// What holds of a flow from its beginning to its end.
    pub open spec fn sound(self) -> bool {
        &&& self.plan matches Some(plan) ==> plan.wf()
        &&& self.plan matches Some(plan) ==> (self.url matches Some(url) ==> plan.url == url)
        &&& match self.asked {
            FlowRequest::Lock | FlowRequest::LoadPlan => self.plan is None,
            FlowRequest::CheckTraces
            | FlowRequest::ListDest
            | FlowRequest::ListRemote => self.plan is None && self.url is Some,
            FlowRequest::SavePlan
            | FlowRequest::SaveNewState => self.plan is Some && self.url is Some,
            FlowRequest::LoadState
            | FlowRequest::Schedule
            | FlowRequest::Finalize => self.plan is Some,
            FlowRequest::Finished => true,
        }
    }
}

/// The flow of `rgc clone`. A destination that holds the plan of this clone is
/// taken up where it was left.
pub fn clone_flow(url: &str, dest: &str, opts: &CloneOptions) -> (r: Flow)
    ensures
        r@ == (FlowView {
            url: Some(url@),
            dest: dest@,
            initial_step: opts.initial_step,
            plan: None,
            asked: FlowRequest::Lock,
            failure: None,
        }),
{
    Flow {
        url: Some(String::from_str(url)),
        dest: String::from_str(dest),
        initial_step: opts.initial_step,
        plan: None,
        asked: FlowRequest::Lock,
        failure: None,
    }
}

/// The flow of `rgc resume`.
pub fn resume_flow(dest: &str, opts: &CloneOptions) -> (r: Flow)
    ensures
        r@ == (FlowView {
            url: None,
            dest: dest@,
            initial_step: opts.initial_step,
            plan: None,
            asked: FlowRequest::Lock,
            failure: None,
        }),
{
    Flow {
        url: None,
        dest: String::from_str(dest),
        initial_step: opts.initial_step,
        plan: None,
        asked: FlowRequest::Lock,
        failure: None,
    }
}

impl Flow {
    #[verifier::type_invariant]
    spec fn holds_together(self) -> bool {
        self@.sound()
    }

    /// What the driver has to do.
    pub fn asked(&self) -> (r: FlowRequest)
        ensures
            r == self@.asked,
    {
        self.asked
    }

    /// The plan, once there is one.
    pub fn plan(&self) -> (r: Option<&Plan>)
        ensures
            r is Some <==> self@.plan is Some,
            r matches Some(p) ==> self@.plan == Some(p@) && p@.wf(),
    {
        proof {
            use_type_invariant(self);
        }
        match &self.plan {
            Some(p) => Some(p),
            None => None,
        }
    }

    /// What the flow ended with, if it failed.
    pub fn failure(&self) -> (r: Option<Error>)
        ensures
            piece_run::failure_view(r) == self@.failure,
    {
        match &self.failure {
            Some(e) => Some(e.clone()),
            None => None,
        }
    }

    fn failing(self, e: Error) -> (r: Flow)
        ensures
            r@ == self@.failed(e@),
    {
        proof {
            use_type_invariant(&self);
        }
        Flow {
            url: self.url,
            dest: self.dest,
            initial_step: self.initial_step,
            plan: self.plan,
            asked: FlowRequest::Finished,
            failure: Some(e),
        }
    }

    fn going_on(self, asked: FlowRequest) -> (r: Flow)
        requires
            self@.asking(asked).sound(),
        ensures
            r@ == self@.asking(asked),
    {
        Flow {
            url: self.url,
            dest: self.dest,
            initial_step: self.initial_step,
            plan: self.plan,
            asked,
            failure: self.failure,
        }
    }

    fn found_plan(self, found: Option<Plan>) -> (r: Flow)
        requires
            self@.asked is LoadPlan,
            found matches Some(p) ==> p@.wf() || (self@.url is Some && self@.url->0 != p@.url),
        ensures
            r@ == self@.answered(FlowEventView::Plan(plan_view(found))),
    {
        proof {
            use_type_invariant(&self);
        }
        match found {
            None => {
                if self.url.is_some() {
                    return self.going_on(FlowRequest::CheckTraces);
                }
                let mut m = String::from_str("no .rgc/plan.json in ");
                m.append(self.dest.as_str());
                m.append(" — nothing to resume");
                self.failing(Error::Other(m))
            },
            Some(plan) => {
                let same: bool = match &self.url {
                    Some(url) => *url == plan.url,
                    None => true,
                };
                if !same {
                    let mut m = String::from_str("destination ");
                    m.append(self.dest.as_str());
                    m.append(" already holds an rgc plan for a different URL (");
                    m.append(plan.url.as_str());
                    m.append(") — delete .rgc/ or rerun with the original URL");
                    return self.failing(Error::Other(m));
                }
                Flow {
                    url: self.url,
                    dest: self.dest,
                    initial_step: self.initial_step,
                    plan: Some(plan),
                    asked: FlowRequest::LoadState,
                    failure: self.failure,
                }
            },
        }
    }

    fn listed(self, remote: &RemoteRefs) -> (r: Flow)
        requires
            self@.asked is ListRemote,
        ensures
            r@ == self@.answered(FlowEventView::Remote(remote@)),
    {
        proof {
            use_type_invariant(&self);
        }
        let cfg = PlannerConfig { tags_per_batch: 32, initial_step: self.initial_step };
        let built = match &self.url {
            Some(url) => planner::build_plan(url.as_str(), remote, &cfg),
            None => planner::build_plan("", remote, &cfg),
        };
        match built {
            Err(e) => self.failing(e),
            Ok(plan) => Flow {
                url: self.url,
                dest: self.dest,
                initial_step: self.initial_step,
                plan: Some(plan),
                asked: FlowRequest::SavePlan,
                failure: self.failure,
            },
        }
    }

    fn found_state(self, found: &Option<State>) -> (r: Flow)
        requires
            self@.asked is LoadState,
        ensures
            r@ == self@.answered(FlowEventView::State(scheduler::state_view(*found))),
    {
        proof {
            use_type_invariant(&self);
        }
        let fits: bool = match (found, &self.plan) {
            (Some(s), Some(plan)) => s.fingerprint == plan.fingerprint(),
            _ => true,
        };
        if fits {
            self.going_on(FlowRequest::Schedule)
        } else {
            self.failing(
                Error::Other(
                    String::from_str("plan/state mismatch — delete .rgc/ or restore plan.json"),
                ),
            )
        }
    }

    /// Takes the driver's answer and decides what comes next.
    pub fn step(self, ev: FlowEvent) -> (r: Flow)
        requires
            answers(self@.asked, ev@),
            ev matches FlowEvent::Plan(Some(p)) ==> p@.wf() || (self@.url is Some && self@.url->0
                != p@.url),
        ensures
            r@ == self@.answered(ev@),
    {
        proof {
            use_type_invariant(&self);
        }
        match ev {
            FlowEvent::Failed(e) => self.failing(e),
            FlowEvent::Plan(found) => self.found_plan(found),
            FlowEvent::Traces(there) => {
                if there {
                    let mut m = String::from_str(
                        "plan/state mismatch — delete .rgc/ or restore plan.json (plan.json missing or unreadable in ",
                    );
                    m.append(self.dest.as_str());
                    m.append(")");
                    self.failing(Error::Other(m))
                } else {
                    self.going_on(FlowRequest::ListDest)
                }
            },
            FlowEvent::Holds(names) => {
                match ensure_dest_vacant_for_fresh(self.dest.as_str(), &names) {
                    Err(e) => self.failing(e),
                    Ok(_) => self.going_on(FlowRequest::ListRemote),
                }
            },
            FlowEvent::Remote(remote) => self.listed(&remote),
            FlowEvent::State(found) => self.found_state(&found),
            FlowEvent::Done => {
                let next = match self.asked {
                    FlowRequest::Lock => FlowRequest::LoadPlan,
                    FlowRequest::SavePlan => FlowRequest::SaveNewState,
                    FlowRequest::SaveNewState => FlowRequest::LoadState,
                    FlowRequest::Schedule => FlowRequest::Finalize,
                    _ => FlowRequest::Finished,
                };
                self.going_on(next)
            },
        }
    }
}

// ------------------------------------------------------------------ the status

/// What `rgc status` shows: lines, and a warning that belongs beside them.
#[derive(Debug)]
pub struct StatusReport {
    pub warning: Option<String>,
    pub lines: Vec<String>,
}

/// How a piece is shown.
pub open spec fn piece_line(ps: PieceStateView) -> Seq<char> {
    ps.status.label() + "  "@ + ps.id + match ps.chain {
        Some(c) => "  depth="@ + text::decimal(c.depth_done as nat) + " step="@ + text::decimal(
            c.step as nat,
        ),
        None => Seq::empty(),
    }
}

/// How many of the pieces are done.
pub open spec fn done_count(pieces: Seq<PieceStateView>) -> nat
    decreases pieces.len(),
{
    if pieces.len() == 0 {
        0
    } else {
        done_count(pieces.drop_last()) + if pieces.last().status == PieceStatus::Done {
            1nat
        } else {
            0nat
        }
    }
}

pub open spec fn head_line(plan: PlanView) -> Seq<char> {
    "plan: "@ + plan.url + " ("@ + text::decimal(plan.pieces.len()) + " pieces)"@
}

pub open spec fn count_line(pieces: Seq<PieceStateView>) -> Seq<char> {
    text::decimal(done_count(pieces)) + "/"@ + text::decimal(pieces.len()) + " pieces done"@
}

pub open spec fn no_state_line(dir: Seq<char>) -> Seq<char> {
    "rgc: no readable state.json in "@ + dir + " — run `rgc resume "@ + dir
        + "` to rebuild progress"@
}

/// The lines that show a clone: its plan, each piece of its state, and how many
/// are done.
pub open spec fn status_lines(
    dir: Seq<char>,
    plan: PlanView,
    found: Option<StateView>,
) -> Seq<Seq<char>> {
    match found {
        Some(s) => seq![head_line(plan)] + s.pieces.map_values(
            |p: PieceStateView| piece_line(p),
        ) + seq![count_line(s.pieces)],
        None => seq![head_line(plan), no_state_line(dir)],
    }
}

pub open spec fn status_warning(
    dir: Seq<char>,
    plan: PlanView,
    found: Option<StateView>,
) -> Option<Seq<char>> {
    match found {
        Some(s) if s.fingerprint != plan.fingerprint() => Some(
            "warning: state.json does not match plan.json in "@ + dir
                + " — display may be misleading"@,
        ),
        _ => None,
    }
}

fn line_of_piece(ps: &PieceState) -> (r: String)
    ensures
        r@ == piece_line(ps@),
{
    let mut line = String::from_str(ps.status.name());
    line.append("  ");
    line.append(ps.id.as_str());
    if let Some(c) = &ps.chain {
        line.append("  depth=");
        text::push_decimal(&mut line, c.depth_done as u64);
        line.append(" step=");
        text::push_decimal(&mut line, c.step as u64);
    }
    assert(line@ =~= piece_line(ps@));
    line
}

/// What to show of a clone, from its plan and its state as they were found. It
/// changes nothing. Without a plan there is nothing to show.
pub fn status(dir: &str, plan: &Option<Plan>, found: &Option<State>) -> (r: Result<
    StatusReport,
    Error,
>)
    requires
        found is Some ==> (plan matches Some(p) ==> p@.wf()),
    ensures
        r is Err <==> plan is None,
        r matches Err(e) ==> e@ == ErrorView::plain(
            "no readable .rgc/plan.json in "@ + dir@ + " — nothing to report"@,
        ),
        r matches Ok(report) ==> {
            &&& text::texts(report.lines@) == status_lines(
                dir@,
                plan->0@,
                scheduler::state_view(*found),
            )
            &&& refs::opt_text(report.warning) == status_warning(
                dir@,
                plan->0@,
                scheduler::state_view(*found),
            )
        },
{
    let plan = match plan {
        Some(p) => p,
        None => {
            let mut m = String::from_str("no readable .rgc/plan.json in ");
            m.append(dir);
            m.append(" — nothing to report");
            return Err(Error::Other(m));
        },
    };
    let mut head = String::from_str("plan: ");
    head.append(plan.url.as_str());
    head.append(" (");
    text::push_decimal(&mut head, plan.pieces.len() as u64);
    head.append(" pieces)");
    let ghost first = head@;
    assert(first == head_line(plan@));
    match found {
        None => {
            let mut line = String::from_str("rgc: no readable state.json in ");
            line.append(dir);
            line.append(" — run `rgc resume ");
            line.append(dir);
            line.append("` to rebuild progress");
            let lines = vec![head, line];
            assert(text::texts(lines@) =~= status_lines(dir@, plan@, None));
            Ok(StatusReport { warning: None, lines })
        },
        Some(s) => {
            let warning = if s.fingerprint != plan.fingerprint() {
                let mut w = String::from_str("warning: state.json does not match plan.json in ");
                w.append(dir);
                w.append(" — display may be misleading");
                Some(w)
            } else {
                None
            };
            let ghost shown = s@.pieces.map_values(|p: PieceStateView| piece_line(p));
            let mut lines = vec![head];
            let mut done: u64 = 0;
            assert(text::texts(lines@) =~= seq![first] + shown.take(0));
            for i in 0..s.pieces.len()
                invariant
                    shown == s@.pieces.map_values(|p: PieceStateView| piece_line(p)),
                    text::texts(lines@) == seq![first] + shown.take(i as int),
                    done == done_count(s@.pieces.take(i as int)),
                    done <= i,
            {
                let ghost so_far = lines@;
                assert(s@.pieces[i as int] == s.pieces@[i as int]@);
                assert(s@.pieces.take(i + 1).drop_last() =~= s@.pieces.take(i as int));
                lines.push(line_of_piece(&s.pieces[i]));
                assert(text::texts(lines@) =~= text::texts(so_far).push(shown[i as int]));
                assert(text::texts(lines@) =~= seq![first] + shown.take(i + 1));
                if s.pieces[i].status == PieceStatus::Done {
                    done = done + 1;
                }
            }
            assert(shown.take(shown.len() as int) =~= shown);
            assert(s@.pieces.take(s@.pieces.len() as int) =~= s@.pieces);
            let ghost so_far = lines@;
            let mut count = String::new();
            text::push_decimal(&mut count, done);
            count.append("/");
            text::push_decimal(&mut count, s.pieces.len() as u64);
            count.append(" pieces done");
            assert(count@ =~= count_line(s@.pieces));
            lines.push(count);
            assert(text::texts(lines@) =~= text::texts(so_far).push(count_line(s@.pieces)));
            assert(text::texts(lines@) =~= status_lines(dir@, plan@, Some(s@)));
            Ok(StatusReport { warning, lines })
        },
    }
}

// ----------------------------------------------------------------------- laws

/// A sound flow stays sound, whatever the driver answers, and it is about the same
/// destination and URL.
pub proof fn law_flow_stays_sound(f: FlowView, ev: FlowEventView)
    requires
        f.sound(),
        answers(f.asked, ev),
        ev matches FlowEventView::Plan(Some(p)) ==> p.wf() || (f.url is Some && f.url->0 != p.url),
    ensures
        f.answered(ev).sound(),
        f.answered(ev).dest == f.dest,
        f.answered(ev).url == f.url,
{
    if let FlowEventView::Remote(remote) = ev {
        planner::lemma_planned_is_valid(f.url->0, remote, planning(f.initial_step));
    }
}

/// Nothing is read or changed before the lock is held: only the answer that it is
/// leads on.
pub proof fn law_lock_comes_first(f: FlowView, ev: FlowEventView)
    requires
        f.asked is Lock,
        answers(f.asked, ev),
    ensures
        f.answered(ev).asked is LoadPlan <==> ev is Done,
        !(ev is Done) ==> f.answered(ev).asked is Finished && f.answered(ev).failure is Some,
{
}

/// A plan is written only where none was found and no trace of one, into an empty
/// destination. A plan that is there is never written again.
pub proof fn law_plan_is_written_once(f: FlowView, ev: FlowEventView)
    requires
        f.sound(),
        answers(f.asked, ev),
    ensures
        f.answered(ev).asked is SavePlan ==> f.asked is ListRemote && f.plan is None,
        f.answered(ev).asked is ListRemote ==> f.asked is ListDest && (ev matches
            FlowEventView::Holds(names) && foreign(names).len() == 0),
        f.answered(ev).asked is ListDest ==> f.asked is CheckTraces && ev
            == FlowEventView::Traces(false),
        f.answered(ev).asked is CheckTraces ==> f.asked is LoadPlan && ev
            == FlowEventView::Plan(None),
        f.plan is Some ==> f.answered(ev).plan == f.plan,
{
}

/// Nothing is fetched until the state is known to belong to the plan.
pub proof fn law_no_fetch_before_the_guard(f: FlowView, ev: FlowEventView)
    requires
        f.sound(),
        answers(f.asked, ev),
        f.answered(ev).asked is Schedule,
    ensures
        f.asked is LoadState,
        ev matches FlowEventView::State(Some(s)) ==> s.fingerprint == f.plan->0.fingerprint(),
{
}

/// A flow succeeds in one way: the pieces were fetched and then the clone was
/// finalized.
pub proof fn law_success_means_finalized(f: FlowView, ev: FlowEventView)
    requires
        f.sound(),
        f.failure is None,
        answers(f.asked, ev),
        f.answered(ev).asked is Finished,
        f.answered(ev).failure is None,
    ensures
        f.asked is Finalize,
        ev is Done,
{
}

/// The destination of one clone is never taken over by another: a plan for another
/// URL ends the flow before anything is changed.
pub proof fn law_other_url_is_refused(f: FlowView, plan: PlanView)
    requires
        f.asked is LoadPlan,
        f.url is Some,
        f.url->0 != plan.url,
    ensures
        f.answered(FlowEventView::Plan(Some(plan))).asked is Finished,
        f.answered(FlowEventView::Plan(Some(plan))).failure == Some(other_url(f.dest, plan.url)),
{
}

/// Running `clone` again with the same URL does what `resume` does.
pub proof fn law_clone_again_is_resume(f: FlowView, plan: PlanView)
    requires
        f.asked is LoadPlan,
        f.url == Some(plan.url),
    ensures
        f.answered(FlowEventView::Plan(Some(plan))).asked is LoadState,
        f.answered(FlowEventView::Plan(Some(plan))).plan == Some(plan),
        (FlowView { url: None, ..f }).answered(FlowEventView::Plan(Some(plan))) == (FlowView {
            url: None,
            ..f.answered(FlowEventView::Plan(Some(plan)))
        }),
{
}

/// The steps that a flow can still take, at most.
pub open spec fn steps_left(f: FlowView) -> nat {
    match f.asked {
        FlowRequest::Lock => 10,
        FlowRequest::LoadPlan => 9,
        FlowRequest::CheckTraces => 8,
        FlowRequest::ListDest => 7,
        FlowRequest::ListRemote => 6,
        FlowRequest::SavePlan => 5,
        FlowRequest::SaveNewState => 4,
        FlowRequest::LoadState => 3,
        FlowRequest::Schedule => 2,
        FlowRequest::Finalize => 1,
        FlowRequest::Finished => 0,
    }
}

/// Every flow ends.
pub proof fn law_every_flow_ends(f: FlowView, ev: FlowEventView)
    requires
        answers(f.asked, ev),
    ensures
        steps_left(f.answered(ev)) < steps_left(f),
{
}

/// The count of a status never exceeds the pieces, and reaches them exactly when
/// all are done.
pub proof fn law_done_count(pieces: Seq<PieceStateView>)
    ensures
        done_count(pieces) <= pieces.len(),
        done_count(pieces) == pieces.len() <==> forall|i: int|
            0 <= i < pieces.len() ==> (#[trigger] pieces[i]).status == PieceStatus::Done,
    decreases pieces.len(),
{
    if pieces.len() > 0 {
        let front = pieces.drop_last();
        law_done_count(front);
        assert(forall|i: int| 0 <= i < front.len() ==> #[trigger] front[i] == pieces[i]);
        assert(pieces[pieces.len() - 1] == pieces.last());
        if done_count(pieces) == pieces.len() {
            assert forall|i: int| 0 <= i < pieces.len() implies (#[trigger] pieces[i]).status
                == PieceStatus::Done by {
                if i < front.len() {
                    assert(front[i].status == PieceStatus::Done);
                }
            }
        }
        if done_count(pieces) < pieces.len() && pieces.last().status == PieceStatus::Done {
            let i = choose|i: int|
                0 <= i < front.len() && (#[trigger] front[i]).status != PieceStatus::Done;
            assert(pieces[i].status != PieceStatus::Done);
        }
    }
}

/// The order of a flow: lock, plan, state, pieces, end. Each step that is done leads to
/// the next one and changes nothing else.
pub proof fn law_order_of_the_flow(f: FlowView)
    ensures
        ({
            let done = f.answered(FlowEventView::Done);
            &&& f.asked is Lock ==> done == (FlowView { asked: FlowRequest::LoadPlan, ..f })
            &&& f.asked is SavePlan ==> done == (FlowView { asked: FlowRequest::SaveNewState, ..f })
            &&& f.asked is SaveNewState ==> done == (FlowView { asked: FlowRequest::LoadState, ..f })
            &&& f.asked is Schedule ==> done == (FlowView { asked: FlowRequest::Finalize, ..f })
            &&& f.asked is Finalize ==> done == (FlowView { asked: FlowRequest::Finished, ..f })
        }),
{
}

/// Whatever fails ends the flow, with that very failure.
pub proof fn law_failure_ends_the_flow(f: FlowView, e: ErrorView)
    ensures
        f.answered(FlowEventView::Failed(e)) == (FlowView {
            asked: FlowRequest::Finished,
            failure: Some(e),
            ..f
        }),
        f.failed(e) == (FlowView { asked: FlowRequest::Finished, failure: Some(e), ..f }),
{
}

/// What is made of a plan that is found: it is taken up, unless it is that of another
/// URL, which is refused. Without a plan a clone looks for traces of one, and there is
/// nothing to resume.
pub proof fn law_what_is_made_of_a_plan(f: FlowView, plan: PlanView)
    ensures
        f.url is None || f.url == Some(plan.url) ==> f.answered(FlowEventView::Plan(Some(plan)))
            == (FlowView { plan: Some(plan), asked: FlowRequest::LoadState, ..f }),
        f.url matches Some(url) ==> (url != plan.url ==> f.answered(
            FlowEventView::Plan(Some(plan)),
        ) == f.failed(
            ErrorView::plain(
                "destination "@ + f.dest + " already holds an rgc plan for a different URL ("@
                    + plan.url + ") — delete .rgc/ or rerun with the original URL"@,
            ),
        )),
        f.url is Some ==> f.answered(FlowEventView::Plan(None)) == (FlowView {
            asked: FlowRequest::CheckTraces,
            ..f
        }),
        f.url is None ==> f.answered(FlowEventView::Plan(None)) == f.failed(
            ErrorView::plain("no .rgc/plan.json in "@ + f.dest + " — nothing to resume"@),
        ),
{
}

/// A new clone goes into a destination without traces of another and without anything
/// of someone else's; what is in the way is named. Nothing else changes.
pub proof fn law_what_a_new_clone_goes_into(f: FlowView, names: Seq<Seq<char>>)
    ensures
        f.answered(FlowEventView::Traces(true)) == f.failed(
            ErrorView::plain(
                "plan/state mismatch — delete .rgc/ or restore plan.json (plan.json missing or unreadable in "@
                    + f.dest + ")"@,
            ),
        ),
        f.answered(FlowEventView::Traces(false)) == (FlowView {
            asked: FlowRequest::ListDest,
            ..f
        }),
        (forall|i: int| 0 <= i < names.len() ==> #[trigger] names[i] == ".rgc"@) ==> f.answered(
            FlowEventView::Holds(names),
        ) == (FlowView { asked: FlowRequest::ListRemote, ..f }),
        (exists|i: int| 0 <= i < names.len() && #[trigger] names[i] != ".rgc"@) ==> f.answered(
            FlowEventView::Holds(names),
        ) == f.failed(not_empty(f.dest, names)),
{
    let pred = |n: Seq<char>| n != ".rgc"@;
    if forall|i: int| 0 <= i < names.len() ==> #[trigger] names[i] == ".rgc"@ {
        lemma_nothing_foreign(names);
    }
    if exists|i: int| 0 <= i < names.len() && #[trigger] names[i] != ".rgc"@ {
        let i = choose|i: int| 0 <= i < names.len() && #[trigger] names[i] != ".rgc"@;
        names.lemma_filter_contains(pred, i);
    }
}

proof fn lemma_nothing_foreign(names: Seq<Seq<char>>)
    requires
        forall|i: int| 0 <= i < names.len() ==> #[trigger] names[i] == ".rgc"@,
    ensures
        foreign(names).len() == 0,
    decreases names.len(),
{
    reveal(Seq::filter);
    if names.len() > 0 {
        assert forall|i: int| 0 <= i < names.drop_last().len() implies #[trigger] names.drop_last()[i]
            == ".rgc"@ by {
            assert(names[i] == ".rgc"@);
        }
        lemma_nothing_foreign(names.drop_last());
        assert(names[names.len() - 1] == ".rgc"@);
    }
}

/// Everything but the clone's own directory is someone else's, and is named in its
/// order where a clone is refused.
pub proof fn law_what_is_foreign(names: Seq<Seq<char>>, name: Seq<char>, dest: Seq<char>)
    ensures
        foreign(Seq::empty()) == Seq::<Seq<char>>::empty(),
        foreign(names.push(name)) == if name == ".rgc"@ {
            foreign(names)
        } else {
            foreign(names).push(name)
        },
        not_empty(dest, names).kind is None,
        not_empty(dest, names).rendered() == "destination "@ + dest
            + " is not empty (contains "@ + text::joined(
            foreign(names),
            ", "@,
            foreign(names).len(),
        )
            + ") — rgc only clones into an empty directory; choose a new destination or delete its contents"@,
{
    reveal(Seq::filter);
    assert(names.push(name).drop_last() =~= names);
    assert(foreign(Seq::empty()) =~= Seq::<Seq<char>>::empty());
    assert(not_empty(dest, names).rendered() =~= "destination "@ + dest
        + " is not empty (contains "@ + text::joined(
        foreign(names),
        ", "@,
        foreign(names).len(),
    )
        + ") — rgc only clones into an empty directory; choose a new destination or delete its contents"@);
}

/// What a remote offers is planned for the URL of the flow, with its first step and
/// with thirty-two tags to a batch, and the plan is to be saved. A remote that offers
/// nothing is refused.
pub proof fn law_what_is_made_of_a_remote(f: FlowView, remote: RemoteRefsView)
    requires
        f.url is Some,
    ensures
        remote.branches.len() > 0 || remote.tags.len() > 0 ==> f.answered(
            FlowEventView::Remote(remote),
        ) == (FlowView {
            plan: Some(
                planner::planned(
                    f.url->0,
                    remote,
                    PlannerConfig { tags_per_batch: 32, initial_step: f.initial_step },
                ),
            ),
            asked: FlowRequest::SavePlan,
            ..f
        }),
        remote.branches.len() == 0 && remote.tags.len() == 0 ==> f.answered(
            FlowEventView::Remote(remote),
        ) == f.failed(ErrorView::plain("remote has no branches or tags — nothing to clone"@)),
{
}

/// What is made of a state: that of this very plan, and none at all, lead on to the
/// fetching; that of any other plan is refused.
pub proof fn law_what_is_made_of_a_state(f: FlowView, s: StateView)
    requires
        f.plan is Some,
    ensures
        f.answered(FlowEventView::State(None)) == (FlowView { asked: FlowRequest::Schedule, ..f }),
        s.fingerprint == f.plan->0.fingerprint() ==> f.answered(FlowEventView::State(Some(s)))
            == (FlowView { asked: FlowRequest::Schedule, ..f }),
        s.fingerprint != f.plan->0.fingerprint() ==> f.answered(FlowEventView::State(Some(s)))
            == f.failed(
            ErrorView::plain("plan/state mismatch — delete .rgc/ or restore plan.json"@),
        ),
{
}

/// A clone that fails half-way can be taken up: with the plan and the state that were
/// written, a resume of the same destination goes on to the fetching, without planning
/// anything anew.
pub proof fn law_written_plan_and_state_are_taken_up(f: FlowView, plan: PlanView, done: Seq<PieceStateView>)
    requires
        f.asked is LoadPlan,
        f.url is None || f.url == Some(plan.url),
    ensures
        ({
            let s = StateView { fingerprint: StateView::fresh(plan).fingerprint, pieces: done };
            let after = f.answered(FlowEventView::Plan(Some(plan))).answered(
                FlowEventView::State(Some(s)),
            );
            &&& after.asked is Schedule
            &&& after.plan == Some(plan)
            &&& after.failure == f.failure
        }),
{
}

/// Only a lock that someone else holds is taken for another instance; every other
/// trouble with it is told as it is; and a lock that is held is no trouble.
pub proof fn law_trouble_with_the_lock(path: Seq<char>, cause: String)
    ensures
        lock_refusal(path, LockAttempt::Locked) is None,
        lock_refusal(path, LockAttempt::WouldBlock) == Some(
            ErrorView::plain(
                "another rgc instance is running on this destination (lock: "@ + path + ")"@,
            ),
        ),
        lock_refusal(path, LockAttempt::CannotOpen(cause)) == Some(
            ErrorView::plain("cannot open lock file "@ + path + ": "@ + cause@),
        ),
        lock_refusal(path, LockAttempt::CannotLock(cause)) == Some(
            ErrorView::plain("cannot lock "@ + path + ": "@ + cause@),
        ),
{
}

/// Where the lock of a clone is.
pub proof fn law_where_the_lock_is(dir: Seq<char>)
    ensures
        lock_file(dir) == text::path_below(dir, ".rgc/lock"@),
{
    reveal_strlit(".rgc/lock");
    reveal_strlit(".rgc");
    reveal_strlit("lock");
    assert(lock_file(dir) =~= text::path_below(dir, ".rgc/lock"@));
}

/// Is it nothing but slashes?
pub open spec fn all_slashes(s: Seq<char>) -> bool {
    forall|i: int| 0 <= i < s.len() ==> #[trigger] s[i] == '/'
}

/// The directory of a clone is what follows the last slash of its URL, slashes at the
/// end and any `.git` aside. Nothing else is taken off the name.
pub proof fn law_directory_of_a_clone(lead: Seq<char>, name: Seq<char>, tail: Seq<char>)
    requires
        lead.len() == 0 || lead[lead.len() - 1] == '/',
        !name.contains('/'),
        name.len() > 0,
        !text::finishes_with(name, ".git"@),
        forall|i: int| 0 <= i < tail.len() ==> #[trigger] tail[i] == '/',
    ensures
        directory_for(lead + name + tail) == name,
        directory_for(lead + name + ".git"@ + tail) == name,
        directory_for(lead + name + ".git"@ + ".git"@ + tail) == name,
{
    reveal_strlit(".git");
    assert(all_slashes(tail));
    let g = ".git"@;
    assert(g =~= seq!['.', 'g', 'i', 't']);
    assert(!(name + g).contains('/')) by {
        assert forall|i: int| 0 <= i < (name + g).len() implies (name + g)[i] != '/' by {
            if i < name.len() {
                assert(name.contains(name[i]));
            }
        }
    }
    assert(!(name + g + g).contains('/')) by {
        assert forall|i: int| 0 <= i < (name + g + g).len() implies (name + g + g)[i] != '/' by {
            if i < name.len() {
                assert(name.contains(name[i]));
            }
        }
    }
    lemma_last_part(lead, name, tail);
    lemma_last_part(lead, name + g, tail);
    lemma_last_part(lead, name + g + g, tail);
    assert(lead + name + g + tail =~= lead + (name + g) + tail);
    assert(lead + name + g + g + tail =~= lead + (name + g + g) + tail);
    lemma_without_one_git(name);
    lemma_without_one_git(name + g);
}

proof fn lemma_without_one_git(s: Seq<char>)
    ensures
        without_git(s + ".git"@) == without_git(s),
{
    reveal_strlit(".git");
    let t = s + ".git"@;
    assert(t.subrange(t.len() - 4, t.len() as int) =~= ".git"@);
    assert(t.take(t.len() - 4) =~= s);
}

proof fn lemma_last_part(lead: Seq<char>, name: Seq<char>, tail: Seq<char>)
    requires
        lead.len() == 0 || lead[lead.len() - 1] == '/',
        !name.contains('/'),
        name.len() > 0,
        all_slashes(tail),
    ensures
        last_segment(without_slashes(lead + name + tail)) == name,
    decreases tail.len(),
{
    let whole = lead + name + tail;
    if tail.len() > 0 {
        assert(tail[tail.len() - 1] == '/');
        assert(whole.drop_last() =~= lead + name + tail.drop_last());
        lemma_last_part(lead, name, tail.drop_last());
    } else {
        assert(whole =~= lead + name);
        assert(name.contains(name[name.len() - 1]));
        assert(whole.last() == name.last());
        assert forall|j: int| lead.len() <= j < whole.len() implies whole[j] != '/' by {
            assert(name.contains(name[j - lead.len()]));
        }
        lemma_last_segment(whole, lead.len() as int);
        assert(whole.subrange(lead.len() as int, whole.len() as int) =~= name);
    }
}

/// How a piece is shown: its status, its id, and how far a chain has come.
pub proof fn law_line_of_a_piece(ps: PieceStateView)
    ensures
        ps.chain is None ==> piece_line(ps) == ps.status.label() + "  "@ + ps.id,
        ps.chain matches Some(c) ==> piece_line(ps) == ps.status.label() + "  "@ + ps.id
            + "  depth="@ + text::decimal(c.depth_done as nat) + " step="@ + text::decimal(
            c.step as nat,
        ),
{
    match ps.chain {
        None => {
            assert(piece_line(ps) =~= ps.status.label() + "  "@ + ps.id);
        },
        Some(c) => {
            assert(piece_line(ps) =~= ps.status.label() + "  "@ + ps.id + "  depth="@
                + text::decimal(c.depth_done as nat) + " step="@ + text::decimal(c.step as nat));
        },
    }
}

/// What a status shows: the URL and the number of pieces first; then, where there is a
/// state, a line for each piece, in their order, and the number of those that are done;
/// and where there is none, how to get one.
pub proof fn law_lines_of_a_status(dir: Seq<char>, plan: PlanView, s: StateView, i: int)
    ensures
        ({
            let head = "plan: "@ + plan.url + " ("@ + text::decimal(plan.pieces.len())
                + " pieces)"@;
            let shown = status_lines(dir, plan, Some(s));
            &&& shown.len() == s.pieces.len() + 2
            &&& shown[0] == head
            &&& 0 <= i < s.pieces.len() ==> shown[i + 1] == piece_line(s.pieces[i])
            &&& shown[s.pieces.len() as int + 1] == text::decimal(done_count(s.pieces)) + "/"@
                + text::decimal(s.pieces.len()) + " pieces done"@
            &&& status_lines(dir, plan, None) == seq![
                head,
                "rgc: no readable state.json in "@ + dir + " — run `rgc resume "@ + dir
                    + "` to rebuild progress"@,
            ]
        }),
{
}

/// A state of another plan is shown with a warning, and no other is.
pub proof fn law_when_a_status_warns(dir: Seq<char>, plan: PlanView, s: StateView)
    ensures
        status_warning(dir, plan, None) is None,
        s.fingerprint == plan.fingerprint() ==> status_warning(dir, plan, Some(s)) is None,
        s.fingerprint != plan.fingerprint() ==> status_warning(dir, plan, Some(s)) == Some(
            "warning: state.json does not match plan.json in "@ + dir
                + " — display may be misleading"@,
        ),
{
}

/// Each piece that is done counts once, and no other counts.
pub proof fn law_each_done_piece_counts_once(pieces: Seq<PieceStateView>, p: PieceStateView)
    ensures
        done_count(Seq::empty()) == 0,
        done_count(pieces.push(p)) == done_count(pieces) + if p.status == PieceStatus::Done {
            1int
        } else {
            0int
        },
{
    assert(pieces.push(p).drop_last() =~= pieces);
}

/// Events of a flow are spoken of by what they carry.
pub proof fn law_what_flow_events_carry(ev: FlowEvent)
    ensures
        match ev {
            FlowEvent::Done => ev@ is Done,
            FlowEvent::Failed(e) => ev@ == FlowEventView::Failed(e@),
            FlowEvent::Plan(Some(p)) => ev@ == FlowEventView::Plan(Some(p@)),
            FlowEvent::Plan(None) => ev@ == FlowEventView::Plan(None),
            FlowEvent::Traces(t) => ev@ == FlowEventView::Traces(t),
            FlowEvent::Holds(v) => ev@ == FlowEventView::Holds(text::texts(v@)),
            FlowEvent::Remote(r) => ev@ == FlowEventView::Remote(r@),
            FlowEvent::State(Some(s)) => ev@ == FlowEventView::State(Some(s@)),
            FlowEvent::State(None) => ev@ == FlowEventView::State(None),
        },
{
}

/// Every `.git` at the end goes, one after the other, and a name that does not end with
/// it is kept whole; a URL of slashes alone, or of nothing but `.git` behind its last
/// slash, leaves no name.
pub proof fn law_git_endings_go(s: Seq<char>, lead: Seq<char>, tail: Seq<char>)
    requires
        lead.len() == 0 || lead[lead.len() - 1] == '/',
        forall|i: int| 0 <= i < tail.len() ==> #[trigger] tail[i] == '/',
    ensures
        without_git(s + ".git"@) == without_git(s),
        !text::finishes_with(s, ".git"@) ==> without_git(s) == s,
        s.len() > 0 && !s.contains('/') ==> directory_for(lead + s + tail) == without_git(s),
        directory_for(tail) == Seq::<char>::empty(),
        directory_for(lead + ".git"@ + tail) == Seq::<char>::empty(),
{
    reveal_strlit(".git");
    assert(all_slashes(tail));
    lemma_without_one_git(s);
    lemma_only_slashes(tail);
    if s.len() > 0 && !s.contains('/') {
        lemma_last_part(lead, s, tail);
    }
    let g = ".git"@;
    assert(g =~= seq!['.', 'g', 'i', 't']);
    lemma_last_part(lead, g, tail);
    lemma_without_one_git(Seq::empty());
    assert(Seq::<char>::empty() + g =~= g);
}

proof fn lemma_only_slashes(s: Seq<char>)
    requires
        all_slashes(s),
    ensures
        without_slashes(s) == Seq::<char>::empty(),
    decreases s.len(),
{
    if s.len() > 0 {
        assert(s[s.len() - 1] == '/');
        assert forall|i: int| 0 <= i < s.drop_last().len() implies #[trigger] s.drop_last()[i]
            == '/' by {
            assert(s[i] == '/');
        }
        lemma_only_slashes(s.drop_last());
    } else {
        assert(s =~= Seq::<char>::empty());
    }
}

/// Which answers there are to each request of a flow.
pub proof fn law_what_can_be_answered(
    e: ErrorView,
    p: Option<PlanView>,
    there: bool,
    names: Seq<Seq<char>>,
    r: RemoteRefsView,
    s: Option<StateView>,
)
    ensures
        answers(FlowRequest::Lock, FlowEventView::Done),
        answers(FlowRequest::Lock, FlowEventView::Failed(e)),
        answers(FlowRequest::LoadPlan, FlowEventView::Plan(p)),
        answers(FlowRequest::LoadPlan, FlowEventView::Failed(e)),
        answers(FlowRequest::CheckTraces, FlowEventView::Traces(there)),
        answers(FlowRequest::ListDest, FlowEventView::Holds(names)),
        answers(FlowRequest::ListDest, FlowEventView::Failed(e)),
        answers(FlowRequest::ListRemote, FlowEventView::Remote(r)),
        answers(FlowRequest::ListRemote, FlowEventView::Failed(e)),
        answers(FlowRequest::SavePlan, FlowEventView::Done),
        answers(FlowRequest::SavePlan, FlowEventView::Failed(e)),
        answers(FlowRequest::SaveNewState, FlowEventView::Done),
        answers(FlowRequest::SaveNewState, FlowEventView::Failed(e)),
        answers(FlowRequest::LoadState, FlowEventView::State(s)),
        answers(FlowRequest::LoadState, FlowEventView::Failed(e)),
        answers(FlowRequest::Schedule, FlowEventView::Done),
        answers(FlowRequest::Schedule, FlowEventView::Failed(e)),
        answers(FlowRequest::Finalize, FlowEventView::Done),
        answers(FlowRequest::Finalize, FlowEventView::Failed(e)),
{
}

} // verus!
