//! The run: its configuration, the retry table, and how it starts and ends.

use crate::errors::{Error, ErrorView, FailureKind};
use crate::ledger;
use crate::ledger::Ledger;
use crate::piece_run;
use crate::planner::{Plan, PlanView};
use crate::state::{PieceStateView, PieceStatus, State, StateView};
use crate::text;
use crate::throttle;
use crate::throttle::Throttle;
use vstd::arithmetic::power;
use vstd::prelude::*;

verus! {

/// The most workers that a run can have.
pub const MAX_JOBS: usize = 8;

#[derive(Debug, Clone, Copy)]
pub struct SchedulerConfig {
    pub max_attempts: u32,
    /// Rate limits in a row, after which a piece is given up.
    pub max_rate_limits: u32,
    pub jobs: usize,
    /// Rate limits in a run, after which the run is given up.
    pub rate_limit_breaker: u32,
    /// Rate limits in a run, after which half of the workers pause.
    pub rate_limit_soft_cap: u32,
    pub cooldown_secs: u64,
}

impl Default for SchedulerConfig {
    fn default() -> (r: SchedulerConfig)
        ensures
            r.max_attempts == 5,
            r.max_rate_limits == 10,
            r.jobs == 2,
            r.rate_limit_breaker == 40,
            r.rate_limit_soft_cap == 10,
            r.cooldown_secs == throttle::COOLDOWN_SECS,
    {
        SchedulerConfig {
            max_attempts: 5,
            max_rate_limits: 10,
            jobs: 2,
            rate_limit_breaker: 40,
            rate_limit_soft_cap: 10,
            cooldown_secs: throttle::COOLDOWN_SECS,
        }
    }
}

impl SchedulerConfig {
    /// The number of workers: as configured, but at least one and at most
    /// `MAX_JOBS`.
    pub open spec fn workers(self) -> usize {
        if self.jobs < 1 {
            1
        } else if self.jobs > MAX_JOBS {
            MAX_JOBS
        } else {
            self.jobs
        }
    }

    pub fn clamped_jobs(&self) -> (r: usize)
        ensures
            r == self.workers(),
    {
        if self.jobs < 1 {
            1
        } else if self.jobs > MAX_JOBS {
            MAX_JOBS
        } else {
            self.jobs
        }
    }
}

// ------------------------------------------------------------------ decisions

/// What to do about a failed attempt.
#[derive(Debug, Clone, Copy, PartialEq, Eq, Structural)]
pub enum Action {
    RetryAfter(u64),
    HalveAndRetry,
    RetryNoShallow,
    GiveUp,
}

/// The pause after a network failure: it doubles with every attempt, up to a
/// minute.
pub open spec fn backoff(attempts: nat) -> int {
    if power::pow(2, attempts + 1) < 60 {
        power::pow(2, attempts + 1)
    } else {
        60
    }
}

pub fn backoff_secs(attempts: u32) -> (r: u64)
    ensures
        r == backoff(attempts as nat),
{
    let mut secs: u64 = 2;
    let mut i: u32 = 0;
    proof {
        power::lemma_pow1(2);
    }
    while i < attempts && secs < 60
        invariant
            i <= attempts,
            secs == power::pow(2, i as nat + 1),
            secs < 120,
        decreases attempts - i,
    {
        proof {
            reveal(power::pow);
            assert(power::pow(2, i as nat + 2) == 2 * power::pow(2, i as nat + 1));
        }
        secs = secs * 2;
        i = i + 1;
    }
    if secs < 60 {
        secs
    } else {
        proof {
            power::lemma_pow_increases(2, i as nat + 1, attempts as nat + 1);
        }
        60
    }
}

/// The retry table. A rate limit is not decided here: it does not count as an
/// attempt, and the throttle answers for it.
pub open spec fn decision(attempts: u32, kind: FailureKind, max_attempts: u32) -> Option<Action> {
    match kind {
        FailureKind::RateLimited => None,
        _ => if attempts > max_attempts {
            Some(Action::GiveUp)
        } else {
            match kind {
                FailureKind::ShallowUnsupported => Some(Action::RetryNoShallow),
                FailureKind::Congestion => Some(
                    Action::RetryAfter(backoff(attempts as nat) as u64),
                ),
                FailureKind::Network => if attempts >= 2 {
                    Some(Action::HalveAndRetry)
                } else {
                    Some(Action::RetryAfter(backoff(attempts as nat) as u64))
                },
                _ => Some(Action::GiveUp),
            }
        },
    }
}

pub fn decide(attempts: u32, kind: FailureKind, max_attempts: u32) -> (r: Option<Action>)
    ensures
        r == decision(attempts, kind, max_attempts),
{
    if kind == FailureKind::RateLimited {
        return None;
    }
    if attempts > max_attempts {
        return Some(Action::GiveUp);
    }
    Some(
        match kind {
            FailureKind::ShallowUnsupported => Action::RetryNoShallow,
            FailureKind::Congestion => Action::RetryAfter(backoff_secs(attempts)),
            FailureKind::Network => if attempts >= 2 {
                Action::HalveAndRetry
            } else {
                Action::RetryAfter(backoff_secs(attempts))
            },
            _ => Action::GiveUp,
        },
    )
}

/// The pause after the n-th rate limit in a row, in seconds.
pub fn rate_limit_backoff_secs(consecutive_rate_limits: u32) -> (r: u64)
    ensures
        r == throttle::storm_secs(consecutive_rate_limits),
{
    throttle::Throttle::storm_backoff(consecutive_rate_limits)
}

// ----------------------------------------------------------- start of the run

/// What the start of a run asks of its driver.
#[derive(Debug, Clone, Copy, PartialEq, Eq, Structural)]
pub enum StartRequest {
    /// Make sure that the main repository is there.
    InitMain,
    LoadState,
    /// Rebuild the state from the repository.
    Recover,
    SaveState,
    /// Let the workers begin.
    Work,
    /// The run could not be started.
    Refused,
}

/// What the driver answers.
#[derive(Debug)]
pub enum StartEvent {
    Done,
    Failed(Error),
    /// The state that was found, if a readable one was.
    Found(Option<State>),
    Rebuilt(State),
}

pub enum StartEventView {
    Done,
    Failed(ErrorView),
    Found(Option<StateView>),
    Rebuilt(StateView),
}

pub open spec fn state_view(s: Option<State>) -> Option<StateView> {
    match s {
        Some(s) => Some(s@),
        None => None,
    }
}

impl View for StartEvent {
    type V = StartEventView;

    open spec fn view(&self) -> StartEventView {
        match self {
            StartEvent::Done => StartEventView::Done,
            StartEvent::Failed(e) => StartEventView::Failed(e@),
            StartEvent::Found(s) => StartEventView::Found(state_view(*s)),
            StartEvent::Rebuilt(s) => StartEventView::Rebuilt(s@),
        }
    }
}

/// Is the event an answer to the request?
pub open spec fn answers_start(asked: StartRequest, ev: StartEventView) -> bool {
    match asked {
        StartRequest::InitMain | StartRequest::SaveState => ev is Done || ev is Failed,
        StartRequest::LoadState => ev is Found || ev is Failed,
        StartRequest::Recover => ev is Rebuilt || ev is Failed,
        StartRequest::Work | StartRequest::Refused => false,
    }
}

/// The start of a run: from the main repository to a ledger that has been saved.
pub struct RunStart {
    ledger: Option<Ledger>,
    asked: StartRequest,
    failure: Option<Error>,
}

pub struct StartView {
    pub ledger: Option<StateView>,
    pub disk: Option<StateView>,
    pub asked: StartRequest,
    pub failure: Option<ErrorView>,
}

pub open spec fn ledger_view(l: Option<Ledger>) -> Option<StateView> {
    match l {
        Some(l) => Some(l@),
        None => None,
    }
}

pub open spec fn ledger_on_disk(l: Option<Ledger>) -> Option<StateView> {
    match l {
        Some(l) => l.on_disk(),
        None => None,
    }
}

impl View for RunStart {
    type V = StartView;

    closed spec fn view(&self) -> StartView {
        StartView {
            ledger: ledger_view(self.ledger),
            disk: ledger_on_disk(self.ledger),
            asked: self.asked,
            failure: piece_run::failure_view(self.failure),
        }
    }
}

impl StartView {
    pub open spec fn asking(self, asked: StartRequest) -> StartView {
        StartView { asked, ..self }
    }

    /// There is a ledger to save when saving is asked for, and to work with when the
    /// workers begin.
    pub open spec fn sound(self) -> bool {
        self.asked is SaveState || self.asked is Work ==> self.ledger is Some
    }

    pub open spec fn refused(self, e: ErrorView) -> StartView {
        StartView { asked: StartRequest::Refused, failure: Some(e), ..self }
    }

    /// Opens the ledger on the state of this very plan; a state of another plan is
    /// refused.
    pub open spec fn opened(self, s: StateView, plan: PlanView) -> StartView {
        if s.fingerprint != plan.fingerprint() {
            self.refused(
                ErrorView::plain("plan/state mismatch — delete .rgc/ or restore plan.json"@),
            )
        } else {
            StartView {
                ledger: Some(ledger::reopened(s)),
                disk: None,
                asked: StartRequest::SaveState,
                ..self
            }
        }
    }

    /// After the answer to what was asked last.
    pub open spec fn answered(self, ev: StartEventView, plan: PlanView) -> StartView {
        match ev {
            StartEventView::Failed(e) => self.refused(e),
            StartEventView::Found(Some(s)) => self.opened(s, plan),
            StartEventView::Found(None) => self.asking(StartRequest::Recover),
            StartEventView::Rebuilt(s) => self.opened(s, plan),
            StartEventView::Done => if self.asked is InitMain {
                self.asking(StartRequest::LoadState)
            } else {
                StartView { disk: self.ledger, asked: StartRequest::Work, ..self }
            },
        }
    }
}

impl RunStart {
    #[verifier::type_invariant]
    spec fn holds_together(self) -> bool {
        self@.sound()
    }

    pub fn begin() -> (r: RunStart)
        ensures
            r@ == (StartView {
                ledger: None,
                disk: None,
                asked: StartRequest::InitMain,
                failure: None,
            }),
    {
        RunStart { ledger: None, asked: StartRequest::InitMain, failure: None }
    }

    /// What the driver has to do.
    pub fn asked(&self) -> (r: StartRequest)
        ensures
            r == self@.asked,
    {
        self.asked
    }

    /// The ledger that was opened, as it has to be saved.
    pub fn ledger(&self) -> (r: Option<&Ledger>)
        ensures
            r is Some <==> self@.ledger is Some,
            self@.asked is SaveState || self@.asked is Work ==> r is Some,
            r matches Some(l) ==> self@.ledger == Some(l@),
    {
        proof {
            use_type_invariant(self);
        }
        match &self.ledger {
            Some(l) => Some(l),
            None => None,
        }
    }

    /// Hands the ledger over, to the workers.
    pub fn into_ledger(self) -> (r: Option<Ledger>)
        ensures
            ledger_view(r) == self@.ledger,
            ledger_on_disk(r) == self@.disk,
            self@.asked is Work ==> r is Some,
    {
        proof {
            use_type_invariant(&self);
        }
        self.ledger
    }

    /// Why the run was refused.
    pub fn failure(&self) -> (r: Option<Error>)
        ensures
            piece_run::failure_view(r) == self@.failure,
    {
        match &self.failure {
            Some(e) => Some(e.clone()),
            None => None,
        }
    }

    fn refusing(self, e: Error) -> (r: RunStart)
        ensures
            r@ == self@.refused(e@),
    {
        RunStart { ledger: self.ledger, asked: StartRequest::Refused, failure: Some(e) }
    }

    fn open(self, found: Option<State>, plan: &Plan) -> (r: RunStart)
        requires
            plan@.wf(),
        ensures
            found matches Some(s) ==> r@ == self@.opened(s@, plan@),
            found is None ==> r@ == self@.asking(StartRequest::Recover),
    {
        match Ledger::open(found, plan) {
            Err(e) => self.refusing(e),
            Ok(None) => RunStart {
                ledger: self.ledger,
                asked: StartRequest::Recover,
                failure: self.failure,
            },
            Ok(Some(l)) => RunStart {
                ledger: Some(l),
                asked: StartRequest::SaveState,
                failure: self.failure,
            },
        }
    }

    /// Takes the driver's answer and decides what comes next.
    pub fn step(self, ev: StartEvent, plan: &Plan) -> (r: RunStart)
        requires
            plan@.wf(),
            answers_start(self@.asked, ev@),
        ensures
            r@ == self@.answered(ev@, plan@),
    {
        proof {
            use_type_invariant(&self);
        }
        match ev {
            StartEvent::Failed(e) => self.refusing(e),
            StartEvent::Found(found) => self.open(found, plan),
            StartEvent::Rebuilt(s) => self.open(Some(s), plan),
            StartEvent::Done => match self.asked {
                StartRequest::InitMain => RunStart {
                    ledger: self.ledger,
                    asked: StartRequest::LoadState,
                    failure: self.failure,
                },
                _ => {
                    let ledger = match self.ledger {
                        Some(l) => {
                            let mut l = l;
                            l.saved();
                            Some(l)
                        },
                        None => None,
                    };
                    RunStart { ledger, asked: StartRequest::Work, failure: self.failure }
                },
            },
        }
    }
}

// ------------------------------------------------------------- end of the run

/// What a run ends with that could not finish the pieces of the quoted ids.
pub open spec fn unfinished_pieces(quoted_ids: Seq<char>, failures: Seq<Seq<char>>) -> ErrorView {
    ErrorView::plain(
        "pieces failed permanently: "@ + quoted_ids + " — rerun to resume. "@ + text::joined(
            failures,
            " | "@,
            failures.len(),
        ),
    )
}

pub fn unfinished_error(quoted_ids: &str, failures: &Vec<String>) -> (r: Error)
    ensures
        r@ == unfinished_pieces(quoted_ids@, text::texts(failures@)),
{
    let mut m = String::from_str("pieces failed permanently: ");
    m.append(quoted_ids);
    m.append(" — rerun to resume. ");
    m.append(text::join(failures, " | ").as_str());
    Error::Other(m)
}

/// What a run ends with. A run that was given up says so before anything else;
/// otherwise the pieces that are not done are listed, with what was reported of
/// them.
pub open spec fn run_ends_with(
    tripped: bool,
    pieces: Seq<PieceStateView>,
    failures: Seq<Seq<char>>,
) -> Option<ErrorView> {
    let left = ledger::unfinished(pieces);
    if tripped {
        Some(piece_run::given_up_by_upstream())
    } else if left.len() > 0 {
        Some(unfinished_pieces(text::debug_list(left), failures))
    } else {
        None
    }
}

/// The outcome of a run, once its workers have stopped. `failures` is what all of
/// them have reported.
pub fn run_outcome(throttle: &Throttle, ledger: &Ledger, failures: &Vec<String>) -> (r: Result<
    (),
    Error,
>)
    ensures
        r is Ok <==> run_ends_with(
            throttle@.tripped(),
            ledger@.pieces,
            text::texts(failures@),
        ) is None,
        r matches Err(e) ==> run_ends_with(
            throttle@.tripped(),
            ledger@.pieces,
            text::texts(failures@),
        ) == Some(e@),
{
    if throttle.tripped() {
        return Err(throttle.abort_error());
    }
    let left = ledger.unfinished_ids();
    if left.len() == 0 {
        return Ok(());
    }
    Err(unfinished_error(text::quote_list(&left).as_str(), failures))
}

// ----------------------------------------------------------------------- laws

/// The pause after a failure never exceeds a minute, is at least two seconds, and
/// does not get shorter with more attempts.
pub proof fn law_backoff_grows_to_a_minute(a: nat, b: nat)
    requires
        a <= b,
    ensures
        2 <= backoff(a) <= backoff(b) <= 60,
        backoff(0) == 2,
{
    power::lemma_pow1(2);
    power::lemma_pow_increases(2, 1, a + 1);
    power::lemma_pow_increases(2, a + 1, b + 1);
}

/// Until the pause has reached a minute, each attempt doubles it.
pub proof fn law_backoff_doubles(attempts: nat)
    requires
        backoff(attempts + 1) < 60,
    ensures
        backoff(attempts + 1) == 2 * backoff(attempts),
{
    reveal(power::pow);
    assert(power::pow(2, attempts + 2) == 2 * power::pow(2, attempts + 1));
}

/// A rate limit is never decided by the retry table, and everything else always is.
pub proof fn law_only_rate_limits_are_left_to_the_throttle(
    attempts: u32,
    kind: FailureKind,
    max_attempts: u32,
)
    ensures
        decision(attempts, kind, max_attempts) is None <==> kind == FailureKind::RateLimited,
{
}

/// A budget is final: beyond it every failure that is not a rate limit means
/// giving up, and within it only a fatal one does.
pub proof fn law_when_the_table_gives_up(attempts: u32, kind: FailureKind, max_attempts: u32)
    requires
        kind != FailureKind::RateLimited,
    ensures
        decision(attempts, kind, max_attempts) == Some(Action::GiveUp) <==> attempts
            > max_attempts || kind == FailureKind::Fatal,
{
}

/// A run that was not given up succeeds exactly when every piece is done.
pub proof fn law_run_succeeds_when_all_is_done(
    pieces: Seq<PieceStateView>,
    failures: Seq<Seq<char>>,
)
    ensures
        run_ends_with(false, pieces, failures) is None <==> forall|i: int|
            0 <= i < pieces.len() ==> (#[trigger] pieces[i]).status == PieceStatus::Done,
        run_ends_with(true, pieces, failures) == Some(piece_run::given_up_by_upstream()),
{
    ledger::law_nothing_unfinished_means_all_done(pieces);
}

/// Work begins only when the state has been saved, and it is the state of this
/// very plan with every piece pending or done.
pub proof fn law_work_begins_with_a_saved_state(
    r: StartView,
    ev: StartEventView,
    plan: PlanView,
)
    requires
        r.sound(),
        answers_start(r.asked, ev),
    ensures
        r.answered(ev, plan).sound(),
        r.answered(ev, plan).asked is Work ==> {
            &&& r.asked is SaveState && ev is Done
            &&& r.answered(ev, plan).disk == r.ledger
        },
        r.answered(ev, plan).asked is SaveState ==> {
            &&& r.answered(ev, plan).ledger is Some
            &&& r.answered(ev, plan).ledger->0.fingerprint == plan.fingerprint()
            &&& forall|i: int|
                0 <= i < r.answered(ev, plan).ledger->0.pieces.len() ==> {
                    let status = (#[trigger] r.answered(ev, plan).ledger->0.pieces[i]).status;
                    status == PieceStatus::Pending || status == PieceStatus::Done
                }
        },
{
}

/// The state is rebuilt from the repository only where no readable state was
/// found, never in place of one that was.
pub proof fn law_recovery_only_without_a_state(r: StartView, ev: StartEventView, plan: PlanView)
    requires
        answers_start(r.asked, ev),
    ensures
        r.answered(ev, plan).asked is Recover <==> ev == StartEventView::Found(None),
{
}

/// A state of another plan is refused, whatever it says.
pub proof fn law_foreign_state_is_refused(r: StartView, s: StateView, plan: PlanView)
    requires
        s.fingerprint != plan.fingerprint(),
    ensures
        r.answered(StartEventView::Found(Some(s)), plan).asked is Refused,
        r.answered(StartEventView::Found(Some(s)), plan).ledger == r.ledger,
{
}

/// The pauses after failures, in seconds: two, four, eight, sixteen, thirty-two, and a
/// minute from then on.
pub proof fn law_pauses_in_seconds(attempts: nat)
    ensures
        backoff(0) == 2,
        backoff(1) == 4,
        backoff(2) == 8,
        backoff(3) == 16,
        backoff(4) == 32,
        attempts >= 5 ==> backoff(attempts) == 60,
{
    reveal_with_fuel(power::pow, 8);
    assert(power::pow(2, 6) == 64);
    if attempts >= 5 {
        power::lemma_pow_increases(2, 6, attempts + 1);
    }
}

/// The retry table, line by line. With attempts left a network failure is tried again
/// after a pause, at the second one and from then on with half of the step; congestion
/// after a pause alone; a refused shallow fetch at once, in full. A fatal failure is
/// never tried again, and without attempts left nothing is.
pub proof fn law_retry_table(attempts: u32, max_attempts: u32)
    ensures
        decision(attempts, FailureKind::RateLimited, max_attempts) is None,
        decision(attempts, FailureKind::Fatal, max_attempts) == Some(Action::GiveUp),
        attempts <= max_attempts ==> {
            &&& decision(attempts, FailureKind::Congestion, max_attempts) == Some(
                Action::RetryAfter(backoff(attempts as nat) as u64),
            )
            &&& decision(attempts, FailureKind::ShallowUnsupported, max_attempts) == Some(
                Action::RetryNoShallow,
            )
            &&& attempts < 2 ==> decision(attempts, FailureKind::Network, max_attempts) == Some(
                Action::RetryAfter(backoff(attempts as nat) as u64),
            )
            &&& attempts >= 2 ==> decision(attempts, FailureKind::Network, max_attempts) == Some(
                Action::HalveAndRetry,
            )
        },
        attempts > max_attempts ==> {
            &&& decision(attempts, FailureKind::Network, max_attempts) == Some(Action::GiveUp)
            &&& decision(attempts, FailureKind::Congestion, max_attempts) == Some(Action::GiveUp)
            &&& decision(attempts, FailureKind::ShallowUnsupported, max_attempts) == Some(
                Action::GiveUp,
            )
        },
{
}

/// There are as many workers as configured, from one to eight.
pub proof fn law_number_of_workers(cfg: SchedulerConfig)
    ensures
        cfg.jobs == 0 ==> cfg.workers() == 1,
        1 <= cfg.jobs <= 8 ==> cfg.workers() == cfg.jobs,
        cfg.jobs > 8 ==> cfg.workers() == 8,
{
}

/// The start of a run, step by step: the main repository, then the state; the recovery
/// where there is none; then the ledger is opened on the state, and saved, and only then
/// do the workers begin. Nothing else of the start changes on the way.
pub proof fn law_steps_of_the_start(r: StartView, plan: PlanView, s: StateView)
    ensures
        r.asked is InitMain ==> r.answered(StartEventView::Done, plan) == (StartView {
            asked: StartRequest::LoadState,
            ..r
        }),
        r.asked is SaveState ==> r.answered(StartEventView::Done, plan) == (StartView {
            disk: r.ledger,
            asked: StartRequest::Work,
            ..r
        }),
        r.answered(StartEventView::Found(None), plan) == (StartView {
            asked: StartRequest::Recover,
            ..r
        }),
        s.fingerprint == plan.fingerprint() ==> {
            &&& r.answered(StartEventView::Found(Some(s)), plan) == (StartView {
                ledger: Some(ledger::reopened(s)),
                disk: None,
                asked: StartRequest::SaveState,
                ..r
            })
            &&& r.answered(StartEventView::Rebuilt(s), plan) == r.answered(
                StartEventView::Found(Some(s)),
                plan,
            )
        },
        s.fingerprint != plan.fingerprint() ==> {
            &&& r.answered(StartEventView::Found(Some(s)), plan) == r.refused(
                ErrorView::plain("plan/state mismatch — delete .rgc/ or restore plan.json"@),
            )
            &&& r.answered(StartEventView::Rebuilt(s), plan) == r.answered(
                StartEventView::Found(Some(s)),
                plan,
            )
        },
{
}

/// A start that fails is refused, with that very failure and nothing else changed.
pub proof fn law_failed_start_is_refused(r: StartView, e: ErrorView, plan: PlanView)
    ensures
        r.answered(StartEventView::Failed(e), plan) == (StartView {
            asked: StartRequest::Refused,
            failure: Some(e),
            ..r
        }),
        r.refused(e) == (StartView { asked: StartRequest::Refused, failure: Some(e), ..r }),
{
}

/// What a run ends with: that it was given up, where it was; otherwise the pieces that
/// are not done, all of them, with all that was reported; and nothing where all are done.
pub proof fn law_what_a_run_ends_with(pieces: Seq<PieceStateView>, failures: Seq<Seq<char>>)
    ensures
        run_ends_with(true, pieces, failures) == Some(
            ErrorView::plain("upstream rate-limited — rerun later"@),
        ),
        ledger::unfinished(pieces).len() == 0 ==> run_ends_with(false, pieces, failures) is None,
        ledger::unfinished(pieces).len() > 0 ==> {
            &&& run_ends_with(false, pieces, failures) matches Some(e)
            &&& e.kind is None
            &&& e.rendered() == "pieces failed permanently: "@ + text::debug_list(
                ledger::unfinished(pieces),
            ) + " — rerun to resume. "@ + text::joined(failures, " | "@, failures.len())
        },
{
    if ledger::unfinished(pieces).len() > 0 {
        let e = run_ends_with(false, pieces, failures)->0;
        assert(e.rendered() =~= "pieces failed permanently: "@ + text::debug_list(
            ledger::unfinished(pieces),
        ) + " — rerun to resume. "@ + text::joined(failures, " | "@, failures.len()));
    }
}

/// Events of the start are spoken of by what they carry.
pub proof fn law_what_start_events_carry(ev: StartEvent, s: Option<State>)
    ensures
        match ev {
            StartEvent::Done => ev@ is Done,
            StartEvent::Failed(e) => ev@ == StartEventView::Failed(e@),
            StartEvent::Found(Some(s)) => ev@ == StartEventView::Found(Some(s@)),
            StartEvent::Found(None) => ev@ == StartEventView::Found(None),
            StartEvent::Rebuilt(s) => ev@ == StartEventView::Rebuilt(s@),
        },
        match s {
            Some(s0) => state_view(s) == Some(s0@),
            None => state_view(s) is None,
        },
{
}

/// Which answers there are to each request of the start of a run.
pub proof fn law_what_can_be_answered(e: ErrorView, found: Option<StateView>, s: StateView)
    ensures
        answers_start(StartRequest::InitMain, StartEventView::Done),
        answers_start(StartRequest::InitMain, StartEventView::Failed(e)),
        answers_start(StartRequest::LoadState, StartEventView::Found(found)),
        answers_start(StartRequest::LoadState, StartEventView::Failed(e)),
        answers_start(StartRequest::Recover, StartEventView::Rebuilt(s)),
        answers_start(StartRequest::Recover, StartEventView::Failed(e)),
        answers_start(StartRequest::SaveState, StartEventView::Done),
        answers_start(StartRequest::SaveState, StartEventView::Failed(e)),
{
}

/// How the pieces that are not done are told, word for word, and that a ledger is spoken
/// of by its state and by what was last saved of it.
pub proof fn law_how_unfinished_pieces_are_told(
    quoted: Seq<char>,
    failures: Seq<Seq<char>>,
    l: Option<Ledger>,
)
    ensures
        unfinished_pieces(quoted, failures).kind is None,
        unfinished_pieces(quoted, failures).rendered() == "pieces failed permanently: "@ + quoted
            + " — rerun to resume. "@ + text::joined(failures, " | "@, failures.len()),
        match l {
            Some(k) => ledger_view(l) == Some(k@) && ledger_on_disk(l) == k.on_disk(),
            None => ledger_view(l) is None && ledger_on_disk(l) is None,
        },
{
    assert(unfinished_pieces(quoted, failures).rendered() =~= "pieces failed permanently: "@
        + quoted + " — rerun to resume. "@ + text::joined(failures, " | "@, failures.len()));
}

} // verus!
