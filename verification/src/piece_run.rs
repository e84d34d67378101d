//! Working on one piece, from the claim to its end.
//!
//! A `PieceRun` decides what is to be done next and its driver does it: the run
//! asks, the driver answers, until the run is finished. Fetching, sleeping and
//! moving refs are the driver's; every retry, every pause and every change of the
//! piece's state is decided here.

use crate::errors;
use crate::errors::{Error, ErrorView, FailureKind, RgcError};
use crate::planner;
use crate::planner::Piece;
use crate::scheduler;
use crate::scheduler::{Action, SchedulerConfig};
use crate::state::{ChainState, PieceState, PieceStateView, PieceStatus};
use crate::text;
use crate::throttle;
use crate::throttle::{Throttle, ThrottleView};
use vstd::prelude::*;

verus! {

/// The most fetches of one chain without a failure between them.
pub const MAX_CHAIN_ITERATIONS: u32 = 100_000;

/// What a run asks of its driver.
#[derive(Debug, Clone, Copy, PartialEq, Eq, Structural)]
pub enum Request {
    /// Make sure that the repository of the piece is there.
    EnsureRepo,
    /// Bytes and commits of that repository, before a fetch.
    StatsBefore,
    /// Fetch a step of the chain.
    FetchChain(ChainState),
    /// Fetch the tags of the batch.
    FetchTags,
    /// Bytes and commits of that repository, after the fetch.
    StatsAfter,
    /// Is that repository still shallow?
    CheckShallow,
    /// The commits that the pace of the last fetch would bring in the target time.
    Pace { bytes: u64, commits: u32 },
    /// Move the refs of the piece into the main repository.
    Transport,
    /// Pause for that many seconds.
    Sleep(u64),
    /// The run is over.
    Finished,
}

/// What the driver answers.
#[derive(Debug)]
pub enum Event {
    Done,
    Stats { bytes: u64, commits: u32 },
    Shallow(bool),
    Pace(Option<u32>),
    Failed(Error),
}

pub enum EventView {
    Done,
    Stats { bytes: u64, commits: u32 },
    Shallow(bool),
    Pace(Option<u32>),
    Failed(ErrorView),
}

impl View for Event {
    type V = EventView;

    open spec fn view(&self) -> EventView {
        match self {
            Event::Done => EventView::Done,
            Event::Stats { bytes, commits } => EventView::Stats {
                bytes: *bytes,
                commits: *commits,
            },
            Event::Shallow(s) => EventView::Shallow(*s),
            Event::Pace(n) => EventView::Pace(*n),
            Event::Failed(e) => EventView::Failed(e@),
        }
    }
}

/// Is the event an answer to the request?
pub open spec fn answers(asked: Request, ev: EventView) -> bool {
    match asked {
        Request::EnsureRepo
        | Request::FetchChain(_)
        | Request::FetchTags
        | Request::Transport => ev is Done || ev is Failed,
        Request::StatsBefore | Request::StatsAfter => ev is Stats || ev is Failed,
        Request::CheckShallow => ev is Shallow,
        Request::Pace { .. } => ev is Pace,
        Request::Sleep(_) => ev is Done,
        Request::Finished => false,
    }
}

pub struct PieceRun {
    is_chain: bool,
    initial_step: u32,
    ps: PieceState,
    /// Where the current attempt at the chain stands.
    at: ChainState,
    iterations: u32,
    bytes_before: u64,
    commits_before: u32,
    added: u64,
    asked: Request,
    failure: Option<Error>,
}

pub struct RunView {
    pub is_chain: bool,
    pub initial_step: u32,
    pub ps: PieceStateView,
    pub at: ChainState,
    pub iterations: u32,
    pub bytes_before: u64,
    pub commits_before: u32,
    pub added: u64,
    pub asked: Request,
    pub failure: Option<ErrorView>,
}

/// An error as the contracts speak of it, where there is one.
pub open spec fn failure_view(e: Option<Error>) -> Option<ErrorView> {
    match e {
        Some(e) => Some(e@),
        None => None,
    }
}

impl View for PieceRun {
    type V = RunView;

    closed spec fn view(&self) -> RunView {
        RunView {
            is_chain: self.is_chain,
            initial_step: self.initial_step,
            ps: self.ps@,
            at: self.at,
            iterations: self.iterations,
            bytes_before: self.bytes_before,
            commits_before: self.commits_before,
            added: self.added,
            asked: self.asked,
            failure: failure_view(self.failure),
        }
    }
}

// ------------------------------------------------------------------- messages

pub open spec fn given_up_by_upstream() -> ErrorView {
    ErrorView::plain("upstream rate-limited — rerun later"@)
}

pub open spec fn too_many_rate_limits(id: Seq<char>, n: u32, cap: u32) -> ErrorView {
    ErrorView::plain(
        "piece "@ + id + " rate-limited too many times ("@ + text::decimal(n as nat)
            + " consecutive 429/abuse responses, cap "@ + text::decimal(cap as nat)
            + ") — giving up this run"@,
    )
}

pub open spec fn too_many_iterations(id: Seq<char>) -> ErrorView {
    ErrorView::classified(
        FailureKind::Network,
        "chain piece "@ + id + " exceeded "@ + text::decimal(MAX_CHAIN_ITERATIONS as nat)
            + " fetch iterations without completing — aborting this run (retryable)"@,
    )
}

pub open spec fn zero_progress(id: Seq<char>, at: ChainState) -> ErrorView {
    ErrorView::classified(
        FailureKind::Network,
        "zero-progress fetch on "@ + id + " (depth_done="@ + text::decimal(at.depth_done as nat)
            + ", step="@ + text::decimal(at.step as nat)
            + ", +0 bytes, +0 commits) — empty pack, shallow boundary persists"@,
    )
}

fn rate_limit_error(id: &str, n: u32, cap: u32) -> (r: Error)
    ensures
        r@ == too_many_rate_limits(id@, n, cap),
{
    let mut m = String::from_str("piece ");
    m.append(id);
    m.append(" rate-limited too many times (");
    text::push_decimal(&mut m, n as u64);
    m.append(" consecutive 429/abuse responses, cap ");
    text::push_decimal(&mut m, cap as u64);
    m.append(") — giving up this run");
    Error::Other(m)
}

fn iteration_error(id: &str) -> (r: Error)
    ensures
        r@ == too_many_iterations(id@),
{
    let mut m = String::from_str("chain piece ");
    m.append(id);
    m.append(" exceeded ");
    text::push_decimal(&mut m, MAX_CHAIN_ITERATIONS as u64);
    m.append(" fetch iterations without completing — aborting this run (retryable)");
    Error::Rgc(RgcError::Network(m))
}

fn zero_progress_error(id: &str, at: ChainState) -> (r: Error)
    ensures
        r@ == zero_progress(id@, at),
{
    let mut m = String::from_str("zero-progress fetch on ");
    m.append(id);
    m.append(" (depth_done=");
    text::push_decimal(&mut m, at.depth_done as u64);
    m.append(", step=");
    text::push_decimal(&mut m, at.step as u64);
    m.append(", +0 bytes, +0 commits) — empty pack, shallow boundary persists");
    Error::Rgc(RgcError::Network(m))
}

// ---------------------------------------------------------------- transitions

/// A run and the throttle, which every failure is reported to.
pub struct Moment {
    pub run: RunView,
    pub throttle: ThrottleView,
}

impl RunView {
    pub open spec fn asking(self, asked: Request) -> RunView {
        RunView { asked, ..self }
    }

    pub open spec fn finished(self, ps: PieceStateView, failure: Option<ErrorView>) -> RunView {
        RunView { ps, failure, asked: Request::Finished, ..self }
    }

    /// A new attempt at the piece, unless the run as a whole is given up. A chain
    /// goes on from where its state says.
    pub open spec fn attempt(self, t: ThrottleView) -> RunView {
        if t.tripped() {
            self.finished(self.ps, Some(given_up_by_upstream()))
        } else {
            RunView {
                at: match self.ps.chain {
                    Some(c) => c,
                    None => ChainState::start(self.initial_step),
                },
                iterations: 0,
                asked: Request::EnsureRepo,
                ..self
            }
        }
    }

    /// Bytes that a fetch has added.
    pub open spec fn gained(self, bytes: u64) -> u64 {
        if bytes > self.bytes_before {
            (bytes - self.bytes_before) as u64
        } else {
            0
        }
    }

    /// Did the last fetch bring neither bytes nor commits?
    pub open spec fn stood_still(self) -> bool {
        self.added == 0 && self.at.depth_done == self.commits_before
    }

    pub open spec fn commits_gained(self) -> u32 {
        if self.at.depth_done > self.commits_before {
            (self.at.depth_done - self.commits_before) as u32
        } else {
            0
        }
    }
}

/// The chain state after a switch to full fetches.
pub open spec fn without_shallow(c: Option<ChainState>) -> Option<ChainState> {
    match c {
        Some(c) => Some(ChainState { depth_done: 0, step: c.step, no_shallow: true }),
        None => None,
    }
}

/// The chain state after a halving of its step.
pub open spec fn with_half_step(c: Option<ChainState>) -> Option<ChainState> {
    match c {
        Some(c) => Some(ChainState { step: planner::halved(c.step), ..c }),
        None => None,
    }
}

impl Moment {
    /// After a failed attempt. A rate limit is counted on its own and costs no
    /// attempt; everything else costs one and is decided by the retry table.
    pub open spec fn failed(self, e: ErrorView, now: u64, cfg: SchedulerConfig) -> Moment {
        let kind = e.handled_as();
        let throttle = self.throttle.after_failure(kind, now);
        let run = self.run;
        if kind == FailureKind::RateLimited {
            let ps = PieceStateView {
                rate_limits: (run.ps.rate_limits + 1) as u32,
                ..run.ps
            };
            Moment {
                run: if ps.rate_limits > cfg.max_rate_limits {
                    run.finished(
                        ps.with_status(PieceStatus::Failed),
                        Some(too_many_rate_limits(ps.id, ps.rate_limits, cfg.max_rate_limits)),
                    )
                } else if throttle.tripped() {
                    run.finished(ps, Some(given_up_by_upstream()))
                } else {
                    RunView {
                        ps,
                        asked: Request::Sleep(throttle::storm_secs(ps.rate_limits)),
                        ..run
                    }
                },
                throttle,
            }
        } else {
            let ps = PieceStateView {
                attempts: (run.ps.attempts + 1) as u32,
                rate_limits: 0,
                ..run.ps
            };
            Moment {
                run: match scheduler::decision(ps.attempts, kind, cfg.max_attempts) {
                    Some(Action::RetryNoShallow) => (RunView {
                        ps: PieceStateView { chain: without_shallow(ps.chain), ..ps },
                        ..run
                    }).attempt(throttle),
                    Some(Action::HalveAndRetry) => RunView {
                        ps: PieceStateView { chain: with_half_step(ps.chain), ..ps },
                        asked: Request::Sleep(scheduler::backoff(ps.attempts as nat) as u64),
                        ..run
                    },
                    Some(Action::RetryAfter(secs)) => RunView {
                        ps,
                        asked: Request::Sleep(secs),
                        ..run
                    },
                    _ => run.finished(ps.with_status(PieceStatus::Failed), Some(e)),
                },
                throttle,
            }
        }
    }

    /// The next fetch of a chain, unless there were too many or the run as a whole
    /// is given up.
    pub open spec fn next_fetch(self, now: u64, cfg: SchedulerConfig) -> Moment {
        let run = RunView { iterations: (self.run.iterations + 1) as u32, ..self.run };
        let next = Moment { run, ..self };
        if run.iterations > MAX_CHAIN_ITERATIONS {
            next.failed(too_many_iterations(run.ps.id), now, cfg)
        } else if self.throttle.tripped() {
            next.failed(given_up_by_upstream(), now, cfg)
        } else {
            Moment { run: run.asking(Request::StatsBefore), ..self }
        }
    }

    /// After the answer to whether the chain is still shallow. A complete chain is
    /// moved; one that stood still has failed; any other goes on at a new pace.
    pub open spec fn looked(self, shallow: bool, now: u64, cfg: SchedulerConfig) -> Moment {
        if !shallow {
            Moment { run: self.run.asking(Request::Transport), ..self }
        } else if self.run.stood_still() {
            self.failed(zero_progress(self.run.ps.id, self.run.at), now, cfg)
        } else {
            Moment {
                run: self.run.asking(
                    Request::Pace { bytes: self.run.added, commits: self.run.commits_gained() },
                ),
                ..self
            }
        }
    }

    /// After the answer to what was asked last.
    pub open spec fn answered(self, ev: EventView, now: u64, cfg: SchedulerConfig) -> Moment {
        let run = self.run;
        match ev {
            EventView::Failed(e) => self.failed(e, now, cfg),
            EventView::Shallow(shallow) => self.looked(shallow, now, cfg),
            EventView::Pace(n) => match run.asked {
                Request::Pace { bytes, commits } => (Moment {
                    run: RunView {
                        at: ChainState { step: planner::step_after(bytes, commits, n), ..run.at },
                        ..run
                    },
                    ..self
                }).next_fetch(now, cfg),
                _ => self,
            },
            EventView::Stats { bytes, commits } => Moment {
                run: if run.asked == Request::StatsBefore {
                    RunView {
                        bytes_before: bytes,
                        commits_before: commits,
                        asked: if run.is_chain {
                            Request::FetchChain(run.at)
                        } else {
                            Request::FetchTags
                        },
                        ..run
                    }
                } else {
                    let at = ChainState { depth_done: commits, ..run.at };
                    RunView {
                        added: run.gained(bytes),
                        at: if run.is_chain {
                            at
                        } else {
                            run.at
                        },
                        ps: PieceStateView {
                            bytes: (run.ps.bytes + run.gained(bytes)) as u64,
                            chain: if run.is_chain {
                                Some(at)
                            } else {
                                run.ps.chain
                            },
                            ..run.ps
                        },
                        asked: if run.is_chain {
                            Request::CheckShallow
                        } else {
                            Request::Transport
                        },
                        ..run
                    }
                },
                ..self
            },
            EventView::Done => match run.asked {
                Request::EnsureRepo => if run.is_chain {
                    self.next_fetch(now, cfg)
                } else {
                    Moment { run: run.asking(Request::StatsBefore), ..self }
                },
                Request::FetchChain(_) => Moment {
                    run: RunView {
                        ps: PieceStateView { rate_limits: 0, ..run.ps },
                        asked: Request::StatsAfter,
                        ..run
                    },
                    ..self
                },
                Request::FetchTags => Moment { run: run.asking(Request::StatsAfter), ..self },
                Request::Sleep(_) => Moment { run: run.attempt(self.throttle), ..self },
                Request::Transport => Moment {
                    run: run.finished(
                        PieceStateView { rate_limits: 0, ..run.ps }.with_status(PieceStatus::Done),
                        None,
                    ),
                    ..self
                },
                _ => self,
            },
        }
    }

    /// Have the counters room for a failure of that kind?
    pub open spec fn can_count(self, kind: FailureKind) -> bool {
        if kind == FailureKind::RateLimited {
            self.run.ps.rate_limits < u32::MAX && self.throttle.total_rate_limits < u32::MAX
        } else {
            self.run.ps.attempts < u32::MAX
        }
    }

    /// Have the counters room for one more fetch of a chain?
    pub open spec fn can_go_on(self) -> bool {
        &&& self.run.iterations < u32::MAX
        &&& self.run.iterations >= MAX_CHAIN_ITERATIONS || self.throttle.tripped()
            ==> self.run.ps.attempts < u32::MAX
    }

    /// Have the counters room for what the event adds to them?
    pub open spec fn has_room(self, ev: EventView) -> bool {
        match ev {
            EventView::Failed(e) => self.can_count(e.handled_as()),
            EventView::Shallow(shallow) => shallow && self.run.stood_still() ==> self.can_count(
                FailureKind::Network,
            ),
            EventView::Pace(_) => self.can_go_on(),
            EventView::Stats { bytes, .. } => self.run.asked == Request::StatsAfter
                ==> self.run.ps.bytes + self.run.gained(bytes) <= u64::MAX,
            EventView::Done => self.run.asked == Request::EnsureRepo && self.run.is_chain
                ==> self.can_go_on(),
        }
    }
}

// -------------------------------------------------------------------- the run

impl PieceRun {
    /// Begins the work on a claimed piece.
    pub fn begin(piece: &Piece, ps: PieceState, initial_step: u32, throttle: &Throttle) -> (r:
        PieceRun)
        ensures
            r@ == (RunView {
                is_chain: piece@ is Chain,
                initial_step,
                ps: ps@,
                at: ChainState::start(initial_step),
                iterations: 0,
                bytes_before: 0,
                commits_before: 0,
                added: 0,
                asked: Request::EnsureRepo,
                failure: None,
            }).attempt(throttle@),
    {
        let is_chain: bool = match piece {
            Piece::Chain { .. } => true,
            Piece::TagBatch { .. } => false,
        };
        let mut run = PieceRun {
            is_chain,
            initial_step,
            ps,
            at: ChainState::initial(initial_step),
            iterations: 0,
            bytes_before: 0,
            commits_before: 0,
            added: 0,
            asked: Request::EnsureRepo,
            failure: None,
        };
        run.attempt(throttle);
        run
    }

    /// What the driver has to do.
    pub fn asked(&self) -> (r: Request)
        ensures
            r == self@.asked,
    {
        self.asked
    }

    /// The state of the piece, as far as it has come.
    pub fn piece_state(&self) -> (r: &PieceState)
        ensures
            r@ == self@.ps,
    {
        &self.ps
    }

    /// What the run ended with, if it failed.
    pub fn failure(&self) -> (r: Option<Error>)
        ensures
            failure_view(r) == self@.failure,
    {
        match &self.failure {
            Some(e) => Some(e.clone()),
            None => None,
        }
    }

    fn attempt(&mut self, throttle: &Throttle)
        ensures
            final(self)@ == old(self)@.attempt(throttle@),
    {
        if throttle.tripped() {
            self.failure = Some(throttle.abort_error());
            self.asked = Request::Finished;
        } else {
            self.at =
            match self.ps.chain {
                Some(c) => c,
                None => ChainState::initial(self.initial_step),
            };
            self.iterations = 0;
            self.asked = Request::EnsureRepo;
        }
    }

    fn fail(&mut self, e: Error, throttle: &mut Throttle, now: u64, cfg: &SchedulerConfig)
        requires
            (Moment { run: old(self)@, throttle: old(throttle)@ }).can_count(e@.handled_as()),
        ensures
            (Moment { run: final(self)@, throttle: final(throttle)@ }) == (Moment {
                run: old(self)@,
                throttle: old(throttle)@,
            }).failed(e@, now, *cfg),
    {
        let kind = errors::kind_of(&e);
        throttle.on_failure(kind, now);
        if kind == FailureKind::RateLimited {
            self.ps.rate_limits = self.ps.rate_limits + 1;
            if self.ps.rate_limits > cfg.max_rate_limits {
                self.ps.status = PieceStatus::Failed;
                self.failure = Some(
                    rate_limit_error(self.ps.id.as_str(), self.ps.rate_limits, cfg.max_rate_limits),
                );
                self.asked = Request::Finished;
            } else if throttle.tripped() {
                self.failure = Some(throttle.abort_error());
                self.asked = Request::Finished;
            } else {
                self.asked = Request::Sleep(Throttle::storm_backoff(self.ps.rate_limits));
            }
        } else {
            self.ps.attempts = self.ps.attempts + 1;
            self.ps.rate_limits = 0;
            match scheduler::decide(self.ps.attempts, kind, cfg.max_attempts) {
                Some(Action::RetryNoShallow) => {
                    if let Some(c) = self.ps.chain {
                        self.ps.chain = Some(
                            ChainState { depth_done: 0, step: c.step, no_shallow: true },
                        );
                    }
                    self.attempt(throttle);
                },
                Some(Action::HalveAndRetry) => {
                    if let Some(c) = self.ps.chain {
                        self.ps.chain = Some(
                            ChainState {
                                depth_done: c.depth_done,
                                step: planner::halve_step(c.step),
                                no_shallow: c.no_shallow,
                            },
                        );
                    }
                    self.asked = Request::Sleep(scheduler::backoff_secs(self.ps.attempts));
                },
                Some(Action::RetryAfter(secs)) => {
                    self.asked = Request::Sleep(secs);
                },
                _ => {
                    self.ps.status = PieceStatus::Failed;
                    self.failure = Some(e);
                    self.asked = Request::Finished;
                },
            }
        }
    }

    fn next_fetch(&mut self, throttle: &mut Throttle, now: u64, cfg: &SchedulerConfig)
        requires
            (Moment { run: old(self)@, throttle: old(throttle)@ }).can_go_on(),
        ensures
            (Moment { run: final(self)@, throttle: final(throttle)@ }) == (Moment {
                run: old(self)@,
                throttle: old(throttle)@,
            }).next_fetch(now, *cfg),
    {
        self.iterations = self.iterations + 1;
        if self.iterations > MAX_CHAIN_ITERATIONS {
            let e = iteration_error(self.ps.id.as_str());
            self.fail(e, throttle, now, cfg);
        } else if throttle.tripped() {
            let e = throttle.abort_error();
            self.fail(e, throttle, now, cfg);
        } else {
            self.asked = Request::StatsBefore;
        }
    }

    fn measured(&mut self, bytes: u64, commits: u32)
        requires
            old(self)@.asked == Request::StatsAfter ==> old(self)@.ps.bytes + old(self)@.gained(
                bytes,
            ) <= u64::MAX,
            old(self)@.asked == Request::StatsBefore || old(self)@.asked == Request::StatsAfter,
        ensures
            forall|t: ThrottleView, now: u64, cfg: SchedulerConfig|
                (Moment { run: final(self)@, throttle: t }) == #[trigger] (Moment {
                    run: old(self)@,
                    throttle: t,
                }).answered(EventView::Stats { bytes, commits }, now, cfg),
    {
        if self.asked == Request::StatsBefore {
            self.bytes_before = bytes;
            self.commits_before = commits;
            self.asked =
            if self.is_chain {
                Request::FetchChain(self.at)
            } else {
                Request::FetchTags
            };
        } else {
            self.added = bytes.saturating_sub(self.bytes_before);
            self.ps.bytes = self.ps.bytes + self.added;
            if self.is_chain {
                self.at = ChainState {
                    depth_done: commits,
                    step: self.at.step,
                    no_shallow: self.at.no_shallow,
                };
                self.ps.chain = Some(self.at);
                self.asked = Request::CheckShallow;
            } else {
                self.asked = Request::Transport;
            }
        }
    }

    fn look(&mut self, shallow: bool, throttle: &mut Throttle, now: u64, cfg: &SchedulerConfig)
        requires
            (Moment { run: old(self)@, throttle: old(throttle)@ }).has_room(
                EventView::Shallow(shallow),
            ),
        ensures
            (Moment { run: final(self)@, throttle: final(throttle)@ }) == (Moment {
                run: old(self)@,
                throttle: old(throttle)@,
            }).looked(shallow, now, *cfg),
    {
        if !shallow {
            self.asked = Request::Transport;
        } else if self.added == 0 && self.at.depth_done == self.commits_before {
            let e = zero_progress_error(self.ps.id.as_str(), self.at);
            self.fail(e, throttle, now, cfg);
        } else {
            self.asked = Request::Pace {
                bytes: self.added,
                commits: self.at.depth_done.saturating_sub(self.commits_before),
            };
        }
    }

    fn can_go_on(&self, throttle: &Throttle) -> (r: bool)
        ensures
            r == (Moment { run: self@, throttle: throttle@ }).can_go_on(),
    {
        self.iterations < u32::MAX && (self.iterations < MAX_CHAIN_ITERATIONS
            && !throttle.tripped() || self.ps.attempts < u32::MAX)
    }

    /// Have the counters room for what the event adds to them?
    pub fn has_room(&self, throttle: &Throttle, ev: &Event) -> (r: bool)
        ensures
            r == (Moment { run: self@, throttle: throttle@ }).has_room(ev@),
    {
        match ev {
            Event::Failed(e) => if errors::kind_of(e) == FailureKind::RateLimited {
                self.ps.rate_limits < u32::MAX && throttle.total_rate_limits() < u32::MAX
            } else {
                self.ps.attempts < u32::MAX
            },
            Event::Shallow(shallow) => !*shallow || self.added != 0 || self.at.depth_done
                != self.commits_before || self.ps.attempts < u32::MAX,
            Event::Pace(_) => self.can_go_on(throttle),
            Event::Stats { bytes, .. } => self.asked != Request::StatsAfter
                || bytes.saturating_sub(self.bytes_before) <= u64::MAX - self.ps.bytes,
            Event::Done => self.asked != Request::EnsureRepo || !self.is_chain || self.can_go_on(
                throttle,
            ),
        }
    }

    /// Takes the driver's answer and decides what comes next.
    pub fn step(&mut self, ev: Event, throttle: &mut Throttle, now: u64, cfg: &SchedulerConfig)
        requires
            answers(old(self)@.asked, ev@),
            (Moment { run: old(self)@, throttle: old(throttle)@ }).has_room(ev@),
        ensures
            (Moment { run: final(self)@, throttle: final(throttle)@ }) == (Moment {
                run: old(self)@,
                throttle: old(throttle)@,
            }).answered(ev@, now, *cfg),
    {
        match ev {
            Event::Failed(e) => self.fail(e, throttle, now, cfg),
            Event::Shallow(shallow) => self.look(shallow, throttle, now, cfg),
            Event::Pace(n) => {
                if let Request::Pace { bytes, commits } = self.asked {
                    self.at = ChainState {
                        depth_done: self.at.depth_done,
                        step: planner::adapted_step(bytes, commits, n),
                        no_shallow: self.at.no_shallow,
                    };
                    self.next_fetch(throttle, now, cfg);
                }
            },
            Event::Stats { bytes, commits } => self.measured(bytes, commits),
            Event::Done => match self.asked {
                Request::EnsureRepo => if self.is_chain {
                    self.next_fetch(throttle, now, cfg);
                } else {
                    self.asked = Request::StatsBefore;
                },
                Request::FetchChain(_) => {
                    self.ps.rate_limits = 0;
                    self.asked = Request::StatsAfter;
                },
                Request::FetchTags => {
                    self.asked = Request::StatsAfter;
                },
                Request::Sleep(_) => self.attempt(throttle),
                _ => {
                    self.ps.status = PieceStatus::Done;
                    self.ps.rate_limits = 0;
                    self.failure = None;
                    self.asked = Request::Finished;
                },
            },
        }
    }
}

// ----------------------------------------------------------------------- laws

impl RunView {
    /// What holds of a run from its beginning to its end: the requests belong to
    /// the piece, the budgets are kept while it goes on, and it ends done, given
    /// up, or cut short with the piece still running.
    pub open spec fn sound(self, cfg: SchedulerConfig) -> bool {
        &&& match self.asked {
            Request::FetchChain(c) => self.is_chain && c == self.at,
            Request::CheckShallow | Request::Pace { .. } => self.is_chain,
            Request::FetchTags => !self.is_chain,
            _ => true,
        }
        &&& self.is_chain ==> self.ps.chain is Some
        &&& self.is_chain && !(self.asked is Sleep) && !(self.asked is Finished) ==> {
            &&& self.ps.chain->0.no_shallow == self.at.no_shallow
            &&& self.iterations <= MAX_CHAIN_ITERATIONS
        }
        &&& self.asked is EnsureRepo ==> self.iterations == 0
        &&& self.iterations <= MAX_CHAIN_ITERATIONS + 1
        &&& if self.asked is Finished {
            &&& self.failure is None <==> self.ps.status == PieceStatus::Done
            &&& self.ps.status == PieceStatus::Done ==> self.ps.rate_limits == 0
            &&& self.ps.status != PieceStatus::Pending
        } else {
            &&& self.ps.status == PieceStatus::Running
            &&& self.ps.attempts <= cfg.max_attempts
            &&& self.ps.rate_limits <= cfg.max_rate_limits
            &&& self.failure is None
        }
    }
}

/// A run is sound when it begins with a claimed piece.
pub proof fn law_run_begins_sound(run: RunView, t: ThrottleView, cfg: SchedulerConfig)
    requires
        run.is_chain ==> run.ps.chain is Some,
        run.ps.status == PieceStatus::Running,
        run.ps.attempts <= cfg.max_attempts,
        run.ps.rate_limits == 0,
        run.iterations == 0,
        run.failure is None,
    ensures
        run.attempt(t).sound(cfg),
{
}

/// Whatever the driver answers, a sound run stays sound, and it stays a run of
/// the same piece.
pub proof fn law_run_stays_sound(m: Moment, ev: EventView, now: u64, cfg: SchedulerConfig)
    requires
        m.run.sound(cfg),
        answers(m.run.asked, ev),
        m.has_room(ev),
    ensures
        m.answered(ev, now, cfg).run.sound(cfg),
        m.answered(ev, now, cfg).run.is_chain == m.run.is_chain,
        m.answered(ev, now, cfg).run.ps.id == m.run.ps.id,
        m.answered(ev, now, cfg).run.ps.bytes >= m.run.ps.bytes,
{
}

/// A rate limit costs no attempt and does not touch the progress of the piece.
/// It only counts among the rate limits in a row.
pub proof fn law_rate_limit_costs_no_attempt(
    m: Moment,
    e: ErrorView,
    now: u64,
    cfg: SchedulerConfig,
)
    requires
        e.handled_as() == FailureKind::RateLimited,
        m.can_count(FailureKind::RateLimited),
    ensures
        m.failed(e, now, cfg).run.ps.attempts == m.run.ps.attempts,
        m.failed(e, now, cfg).run.ps.rate_limits == m.run.ps.rate_limits + 1,
        m.failed(e, now, cfg).run.ps.chain == m.run.ps.chain,
        m.failed(e, now, cfg).run.ps.bytes == m.run.ps.bytes,
{
}

/// Any other failure costs exactly one attempt and ends the row of rate limits.
pub proof fn law_other_failures_cost_an_attempt(
    m: Moment,
    e: ErrorView,
    now: u64,
    cfg: SchedulerConfig,
)
    requires
        e.handled_as() != FailureKind::RateLimited,
        m.can_count(e.handled_as()),
    ensures
        m.failed(e, now, cfg).run.ps.attempts == m.run.ps.attempts + 1,
        m.failed(e, now, cfg).run.ps.rate_limits == 0,
{
}

/// Every failure is reported to the throttle, whatever becomes of the piece.
pub proof fn law_every_failure_is_reported(
    m: Moment,
    e: ErrorView,
    now: u64,
    cfg: SchedulerConfig,
)
    ensures
        m.failed(e, now, cfg).throttle == m.throttle.after_failure(e.handled_as(), now),
{
}

/// A piece is given up for good at the first fatal failure, when its attempts are
/// used up, and when it had too many rate limits in a row.
pub proof fn law_when_a_piece_is_given_up(m: Moment, e: ErrorView, now: u64, cfg: SchedulerConfig)
    requires
        m.run.sound(cfg),
        !(m.run.asked is Finished),
        m.can_count(e.handled_as()),
    ensures
        ({
            let after = m.failed(e, now, cfg).run;
            after.ps.status == PieceStatus::Failed <==> {
                ||| e.handled_as() == FailureKind::Fatal
                ||| e.handled_as() != FailureKind::RateLimited && m.run.ps.attempts
                    >= cfg.max_attempts
                ||| e.handled_as() == FailureKind::RateLimited && m.run.ps.rate_limits
                    >= cfg.max_rate_limits
            }
        }),
        m.failed(e, now, cfg).run.ps.status == PieceStatus::Failed ==> m.failed(
            e,
            now,
            cfg,
        ).run.asked is Finished,
{
}

/// Refs are never moved out of a shallow chain: moving is asked for only on the
/// answer that the chain is complete.
pub proof fn law_only_complete_chains_are_moved(
    m: Moment,
    ev: EventView,
    now: u64,
    cfg: SchedulerConfig,
)
    requires
        m.run.sound(cfg),
        answers(m.run.asked, ev),
        m.run.is_chain,
        m.answered(ev, now, cfg).run.asked is Transport,
    ensures
        m.run.asked is CheckShallow,
        ev == EventView::Shallow(false),
{
}

/// A piece becomes done in one way: its refs have been moved.
pub proof fn law_done_means_moved(m: Moment, ev: EventView, now: u64, cfg: SchedulerConfig)
    requires
        m.run.sound(cfg),
        answers(m.run.asked, ev),
        m.has_room(ev),
        m.answered(ev, now, cfg).run.ps.status == PieceStatus::Done,
    ensures
        m.run.asked is Transport,
        ev is Done,
        m.answered(ev, now, cfg).run.ps.rate_limits == 0,
{
}

/// A server that refuses shallow fetches gets a full fetch from the start, at
/// once and from then on.
pub proof fn law_full_fetch_once_shallow_is_refused(
    m: Moment,
    e: ErrorView,
    now: u64,
    cfg: SchedulerConfig,
)
    requires
        m.run.sound(cfg),
        m.run.is_chain,
        e.handled_as() == FailureKind::ShallowUnsupported,
        m.run.ps.attempts < cfg.max_attempts,
        !m.throttle.tripped(),
    ensures
        m.failed(e, now, cfg).run.asked is EnsureRepo,
        m.failed(e, now, cfg).run.at.no_shallow,
        m.failed(e, now, cfg).run.at.depth_done == 0,
{
}

/// Once a chain takes full fetches it never goes back to shallow ones.
pub proof fn law_no_shallow_is_kept(m: Moment, ev: EventView, now: u64, cfg: SchedulerConfig)
    requires
        m.run.sound(cfg),
        answers(m.run.asked, ev),
        m.has_room(ev),
        m.run.is_chain,
        m.run.ps.chain->0.no_shallow,
    ensures
        m.answered(ev, now, cfg).run.ps.chain->0.no_shallow,
        m.answered(ev, now, cfg).run.asked matches Request::FetchChain(c) ==> c.no_shallow,
{
}

/// A fetch that brings neither bytes nor commits, and leaves the chain shallow,
/// counts as a network failure: it uses up the budget and cannot go on for ever.
pub proof fn law_standing_still_is_a_failure(m: Moment, now: u64, cfg: SchedulerConfig)
    requires
        m.run.stood_still(),
    ensures
        zero_progress(m.run.ps.id, m.run.at).handled_as() == FailureKind::Network,
        m.looked(true, now, cfg) == m.failed(zero_progress(m.run.ps.id, m.run.at), now, cfg),
{
}

/// A retry starts from what the state of the piece says, not from the beginning.
pub proof fn law_retry_goes_on_from_the_state(m: Moment, now: u64, cfg: SchedulerConfig)
    requires
        m.run.asked is Sleep,
        m.run.ps.chain is Some,
        !m.throttle.tripped(),
    ensures
        m.answered(EventView::Done, now, cfg).run.at == m.run.ps.chain->0,
        m.answered(EventView::Done, now, cfg).run.ps == m.run.ps,
{
}

/// Once the run as a whole is given up, a piece starts no further attempt, and a
/// chain no further round of fetching.
pub proof fn law_no_attempt_once_given_up(m: Moment, ev: EventView, now: u64, cfg: SchedulerConfig)
    requires
        m.run.sound(cfg),
        answers(m.run.asked, ev),
        m.has_room(ev),
        m.throttle.tripped(),
    ensures
        !(m.answered(ev, now, cfg).run.asked is EnsureRepo),
        m.run.is_chain ==> !(m.answered(ev, now, cfg).run.asked is StatsBefore),
{
}

/// How much a run can still ask for, at most: the larger things first.
pub struct Remaining {
    pub rate_limits: nat,
    pub attempts: nat,
    pub pause: nat,
    pub fetches: nat,
    pub steps: nat,
}

impl Remaining {
    pub open spec fn less_than(self, other: Remaining) -> bool {
        ||| self.rate_limits < other.rate_limits
        ||| self.rate_limits == other.rate_limits && {
            ||| self.attempts < other.attempts
            ||| self.attempts == other.attempts && {
                ||| self.pause < other.pause
                ||| self.pause == other.pause && {
                    ||| self.fetches < other.fetches
                    ||| self.fetches == other.fetches && self.steps < other.steps
                }
            }
        }
    }
}

impl Moment {
    pub open spec fn remaining(self, cfg: SchedulerConfig) -> Remaining {
        let (run, t) = (self.run, self.throttle);
        Remaining {
            rate_limits: if t.tripped() {
                0
            } else {
                (t.breaker_threshold + 1 - t.total_rate_limits) as nat
            },
            attempts: if run.ps.attempts > cfg.max_attempts {
                0
            } else {
                (cfg.max_attempts + 1 - run.ps.attempts) as nat
            },
            pause: if run.asked is Sleep {
                1
            } else {
                0
            },
            fetches: if run.asked is Finished || run.iterations > MAX_CHAIN_ITERATIONS {
                0
            } else {
                (MAX_CHAIN_ITERATIONS - run.iterations) as nat
            },
            steps: match run.asked {
                Request::EnsureRepo => 7,
                Request::StatsBefore => 6,
                Request::FetchChain(_) | Request::FetchTags => 5,
                Request::StatsAfter => 4,
                Request::CheckShallow => 3,
                Request::Pace { .. } => 2,
                Request::Transport => 1,
                _ => 0,
            },
        }
    }
}

/// Every run ends: with every answer, whatever it is, less remains to be asked
/// for. A storm of rate limits is bounded too, by the threshold of the breaker.
pub proof fn law_every_run_ends(m: Moment, ev: EventView, now: u64, cfg: SchedulerConfig)
    requires
        m.run.sound(cfg),
        answers(m.run.asked, ev),
        m.has_room(ev),
    ensures
        m.answered(ev, now, cfg).remaining(cfg).less_than(m.remaining(cfg)),
{
}

/// The step follows the pace: after a measured fetch the next step is exactly what the
/// pace brings in the target time, larger or smaller than the step before, and the next
/// fetch is of that step. Outside of a hundred and five million the nearer of the two is
/// taken, and ten thousand where nothing was measured.
pub proof fn law_step_follows_the_pace(
    m: Moment,
    bytes: u64,
    commits: u32,
    n: Option<u32>,
    size: u64,
    depth: u32,
    now: u64,
    later: u64,
    cfg: SchedulerConfig,
)
    requires
        m.run.asked == (Request::Pace { bytes, commits }),
    ensures
        ({
            let after = m.answered(EventView::Pace(n), now, cfg);
            let step = match n {
                Some(n) if bytes > 0 && commits > 0 => if n < 100 {
                    100
                } else if n > 5_000_000 {
                    5_000_000
                } else {
                    n
                },
                _ => 10_000,
            };
            &&& after.run.at.step == step
            &&& after.run.at.depth_done == m.run.at.depth_done
            &&& after.run.at.no_shallow == m.run.at.no_shallow
            &&& m.run.iterations < 100_000 && m.throttle.total_rate_limits
                <= m.throttle.breaker_threshold ==> {
                &&& after.run.asked == Request::StatsBefore
                &&& after.run.iterations == m.run.iterations + 1
                &&& after.run.ps == m.run.ps
                &&& after.throttle == m.throttle
                &&& m.run.is_chain ==> after.answered(
                    EventView::Stats { bytes: size, commits: depth },
                    later,
                    cfg,
                ).run.asked == Request::FetchChain(
                    ChainState {
                        depth_done: m.run.at.depth_done,
                        step,
                        no_shallow: m.run.at.no_shallow,
                    },
                )
            }
        }),
{
}

/// A chain that goes on for too long, a hundred thousand fetches without a failure
/// between them, has failed as the network fails; one whose run is given up has failed
/// for good. Anything else goes on to the next fetch.
pub proof fn law_next_fetch(m: Moment, now: u64, cfg: SchedulerConfig)
    requires
        m.run.asked == Request::EnsureRepo,
        m.run.is_chain,
    ensures
        ({
            let after = m.answered(EventView::Done, now, cfg);
            let counted = Moment {
                run: RunView { iterations: (m.run.iterations + 1) as u32, ..m.run },
                ..m
            };
            let tripped = m.throttle.total_rate_limits > m.throttle.breaker_threshold;
            &&& m.run.iterations < 100_000 && !tripped ==> after == (Moment {
                run: RunView { asked: Request::StatsBefore, ..counted.run },
                ..m
            })
            &&& 100_000 <= m.run.iterations < u32::MAX ==> after == counted.failed(
                too_many_iterations(m.run.ps.id),
                now,
                cfg,
            )
            &&& m.run.iterations < 100_000 && tripped ==> after == counted.failed(
                given_up_by_upstream(),
                now,
                cfg,
            )
        }),
{
}

/// One round of a chain, from the measuring before the fetch to the answer whether the
/// chain is complete. The fetch is of where the chain stands; what it brought is the
/// difference of the measurements, and it is added to the piece; the depth is the one
/// that was counted after it, and the state of the piece says so. A complete chain is
/// moved; one that brought nothing has failed; any other is paced by what was brought.
pub proof fn law_round_of_a_chain(
    m: Moment,
    b0: u64,
    c0: u32,
    b1: u64,
    c1: u32,
    shallow: bool,
    now: u64,
    cfg: SchedulerConfig,
)
    requires
        m.run.asked == Request::StatsBefore,
        m.run.is_chain,
        m.run.ps.bytes + b1 - b0 <= u64::MAX,
    ensures
        ({
            let fetching = m.answered(EventView::Stats { bytes: b0, commits: c0 }, now, cfg);
            let fetched = fetching.answered(EventView::Done, now, cfg);
            let measured = fetched.answered(
                EventView::Stats { bytes: b1, commits: c1 },
                now,
                cfg,
            );
            let after = measured.answered(EventView::Shallow(shallow), now, cfg);
            let gained = if b1 > b0 {
                (b1 - b0) as u64
            } else {
                0
            };
            let at = ChainState {
                depth_done: c1,
                step: m.run.at.step,
                no_shallow: m.run.at.no_shallow,
            };
            &&& fetching.run.asked == Request::FetchChain(m.run.at)
            &&& fetching.run.ps == m.run.ps
            &&& fetched.run.asked == Request::StatsAfter
            &&& fetched.run.ps == (PieceStateView { rate_limits: 0, ..m.run.ps })
            &&& measured.run.asked == Request::CheckShallow
            &&& measured.run.ps == (PieceStateView {
                rate_limits: 0,
                bytes: (m.run.ps.bytes + gained) as u64,
                chain: Some(at),
                ..m.run.ps
            })
            &&& measured.run.at == at
            &&& measured.throttle == m.throttle
            &&& measured.run.failure == m.run.failure
            &&& !shallow ==> after == (Moment {
                run: RunView { asked: Request::Transport, ..measured.run },
                ..measured
            })
            &&& shallow && (gained > 0 || c1 != c0) ==> after == (Moment {
                run: RunView {
                    asked: Request::Pace {
                        bytes: gained,
                        commits: if c1 > c0 {
                            (c1 - c0) as u32
                        } else {
                            0
                        },
                    },
                    ..measured.run
                },
                ..measured
            })
            &&& shallow && gained == 0 && c1 == c0 ==> after == measured.failed(
                zero_progress(m.run.ps.id, at),
                now,
                cfg,
            )
        }),
{
}

/// A batch of tags, from the repository to the end: it is measured, fetched, measured
/// again, and moved; what it brought is added to the piece, whose progress has nothing
/// to do with a chain; and then it is done.
pub proof fn law_run_of_a_batch(
    m: Moment,
    b0: u64,
    c0: u32,
    b1: u64,
    c1: u32,
    now: u64,
    cfg: SchedulerConfig,
)
    requires
        m.run.asked == Request::EnsureRepo,
        !m.run.is_chain,
        m.run.ps.bytes + b1 - b0 <= u64::MAX,
    ensures
        ({
            let ready = m.answered(EventView::Done, now, cfg);
            let fetching = ready.answered(EventView::Stats { bytes: b0, commits: c0 }, now, cfg);
            let fetched = fetching.answered(EventView::Done, now, cfg);
            let measured = fetched.answered(
                EventView::Stats { bytes: b1, commits: c1 },
                now,
                cfg,
            );
            let moved = measured.answered(EventView::Done, now, cfg);
            let bytes = (m.run.ps.bytes + if b1 > b0 {
                b1 - b0
            } else {
                0
            }) as u64;
            &&& ready.run.asked == Request::StatsBefore
            &&& fetching.run.asked == Request::FetchTags
            &&& fetched.run.asked == Request::StatsAfter
            &&& measured.run.asked == Request::Transport
            &&& measured.run.ps == (PieceStateView { bytes, ..m.run.ps })
            &&& moved.run.asked == Request::Finished
            &&& moved.run.failure is None
            &&& moved.run.ps == (PieceStateView {
                bytes,
                rate_limits: 0,
                status: PieceStatus::Done,
                ..m.run.ps
            })
            &&& moved.throttle == m.throttle
        }),
{
}

/// Once the refs are moved the piece is done, and its run ends without a failure;
/// nothing else of the piece changes but that the row of rate limits is over.
pub proof fn law_moved_is_done(m: Moment, now: u64, cfg: SchedulerConfig)
    requires
        m.run.asked == Request::Transport,
    ensures
        m.answered(EventView::Done, now, cfg) == (Moment {
            run: RunView {
                ps: PieceStateView { status: PieceStatus::Done, rate_limits: 0, ..m.run.ps },
                failure: None,
                asked: Request::Finished,
                ..m.run
            },
            ..m
        }),
{
}

/// A new attempt, at the beginning and after every pause: unless the run is given up it
/// goes on from the state of the piece, a chain without one from its start, with the
/// first step of the plan; and it begins with the repository. A run that is given up
/// ends there, and leaves the piece as it is.
pub proof fn law_new_attempt(run: RunView, t: ThrottleView)
    ensures
        t.total_rate_limits <= t.breaker_threshold ==> run.attempt(t) == (RunView {
            at: match run.ps.chain {
                Some(c) => c,
                None => ChainState { depth_done: 0, step: run.initial_step, no_shallow: false },
            },
            iterations: 0,
            asked: Request::EnsureRepo,
            ..run
        }),
        t.total_rate_limits > t.breaker_threshold ==> run.attempt(t) == (RunView {
            asked: Request::Finished,
            failure: Some(given_up_by_upstream()),
            ..run
        }),
{
}

/// Whatever is asked for, a failure of it is a failure of the attempt; and when a pause
/// is over a new attempt begins.
pub proof fn law_failures_and_pauses(m: Moment, e: ErrorView, now: u64, cfg: SchedulerConfig)
    ensures
        m.answered(EventView::Failed(e), now, cfg) == m.failed(e, now, cfg),
        m.run.asked is Sleep ==> m.answered(EventView::Done, now, cfg) == (Moment {
            run: m.run.attempt(m.throttle),
            ..m
        }),
{
}

/// A rate limit: the piece pauses for one, two and then four minutes as they come in a
/// row, and neither its attempts nor its progress change; it is given up when there were
/// more in a row than it bears, and says how many; and its run ends, with the piece
/// still running, when the run as a whole has had too many.
pub proof fn law_after_a_rate_limit(m: Moment, e: ErrorView, now: u64, cfg: SchedulerConfig)
    requires
        e.kind == Some(FailureKind::RateLimited),
        m.run.ps.rate_limits < u32::MAX,
    ensures
        ({
            let after = m.failed(e, now, cfg).run;
            let n = (m.run.ps.rate_limits + 1) as u32;
            let ps = PieceStateView { rate_limits: n, ..m.run.ps };
            let tripped = m.throttle.total_rate_limits + 1 > m.throttle.breaker_threshold;
            &&& n > cfg.max_rate_limits ==> after == (RunView {
                ps: PieceStateView { status: PieceStatus::Failed, ..ps },
                asked: Request::Finished,
                failure: Some(too_many_rate_limits(ps.id, n, cfg.max_rate_limits)),
                ..m.run
            })
            &&& n <= cfg.max_rate_limits && tripped ==> after == (RunView {
                ps,
                asked: Request::Finished,
                failure: Some(given_up_by_upstream()),
                ..m.run
            })
            &&& n <= cfg.max_rate_limits && !tripped ==> after == (RunView {
                ps,
                asked: Request::Sleep(
                    if n == 1 {
                        60
                    } else if n == 2 {
                        120
                    } else {
                        240
                    },
                ),
                ..m.run
            })
        }),
{
}

/// A failure of the network: as long as there are attempts left the piece pauses, each
/// time for twice as long up to a minute, and is tried again; from the second attempt on
/// its step is halved, down to a hundred, and nothing else of its progress is lost. With
/// no attempts left it is given up, with that very failure.
pub proof fn law_after_a_network_failure(m: Moment, e: ErrorView, now: u64, cfg: SchedulerConfig)
    requires
        e.kind == Some(FailureKind::Network),
        m.run.ps.attempts < u32::MAX,
    ensures
        ({
            let after = m.failed(e, now, cfg).run;
            let n = (m.run.ps.attempts + 1) as u32;
            let ps = PieceStateView { attempts: n, rate_limits: 0, ..m.run.ps };
            &&& m.failed(e, now, cfg).throttle == m.throttle
            &&& n <= cfg.max_attempts ==> after == (RunView {
                ps: PieceStateView {
                    chain: match m.run.ps.chain {
                        Some(c) if n >= 2 => Some(
                            ChainState {
                                depth_done: c.depth_done,
                                step: if c.step >= 200 {
                                    c.step / 2
                                } else {
                                    100
                                },
                                no_shallow: c.no_shallow,
                            },
                        ),
                        c => c,
                    },
                    ..ps
                },
                asked: Request::Sleep(scheduler::backoff(n as nat) as u64),
                ..m.run
            })
            &&& n > cfg.max_attempts ==> after == (RunView {
                ps: PieceStateView { status: PieceStatus::Failed, ..ps },
                asked: Request::Finished,
                failure: Some(e),
                ..m.run
            })
        }),
{
}

/// Congestion: as long as there are attempts left the piece pauses and is tried again,
/// with its progress and its step as they are; with none left it is given up.
pub proof fn law_after_congestion(m: Moment, e: ErrorView, now: u64, cfg: SchedulerConfig)
    requires
        e.kind == Some(FailureKind::Congestion),
        m.run.ps.attempts < u32::MAX,
    ensures
        ({
            let after = m.failed(e, now, cfg).run;
            let n = (m.run.ps.attempts + 1) as u32;
            let ps = PieceStateView { attempts: n, rate_limits: 0, ..m.run.ps };
            &&& n <= cfg.max_attempts ==> after == (RunView {
                ps,
                asked: Request::Sleep(scheduler::backoff(n as nat) as u64),
                ..m.run
            })
            &&& n > cfg.max_attempts ==> after == (RunView {
                ps: PieceStateView { status: PieceStatus::Failed, ..ps },
                asked: Request::Finished,
                failure: Some(e),
                ..m.run
            })
        }),
{
}

/// A server without shallow fetches: as long as there are attempts left the chain is
/// fetched in full, from nothing, at once and without a pause; its step is kept. With
/// none left it is given up.
pub proof fn law_after_a_refused_shallow_fetch(
    m: Moment,
    e: ErrorView,
    now: u64,
    cfg: SchedulerConfig,
)
    requires
        e.kind == Some(FailureKind::ShallowUnsupported),
        m.run.ps.attempts < u32::MAX,
    ensures
        ({
            let after = m.failed(e, now, cfg).run;
            let n = (m.run.ps.attempts + 1) as u32;
            let ps = PieceStateView { attempts: n, rate_limits: 0, ..m.run.ps };
            &&& n <= cfg.max_attempts ==> after == (RunView {
                ps: PieceStateView {
                    chain: match m.run.ps.chain {
                        Some(c) => Some(
                            ChainState { depth_done: 0, step: c.step, no_shallow: true },
                        ),
                        None => None,
                    },
                    ..ps
                },
                ..m.run
            }).attempt(m.throttle)
            &&& n > cfg.max_attempts ==> after == (RunView {
                ps: PieceStateView { status: PieceStatus::Failed, ..ps },
                asked: Request::Finished,
                failure: Some(e),
                ..m.run
            })
        }),
{
}

/// A fatal failure, and one that is not classified, gives the piece up at once, with
/// that very failure and with its progress as it is.
pub proof fn law_after_a_fatal_failure(m: Moment, e: ErrorView, now: u64, cfg: SchedulerConfig)
    requires
        e.kind is None || e.kind == Some(FailureKind::Fatal),
        m.run.ps.attempts < u32::MAX,
    ensures
        m.failed(e, now, cfg) == (Moment {
            run: RunView {
                ps: PieceStateView {
                    status: PieceStatus::Failed,
                    attempts: (m.run.ps.attempts + 1) as u32,
                    rate_limits: 0,
                    ..m.run.ps
                },
                asked: Request::Finished,
                failure: Some(e),
                ..m.run
            },
            ..m
        }),
{
}

/// What is said of a piece or a run that is given up, word for word, and whether it can
/// be tried again.
pub proof fn law_what_is_said_of_failures(id: Seq<char>, n: u32, cap: u32, at: ChainState)
    ensures
        given_up_by_upstream().rendered() == "upstream rate-limited — rerun later"@,
        given_up_by_upstream().kind is None,
        too_many_rate_limits(id, n, cap).rendered() == "piece "@ + id
            + " rate-limited too many times ("@ + text::decimal(n as nat)
            + " consecutive 429/abuse responses, cap "@ + text::decimal(cap as nat)
            + ") — giving up this run"@,
        too_many_rate_limits(id, n, cap).kind is None,
        too_many_iterations(id).message == "chain piece "@ + id + " exceeded "@ + text::decimal(
            100_000,
        ) + " fetch iterations without completing — aborting this run (retryable)"@,
        too_many_iterations(id).kind == Some(FailureKind::Network),
        too_many_iterations(id).context.len() == 0,
        zero_progress(id, at).message == "zero-progress fetch on "@ + id + " (depth_done="@
            + text::decimal(at.depth_done as nat) + ", step="@ + text::decimal(at.step as nat)
            + ", +0 bytes, +0 commits) — empty pack, shallow boundary persists"@,
        zero_progress(id, at).kind == Some(FailureKind::Network),
        zero_progress(id, at).context.len() == 0,
{
    assert(given_up_by_upstream().rendered() =~= "upstream rate-limited — rerun later"@);
    assert(too_many_rate_limits(id, n, cap).rendered() =~= "piece "@ + id
        + " rate-limited too many times ("@ + text::decimal(n as nat)
        + " consecutive 429/abuse responses, cap "@ + text::decimal(cap as nat)
        + ") — giving up this run"@);
}

/// Events are spoken of by what they carry.
pub proof fn law_what_events_carry(ev: Event, f: Option<Error>)
    ensures
        match ev {
            Event::Done => ev@ is Done,
            Event::Stats { bytes, commits } => ev@ == (EventView::Stats { bytes, commits }),
            Event::Shallow(s) => ev@ == EventView::Shallow(s),
            Event::Pace(n) => ev@ == EventView::Pace(n),
            Event::Failed(e) => ev@ == EventView::Failed(e@),
        },
        match f {
            Some(e) => failure_view(f) == Some(e@),
            None => failure_view(f) is None,
        },
{
}

/// A run has room for every answer, as long as its counters are not at their very ends.
pub proof fn law_room_is_left_but_at_the_ends(m: Moment, ev: EventView)
    requires
        m.run.ps.attempts < u32::MAX,
        m.run.ps.rate_limits < u32::MAX,
        m.throttle.total_rate_limits < u32::MAX,
        m.run.iterations < u32::MAX,
        ev matches EventView::Stats { bytes, .. } ==> m.run.ps.bytes + bytes
            - m.run.bytes_before <= u64::MAX,
    ensures
        m.has_room(ev),
{
}

/// Which answers there are to each request. A driver is never left without one.
pub proof fn law_what_can_be_answered(
    c: ChainState,
    bytes: u64,
    commits: u32,
    n: Option<u32>,
    yes: bool,
    e: ErrorView,
)
    ensures
        answers(Request::EnsureRepo, EventView::Done),
        answers(Request::EnsureRepo, EventView::Failed(e)),
        answers(Request::StatsBefore, EventView::Stats { bytes, commits }),
        answers(Request::StatsBefore, EventView::Failed(e)),
        answers(Request::FetchChain(c), EventView::Done),
        answers(Request::FetchChain(c), EventView::Failed(e)),
        answers(Request::FetchTags, EventView::Done),
        answers(Request::FetchTags, EventView::Failed(e)),
        answers(Request::StatsAfter, EventView::Stats { bytes, commits }),
        answers(Request::StatsAfter, EventView::Failed(e)),
        answers(Request::CheckShallow, EventView::Shallow(yes)),
        answers(Request::Pace { bytes, commits }, EventView::Pace(n)),
        answers(Request::Transport, EventView::Done),
        answers(Request::Transport, EventView::Failed(e)),
        answers(Request::Sleep(bytes), EventView::Done),
{
}

} // verus!
