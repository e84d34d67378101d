//! A worker of a run: it waits for its turn, claims a piece, has it worked on and
//! writes the result back, until nothing is left to claim.
//!
//! As with a `PieceRun`, the worker asks and its driver answers. The driver holds
//! the ledger from a change of it until that change is saved.

use crate::errors::{Error, ErrorView};
use crate::ledger;
use crate::ledger::{Claim, Ledger};
use crate::piece_run;
use crate::planner::{PieceView, Plan, PlanView};
use crate::scheduler::SchedulerConfig;
use crate::state::{PieceState, PieceStateView, PieceStatus, StateView};
use crate::text;
use crate::throttle;
use crate::throttle::{Throttle, ThrottleView, Turn, Wait};
use vstd::prelude::*;

verus! {

/// What a worker asks of its driver.
#[derive(Debug, Clone, Copy, PartialEq, Eq, Structural)]
pub enum WorkRequest {
    /// Sleep that many nanoseconds.
    Sleep(u128),
    /// Stand aside for a moment.
    Park,
    /// Save the ledger: a piece was claimed.
    SaveClaim,
    /// How many bytes are free? The piece may need as many as are given.
    CheckSpace(u64),
    /// Work on the claimed piece.
    Run,
    /// Save the ledger: the piece was written back.
    SaveResult,
    /// The worker is done.
    Stop,
}

/// What the driver answers.
#[derive(Debug)]
pub enum WorkEvent {
    Woke,
    Saved,
    SaveFailed(Error),
    /// The free bytes, where they could be found out.
    Space(Option<u64>),
    /// The state of the piece after the work, and what the work failed with.
    Ran(PieceState, Option<Error>),
}

pub enum WorkEventView {
    Woke,
    Saved,
    SaveFailed(ErrorView),
    Space(Option<u64>),
    Ran(PieceStateView, Option<ErrorView>),
}

impl View for WorkEvent {
    type V = WorkEventView;

    open spec fn view(&self) -> WorkEventView {
        match self {
            WorkEvent::Woke => WorkEventView::Woke,
            WorkEvent::Saved => WorkEventView::Saved,
            WorkEvent::SaveFailed(e) => WorkEventView::SaveFailed(e@),
            WorkEvent::Space(n) => WorkEventView::Space(*n),
            WorkEvent::Ran(ps, e) => WorkEventView::Ran(ps@, piece_run::failure_view(*e)),
        }
    }
}

/// Is the event an answer to the request?
pub open spec fn answers(asked: WorkRequest, ev: WorkEventView) -> bool {
    match asked {
        WorkRequest::Sleep(_) | WorkRequest::Park => ev is Woke,
        WorkRequest::SaveClaim | WorkRequest::SaveResult => ev is Saved || ev is SaveFailed,
        WorkRequest::CheckSpace(_) => ev is Space,
        WorkRequest::Run => ev is Ran,
        WorkRequest::Stop => false,
    }
}

pub struct Worker {
    idx: usize,
    claim: Option<Claim>,
    failure: Option<Error>,
    failures: Vec<String>,
    asked: WorkRequest,
}

pub struct ClaimView {
    pub idx: int,
    pub piece: PieceView,
    pub ps: PieceStateView,
}

pub struct WorkerView {
    pub idx: usize,
    pub claim: Option<ClaimView>,
    pub failure: Option<ErrorView>,
    pub failures: Seq<Seq<char>>,
    pub asked: WorkRequest,
}

pub open spec fn claim_view(c: Option<Claim>) -> Option<ClaimView> {
    match c {
        Some(c) => Some(ClaimView { idx: c.idx as int, piece: c.piece@, ps: c.ps@ }),
        None => None,
    }
}

impl View for Worker {
    type V = WorkerView;

    closed spec fn view(&self) -> WorkerView {
        WorkerView {
            idx: self.idx,
            claim: claim_view(self.claim),
            failure: piece_run::failure_view(self.failure),
            failures: text::texts(self.failures@),
            asked: self.asked,
        }
    }
}

/// The bytes that the next piece may need: half as many again as the largest so
/// far has brought.
pub open spec fn space_needed(most: u64) -> u64 {
    if most + most / 2 > u64::MAX {
        u64::MAX
    } else {
        (most + most / 2) as u64
    }
}

pub fn space_estimate(most: u64) -> (r: u64)
    ensures
        r == space_needed(most),
{
    most.saturating_add(most / 2)
}

pub open spec fn disk_low(available: u64, needed: u64) -> ErrorView {
    ErrorView::plain(
        "disk low: "@ + text::decimal(available as nat)
            + " bytes available, next piece may need ~"@ + text::decimal(needed as nat),
    )
}

fn disk_low_error(available: u64, needed: u64) -> (r: Error)
    ensures
        r@ == disk_low(available, needed),
{
    let mut m = String::from_str("disk low: ");
    text::push_decimal(&mut m, available);
    m.append(" bytes available, next piece may need ~");
    text::push_decimal(&mut m, needed);
    Error::Other(m)
}

// ---------------------------------------------------------------- transitions

/// A worker and the ledger, in memory and as last saved.
pub struct Scene {
    pub worker: WorkerView,
    pub ledger: StateView,
    pub disk: Option<StateView>,
}

/// What all workers of a run share.
pub struct Setting {
    pub plan: PlanView,
    pub cfg: SchedulerConfig,
    pub throttle: ThrottleView,
    pub now: u64,
}

impl Scene {
    pub open spec fn asking(self, asked: WorkRequest) -> Scene {
        Scene { worker: WorkerView { asked, ..self.worker }, ..self }
    }

    /// Claims the first pending piece; without one the worker is done.
    pub open spec fn take(self, s: Setting) -> Scene {
        if ledger::some_pending(self.ledger.pieces) {
            let idx = choose|i: int| ledger::is_first_pending(self.ledger.pieces, i);
            let ps = ledger::claimed(
                self.ledger.pieces[idx],
                s.plan.pieces[idx],
                s.plan.initial_step,
                s.cfg.max_attempts,
            );
            Scene {
                worker: WorkerView {
                    claim: Some(ClaimView { idx, piece: s.plan.pieces[idx], ps }),
                    asked: WorkRequest::SaveClaim,
                    ..self.worker
                },
                ledger: self.ledger.with_piece(idx, ps),
                disk: self.disk,
            }
        } else {
            self.asking(WorkRequest::Stop)
        }
    }

    /// Waits for the worker's turn, and then takes a piece, unless the run is
    /// given up.
    pub open spec fn wait(self, at: Turn, s: Setting) -> Scene {
        match throttle::turn(
            s.throttle,
            self.worker.idx,
            at,
            s.now,
            ledger::some_pending(self.ledger.pieces),
        ) {
            Wait::Cool(nanos) => self.asking(WorkRequest::Sleep(nanos)),
            Wait::Park => self.asking(WorkRequest::Park),
            Wait::Go => if s.throttle.tripped() {
                self.asking(WorkRequest::Stop)
            } else {
                self.take(s)
            },
        }
    }

    /// Looks for more to do. With nothing pending there is no point in waiting.
    pub open spec fn look(self, s: Setting) -> Scene {
        if s.throttle.tripped() || !ledger::some_pending(self.ledger.pieces) {
            self.asking(WorkRequest::Stop)
        } else {
            self.wait(Turn::Cooling, s)
        }
    }

    /// After the end of a piece. Its failure is noted and the worker goes on; only
    /// a run that is given up ends at once.
    pub open spec fn settle(self, failure: Option<ErrorView>, s: Setting) -> Scene {
        match failure {
            Some(e) => if s.throttle.tripped() {
                self.asking(WorkRequest::Stop)
            } else {
                (Scene {
                    worker: WorkerView {
                        failures: self.worker.failures.push(
                            self.worker.claim->0.ps.id + ": "@ + e.rendered(),
                        ),
                        ..self.worker
                    },
                    ..self
                }).look(s)
            },
            None => self.look(s),
        }
    }

    /// After the answer to what was asked last.
    pub open spec fn answered(self, ev: WorkEventView, s: Setting) -> Scene {
        match ev {
            WorkEventView::Woke => self.wait(
                if self.worker.asked is Park {
                    Turn::Gate
                } else {
                    Turn::Cooling
                },
                s,
            ),
            WorkEventView::Saved => {
                let saved = Scene { disk: Some(self.ledger), ..self };
                if self.worker.asked is SaveClaim {
                    let needed = space_needed(ledger::most_bytes(self.ledger.pieces));
                    saved.asking(
                        if needed > 0 {
                            WorkRequest::CheckSpace(needed)
                        } else {
                            WorkRequest::Run
                        },
                    )
                } else {
                    saved.settle(self.worker.failure, s)
                }
            },
            WorkEventView::SaveFailed(e) => if self.worker.asked is SaveClaim {
                Scene {
                    worker: WorkerView {
                        failures: self.worker.failures.push(
                            "state save failed: "@ + e.rendered(),
                        ),
                        asked: WorkRequest::Stop,
                        ..self.worker
                    },
                    ..self
                }
            } else {
                self.settle(Some(e), s)
            },
            WorkEventView::Space(available) => match (self.worker.asked, available) {
                (WorkRequest::CheckSpace(needed), Some(n)) if n < needed => self.settle(
                    Some(disk_low(n, needed)),
                    s,
                ),
                _ => self.asking(WorkRequest::Run),
            },
            WorkEventView::Ran(ps, failure) => Scene {
                worker: WorkerView { failure, asked: WorkRequest::SaveResult, ..self.worker },
                ledger: self.ledger.with_piece(self.worker.claim->0.idx, ps),
                disk: self.disk,
            },
        }
    }
}

/// Is the first pending piece, if there is one, a piece of the plan?
pub open spec fn in_plan(ledger: StateView, plan: PlanView) -> bool {
    forall|i: int| ledger::is_first_pending(ledger.pieces, i) ==> i < plan.pieces.len()
}

impl WorkerView {
    /// Where the worker is to sleep, is it for the rest of the cooldown and its own
    /// jitter, to the nanosecond?
    pub open spec fn sleeps_out(self, t: ThrottleView, now: u64) -> bool {
        self.asked matches WorkRequest::Sleep(nanos) ==> nanos == t.cooldown_left(now)
            + throttle::jitter_ms(self.idx) * throttle::NANOS_PER_MS
    }

    /// Is a piece claimed whenever something is asked for that is about one?
    pub open spec fn holds_its_claim(self) -> bool {
        match self.asked {
            WorkRequest::SaveClaim
            | WorkRequest::CheckSpace(_)
            | WorkRequest::Run
            | WorkRequest::SaveResult => self.claim is Some,
            _ => true,
        }
    }
}

impl Worker {
    #[verifier::type_invariant]
    spec fn holds_together(self) -> bool {
        self@.holds_its_claim()
    }

    pub open spec fn scene(self, l: Ledger) -> Scene {
        Scene { worker: self@, ledger: l@, disk: l.on_disk() }
    }

    /// A worker that looks for its first piece.
    pub fn start(
        idx: usize,
        ledger: &mut Ledger,
        throttle: &Throttle,
        plan: &Plan,
        now: u64,
        cfg: &SchedulerConfig,
    ) -> (r: Worker)
        requires
            !throttle@.tripped() ==> in_plan(old(ledger)@, plan@),
        ensures
            r.scene(*final(ledger)) == (Scene {
                worker: WorkerView {
                    idx,
                    claim: None,
                    failure: None,
                    failures: Seq::empty(),
                    asked: WorkRequest::Stop,
                },
                ledger: old(ledger)@,
                disk: old(ledger).on_disk(),
            }).look(Setting { plan: plan@, cfg: *cfg, throttle: throttle@, now }),
            r@.sleeps_out(throttle@, now),
    {
        let mut w = Worker {
            idx,
            claim: None,
            failure: None,
            failures: Vec::new(),
            asked: WorkRequest::Stop,
        };
        assert(text::texts(w.failures@) =~= Seq::<Seq<char>>::empty());
        w.look(ledger, throttle, plan, now, cfg);
        w
    }

    /// What the driver has to do.
    pub fn asked(&self) -> (r: WorkRequest)
        ensures
            r == self@.asked,
    {
        self.asked
    }

    /// The piece that the worker has claimed.
    pub fn claim(&self) -> (r: Option<&Claim>)
        ensures
            r is Some <==> self@.claim is Some,
            r matches Some(c) ==> self@.claim == Some(
                (ClaimView { idx: c.idx as int, piece: c.piece@, ps: c.ps@ }),
            ),
    {
        match &self.claim {
            Some(c) => Some(c),
            None => None,
        }
    }

    /// What is to be reported of the pieces that failed.
    pub fn failures(&self) -> (r: &Vec<String>)
        ensures
            text::texts(r@) == self@.failures,
    {
        &self.failures
    }

    fn report(&mut self, line: String)
        ensures
            final(self)@ == (WorkerView {
                failures: old(self)@.failures.push(line@),
                ..old(self)@
            }),
    {
        proof {
            use_type_invariant(&*self);
        }
        let mut failures: Vec<String> = Vec::new();
        std::mem::swap(&mut failures, &mut self.failures);
        let ghost listed = failures@;
        let ghost text = line@;
        failures.push(line);
        assert(text::texts(failures@) =~= text::texts(listed).push(text));
        self.failures = failures;
    }

    fn take(&mut self, ledger: &mut Ledger, plan: &Plan, cfg: &SchedulerConfig)
        requires
            in_plan(old(ledger)@, plan@),
        ensures
            forall|t: ThrottleView, now: u64|
                final(self).scene(*final(ledger)) == #[trigger] old(self).scene(*old(ledger)).take(
                    Setting { plan: plan@, cfg: *cfg, throttle: t, now },
                ),
            !(final(self)@.asked is Sleep),
    {
        let ghost before = ledger@.pieces;
        match ledger.claim(plan, cfg.max_attempts) {
            None => {
                self.asked = WorkRequest::Stop;
            },
            Some(c) => {
                proof {
                    lemma_first_is_one(before, c.idx as int);
                    assert(ledger::some_pending(before));
                }
                self.claim = Some(c);
                self.asked = WorkRequest::SaveClaim;
            },
        }
    }

    fn wait(
        &mut self,
        at: Turn,
        ledger: &mut Ledger,
        throttle: &Throttle,
        plan: &Plan,
        now: u64,
        cfg: &SchedulerConfig,
    )
        requires
            !throttle@.tripped() ==> in_plan(old(ledger)@, plan@),
        ensures
            final(self).scene(*final(ledger)) == old(self).scene(*old(ledger)).wait(
                at,
                Setting { plan: plan@, cfg: *cfg, throttle: throttle@, now },
            ),
            final(self)@.sleeps_out(throttle@, now),
    {
        match throttle.wait_turn(self.idx, at, now, ledger.has_pending()) {
            Wait::Cool(nanos) => {
                self.asked = WorkRequest::Sleep(nanos);
            },
            Wait::Park => {
                self.asked = WorkRequest::Park;
            },
            Wait::Go => if throttle.tripped() {
                self.asked = WorkRequest::Stop;
            } else {
                self.take(ledger, plan, cfg);
            },
        }
    }

    fn look(
        &mut self,
        ledger: &mut Ledger,
        throttle: &Throttle,
        plan: &Plan,
        now: u64,
        cfg: &SchedulerConfig,
    )
        requires
            !throttle@.tripped() ==> in_plan(old(ledger)@, plan@),
        ensures
            final(self).scene(*final(ledger)) == old(self).scene(*old(ledger)).look(
                Setting { plan: plan@, cfg: *cfg, throttle: throttle@, now },
            ),
            final(self)@.sleeps_out(throttle@, now),
    {
        if throttle.tripped() || !ledger.has_pending() {
            self.asked = WorkRequest::Stop;
        } else {
            self.wait(Turn::Cooling, ledger, throttle, plan, now, cfg);
        }
    }

    fn settle(
        &mut self,
        failure: Option<Error>,
        ledger: &mut Ledger,
        throttle: &Throttle,
        plan: &Plan,
        now: u64,
        cfg: &SchedulerConfig,
    )
        requires
            !throttle@.tripped() ==> in_plan(old(ledger)@, plan@),
            old(self)@.claim is Some,
        ensures
            final(self).scene(*final(ledger)) == old(self).scene(*old(ledger)).settle(
                piece_run::failure_view(failure),
                Setting { plan: plan@, cfg: *cfg, throttle: throttle@, now },
            ),
            final(self)@.sleeps_out(throttle@, now),
    {
        if let Some(e) = failure {
            if throttle.tripped() {
                self.asked = WorkRequest::Stop;
                return;
            }
            if let Some(c) = &self.claim {
                let mut line = c.ps.id.clone();
                line.append(": ");
                line.append(e.render().as_str());
                self.report(line);
            }
        }
        self.look(ledger, throttle, plan, now, cfg);
    }

    /// Takes the driver's answer and decides what comes next.
    pub fn step(
        &mut self,
        ev: WorkEvent,
        ledger: &mut Ledger,
        throttle: &Throttle,
        plan: &Plan,
        now: u64,
        cfg: &SchedulerConfig,
    )
        requires
            answers(old(self)@.asked, ev@),
            !(ev is Ran) && !(old(self)@.asked is SaveClaim) && !throttle@.tripped() ==> in_plan(
                old(ledger)@,
                plan@,
            ),
            ev is Ran ==> old(self)@.claim->0.idx < old(ledger)@.pieces.len(),
        ensures
            final(self).scene(*final(ledger)) == old(self).scene(*old(ledger)).answered(
                ev@,
                Setting { plan: plan@, cfg: *cfg, throttle: throttle@, now },
            ),
            final(self)@.sleeps_out(throttle@, now),
    {
        proof {
            use_type_invariant(&*self);
        }
        match ev {
            WorkEvent::Woke => {
                let at = match self.asked {
                    WorkRequest::Park => Turn::Gate,
                    _ => Turn::Cooling,
                };
                self.wait(at, ledger, throttle, plan, now, cfg);
            },
            WorkEvent::Saved => {
                ledger.saved();
                match self.asked {
                    WorkRequest::SaveClaim => {
                        let needed: u64 = space_estimate(ledger.max_piece_bytes());
                        self.asked =
                        if needed > 0 {
                            WorkRequest::CheckSpace(needed)
                        } else {
                            WorkRequest::Run
                        };
                    },
                    _ => {
                        let failure = match &self.failure {
                            Some(e) => Some(e.clone()),
                            None => None,
                        };
                        self.settle(failure, ledger, throttle, plan, now, cfg);
                    },
                }
            },
            WorkEvent::SaveFailed(e) => match self.asked {
                WorkRequest::SaveClaim => {
                    self.report(text::cat("state save failed: ", e.render().as_str()));
                    self.asked = WorkRequest::Stop;
                },
                _ => self.settle(Some(e), ledger, throttle, plan, now, cfg),
            },
            WorkEvent::Space(available) => {
                if let (WorkRequest::CheckSpace(needed), Some(n)) = (self.asked, available) {
                    if n < needed {
                        let e = disk_low_error(n, needed);
                        self.settle(Some(e), ledger, throttle, plan, now, cfg);
                        return;
                    }
                }
                self.asked = WorkRequest::Run;
            },
            WorkEvent::Ran(ps, failure) => {
                if let Some(c) = &self.claim {
                    ledger.complete(c.idx, ps);
                }
                self.failure = failure;
                self.asked = WorkRequest::SaveResult;
            },
        }
    }
}

proof fn lemma_first_is_one(pieces: Seq<PieceStateView>, idx: int)
    requires
        ledger::is_first_pending(pieces, idx),
    ensures
        idx == (choose|i: int| ledger::is_first_pending(pieces, i)),
{
    let other = choose|i: int| ledger::is_first_pending(pieces, i);
    if other < idx {
        assert(pieces[other].status != PieceStatus::Pending);
    } else if idx < other {
        assert(pieces[idx].status != PieceStatus::Pending);
    }
}

// ----------------------------------------------------------------------- laws

impl Scene {
    /// Does the worker hold the piece that its request is about?
    pub open spec fn sound(self) -> bool {
        match self.worker.asked {
            WorkRequest::SaveClaim
            | WorkRequest::CheckSpace(_)
            | WorkRequest::Run
            | WorkRequest::SaveResult => self.worker.claim is Some && 0
                <= self.worker.claim->0.idx < self.ledger.pieces.len(),
            _ => true,
        }
    }
}

/// A worker holds a claim whenever it asks for something that is about one.
pub proof fn law_worker_stays_sound(w: Scene, ev: WorkEventView, s: Setting)
    requires
        w.sound(),
        answers(w.worker.asked, ev),
    ensures
        w.answered(ev, s).sound(),
        w.answered(ev, s).worker.idx == w.worker.idx,
        w.answered(ev, s).ledger.pieces.len() == w.ledger.pieces.len(),
        w.answered(ev, s).ledger.fingerprint == w.ledger.fingerprint,
{
    if ledger::some_pending(w.ledger.pieces) {
        lemma_first_exists(w.ledger.pieces);
    }
}

proof fn lemma_first_exists(pieces: Seq<PieceStateView>)
    requires
        ledger::some_pending(pieces),
    ensures
        ledger::is_first_pending(
            pieces,
            choose|i: int| ledger::is_first_pending(pieces, i),
        ),
    decreases pieces.len(),
{
    let last = pieces.len() - 1;
    if ledger::some_pending(pieces.drop_last()) {
        lemma_first_exists(pieces.drop_last());
        let k = choose|i: int| ledger::is_first_pending(pieces.drop_last(), i);
        assert forall|j: int| 0 <= j < k implies (#[trigger] pieces[j]).status
            != PieceStatus::Pending by {
            assert(pieces.drop_last()[j] == pieces[j]);
        }
        assert(ledger::is_first_pending(pieces, k));
    } else {
        assert forall|j: int| 0 <= j < last implies (#[trigger] pieces[j]).status
            != PieceStatus::Pending by {
            assert(pieces.drop_last()[j] == pieces[j]);
        }
        assert(ledger::is_first_pending(pieces, last));
    }
}

/// Write-ahead: a claim is saved, with the piece marked as running, before
/// anything is done for it.
pub proof fn law_claim_is_saved_before_the_work(w: Scene, s: Setting)
    requires
        w.sound(),
        w.worker.asked is SaveClaim,
        w.ledger.pieces[w.worker.claim->0.idx] == w.worker.claim->0.ps,
        w.worker.claim->0.ps.status == PieceStatus::Running,
    ensures
        ({
            let after = w.answered(WorkEventView::Saved, s);
            &&& after.worker.asked is Run || after.worker.asked is CheckSpace
            &&& after.disk == Some(w.ledger)
            &&& after.disk->0.pieces[w.worker.claim->0.idx].status == PieceStatus::Running
        }),
{
}

/// Work is asked for in one way only: after the claim has been saved, with the
/// look at the free space between them where there is one.
pub proof fn law_no_work_without_a_saved_claim(w: Scene, ev: WorkEventView, s: Setting)
    requires
        answers(w.worker.asked, ev),
    ensures
        w.answered(ev, s).worker.asked is Run ==> w.worker.asked is SaveClaim && ev is Saved
            || w.worker.asked is CheckSpace,
        w.answered(ev, s).worker.asked is CheckSpace ==> w.worker.asked is SaveClaim && ev is Saved,
        w.answered(ev, s).worker.asked is SaveClaim ==> {
            let c = w.answered(ev, s).worker.claim->0;
            c.ps.status == PieceStatus::Running
        },
{
}

/// A claim that could not be saved is not worked on: the worker stops and reports
/// it.
pub proof fn law_unsaved_claim_stops_the_worker(w: Scene, e: ErrorView, s: Setting)
    requires
        w.worker.asked is SaveClaim,
    ensures
        w.answered(WorkEventView::SaveFailed(e), s).worker.asked is Stop,
        w.answered(WorkEventView::SaveFailed(e), s).worker.failures.last()
            == "state save failed: "@ + e.rendered(),
{
}

/// What became of a piece is written back before anything else is claimed, and no
/// other piece is touched.
pub proof fn law_result_is_written_back(
    w: Scene,
    ps: PieceStateView,
    failure: Option<ErrorView>,
    s: Setting,
)
    requires
        w.sound(),
        w.worker.asked is Run,
    ensures
        ({
            let after = w.answered(WorkEventView::Ran(ps, failure), s);
            &&& after.worker.asked is SaveResult
            &&& after.ledger.pieces[w.worker.claim->0.idx] == ps
            &&& forall|i: int|
                0 <= i < w.ledger.pieces.len() && i != w.worker.claim->0.idx
                    ==> #[trigger] after.ledger.pieces[i] == w.ledger.pieces[i]
        }),
{
}

/// A piece that fails stops no other: its failure is noted, and as long as
/// something is pending the worker goes on.
pub proof fn law_failed_piece_stops_no_other(w: Scene, e: ErrorView, s: Setting)
    requires
        !s.throttle.tripped(),
        ledger::some_pending(w.ledger.pieces),
    ensures
        !(w.settle(Some(e), s).worker.asked is Stop),
        w.settle(Some(e), s).worker.failures == w.worker.failures.push(
            w.worker.claim->0.ps.id + ": "@ + e.rendered(),
        ),
{
}

/// Once the run is given up, no worker claims a piece any more.
pub proof fn law_no_claim_once_given_up(w: Scene, ev: WorkEventView, s: Setting)
    requires
        answers(w.worker.asked, ev),
        s.throttle.tripped(),
    ensures
        !(w.answered(ev, s).worker.asked is SaveClaim),
        ev is Woke ==> w.answered(ev, s).worker.asked is Stop,
{
}

/// A piece that is no longer pending, be it claimed, done or given up, is touched by
/// no worker but the one that has claimed it: every other worker leaves it as it is.
pub proof fn law_claimed_pieces_are_left_alone(w: Scene, ev: WorkEventView, s: Setting, i: int)
    requires
        w.sound(),
        answers(w.worker.asked, ev),
        0 <= i < w.ledger.pieces.len(),
        w.ledger.pieces[i].status != PieceStatus::Pending,
        ev is Ran ==> i != w.worker.claim->0.idx,
    ensures
        w.answered(ev, s).ledger.pieces[i] == w.ledger.pieces[i],
{
    if ledger::some_pending(w.ledger.pieces) {
        lemma_first_exists(w.ledger.pieces);
    }
}

/// What a crash leaves behind, at whatever moment, is a state that the ledger had:
/// a step saves the ledger as it was, or nothing.
pub proof fn law_saved_is_what_the_ledger_was(w: Scene, ev: WorkEventView, s: Setting)
    requires
        answers(w.worker.asked, ev),
    ensures
        w.answered(ev, s).disk == w.disk || w.answered(ev, s).disk == Some(w.ledger),
{
}

/// No crash invents progress: as long as what was saved calls only such pieces done
/// as the ledger does, it goes on to do so.
pub proof fn law_saved_never_runs_ahead(w: Scene, ev: WorkEventView, s: Setting)
    requires
        w.sound(),
        answers(w.worker.asked, ev),
        w.worker.asked is Run ==> w.ledger.pieces[w.worker.claim->0.idx].status
            == PieceStatus::Running,
        saved_is_behind(w),
    ensures
        saved_is_behind(w.answered(ev, s)),
{
    let after = w.answered(ev, s);
    if let Some(saved) = after.disk {
        assert forall|i: int|
            0 <= i < saved.pieces.len() && (#[trigger] saved.pieces[i]).status
                == PieceStatus::Done implies i < after.ledger.pieces.len()
            && after.ledger.pieces[i].status == PieceStatus::Done by {
            law_saved_is_what_the_ledger_was(w, ev, s);
            law_worker_stays_sound(w, ev, s);
            assert(i < w.ledger.pieces.len() && w.ledger.pieces[i].status == PieceStatus::Done);
            law_claimed_pieces_are_left_alone(w, ev, s, i);
        }
    }
}

/// Is every piece that the saved state calls done one that the ledger calls done?
pub open spec fn saved_is_behind(w: Scene) -> bool {
    w.disk matches Some(saved) ==> forall|i: int|
        0 <= i < saved.pieces.len() && (#[trigger] saved.pieces[i]).status == PieceStatus::Done
            ==> i < w.ledger.pieces.len() && w.ledger.pieces[i].status == PieceStatus::Done
}

/// A claim pairs a piece of the plan with the state of that very piece.
pub proof fn law_claim_pairs_piece_and_state(w: Scene, s: Setting)
    requires
        w.ledger.fits(s.plan),
        ledger::some_pending(w.ledger.pieces),
    ensures
        ({
            let c = w.take(s).worker.claim->0;
            &&& c.piece == s.plan.pieces[c.idx]
            &&& c.ps.id == c.piece.id()
            &&& c.piece is Chain ==> c.ps.chain is Some
        }),
{
    lemma_first_exists(w.ledger.pieces);
}

/// A worker takes the first pending piece: it claims that piece of the plan, the ledger
/// says so, and the claim is to be saved. With nothing pending it stops. Nothing else
/// changes.
pub proof fn law_first_pending_piece_is_taken(w: Scene, s: Setting, i: int)
    ensures
        ledger::is_first_pending(w.ledger.pieces, i) ==> {
            let ps = ledger::claimed(
                w.ledger.pieces[i],
                s.plan.pieces[i],
                s.plan.initial_step,
                s.cfg.max_attempts,
            );
            w.take(s) == (Scene {
                worker: WorkerView {
                    claim: Some(ClaimView { idx: i, piece: s.plan.pieces[i], ps }),
                    asked: WorkRequest::SaveClaim,
                    ..w.worker
                },
                ledger: StateView {
                    fingerprint: w.ledger.fingerprint,
                    pieces: w.ledger.pieces.update(i, ps),
                },
                disk: w.disk,
            })
        },
        !ledger::some_pending(w.ledger.pieces) ==> w.take(s) == (Scene {
            worker: WorkerView { asked: WorkRequest::Stop, ..w.worker },
            ..w
        }),
{
    if ledger::is_first_pending(w.ledger.pieces, i) {
        lemma_first_is_one(w.ledger.pieces, i);
        assert(ledger::some_pending(w.ledger.pieces));
    }
}

/// What a worker does that waits for its turn: it sleeps or stands aside as it is told,
/// and when it is let go it takes a piece, unless the run is given up.
pub proof fn law_waiting_for_the_turn(w: Scene, at: Turn, s: Setting)
    ensures
        ({
            let told = throttle::turn(
                s.throttle,
                w.worker.idx,
                at,
                s.now,
                ledger::some_pending(w.ledger.pieces),
            );
            let tripped = s.throttle.total_rate_limits > s.throttle.breaker_threshold;
            &&& told matches Wait::Cool(nanos) ==> w.wait(at, s) == (Scene {
                worker: WorkerView { asked: WorkRequest::Sleep(nanos), ..w.worker },
                ..w
            })
            &&& told is Park ==> w.wait(at, s) == (Scene {
                worker: WorkerView { asked: WorkRequest::Park, ..w.worker },
                ..w
            })
            &&& told is Go && tripped ==> w.wait(at, s) == (Scene {
                worker: WorkerView { asked: WorkRequest::Stop, ..w.worker },
                ..w
            })
            &&& told is Go && !tripped ==> w.wait(at, s) == w.take(s)
        }),
{
}

/// A worker that looks for more stops where the run is given up or nothing is pending,
/// and else waits for its turn, beginning with the cooldown.
pub proof fn law_looking_for_more(w: Scene, s: Setting)
    ensures
        ({
            let tripped = s.throttle.total_rate_limits > s.throttle.breaker_threshold;
            let pending = ledger::some_pending(w.ledger.pieces);
            &&& tripped || !pending ==> w.look(s) == (Scene {
                worker: WorkerView { asked: WorkRequest::Stop, ..w.worker },
                ..w
            })
            &&& !tripped && pending ==> w.look(s) == w.wait(Turn::Cooling, s)
        }),
{
}

/// After a piece the worker looks for more. What the piece failed with is reported
/// first, under its id; but in a run that is given up it stops at once, and reports
/// nothing.
pub proof fn law_after_a_piece(w: Scene, e: ErrorView, s: Setting)
    ensures
        w.settle(None, s) == w.look(s),
        s.throttle.total_rate_limits <= s.throttle.breaker_threshold ==> w.settle(Some(e), s) == (
        Scene {
            worker: WorkerView {
                failures: w.worker.failures.push(
                    w.worker.claim->0.ps.id + ": "@ + e.rendered(),
                ),
                ..w.worker
            },
            ..w
        }).look(s),
        s.throttle.total_rate_limits > s.throttle.breaker_threshold ==> w.settle(Some(e), s) == (
        Scene { worker: WorkerView { asked: WorkRequest::Stop, ..w.worker }, ..w }),
{
}

/// A worker that wakes up goes on where it waited: one that stood aside is past the
/// cooldown, one that slept is not.
pub proof fn law_after_waking_up(w: Scene, s: Setting)
    ensures
        w.worker.asked is Park ==> w.answered(WorkEventView::Woke, s) == w.wait(Turn::Gate, s),
        w.worker.asked is Sleep ==> w.answered(WorkEventView::Woke, s) == w.wait(
            Turn::Cooling,
            s,
        ),
{
}

/// When a claim is saved, what was saved is the ledger, and the piece is worked on; but
/// where some piece has brought bytes already, the free space is looked at first, for
/// half as many again as the largest has brought.
pub proof fn law_after_a_saved_claim(w: Scene, s: Setting)
    requires
        w.worker.asked is SaveClaim,
    ensures
        ({
            let most = ledger::most_bytes(w.ledger.pieces);
            let needed = most + most / 2;
            w.answered(WorkEventView::Saved, s) == (Scene {
                worker: WorkerView {
                    asked: if most == 0 {
                        WorkRequest::Run
                    } else if needed > u64::MAX {
                        WorkRequest::CheckSpace(u64::MAX)
                    } else {
                        WorkRequest::CheckSpace(needed as u64)
                    },
                    ..w.worker
                },
                ledger: w.ledger,
                disk: Some(w.ledger),
            })
        }),
{
}

/// With less space free than may be needed the piece is not worked on, and that is
/// reported; with enough, or where the space is not known, it is.
pub proof fn law_after_a_look_at_the_space(w: Scene, needed: u64, n: u64, s: Setting)
    requires
        w.worker.asked == WorkRequest::CheckSpace(needed),
    ensures
        n < needed ==> w.answered(WorkEventView::Space(Some(n)), s) == w.settle(
            Some(
                ErrorView::plain(
                    "disk low: "@ + text::decimal(n as nat)
                        + " bytes available, next piece may need ~"@ + text::decimal(
                        needed as nat,
                    ),
                ),
            ),
            s,
        ),
        n >= needed ==> w.answered(WorkEventView::Space(Some(n)), s) == (Scene {
            worker: WorkerView { asked: WorkRequest::Run, ..w.worker },
            ..w
        }),
        w.answered(WorkEventView::Space(None), s) == (Scene {
            worker: WorkerView { asked: WorkRequest::Run, ..w.worker },
            ..w
        }),
{
}

/// The state of a piece after the work is written into the ledger as it is, what it
/// failed with is kept, and the ledger is to be saved.
pub proof fn law_after_the_work(
    w: Scene,
    ps: PieceStateView,
    failure: Option<ErrorView>,
    s: Setting,
)
    ensures
        w.answered(WorkEventView::Ran(ps, failure), s) == (Scene {
            worker: WorkerView { failure, asked: WorkRequest::SaveResult, ..w.worker },
            ledger: StateView {
                fingerprint: w.ledger.fingerprint,
                pieces: w.ledger.pieces.update(w.worker.claim->0.idx, ps),
            },
            disk: w.disk,
        }),
{
}

/// When a result is saved, what was saved is the ledger, and the worker goes on, with
/// what the work failed with. A result that could not be saved is itself the failure,
/// and a claim that could not be saved stops the worker.
pub proof fn law_after_saving(w: Scene, e: ErrorView, s: Setting)
    ensures
        w.worker.asked is SaveResult ==> {
            &&& w.answered(WorkEventView::Saved, s) == (Scene {
                disk: Some(w.ledger),
                ..w
            }).settle(w.worker.failure, s)
            &&& w.answered(WorkEventView::SaveFailed(e), s) == w.settle(Some(e), s)
        },
        w.worker.asked is SaveClaim ==> w.answered(WorkEventView::SaveFailed(e), s) == (Scene {
            worker: WorkerView {
                failures: w.worker.failures.push("state save failed: "@ + e.rendered()),
                asked: WorkRequest::Stop,
                ..w.worker
            },
            ..w
        }),
{
}

/// Half as many bytes again, and no more than can be counted.
pub proof fn law_space_that_may_be_needed(most: u64)
    ensures
        most + most / 2 <= u64::MAX ==> space_needed(most) == most + most / 2,
        most + most / 2 > u64::MAX ==> space_needed(most) == u64::MAX,
{
}

/// Events and claims are spoken of by what they carry.
pub proof fn law_what_work_events_carry(ev: WorkEvent, c: Option<Claim>)
    ensures
        match ev {
            WorkEvent::Woke => ev@ is Woke,
            WorkEvent::Saved => ev@ is Saved,
            WorkEvent::SaveFailed(e) => ev@ == WorkEventView::SaveFailed(e@),
            WorkEvent::Space(n) => ev@ == WorkEventView::Space(n),
            WorkEvent::Ran(ps, Some(e)) => ev@ == WorkEventView::Ran(ps@, Some(e@)),
            WorkEvent::Ran(ps, None) => ev@ == WorkEventView::Ran(ps@, None),
        },
        match c {
            Some(k) => claim_view(c) == Some(
                ClaimView { idx: k.idx as int, piece: k.piece@, ps: k.ps@ },
            ),
            None => claim_view(c) is None,
        },
{
}

/// Which answers there are to each request.
pub proof fn law_what_can_be_answered(
    nanos: u128,
    bytes: u64,
    n: Option<u64>,
    ps: PieceStateView,
    failure: Option<ErrorView>,
    e: ErrorView,
)
    ensures
        answers(WorkRequest::Sleep(nanos), WorkEventView::Woke),
        answers(WorkRequest::Park, WorkEventView::Woke),
        answers(WorkRequest::SaveClaim, WorkEventView::Saved),
        answers(WorkRequest::SaveClaim, WorkEventView::SaveFailed(e)),
        answers(WorkRequest::SaveResult, WorkEventView::Saved),
        answers(WorkRequest::SaveResult, WorkEventView::SaveFailed(e)),
        answers(WorkRequest::CheckSpace(bytes), WorkEventView::Space(n)),
        answers(WorkRequest::Run, WorkEventView::Ran(ps, failure)),
{
}

/// A state that has no more pieces than the plan never asks for one that the plan has
/// not.
pub proof fn law_pieces_of_the_plan_can_be_claimed(ledger: StateView, plan: PlanView)
    requires
        ledger.pieces.len() <= plan.pieces.len(),
    ensures
        in_plan(ledger, plan),
{
}

/// What a worker is seen with: itself, the ledger as it is, and as it was last saved.
pub proof fn law_what_a_worker_is_seen_with(w: Worker, l: Ledger)
    ensures
        w.scene(l).worker == w@,
        w.scene(l).ledger == l@,
        w.scene(l).disk == l.on_disk(),
{
}

} // verus!
