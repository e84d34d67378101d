//! Whole runs against a simulated remote: the workers and the pieces are the
//! library's, only git and the clock are played.

use rgc::errors::{Error, FailureKind, RgcError};
use rgc::ledger::Ledger;
use rgc::piece_run::{Event, PieceRun, Request};
use rgc::planner::{build_plan, Piece, Plan, PlannerConfig};
use rgc::refs::{RefEntry, RemoteRefs};
use rgc::scheduler::{
    backoff_secs, decide, rate_limit_backoff_secs, run_outcome, Action, RunStart, SchedulerConfig,
    StartEvent, StartRequest,
};
use rgc::state::{ChainState, PieceStatus, State};
use rgc::throttle::Throttle;
use rgc::worker::{space_estimate, WorkEvent, WorkRequest, Worker};

const SEC: u64 = 1_000_000_000;

/// What the simulated fetch of a step does.
enum Fetch {
    /// Fetches for real.
    Real,
    /// Pretends to, but brings nothing.
    Stall,
    Fail(RgcError),
}

/// A branch of `total` commits, and what of it was fetched.
struct Remote {
    total: u32,
    have: u32,
    moved: bool,
}

struct World<'a> {
    remote: Remote,
    now: u64,
    calls: usize,
    sleeps: Vec<u64>,
    hook: &'a mut dyn FnMut(usize) -> Fetch,
}

impl World<'_> {
    fn fetch(&mut self, at: Option<ChainState>) -> Event {
        self.calls += 1;
        match (self.hook)(self.calls) {
            Fetch::Fail(e) => Event::Failed(e.into()),
            Fetch::Stall => Event::Done,
            Fetch::Real => {
                self.remote.have = match at {
                    Some(c) if !c.no_shallow => (self.remote.have + c.step).min(self.remote.total),
                    _ => self.remote.total,
                };
                Event::Done
            }
        }
    }

    fn answer(&mut self, asked: Request) -> Event {
        match asked {
            Request::EnsureRepo => Event::Done,
            Request::StatsBefore | Request::StatsAfter => {
                Event::Stats { bytes: self.remote.have as u64 * 100, commits: self.remote.have }
            }
            Request::FetchChain(c) => self.fetch(Some(c)),
            Request::FetchTags => self.fetch(None),
            Request::CheckShallow => Event::Shallow(self.remote.have < self.remote.total),
            Request::Pace { .. } => Event::Pace(Some(10)),
            Request::Transport => {
                assert_eq!(self.remote.have, self.remote.total, "only complete branches are moved");
                self.remote.moved = true;
                Event::Done
            }
            Request::Sleep(secs) => {
                self.sleeps.push(secs);
                self.now += secs * SEC;
                Event::Done
            }
            Request::Finished => unreachable!(),
        }
    }
}

/// Runs one worker to its end and returns the outcome and the state as saved.
fn run(plan: &Plan, found: Option<State>, cfg: &SchedulerConfig, world: &mut World) -> (Result<(), String>, State) {
    let mut start = RunStart::begin();
    let mut disk = found;
    loop {
        let ev = match start.asked() {
            StartRequest::InitMain => StartEvent::Done,
            StartRequest::LoadState => StartEvent::Found(disk.clone()),
            StartRequest::Recover => StartEvent::Rebuilt(State::new(plan)),
            StartRequest::SaveState => {
                disk = Some(start.ledger().unwrap().state().clone());
                StartEvent::Done
            }
            StartRequest::Work => break,
            StartRequest::Refused => {
                return (Err(start.failure().unwrap().render()), disk.unwrap());
            }
        };
        start = start.step(ev, plan);
    }
    let mut ledger: Ledger = start.into_ledger().unwrap();
    let mut throttle = Throttle::new(cfg, world.now);
    let mut w = Worker::start(0, &mut ledger, &throttle, plan, world.now, cfg);
    loop {
        let ev = match w.asked() {
            WorkRequest::Sleep(nanos) => {
                world.now += nanos as u64;
                WorkEvent::Woke
            }
            WorkRequest::Park => panic!("a single worker never stands aside"),
            WorkRequest::SaveClaim | WorkRequest::SaveResult => {
                disk = Some(ledger.state().clone());
                WorkEvent::Saved
            }
            WorkRequest::CheckSpace(_) => WorkEvent::Space(None),
            WorkRequest::Run => {
                let claim = w.claim().unwrap();
                let saved = &disk.as_ref().unwrap().pieces[claim.idx];
                assert_eq!(saved.status, PieceStatus::Running, "no work before the claim is saved");
                let mut r = PieceRun::begin(&claim.piece, claim.ps.clone(), plan.initial_step, &throttle);
                while r.asked() != Request::Finished {
                    let ev = world.answer(r.asked());
                    assert!(r.has_room(&throttle, &ev));
                    r.step(ev, &mut throttle, world.now, cfg);
                }
                WorkEvent::Ran(r.piece_state().clone(), r.failure())
            }
            WorkRequest::Stop => break,
        };
        w.step(ev, &mut ledger, &throttle, plan, world.now, cfg);
    }
    let outcome = run_outcome(&throttle, &ledger, w.failures()).map_err(|e| e.render());
    (outcome, disk.unwrap())
}

fn plan_for(initial_step: u32) -> Plan {
    let refs = RemoteRefs {
        default_branch: Some("main".into()),
        branches: vec![RefEntry {
            full_name: "refs/heads/main".into(),
            short_name: "main".into(),
            oid: "a".into(),
        }],
        tags: vec![],
    };
    build_plan("u", &refs, &PlannerConfig { initial_step, ..Default::default() }).unwrap()
}

fn two_pieces() -> Plan {
    let mut plan = plan_for(20);
    plan.pieces.push(Piece::TagBatch {
        tags: vec![RefEntry { full_name: "refs/tags/v1".into(), short_name: "v1".into(), oid: "t".into() }],
    });
    plan
}

fn world<'a>(total: u32, hook: &'a mut dyn FnMut(usize) -> Fetch) -> World<'a> {
    World { remote: Remote { total, have: 0, moved: false }, now: 0, calls: 0, sleeps: vec![], hook }
}

fn small_budget() -> SchedulerConfig {
    SchedulerConfig { max_attempts: 2, ..Default::default() }
}

fn network() -> Fetch {
    Fetch::Fail(RgcError::Network("injected network failure".into()))
}

fn limited() -> Fetch {
    Fetch::Fail(RgcError::RateLimited("HTTP 429".into()))
}

#[test]
fn backoff_doubles_and_caps() {
    assert_eq!(backoff_secs(0), 2);
    assert_eq!(backoff_secs(1), 4);
    assert_eq!(backoff_secs(2), 8);
    assert_eq!(backoff_secs(10), 60);
    assert_eq!(backoff_secs(4), 32);
    assert_eq!(backoff_secs(5), 60);
    assert_eq!(backoff_secs(u32::MAX), 60);
}

#[test]
fn decide_retry_table() {
    assert_eq!(decide(0, FailureKind::Network, 5), Some(Action::RetryAfter(2)));
    assert_eq!(decide(2, FailureKind::Network, 5), Some(Action::HalveAndRetry));
    assert_eq!(decide(0, FailureKind::ShallowUnsupported, 5), Some(Action::RetryNoShallow));
    assert_eq!(decide(0, FailureKind::Fatal, 5), Some(Action::GiveUp));
    assert_eq!(decide(6, FailureKind::Network, 5), Some(Action::GiveUp));
    assert_eq!(decide(0, FailureKind::RateLimited, 5), None);
    assert_eq!(decide(6, FailureKind::RateLimited, 5), None);
    assert_eq!(decide(3, FailureKind::Congestion, 5), Some(Action::RetryAfter(16)));
}

#[test]
fn jobs_are_clamped() {
    assert_eq!(SchedulerConfig { jobs: 0, ..Default::default() }.clamped_jobs(), 1);
    assert_eq!(SchedulerConfig { jobs: 3, ..Default::default() }.clamped_jobs(), 3);
    assert_eq!(SchedulerConfig { jobs: 999, ..Default::default() }.clamped_jobs(), 8);
}

#[test]
fn scheduler_parallel_storm_backoff_escalates_and_caps() {
    assert_eq!(rate_limit_backoff_secs(1), 60);
    assert_eq!(rate_limit_backoff_secs(2), 120);
    assert_eq!(rate_limit_backoff_secs(3), 240);
    assert_eq!(rate_limit_backoff_secs(99), 240, "escalation caps at 240s");
}

#[test]
fn send_sync_assert() {
    fn assert_send_sync<T: Send + Sync>() {}
    assert_send_sync::<SchedulerConfig>();
    assert_send_sync::<Ledger>();
}

#[test]
fn exhaustion_terminates_cleanly() {
    let plan = plan_for(20);
    let mut hook = |_| network();
    let mut w = world(10, &mut hook);
    let cfg = small_budget();
    let (res, st) = run(&plan, None, &cfg, &mut w);
    let msg = res.unwrap_err();
    assert!(msg.contains("failed permanently"), "unexpected error: {msg}");
    assert!(msg.contains("injected network failure"), "run must surface the piece's last error: {msg}");
    assert_eq!(w.calls, cfg.max_attempts as usize + 1, "exactly budget+1 fetch attempts");
    assert_eq!(st.pieces[0].status, PieceStatus::Failed);
    assert_eq!(st.pieces[0].attempts, cfg.max_attempts + 1);
    assert_eq!(
        msg,
        "pieces failed permanently: [\"chain:refs/heads/main\"] — rerun to resume. chain:refs/heads/main: [Network] injected network failure"
    );
}

#[test]
fn retry_then_success() {
    let plan = plan_for(20);
    let mut hook = |n| if n <= 2 { network() } else { Fetch::Real };
    let mut w = world(8, &mut hook);
    let (res, st) = run(&plan, None, &small_budget(), &mut w);
    res.unwrap();
    assert!(w.calls >= 3, "two injected failures + at least one real fetch");
    assert_eq!(st.pieces[0].status, PieceStatus::Done);
    assert_eq!(st.pieces[0].attempts, 2, "two injected network failures must be billed to the piece budget");
    assert_eq!(st.pieces[0].rate_limits, 0);
    assert_eq!(w.sleeps, vec![4, 8]);
    assert!(w.remote.moved);
}

#[test]
fn rate_limited_does_not_burn_budget() {
    let plan = plan_for(20);
    let mut hook = |n| if n <= 3 { limited() } else { Fetch::Real };
    let mut w = world(8, &mut hook);
    let (res, st) = run(&plan, None, &small_budget(), &mut w);
    res.unwrap();
    assert!(w.calls >= 4, "3 rate-limits + at least one real fetch");
    assert_eq!(st.pieces[0].status, PieceStatus::Done);
    assert_eq!(st.pieces[0].attempts, 0, "429s must not consume the piece attempt budget");
    assert_eq!(st.pieces[0].rate_limits, 0, "successful step resets the consecutive counter");
}

#[test]
fn a_rate_limited_fetch_arms_the_cooldown() {
    let plan = plan_for(20);
    let cfg = small_budget();
    let mut throttle = Throttle::new(&cfg, 0);
    let mut hook = |n| if n <= 3 { limited() } else { Fetch::Real };
    let mut w = world(8, &mut hook);
    let mut st = State::new(&plan);
    st.pieces[0].status = PieceStatus::Running;
    let mut r = PieceRun::begin(&plan.pieces[0], st.pieces[0].clone(), 20, &throttle);
    while r.asked() != Request::Finished {
        // the pauses take no time here
        let ev = match r.asked() {
            Request::Sleep(_) => Event::Done,
            asked => w.answer(asked),
        };
        r.step(ev, &mut throttle, 0, &cfg);
    }
    assert_eq!(r.piece_state().status, PieceStatus::Done);
    assert!(throttle.is_cooling(0), "rate-limited fetches must arm the global cooldown");
}

#[test]
fn rate_limit_storm_gives_up() {
    let plan = plan_for(20);
    let mut hook = |_| limited();
    let mut w = world(10, &mut hook);
    let mut cfg = small_budget();
    cfg.max_rate_limits = 3;
    let (res, st) = run(&plan, None, &cfg, &mut w);
    let msg = res.unwrap_err();
    assert!(msg.contains("failed permanently"), "unexpected error: {msg}");
    assert!(msg.contains("rate-limited too many times"), "cap must surface a clear reason: {msg}");
    assert_eq!(w.calls, 4, "3 tolerated + 1 over the cap");
    assert_eq!(st.pieces[0].status, PieceStatus::Failed);
    assert_eq!(st.pieces[0].attempts, 0, "even a storm of 429s must leave the attempt budget untouched");
    assert_eq!(st.pieces[0].rate_limits, 4);
    assert!(msg.ends_with(
        "chain:refs/heads/main: piece chain:refs/heads/main rate-limited too many times (4 consecutive 429/abuse responses, cap 3) — giving up this run"
    ));
}

#[test]
fn rate_limit_budget_is_rebilled_on_rerun() {
    let plan = plan_for(20);
    let cfg = SchedulerConfig { max_rate_limits: 3, ..Default::default() };
    let mut storm = |_| limited();
    let (res, st) = run(&plan, None, &cfg, &mut world(8, &mut storm));
    assert!(res.is_err());
    let mut one_flake = |n| if n <= 1 { limited() } else { Fetch::Real };
    let mut w = world(8, &mut one_flake);
    let (res, st) = run(&plan, Some(st), &cfg, &mut w);
    res.unwrap();
    assert_eq!(st.pieces[0].status, PieceStatus::Done);
    assert_eq!(st.pieces[0].attempts, 0);
    assert_eq!(st.pieces[0].rate_limits, 0);
    assert!(w.calls >= 2);
}

#[test]
fn zero_progress_stall_counts_as_attempt() {
    let plan = plan_for(10);
    let mut hook = |n| if n == 1 { Fetch::Real } else { Fetch::Stall };
    let mut w = world(30, &mut hook);
    let cfg = small_budget();
    let (res, st) = run(&plan, None, &cfg, &mut w);
    let msg = res.unwrap_err();
    assert!(msg.contains("failed permanently"), "unexpected error: {msg}");
    assert!(msg.contains("zero-progress"), "stall must be reported as such: {msg}");
    assert_eq!(st.pieces[0].status, PieceStatus::Failed);
    assert_eq!(st.pieces[0].attempts, cfg.max_attempts + 1, "each stall must bill the piece budget");
    assert_eq!(w.calls, cfg.max_attempts as usize + 2, "1 real fetch + one stalled fetch per attempt");
    assert_eq!(st.pieces[0].bytes, 1000);
    assert!(msg.contains("(depth_done=10, step=100, +0 bytes, +0 commits) — empty pack, shallow boundary persists"));
}

#[test]
fn giveup_terminates_with_failure_report() {
    let plan = plan_for(20);
    let mut hook = |_| Fetch::Fail(RgcError::Network("connection refused".into()));
    let cfg = SchedulerConfig { max_attempts: 1, ..Default::default() };
    let (res, st) = run(&plan, None, &cfg, &mut world(10, &mut hook));
    assert!(res.unwrap_err().contains("failed permanently"));
    assert!(st.pieces.iter().all(|p| p.status == PieceStatus::Failed), "a given-up piece must settle in Failed");
}

#[test]
fn resume_resets_exhausted_budget() {
    let plan = plan_for(20);
    let mut st = State::new(&plan);
    st.pieces[0].status = PieceStatus::Pending;
    st.pieces[0].attempts = 99;
    let mut hook = |_| Fetch::Real;
    let (res, st) = run(&plan, Some(st), &SchedulerConfig::default(), &mut world(10, &mut hook));
    res.unwrap();
    assert_eq!(st.pieces[0].status, PieceStatus::Done);
    assert_eq!(st.pieces[0].attempts, 0, "claim-time rebill must reset stale attempts");
}

#[test]
fn rate_limit_storm_bails_run() {
    let plan = plan_for(20);
    let mut hook = |_| limited();
    let mut w = world(10, &mut hook);
    let cfg = SchedulerConfig { max_rate_limits: 100, rate_limit_breaker: 5, ..Default::default() };
    let (res, st) = run(&plan, None, &cfg, &mut w);
    let msg = res.unwrap_err();
    assert!(msg.contains("upstream rate-limited — rerun later"), "unexpected error: {msg}");
    assert_eq!(w.calls, 6, "breaker threshold+1 fetches");
    assert_eq!(w.sleeps, vec![60, 120, 240, 240, 240], "storm backoff must escalate and cap at 240s");
    assert_eq!(st.pieces[0].status, PieceStatus::Running, "the piece stays claimed, the next run takes it up");
}

#[test]
fn chain_deepens_until_complete() {
    let plan = plan_for(100);
    let mut hook = |_| Fetch::Real;
    let mut w = world(950, &mut hook);
    let (res, st) = run(&plan, None, &SchedulerConfig::default(), &mut w);
    res.unwrap();
    assert_eq!(w.calls, 10, "the pace keeps the step at its smallest");
    assert_eq!(st.pieces[0].bytes, 95_000);
    assert_eq!(st.pieces[0].chain, Some(ChainState { depth_done: 950, step: 100, no_shallow: false }));
}

#[test]
fn missing_shallow_support_falls_back_to_a_full_fetch() {
    let plan = plan_for(100);
    let mut hook = |n| {
        if n == 1 { Fetch::Fail(RgcError::ShallowUnsupported("no".into())) } else { Fetch::Real }
    };
    let mut w = world(5000, &mut hook);
    let (res, st) = run(&plan, None, &SchedulerConfig::default(), &mut w);
    res.unwrap();
    assert_eq!(w.calls, 2);
    assert!(w.sleeps.is_empty(), "the fallback starts at once");
    assert!(st.pieces[0].chain.unwrap().no_shallow);
    assert_eq!(st.pieces[0].attempts, 1);
}

#[test]
fn fatal_failure_is_not_retried_and_stops_no_other_piece() {
    let plan = two_pieces();
    let mut hook = |n| if n == 1 { Fetch::Fail(RgcError::Fatal("gone".into())) } else { Fetch::Real };
    let mut w = world(10, &mut hook);
    let (res, st) = run(&plan, None, &SchedulerConfig::default(), &mut w);
    assert!(res.unwrap_err().contains("chain:refs/heads/main: [Fatal] gone"));
    assert_eq!(w.calls, 2);
    assert_eq!(st.pieces[0].status, PieceStatus::Failed);
    assert_eq!(st.pieces[1].status, PieceStatus::Done);
    // the next run takes up the failed piece only
    let mut hook = |_| Fetch::Real;
    let mut w = world(10, &mut hook);
    let (res, st) = run(&plan, Some(st), &SchedulerConfig::default(), &mut w);
    res.unwrap();
    assert_eq!(w.calls, 1);
    assert!(st.pieces.iter().all(|p| p.status == PieceStatus::Done));
}

#[test]
fn later_pieces_wait_out_the_cooldown() {
    let plan = two_pieces();
    let mut hook = |n| if n == 1 { Fetch::Fail(RgcError::Congestion("reset".into())) } else { Fetch::Real };
    let mut w = world(10, &mut hook);
    let (res, _) = run(&plan, None, &SchedulerConfig::default(), &mut w);
    res.unwrap();
    assert_eq!(w.sleeps, vec![4], "congestion is retried after a pause");
    assert!(w.now >= 60 * SEC, "the second piece had to wait for the cooldown");
}

#[test]
fn halving_starts_with_the_second_network_failure() {
    let plan = plan_for(1000);
    let mut hook = |n| if n <= 3 { network() } else { Fetch::Real };
    let mut w = world(10, &mut hook);
    let (res, st) = run(&plan, None, &SchedulerConfig::default(), &mut w);
    res.unwrap();
    assert_eq!(st.pieces[0].chain.unwrap().step, 250);
}

#[test]
fn foreign_state_refuses_the_run() {
    let plan = plan_for(20);
    let mut st = State::new(&plan);
    st.fingerprint = "0".into();
    let mut hook = |_| Fetch::Real;
    let mut w = world(10, &mut hook);
    let (res, _) = run(&plan, Some(st), &SchedulerConfig::default(), &mut w);
    assert_eq!(res.unwrap_err(), "plan/state mismatch — delete .rgc/ or restore plan.json");
    assert_eq!(w.calls, 0);
}

#[test]
fn start_fails_as_its_driver_did() {
    let plan = plan_for(20);
    let start = RunStart::begin().step(StartEvent::Failed(Error::Other("no git".into())), &plan);
    assert_eq!(start.asked(), StartRequest::Refused);
    assert_eq!(start.failure().unwrap().render(), "no git");
    assert!(start.into_ledger().is_none());
}

fn started(plan: &Plan, cfg: &SchedulerConfig) -> (Ledger, Throttle, Worker) {
    let mut ledger = Ledger::open(Some(State::new(plan)), plan).unwrap().unwrap();
    let throttle = Throttle::new(cfg, 0);
    let w = Worker::start(0, &mut ledger, &throttle, plan, 0, cfg);
    (ledger, throttle, w)
}

#[test]
fn a_claim_that_cannot_be_saved_stops_the_worker() {
    let plan = two_pieces();
    let cfg = SchedulerConfig::default();
    let (mut ledger, throttle, mut w) = started(&plan, &cfg);
    assert_eq!(w.asked(), WorkRequest::SaveClaim);
    w.step(WorkEvent::SaveFailed(Error::Other("disk full".into())), &mut ledger, &throttle, &plan, 0, &cfg);
    assert_eq!(w.asked(), WorkRequest::Stop);
    assert_eq!(*w.failures(), vec!["state save failed: disk full"]);
}

#[test]
fn low_disk_space_skips_the_piece() {
    let plan = two_pieces();
    let cfg = SchedulerConfig::default();
    let mut st = State::new(&plan);
    st.pieces[0].bytes = 1001;
    let mut ledger = Ledger::open(Some(st), &plan).unwrap().unwrap();
    let throttle = Throttle::new(&cfg, 0);
    let mut w = Worker::start(0, &mut ledger, &throttle, &plan, 0, &cfg);
    w.step(WorkEvent::Saved, &mut ledger, &throttle, &plan, 0, &cfg);
    assert_eq!(w.asked(), WorkRequest::CheckSpace(1501));
    w.step(WorkEvent::Space(Some(1500)), &mut ledger, &throttle, &plan, 0, &cfg);
    assert_eq!(
        *w.failures(),
        vec!["chain:refs/heads/main: disk low: 1500 bytes available, next piece may need ~1501"]
    );
    assert_eq!(w.asked(), WorkRequest::SaveClaim, "the next piece is claimed");
    w.step(WorkEvent::Saved, &mut ledger, &throttle, &plan, 0, &cfg);
    w.step(WorkEvent::Space(Some(1501)), &mut ledger, &throttle, &plan, 0, &cfg);
    assert_eq!(w.asked(), WorkRequest::Run);
}

#[test]
fn the_last_result_is_written_back_though_the_state_holds_too_much() {
    let plan = plan_for(20);
    let cfg = SchedulerConfig::default();
    let mut st = State::new(&plan);
    let mut extra = st.pieces[0].clone();
    extra.id = "chain:refs/heads/stray".into();
    st.pieces.push(extra);
    let mut ledger = Ledger::open(Some(st), &plan).unwrap().unwrap();
    let throttle = Throttle::new(&cfg, 0);
    let mut w = Worker::start(0, &mut ledger, &throttle, &plan, 0, &cfg);
    w.step(WorkEvent::Saved, &mut ledger, &throttle, &plan, 0, &cfg);
    assert_eq!(w.asked(), WorkRequest::Run);
    let mut ps = w.claim().unwrap().ps.clone();
    ps.status = PieceStatus::Done;
    w.step(WorkEvent::Ran(ps, None), &mut ledger, &throttle, &plan, 0, &cfg);
    assert_eq!(w.asked(), WorkRequest::SaveResult);
    assert_eq!(ledger.state().pieces[0].status, PieceStatus::Done);
    assert_eq!(ledger.state().pieces[1].status, PieceStatus::Pending);
}

#[test]
fn space_estimates() {
    assert_eq!(space_estimate(0), 0);
    assert_eq!(space_estimate(1), 1);
    assert_eq!(space_estimate(1000), 1500);
    assert_eq!(space_estimate(u64::MAX), u64::MAX);
}

#[test]
fn a_halved_worker_stands_aside_until_nothing_is_pending() {
    let plan = two_pieces();
    let cfg = SchedulerConfig { rate_limit_soft_cap: 0, cooldown_secs: 0, ..Default::default() };
    let mut ledger = Ledger::open(Some(State::new(&plan)), &plan).unwrap().unwrap();
    let mut throttle = Throttle::new(&cfg, 0);
    throttle.on_failure(FailureKind::RateLimited, 0);
    let mut w = Worker::start(1, &mut ledger, &throttle, &plan, 0, &cfg);
    assert_eq!(w.asked(), WorkRequest::Park);
    ledger.claim(&plan, 5);
    w.step(WorkEvent::Woke, &mut ledger, &throttle, &plan, 0, &cfg);
    assert_eq!(w.asked(), WorkRequest::Park);
    ledger.claim(&plan, 5);
    w.step(WorkEvent::Woke, &mut ledger, &throttle, &plan, 0, &cfg);
    assert_eq!(w.asked(), WorkRequest::Stop);
}

#[test]
fn too_many_iterations_are_a_network_failure() {
    let plan = plan_for(1);
    let cfg = SchedulerConfig { max_attempts: 0, ..Default::default() };
    let mut throttle = Throttle::new(&cfg, 0);
    let mut st = State::new(&plan);
    st.pieces[0].status = PieceStatus::Running;
    let mut r = PieceRun::begin(&plan.pieces[0], st.pieces[0].clone(), 1, &throttle);
    let mut commits = 0u32;
    let mut fetches = 0u32;
    while r.asked() != Request::Finished {
        let ev = match r.asked() {
            Request::StatsBefore | Request::StatsAfter => Event::Stats { bytes: 0, commits },
            Request::FetchChain(_) => {
                fetches += 1;
                commits += 1;
                Event::Done
            }
            Request::CheckShallow => Event::Shallow(true),
            Request::Pace { .. } => Event::Pace(None),
            _ => Event::Done,
        };
        r.step(ev, &mut throttle, 0, &cfg);
    }
    assert_eq!(fetches, 100_000);
    assert_eq!(
        r.failure().unwrap().render(),
        "[Network] chain piece chain:refs/heads/main exceeded 100000 fetch iterations without completing — aborting this run (retryable)"
    );
    assert_eq!(r.piece_state().status, PieceStatus::Failed);
}
