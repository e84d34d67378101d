use rgc::errors::FailureKind;
use rgc::scheduler::SchedulerConfig;
use rgc::throttle::{Throttle, Turn, Wait, COOLDOWN_SECS};

const MS: u64 = 1_000_000;
const SEC: u64 = 1_000_000_000;

#[test]
fn on_failure_arms_cooldown_only_for_throttled_kinds() {
    let mut t = Throttle::new(&SchedulerConfig::default(), 5 * SEC);
    assert!(!t.is_cooling(5 * SEC), "fresh throttle must not be cooling");
    t.on_failure(FailureKind::Network, 5 * SEC);
    assert!(!t.is_cooling(5 * SEC), "plain network failure must not arm the cooldown");
    t.on_failure(FailureKind::Fatal, 5 * SEC);
    assert!(!t.is_cooling(5 * SEC));
    t.on_failure(FailureKind::RateLimited, 5 * SEC);
    assert!(t.is_cooling(5 * SEC), "rate limit must arm the global cooldown");
    assert!(t.is_cooling(65 * SEC - 1));
    assert!(!t.is_cooling(65 * SEC));
}

#[test]
fn congestion_also_arms_cooldown() {
    let mut t = Throttle::new(&SchedulerConfig::default(), 0);
    t.on_failure(FailureKind::Congestion, 0);
    assert!(t.is_cooling(0), "congestion (reset) must arm the global cooldown");
    assert!(!t.tripped(), "congestion never feeds the 429 breaker");
    assert_eq!(t.total_rate_limits(), 0);
}

#[test]
fn breaker_trips_after_threshold() {
    let cfg = SchedulerConfig { rate_limit_breaker: 3, ..Default::default() };
    let mut t = Throttle::new(&cfg, 0);
    for _ in 0..3 {
        t.on_failure(FailureKind::RateLimited, 0);
        assert!(!t.tripped(), "at/below threshold must not trip");
    }
    t.on_failure(FailureKind::RateLimited, 0);
    assert!(t.tripped(), "total 429s beyond threshold must trip the breaker");
    t.on_failure(FailureKind::Network, 0);
    assert!(t.tripped(), "a tripped breaker stays tripped");
    assert_eq!(t.abort_error().render(), "upstream rate-limited — rerun later");
}

#[test]
fn soft_cap_halves_effective_jobs() {
    let cfg = SchedulerConfig { jobs: 4, rate_limit_soft_cap: 2, ..Default::default() };
    let mut t = Throttle::new(&cfg, 0);
    assert_eq!(t.effective_jobs(), 4);
    t.on_failure(FailureKind::RateLimited, 0);
    t.on_failure(FailureKind::RateLimited, 0);
    assert_eq!(t.effective_jobs(), 4, "at the soft cap, not yet halved");
    t.on_failure(FailureKind::RateLimited, 0);
    assert_eq!(t.effective_jobs(), 2, "beyond soft cap, new claims run at half parallelism");
}

#[test]
fn other_failures_do_not_count() {
    let cfg = SchedulerConfig { jobs: 4, rate_limit_soft_cap: 1, rate_limit_breaker: 2, ..Default::default() };
    let mut t = Throttle::new(&cfg, 0);
    let others = [FailureKind::Network, FailureKind::Congestion, FailureKind::Fatal, FailureKind::ShallowUnsupported];
    for n in 1..=3 {
        for k in others {
            t.on_failure(k, n);
        }
        t.on_failure(FailureKind::RateLimited, n);
        assert_eq!(t.total_rate_limits(), n as u32);
        assert_eq!(t.tripped(), n > 2);
        assert_eq!(t.effective_jobs(), if n > 1 { 2 } else { 4 });
    }
}

#[test]
fn a_single_worker_is_never_halved_away() {
    let cfg = SchedulerConfig { jobs: 1, rate_limit_soft_cap: 0, ..Default::default() };
    let mut t = Throttle::new(&cfg, 0);
    t.on_failure(FailureKind::RateLimited, 0);
    assert_eq!(t.effective_jobs(), 1);
}

#[test]
fn throttle_storm_backoff_escalates_and_caps() {
    assert_eq!(Throttle::storm_backoff(1), 60);
    assert_eq!(Throttle::storm_backoff(2), 120);
    assert_eq!(Throttle::storm_backoff(3), 240);
    assert_eq!(Throttle::storm_backoff(99), 240, "escalation caps at 240s");
    assert_eq!(Throttle::storm_backoff(0), COOLDOWN_SECS);
}

#[test]
fn wait_turn_rereads_cooldown_until_past() {
    let mut t = Throttle::new(&SchedulerConfig { jobs: 1, ..Default::default() }, 0);
    t.arm_cooldown(0, 400 * MS as u128);
    let mut now = 0u64;
    let mut waits: Vec<u128> = vec![];
    loop {
        match t.wait_turn(0, Turn::Cooling, now, true) {
            Wait::Cool(nanos) => {
                waits.push(nanos);
                now += (nanos as u64).min(100 * MS);
                if waits.len() == 1 {
                    t.arm_cooldown(now, 300 * MS as u128);
                }
            }
            Wait::Park => panic!("the only worker never stands aside"),
            Wait::Go => break,
        }
    }
    assert!(waits.len() >= 3, "a cooldown that was put off must be read anew, got {:?}", waits);
    assert!(waits[0] >= 400 * MS as u128, "the first wait is the whole rest and the jitter");
    assert!(waits.windows(2).all(|w| w[0] > w[1]), "each wait is only the rest, got {:?}", waits);
    assert_eq!(waits[0], (461 * MS) as u128);
}

#[test]
fn gate_releases_parked_worker_when_pending_drains() {
    let cfg = SchedulerConfig { jobs: 2, rate_limit_soft_cap: 0, cooldown_secs: 0, ..Default::default() };
    let mut t = Throttle::new(&cfg, 0);
    t.on_failure(FailureKind::RateLimited, 0);
    assert_eq!(t.effective_jobs(), 1);
    assert_eq!(t.wait_turn(1, Turn::Cooling, 0, true), Wait::Park);
    assert_eq!(t.wait_turn(1, Turn::Gate, 0, false), Wait::Go);
    assert_eq!(t.wait_turn(0, Turn::Cooling, 0, true), Wait::Go);
}

#[test]
fn a_tripped_breaker_ends_every_wait() {
    let cfg = SchedulerConfig { jobs: 4, rate_limit_soft_cap: 0, rate_limit_breaker: 0, ..Default::default() };
    let mut t = Throttle::new(&cfg, 0);
    t.on_failure(FailureKind::RateLimited, 0);
    assert!(t.is_cooling(0));
    assert_eq!(t.wait_turn(3, Turn::Cooling, 0, true), Wait::Go);
}

#[test]
fn jitter_sets_workers_apart() {
    let mut t = Throttle::new(&SchedulerConfig { jobs: 8, ..Default::default() }, 0);
    t.arm_cooldown(0, 1);
    let waits: Vec<Wait> = (0..8).map(|i| t.wait_turn(i, Turn::Cooling, 0, true)).collect();
    let ms: Vec<u128> = waits
        .iter()
        .map(|w| match w {
            Wait::Cool(n) => (n - 1) / MS as u128,
            _ => panic!("must cool"),
        })
        .collect();
    assert_eq!(ms, vec![61, 198, 335, 472, 108, 245, 382, 18]);
}

#[test]
fn throttle_is_send_sync_and_shared() {
    fn assert_send_sync<T: Send + Sync>() {}
    assert_send_sync::<Throttle>();
    let shared = std::sync::Arc::new(std::sync::Mutex::new(Throttle::new(&SchedulerConfig::default(), 0)));
    let other = shared.clone();
    shared.lock().unwrap().on_failure(FailureKind::RateLimited, 0);
    assert!(other.lock().unwrap().is_cooling(0), "clone must share the same internals");
}

#[test]
fn the_longest_cooldown_fits() {
    let cfg = SchedulerConfig { cooldown_secs: u64::MAX, ..Default::default() };
    let mut t = Throttle::new(&cfg, u64::MAX);
    t.on_failure(FailureKind::RateLimited, u64::MAX);
    assert!(t.is_cooling(u64::MAX));
}
