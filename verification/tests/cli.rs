use rgc::cli::{
    acquire_instance_lock, clone_flow, default_dir, ensure_dest_vacant_for_fresh, lock_path,
    resume_flow, status, CloneOptions, Flow, FlowEvent, FlowRequest, LockAttempt,
};
use rgc::errors::Error;
use rgc::planner::{build_plan, Plan, PlannerConfig, INITIAL_STEP};
use rgc::refs::{RefEntry, RemoteRefs};
use rgc::state::{PieceStatus, State};

fn small_opts() -> CloneOptions {
    CloneOptions { jobs: 1, keep_state: false, initial_step: 10 }
}

fn remote() -> RemoteRefs {
    RemoteRefs {
        default_branch: Some("main".into()),
        branches: vec![RefEntry {
            full_name: "refs/heads/main".into(),
            short_name: "main".into(),
            oid: "0123456789abcdef0123456789abcdef01234567".into(),
        }],
        tags: vec![],
    }
}

fn synthetic_plan(url: &str) -> Plan {
    build_plan(url, &remote(), &PlannerConfig::default()).unwrap()
}

/// A destination, as the driver of a flow sees it.
struct Dest {
    locked: bool,
    plan: Option<Plan>,
    state: Option<State>,
    /// A plan or a state is there that cannot be read.
    unreadable: bool,
    holds: Vec<String>,
    log: Vec<FlowRequest>,
}

fn dest() -> Dest {
    Dest { locked: false, plan: None, state: None, unreadable: false, holds: vec![".rgc".into()], log: vec![] }
}

impl Dest {
    fn drive(&mut self, mut flow: Flow) -> Result<(), String> {
        loop {
            self.log.push(flow.asked());
            let ev = match flow.asked() {
                FlowRequest::Lock => {
                    let attempt = if self.locked { LockAttempt::WouldBlock } else { LockAttempt::Locked };
                    match acquire_instance_lock("/d", &attempt) {
                        Ok(()) => FlowEvent::Done,
                        Err(e) => FlowEvent::Failed(e),
                    }
                }
                FlowRequest::LoadPlan => FlowEvent::Plan(self.plan.clone()),
                FlowRequest::CheckTraces => FlowEvent::Traces(self.unreadable || self.state.is_some()),
                FlowRequest::ListDest => FlowEvent::Holds(self.holds.clone()),
                FlowRequest::ListRemote => FlowEvent::Remote(remote()),
                FlowRequest::SavePlan => {
                    self.plan = Some(flow.plan().unwrap().clone());
                    FlowEvent::Done
                }
                FlowRequest::SaveNewState => {
                    self.state = Some(State::new(flow.plan().unwrap()));
                    FlowEvent::Done
                }
                FlowRequest::LoadState => FlowEvent::State(self.state.clone()),
                FlowRequest::Schedule | FlowRequest::Finalize => FlowEvent::Done,
                FlowRequest::Finished => {
                    return match flow.failure() {
                        Some(e) => Err(e.render()),
                        None => Ok(()),
                    };
                }
            };
            flow = flow.step(ev);
        }
    }
}

#[test]
fn default_dir_variants() {
    assert_eq!(default_dir("https://example.com/foo/bar.git"), "bar");
    assert_eq!(default_dir("https://example.com/foo/bar"), "bar");
    assert_eq!(default_dir("https://example.com/foo/bar/"), "bar");
    assert_eq!(default_dir("/tmp/x.git"), "x");
    assert_eq!(default_dir("x"), "x");
    assert_eq!(default_dir("a/b.git.git//"), "b");
    assert_eq!(default_dir(""), "");
    assert_eq!(default_dir("///"), "");
}

#[test]
fn clone_options_defaults_match_cli_defaults() {
    let o = CloneOptions::default();
    assert_eq!(o.jobs, 2);
    assert!(!o.keep_state);
    assert_eq!(o.initial_step, INITIAL_STEP);
    let cfg = CloneOptions { jobs: 7, ..o }.scheduler_config();
    assert_eq!(cfg.jobs, 7);
    assert_eq!(cfg.max_attempts, 5);
}

#[test]
fn lock_outcomes() {
    assert_eq!(lock_path("/d"), "/d/.rgc/lock");
    assert!(acquire_instance_lock("/d", &LockAttempt::Locked).is_ok());
    assert_eq!(
        acquire_instance_lock("/d", &LockAttempt::WouldBlock).unwrap_err().render(),
        "another rgc instance is running on this destination (lock: /d/.rgc/lock)"
    );
    assert_eq!(
        acquire_instance_lock("/d", &LockAttempt::CannotOpen("denied".into())).unwrap_err().render(),
        "cannot open lock file /d/.rgc/lock: denied"
    );
    assert_eq!(
        acquire_instance_lock("/d", &LockAttempt::CannotLock("odd".into())).unwrap_err().render(),
        "cannot lock /d/.rgc/lock: odd"
    );
}

#[test]
fn a_new_clone_takes_every_step() {
    let mut d = dest();
    d.drive(clone_flow("u", "/d", &small_opts())).unwrap();
    assert_eq!(
        d.log,
        vec![
            FlowRequest::Lock,
            FlowRequest::LoadPlan,
            FlowRequest::CheckTraces,
            FlowRequest::ListDest,
            FlowRequest::ListRemote,
            FlowRequest::SavePlan,
            FlowRequest::SaveNewState,
            FlowRequest::LoadState,
            FlowRequest::Schedule,
            FlowRequest::Finalize,
            FlowRequest::Finished,
        ]
    );
    assert_eq!(d.plan.unwrap().initial_step, 10);
}

#[test]
fn resume_after_interrupt() {
    let mut d = dest();
    let plan = synthetic_plan("u");
    let before = plan.fingerprint();
    let mut st = State::new(&plan);
    st.pieces[0].status = PieceStatus::Done;
    d.plan = Some(plan);
    d.state = Some(st);
    d.drive(resume_flow("/d", &small_opts())).unwrap();
    assert!(!d.log.contains(&FlowRequest::SavePlan), "resume must never rebuild the plan");
    assert!(d.log.contains(&FlowRequest::Schedule));
    assert_eq!(d.plan.unwrap().fingerprint(), before);
}

#[test]
fn clone_again_resumes() {
    let mut d = dest();
    d.drive(clone_flow("u", "/d", &small_opts())).unwrap();
    d.log.clear();
    d.drive(clone_flow("u", "/d", &small_opts())).unwrap();
    assert!(!d.log.contains(&FlowRequest::SavePlan));
    assert!(!d.log.contains(&FlowRequest::ListRemote));
}

#[test]
fn fingerprint_mismatch_bails() {
    let mut d = dest();
    let plan_a = synthetic_plan("https://a.example/x.git");
    let plan_b = synthetic_plan("https://b.example/y.git");
    assert_ne!(plan_a.fingerprint(), plan_b.fingerprint());
    d.state = Some(State::new(&plan_b));
    d.plan = Some(plan_a);
    let msg = d.drive(clone_flow("https://a.example/x.git", "/d", &small_opts())).unwrap_err();
    assert!(msg.contains("plan/state mismatch"), "expected fingerprint bail, got: {msg}");
    assert!(!d.log.contains(&FlowRequest::SavePlan), "the plan must not be overwritten");
    assert!(!d.log.contains(&FlowRequest::Schedule), "nothing may be fetched");
}

#[test]
fn clone_into_foreign_dest_bails() {
    let mut d = dest();
    let plan_a = synthetic_plan("https://a.example/x.git");
    d.state = Some(State::new(&plan_a));
    d.plan = Some(plan_a);
    let msg = d.drive(clone_flow("https://b.example/y.git", "/d", &small_opts())).unwrap_err();
    assert!(msg.contains("different URL"), "expected url-conflict bail, got: {msg}");
    assert_eq!(
        msg,
        "destination /d already holds an rgc plan for a different URL (https://a.example/x.git) — delete .rgc/ or rerun with the original URL"
    );
    assert!(!d.log.contains(&FlowRequest::SavePlan), "the plan must not be overwritten");
}

#[test]
fn instance_lock_rejects_second() {
    let mut d = dest();
    d.locked = true;
    let msg = d.drive(clone_flow("u", "/d", &small_opts())).unwrap_err();
    assert!(msg.contains("another rgc instance"), "expected lock bail, got: {msg}");
    assert_eq!(d.log, vec![FlowRequest::Lock, FlowRequest::Finished], "lock must precede everything");
    d.locked = false;
    d.drive(clone_flow("u", "/d", &small_opts())).unwrap();
}

#[test]
fn an_unreadable_plan_is_never_replaced() {
    let mut d = dest();
    d.unreadable = true;
    let msg = d.drive(clone_flow("u", "/d", &small_opts())).unwrap_err();
    assert_eq!(
        msg,
        "plan/state mismatch — delete .rgc/ or restore plan.json (plan.json missing or unreadable in /d)"
    );
    assert!(d.plan.is_none());
}

#[test]
fn a_destination_with_other_files_is_refused() {
    let mut d = dest();
    d.holds = vec!["a.txt".into(), ".rgc".into(), "b".into()];
    let msg = d.drive(clone_flow("u", "/d", &small_opts())).unwrap_err();
    assert_eq!(
        msg,
        "destination /d is not empty (contains a.txt, b) — rgc only clones into an empty directory; choose a new destination or delete its contents"
    );
    assert!(ensure_dest_vacant_for_fresh("/d", &vec![]).is_ok());
    assert!(ensure_dest_vacant_for_fresh("/d", &vec![".rgc".into()]).is_ok());
}

#[test]
fn nothing_to_resume_is_an_error() {
    let msg = dest().drive(resume_flow("/d", &small_opts())).unwrap_err();
    assert_eq!(msg, "no .rgc/plan.json in /d — nothing to resume");
}

#[test]
fn an_empty_remote_ends_the_clone() {
    let mut flow = clone_flow("u", "/d", &small_opts());
    for ev in [
        FlowEvent::Done,
        FlowEvent::Plan(None),
        FlowEvent::Traces(false),
        FlowEvent::Holds(vec![]),
        FlowEvent::Remote(RemoteRefs { default_branch: None, branches: vec![], tags: vec![] }),
    ] {
        flow = flow.step(ev);
    }
    assert_eq!(flow.asked(), FlowRequest::Finished);
    assert_eq!(flow.failure().unwrap().render(), "remote has no branches or tags — nothing to clone");
}

#[test]
fn a_failed_step_ends_the_flow() {
    let flow = clone_flow("u", "/d", &small_opts()).step(FlowEvent::Done);
    let flow = flow.step(FlowEvent::Failed(Error::Other("io".into())));
    assert_eq!(flow.asked(), FlowRequest::Finished);
    assert_eq!(flow.failure().unwrap().render(), "io");
}

#[test]
fn a_plan_with_an_empty_batch_is_still_told_by_its_url() {
    let mut plan = synthetic_plan("https://a.example/x.git");
    plan.pieces.push(rgc::planner::Piece::TagBatch { tags: vec![] });
    let report = status("/d", &Some(plan.clone()), &None).unwrap();
    assert_eq!(report.lines[0], "plan: https://a.example/x.git (2 pieces)");
    let mut d = dest();
    d.plan = Some(plan);
    let msg = d.drive(clone_flow("https://b.example/y.git", "/d", &small_opts())).unwrap_err();
    assert!(msg.contains("different URL"), "{msg}");
}

#[test]
fn status_read_only() {
    let mut refs = remote();
    refs.tags.push(RefEntry { full_name: "refs/tags/v1".into(), short_name: "v1".into(), oid: "o".into() });
    let plan = build_plan("https://a.example/x.git", &refs, &PlannerConfig::default()).unwrap();
    let mut st = State::new(&plan);
    st.pieces[0].status = PieceStatus::Done;
    st.pieces[1].status = PieceStatus::Failed;
    let report = status("/d", &Some(plan.clone()), &Some(st.clone())).unwrap();
    assert_eq!(
        report.lines,
        vec![
            "plan: https://a.example/x.git (2 pieces)",
            "Done  chain:refs/heads/main  depth=0 step=10000",
            "Failed  tags:v1",
            "1/2 pieces done",
        ]
    );
    assert_eq!(report.warning, None);
    // another plan's state is shown, with a warning
    st.fingerprint = "x".into();
    let report = status("/d", &Some(plan.clone()), &Some(st)).unwrap();
    assert_eq!(
        report.warning.as_deref(),
        Some("warning: state.json does not match plan.json in /d — display may be misleading")
    );
    // no readable state
    let report = status("/d", &Some(plan), &None).unwrap();
    assert_eq!(
        report.lines[1],
        "rgc: no readable state.json in /d — run `rgc resume /d` to rebuild progress"
    );
    // no plan
    assert_eq!(
        status("/nope", &None, &None).unwrap_err().render(),
        "no readable .rgc/plan.json in /nope — nothing to report"
    );
}
