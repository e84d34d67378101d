use rgc::ledger::Ledger;
use rgc::planner::{build_plan, Piece, Plan, PlannerConfig};
use rgc::recovery::{
    fsck_args, list_remote_refs_args, piece_refs, reconcile, Recovery, RecoveryEvent,
    RecoveryRequest,
};
use rgc::refs::{RefEntry, RemoteRefs};
use rgc::state::{piece_path, pieces_dir, state_path, ChainState, PieceState, PieceStatus, State};

fn entry(full: &str, short: &str, oid: &str) -> RefEntry {
    RefEntry { full_name: full.into(), short_name: short.into(), oid: oid.into() }
}

fn plan_of(branches: &[&str], tags: &[&str]) -> Plan {
    let refs = RemoteRefs {
        default_branch: Some("main".into()),
        branches: branches.iter().map(|b| entry(&format!("refs/heads/{}", b), b, "a")).collect(),
        tags: tags.iter().map(|t| entry(&format!("refs/tags/{}", t), t, "c")).collect(),
    };
    build_plan("https://x/y.git", &refs, &PlannerConfig::default()).unwrap()
}

fn sample_plan() -> Plan {
    plan_of(&["main", "dev"], &[])
}

fn open(found: State, plan: &Plan) -> Ledger {
    Ledger::open(Some(found), plan).unwrap().unwrap()
}

/// Drives a recovery against a repository that has the given refs. The first
/// answers to the question whether it is sound are given by `sound`.
fn recover(plan: &Plan, sound: &[bool], refs: &mut Vec<String>, log: &mut Vec<String>) -> Result<State, String> {
    let mut r = Recovery::begin(plan);
    let mut checks = sound.iter();
    loop {
        let ev = match r.asked() {
            RecoveryRequest::Fsck | RecoveryRequest::FsckAgain => {
                log.push("fsck".into());
                if *checks.next().unwrap() { RecoveryEvent::Yes } else { RecoveryEvent::No }
            }
            RecoveryRequest::ListRefs => RecoveryEvent::Listed(Some(
                refs.iter().map(|r| format!("{}\n", r)).collect(),
            )),
            RecoveryRequest::DeleteRefs(names) => {
                log.push(format!("delete {}", names.join(",")));
                refs.retain(|r| !names.contains(r));
                RecoveryEvent::Done
            }
            RecoveryRequest::RemovePieces => {
                log.push("remove pieces".into());
                RecoveryEvent::Done
            }
            RecoveryRequest::Probe(names) => {
                if names.iter().all(|n| refs.contains(n)) { RecoveryEvent::Yes } else { RecoveryEvent::No }
            }
            RecoveryRequest::Rebuilt | RecoveryRequest::Unrecoverable => {
                return r.result().unwrap().map_err(|e| e.render());
            }
        };
        r = r.step(ev);
    }
}

#[test]
fn fresh_piece_state_knows_piece_kind() {
    let plan = sample_plan();
    let ps = PieceState::new(&plan.pieces[0], plan.initial_step);
    let c = ps.chain.expect("chain piece must carry initial chain state");
    assert_eq!(c.depth_done, 0);
    assert_eq!(c.step, plan.initial_step);
    assert!(!c.no_shallow);
    assert_eq!(ps.status, PieceStatus::Pending);
    assert_eq!(ps.id, plan.pieces[0].id());
    let tags = plan_of(&[], &["v1"]);
    assert!(PieceState::new(&tags.pieces[0], 5).chain.is_none());
}

#[test]
fn state_roundtrip_and_crash_recovery() {
    let plan = sample_plan();
    let mut st = State::new(&plan);
    st.pieces[0].status = PieceStatus::Running;
    let loaded = State::load(Some(st.clone())).unwrap();
    assert_eq!(loaded.pieces[0].status, PieceStatus::Pending);
    assert_eq!(loaded.fingerprint, plan.fingerprint());
}

#[test]
fn load_missing_returns_none() {
    assert!(State::load(None).is_none());
}

#[test]
fn load_leaves_other_statuses_alone() {
    let plan = plan_of(&["main", "a", "b"], &[]);
    let mut st = State::new(&plan);
    st.pieces[0].status = PieceStatus::Done;
    st.pieces[1].status = PieceStatus::Failed;
    let loaded = State::load(Some(st)).unwrap();
    assert_eq!(loaded.pieces[0].status, PieceStatus::Done);
    assert_eq!(loaded.pieces[1].status, PieceStatus::Failed);
    assert_eq!(loaded.pieces[2].status, PieceStatus::Pending);
    assert!(State::default().pieces.is_empty());
    assert_eq!(State::default().fingerprint, "");
}

#[test]
fn open_fresh_reconciles_to_all_pending() {
    let plan = sample_plan();
    assert!(Ledger::open(None, &plan).unwrap().is_none());
    let rebuilt = recover(&plan, &[true], &mut vec![], &mut vec![]).unwrap();
    let ledger = open(rebuilt, &plan);
    assert!(ledger.has_pending());
    assert_eq!(ledger.unfinished_ids().len(), plan.pieces.len());
    let on_disk = ledger.state();
    assert!(on_disk.pieces.iter().all(|p| p.status == PieceStatus::Pending));
    assert_eq!(on_disk.fingerprint, plan.fingerprint());
}

#[test]
fn open_folds_crashed_running_and_terminal_failed() {
    let plan = sample_plan();
    let mut st = State::new(&plan);
    st.pieces[0].status = PieceStatus::Running;
    st.pieces[1].status = PieceStatus::Failed;
    let ledger = open(st, &plan);
    assert!(
        ledger.state().pieces.iter().all(|p| p.status == PieceStatus::Pending),
        "a crashed and a given-up piece must both be pending again"
    );
    assert!(ledger.has_pending());
}

#[test]
fn open_bails_on_fingerprint_mismatch() {
    let plan = sample_plan();
    let mut st = State::new(&plan);
    st.fingerprint = "0000000000000000".into();
    let err = match Ledger::open(Some(st), &plan) {
        Ok(_) => panic!("fingerprint mismatch must bail, not open"),
        Err(e) => e,
    };
    assert!(err.render().contains("plan/state mismatch"));
    assert_eq!(err.render(), "plan/state mismatch — delete .rgc/ or restore plan.json");
}

#[test]
fn claim_is_write_ahead_and_rebills_budget() {
    let plan = sample_plan();
    let mut st = State::new(&plan);
    st.pieces[0].attempts = 99;
    st.pieces[0].rate_limits = 7;
    let mut ledger = open(st, &plan);
    let claim = ledger.claim(&plan, 5).expect("one piece claimable");
    assert_eq!(claim.idx, 0);
    assert_eq!(claim.piece.id(), plan.pieces[0].id());
    assert_eq!(claim.ps.status, PieceStatus::Running);
    assert_eq!(claim.ps.attempts, 0, "exhausted budget must be rebilled at claim");
    assert_eq!(claim.ps.rate_limits, 0, "consecutive rate-limit count resets at claim");
    assert_eq!(ledger.state().pieces[0].status, PieceStatus::Running, "what is saved must show the claim");
}

#[test]
fn claim_keeps_a_budget_that_is_not_used_up() {
    let plan = sample_plan();
    let mut st = State::new(&plan);
    st.pieces[0].attempts = 5;
    let mut ledger = open(st, &plan);
    assert_eq!(ledger.claim(&plan, 5).unwrap().ps.attempts, 5);
}

#[test]
fn claim_pairs_piece_identity_with_state() {
    let plan = sample_plan();
    let mut ledger = open(State::new(&plan), &plan);
    let claim = ledger.claim(&plan, 5).unwrap();
    assert_eq!(claim.piece.id(), claim.ps.id, "paired entry: identity and progress must agree");
    assert_eq!(claim.piece.id(), plan.pieces[claim.idx].id());
}

#[test]
fn claim_initializes_missing_chain_state() {
    let plan = sample_plan();
    let mut st = State::new(&plan);
    st.pieces[0].chain = None;
    let mut ledger = open(st, &plan);
    let claim = ledger.claim(&plan, 5).unwrap();
    let chain = claim.ps.chain.expect("chain piece must carry chain state after claim");
    assert_eq!(chain.depth_done, 0);
    assert_eq!(chain.step, plan.initial_step);
    assert!(!chain.no_shallow);
    assert!(ledger.state().pieces[claim.idx].chain.is_some());
}

#[test]
fn claim_drains_to_none() {
    let plan = sample_plan();
    let mut ledger = open(State::new(&plan), &plan);
    assert!(ledger.claim(&plan, 5).is_some());
    assert!(ledger.claim(&plan, 5).is_some());
    assert!(ledger.claim(&plan, 5).is_none(), "no Pending left");
    assert!(!ledger.has_pending());
}

#[test]
fn complete_writes_back_and_persists() {
    let plan = sample_plan();
    let mut ledger = open(State::new(&plan), &plan);
    let claim = ledger.claim(&plan, 5).unwrap();
    let mut ps = claim.ps;
    ps.status = PieceStatus::Done;
    ps.bytes = 4096;
    ledger.complete(claim.idx, ps);
    ledger.saved();
    let on_disk = State::load(Some(ledger.state().clone())).unwrap();
    assert_eq!(on_disk.pieces[claim.idx].status, PieceStatus::Done);
    assert_eq!(on_disk.pieces[claim.idx].bytes, 4096);
    assert_eq!(ledger.max_piece_bytes(), 4096);
    assert_eq!(ledger.unfinished_ids(), vec![plan.pieces[1].id()]);
}

#[test]
fn crash_after_a_saved_claim_is_made_good() {
    let plan = sample_plan();
    let mut ledger = open(State::new(&plan), &plan);
    let claim = ledger.claim(&plan, 5).unwrap();
    ledger.saved();
    // the process dies here; the next run opens what was saved
    let mut next = open(ledger.state().clone(), &plan);
    assert_eq!(next.claim(&plan, 5).unwrap().idx, claim.idx);
}

#[test]
fn reconcile_marks_completed_refs_done() {
    let plan = sample_plan();
    let mut refs = vec!["refs/remotes/origin/dev".to_string()];
    let st = recover(&plan, &[true], &mut refs, &mut vec![]).unwrap();
    let dev = st.pieces.iter().find(|p| p.id.contains("dev")).unwrap();
    assert_eq!(dev.status, PieceStatus::Done);
    assert!(dev.chain.is_none());
    assert_eq!(st.pieces.iter().filter(|p| p.status == PieceStatus::Done).count(), 1);
    assert_eq!(refs.len(), 1, "a sound repository is not touched");
}

#[test]
fn reconcile_wipes_refs_when_repo_unhealthy() {
    let plan = sample_plan();
    let mut refs = vec!["refs/remotes/origin/main".to_string(), "refs/tags/v1".to_string()];
    let mut log = vec![];
    let st = recover(&plan, &[false, true], &mut refs, &mut log).unwrap();
    assert!(st.pieces.iter().all(|p| p.status == PieceStatus::Pending));
    assert!(refs.is_empty());
    assert_eq!(
        log,
        vec!["fsck", "delete refs/remotes/origin/main,refs/tags/v1", "remove pieces", "fsck"]
    );
}

#[test]
fn damage_beyond_the_refs_is_fatal() {
    let plan = sample_plan();
    let err = recover(&plan, &[false, false], &mut vec![], &mut vec![]).unwrap_err();
    assert_eq!(err, "fatal: repository unrecoverable — delete the directory and re-clone");
}

#[test]
fn recovery_without_a_listing_still_removes_the_pieces() {
    let plan = sample_plan();
    let r = Recovery::begin(&plan).step(RecoveryEvent::No);
    assert!(matches!(r.asked(), RecoveryRequest::ListRefs));
    assert!(r.result().is_none());
    let r = r.step(RecoveryEvent::Listed(None));
    assert!(matches!(r.asked(), RecoveryRequest::RemovePieces));
}

#[test]
fn a_batch_is_done_only_with_all_its_tags() {
    let plan = plan_of(&[], &["v1", "v2"]);
    assert_eq!(piece_refs(&plan.pieces[0]), vec!["refs/tags/v1", "refs/tags/v2"]);
    let st = recover(&plan, &[true], &mut vec!["refs/tags/v1".into()], &mut vec![]).unwrap();
    assert_eq!(st.pieces[0].status, PieceStatus::Pending);
    let both = &mut vec!["refs/tags/v1".into(), "refs/tags/v2".into()];
    let st = recover(&plan, &[true], both, &mut vec![]).unwrap();
    assert_eq!(st.pieces[0].status, PieceStatus::Done);
}

#[test]
fn reconcile_of_an_unsound_repository_finds_nothing() {
    let plan = sample_plan();
    let st = reconcile(&plan, false, &vec![]);
    assert!(st.pieces.iter().all(|p| p.status == PieceStatus::Pending));
    assert_eq!(st.pieces[0].chain, Some(ChainState::initial(plan.initial_step)));
    assert_eq!(st.fingerprint, plan.fingerprint());
    let st = reconcile(&plan, true, &vec![true, false]);
    assert_eq!(st.pieces[0].status, PieceStatus::Done);
    assert_eq!(st.pieces[1].status, PieceStatus::Pending);
}

#[test]
fn recovery_commands() {
    assert_eq!(fsck_args(), vec!["fsck", "--connectivity-only"]);
    assert_eq!(
        list_remote_refs_args(),
        vec!["for-each-ref", "--format=%(refname)", "refs/remotes/origin", "refs/tags", "refs/rgc"]
    );
}

#[test]
fn paths_of_the_state() {
    assert_eq!(state_path("/d"), "/d/.rgc/state.json");
    assert_eq!(pieces_dir("/d"), "/d/.rgc/pieces");
    let p = Piece::Chain { full_ref: "refs/heads/a".into(), short_name: "a".into() };
    assert_eq!(piece_path("/d", &p), "/d/.rgc/pieces/chain_refs_heads_a");
}
