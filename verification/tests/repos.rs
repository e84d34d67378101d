use rgc::errors::Error;
use rgc::repos::{
    ensure_piece_repo, fetch_chain_step, init_main_repo, ChainStep, RepoEvent, RepoRequest,
    RepoSetup, Site,
};
use rgc::state::ChainState;

fn ok() -> RepoEvent {
    RepoEvent::Output(String::new())
}

fn failed(why: &str) -> RepoEvent {
    RepoEvent::Failed(Error::Other(why.into()))
}

fn show(r: &RepoRequest) -> String {
    match r {
        RepoRequest::MakeDir => "make dir".into(),
        RepoRequest::IsRepo => "is repo".into(),
        RepoRequest::RemoveDir => "remove dir".into(),
        RepoRequest::Git(site, args) => {
            let at = match site {
                Site::Anywhere => "",
                Site::Main => "main: ",
                Site::Piece => "piece: ",
            };
            format!("{}{}", at, args.join(" "))
        }
        RepoRequest::IsShallow => "is shallow".into(),
        RepoRequest::ReadBoundary => "read boundary".into(),
        RepoRequest::RemoveBoundary => "remove boundary".into(),
        RepoRequest::Finished => "finished".into(),
    }
}

/// Drives a set-up with the given answers and lists what was asked for.
fn set_up(mut s: RepoSetup, answers: Vec<RepoEvent>) -> (Vec<String>, Option<String>) {
    let mut log = vec![];
    for ev in answers {
        log.push(show(&s.asked()));
        s.step(ev);
    }
    assert!(matches!(s.asked(), RepoRequest::Finished), "left: {}", show(&s.asked()));
    (log, s.failure().map(|e| e.render()))
}

fn fetch(mut s: ChainStep, answers: Vec<RepoEvent>) -> (Vec<String>, Option<String>) {
    let mut log = vec![];
    for ev in answers {
        log.push(show(&s.asked()));
        s = s.step(ev);
    }
    assert!(matches!(s.asked(), RepoRequest::Finished), "left: {}", show(&s.asked()));
    (log, s.failure().map(|e| e.render()))
}

const BORROW: &str = "piece: fetch --quiet /m +refs/remotes/origin/*:refs/remotes/origin/* +refs/tags/*:refs/tags/*";
const ASK_REFS: &str = "main: for-each-ref --count=1 refs/remotes/origin refs/tags refs/heads";

#[test]
fn init_main_repo_idempotent() {
    let url = "https://example.com/x.git";
    let (log, e) = set_up(
        init_main_repo("/m", url),
        vec![RepoEvent::Done, RepoEvent::No, ok(), failed("no origin"), ok(), ok()],
    );
    assert_eq!(
        log,
        vec![
            "make dir",
            "is repo",
            "init --quiet /m",
            "main: remote get-url origin",
            "main: remote add origin https://example.com/x.git",
            "main: config gc.auto 0",
        ]
    );
    assert_eq!(e, None);
    // once more: nothing is created or added
    let (log, e) = set_up(init_main_repo("/m", url), vec![RepoEvent::Done, RepoEvent::Yes, ok(), ok()]);
    assert_eq!(log, vec!["make dir", "is repo", "main: remote get-url origin", "main: config gc.auto 0"]);
    assert_eq!(e, None);
}

#[test]
fn a_failed_command_ends_the_set_up() {
    let (_, e) = set_up(init_main_repo("/m", "u"), vec![failed("read-only")]);
    assert_eq!(e.as_deref(), Some("read-only"));
}

#[test]
fn a_sound_piece_repo_is_left_alone() {
    let (log, e) = set_up(ensure_piece_repo("/m", "/p", "u"), vec![RepoEvent::Yes, ok()]);
    assert_eq!(log, vec!["is repo", "piece: rev-parse --git-dir"]);
    assert_eq!(e, None);
}

#[test]
fn a_damaged_piece_repo_is_made_anew() {
    let (log, _) = set_up(
        ensure_piece_repo("/m", "/p", "u"),
        vec![
            RepoEvent::Yes,
            failed("broken"),
            RepoEvent::Done,
            RepoEvent::Done,
            RepoEvent::Output("aa commit refs/heads/main\n".into()),
            ok(),
            ok(),
            ok(),
            ok(),
        ],
    );
    assert_eq!(
        log,
        vec![
            "is repo",
            "piece: rev-parse --git-dir",
            "remove dir",
            "make dir",
            ASK_REFS,
            "clone --shared --no-checkout --quiet /m /p",
            "piece: remote set-url origin u",
            BORROW,
            "piece: config gc.auto 0",
        ]
    );
}

#[test]
fn without_refs_there_is_nothing_to_borrow() {
    for listing in [ok(), failed("no repository")] {
        let (log, _) = set_up(
            ensure_piece_repo("/m", "/p", "u"),
            vec![RepoEvent::No, RepoEvent::Done, listing, ok(), failed("no origin"), ok(), ok()],
        );
        assert_eq!(
            log,
            vec![
                "is repo",
                "make dir",
                ASK_REFS,
                "init --quiet /p",
                "piece: remote set-url origin u",
                "piece: remote add origin u",
                "piece: config gc.auto 0",
            ]
        );
    }
}

fn at() -> ChainState {
    ChainState { depth_done: 0, step: 5, no_shallow: false }
}

const LOCAL: &str = "piece: rev-parse --verify refs/heads/main";

#[test]
fn the_first_step_has_a_depth() {
    let (log, e) = fetch(
        fetch_chain_step("refs/heads/main", "main", at()),
        vec![failed("unknown"), RepoEvent::No, ok()],
    );
    assert_eq!(
        log,
        vec![LOCAL, "is shallow", "piece: fetch --quiet --depth=5 origin +refs/heads/main:refs/heads/main"]
    );
    assert_eq!(e, None);
}

#[test]
fn a_complete_branch_needs_no_fetch() {
    let (log, _) = fetch(fetch_chain_step("refs/heads/main", "main", at()), vec![ok(), RepoEvent::No]);
    assert_eq!(log, vec![LOCAL, "is shallow"]);
}

#[test]
fn force_push_rewrite_resets_shallow_wedge() {
    let (log, e) = fetch(
        fetch_chain_step("refs/heads/main", "main", at()),
        vec![
            ok(),
            RepoEvent::Yes,
            ok(),
            RepoEvent::Yes,
            RepoEvent::Output("aa\nbb\n".into()),
            failed("no ancestor"),
            failed("no ancestor"),
            ok(),
            RepoEvent::Done,
            ok(),
        ],
    );
    assert_eq!(
        log,
        vec![
            LOCAL,
            "is shallow",
            "piece: fetch --quiet --deepen=5 origin +refs/heads/main:refs/heads/main",
            "is shallow",
            "read boundary",
            "piece: merge-base --is-ancestor aa refs/heads/main",
            "piece: merge-base --is-ancestor bb refs/heads/main",
            "piece: update-ref -d refs/heads/main",
            "remove boundary",
            "piece: fetch --quiet --depth=5 origin +refs/heads/main:refs/heads/main",
        ]
    );
    assert_eq!(e, None);
}

#[test]
fn a_branch_with_a_reachable_boundary_is_kept() {
    let (log, _) = fetch(
        fetch_chain_step("refs/heads/main", "main", at()),
        vec![
            ok(),
            RepoEvent::Yes,
            ok(),
            RepoEvent::Yes,
            RepoEvent::Output("aa\nbb\n".into()),
            ok(),
            failed("no ancestor"),
        ],
    );
    assert_eq!(log.len(), 7);
}

#[test]
fn a_failed_fetch_fails_the_step() {
    let (_, e) = fetch(
        fetch_chain_step("refs/heads/main", "main", at()),
        vec![ok(), RepoEvent::Yes, failed("timed out")],
    );
    assert_eq!(e.as_deref(), Some("timed out"));
}

#[test]
fn a_full_fetch_looks_at_no_boundary() {
    let full = ChainState { no_shallow: true, ..at() };
    let (log, _) = fetch(
        fetch_chain_step("refs/heads/main", "main", full),
        vec![ok(), RepoEvent::Yes, ok()],
    );
    assert_eq!(log[2], "piece: fetch --quiet origin +refs/heads/main:refs/heads/main");
}
