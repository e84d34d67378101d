use rgc::finalizer::{connectivity_args, default_branch, finalize, refs_to_verify, verify, Step};
use rgc::planner::{Piece, Plan};
use rgc::refs::{RefEntry, RemoteRefs};

fn chain(name: &str) -> Piece {
    Piece::Chain { full_ref: format!("refs/heads/{}", name), short_name: name.into() }
}

fn plan(default: Option<&str>, pieces: Vec<Piece>) -> Plan {
    Plan { url: "u".into(), default_branch: default.map(|d| d.into()), initial_step: 1, pieces }
}

fn entry(full: &str, short: &str, oid: &str) -> RefEntry {
    RefEntry { full_name: full.into(), short_name: short.into(), oid: oid.into() }
}

fn tags() -> Piece {
    Piece::TagBatch { tags: vec![entry("refs/tags/v1", "v1", "o")] }
}

#[test]
fn branch_to_check_out() {
    assert_eq!(default_branch(&plan(Some("trunk"), vec![chain("a")])), "trunk");
    assert_eq!(default_branch(&plan(None, vec![tags(), chain("a"), chain("b")])), "a");
    assert_eq!(default_branch(&plan(None, vec![tags()])), "main");
}

#[test]
fn finalize_makes_the_standard_layout() {
    let steps = finalize(&plan(Some("main"), vec![chain("main")]), false);
    let shown: Vec<String> = steps
        .iter()
        .map(|s| match s {
            Step::Git(args) => args.join(" "),
            Step::CheckOut { args, doing } => format!("{} # {}", args.join(" "), doing),
            Step::Verify => "verify".to_string(),
            Step::CleanUp => "clean up".to_string(),
        })
        .collect();
    assert_eq!(
        shown,
        vec![
            "config remote.origin.fetch +refs/heads/*:refs/remotes/origin/*",
            "config remote.origin.url u",
            "fetch --quiet --prune --prune-tags --force --tags origin",
            "checkout -B main refs/remotes/origin/main # checkout main",
            "config branch.main.remote origin",
            "config branch.main.merge refs/heads/main",
            "verify",
            "clean up",
        ]
    );
}

#[test]
fn keep_state_and_failure_atomicity() {
    let steps = finalize(&plan(Some("main"), vec![chain("main")]), true);
    assert!(!steps.iter().any(|s| matches!(s, Step::CleanUp)), "keep_state must keep the state");
    assert!(matches!(steps.last().unwrap(), Step::Verify));
}

fn remote() -> RemoteRefs {
    RemoteRefs {
        default_branch: None,
        branches: vec![entry("refs/heads/a", "a", "11"), entry("refs/heads/b", "b", "22")],
        tags: vec![entry("refs/tags/v1", "v1", "33")],
    }
}

#[test]
fn verify_accepts_what_the_remote_lists() {
    assert_eq!(
        refs_to_verify(&remote()),
        vec!["refs/remotes/origin/a", "refs/remotes/origin/b", "refs/tags/v1"]
    );
    let got = vec![Some("11\n".into()), Some("22".into()), Some(" 33\n".into())];
    verify(&remote(), &got).unwrap();
}

#[test]
fn verify_names_every_ref_that_differs() {
    let got = vec![Some("11\n".into()), None, Some("34\n".into())];
    assert_eq!(
        verify(&remote(), &got).unwrap_err().render(),
        "verification failed, missing/mismatched refs: [\"refs/remotes/origin/b\", \"refs/tags/v1\"]"
    );
}

#[test]
fn verification_walks_all_objects() {
    assert_eq!(connectivity_args(), vec!["rev-list", "--objects", "--all", "--quiet"]);
}
