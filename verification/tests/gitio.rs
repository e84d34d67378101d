use rgc::errors::{kind_of, Error, FailureKind};
use rgc::gitio::{
    add_origin_args, borrow_refs_args, boundary_commits, chain_fetch_args, clone_shared_args,
    commit_count, count_commits_args, delete_ref_args, fetch_tags_args, fixed_vars, git_dir_args,
    git_result, init_args, is_ancestor_args, is_wedged, list_some_ref_args, main_has_refs,
    no_gc_args, origin_url_args, resolve_args, scrubbed_vars, set_origin_args, spawn_error,
    transport_args, transport_tags_args, wip_ref, GitOutput,
};
use rgc::refs::RefEntry;
use rgc::state::ChainState;

fn words(s: &str) -> Vec<String> {
    s.split(' ').map(|w| w.to_string()).collect()
}

fn output(stdout: &str) -> Result<GitOutput, Error> {
    Ok(GitOutput { stdout: stdout.into(), stderr: String::new() })
}

fn failed() -> Result<GitOutput, Error> {
    Err(Error::Other("no".into()))
}

#[test]
fn success_gives_both_outputs() {
    let o = git_result(&words("status"), true, b"out\n", b"warning\n").unwrap();
    assert_eq!(o.stdout, "out\n");
    assert_eq!(o.stderr, "warning\n");
}

#[test]
fn failure_is_classified_by_its_diagnostics() {
    let e = git_result(&words("fetch origin"), false, b"", b"fatal: RPC failed; HTTP 429 \n\n").unwrap_err();
    assert_eq!(kind_of(&e), FailureKind::RateLimited);
    assert_eq!(e.render(), "[RateLimited] git [\"fetch\", \"origin\"] failed: fatal: RPC failed; HTTP 429");
    let e = git_result(&words("x"), false, b"", b"").unwrap_err();
    assert_eq!(e.render(), "[Fatal] git [\"x\"] failed: ");
}

#[test]
fn ill_formed_output_is_replaced() {
    let o = git_result(&vec![], true, b"a\xffb", "é".as_bytes()).unwrap();
    assert_eq!(o.stdout, "a\u{fffd}b");
    assert_eq!(o.stderr, "é");
}

#[test]
fn a_command_that_does_not_start() {
    assert_eq!(
        spawn_error(&words("init a"), "not found").render(),
        "failed to spawn git [\"init\", \"a\"]: not found"
    );
}

#[test]
fn refs_of_the_main_repository() {
    assert!(!main_has_refs(&failed()));
    assert!(!main_has_refs(&output("")));
    assert!(!main_has_refs(&output(" \n")));
    assert!(main_has_refs(&output("aa commit\trefs/heads/main\n")));
}

#[test]
fn commit_counts() {
    assert_eq!(commit_count(&output("42\n")), 42);
    assert_eq!(commit_count(&output("+7")), 7);
    assert_eq!(commit_count(&output("")), 0);
    assert_eq!(commit_count(&output("+")), 0);
    assert_eq!(commit_count(&output("-1")), 0);
    assert_eq!(commit_count(&output("4x")), 0);
    assert_eq!(commit_count(&output("4294967295")), u32::MAX);
    assert_eq!(commit_count(&output("4294967296")), 0);
    assert_eq!(commit_count(&failed()), 0);
}

#[test]
fn the_environment_cannot_redirect_git() {
    let out = scrubbed_vars();
    for v in ["GIT_DIR", "GIT_WORK_TREE", "GIT_INDEX_FILE"] {
        assert!(out.contains(&v.to_string()), "{} must be taken out", v);
    }
    assert_eq!(
        fixed_vars(),
        vec![
            ("GIT_TERMINAL_PROMPT".to_string(), "0".to_string()),
            ("LC_ALL".to_string(), "C".to_string())
        ]
    );
}

#[test]
fn chain_steps_choose_depth_deepen_or_all() {
    let at = ChainState { depth_done: 30, step: 10, no_shallow: false };
    let spec = "+refs/heads/main:refs/heads/main";
    assert_eq!(
        chain_fetch_args("refs/heads/main", "main", &at, false, false).unwrap(),
        words(&format!("fetch --quiet --depth=40 origin {}", spec))
    );
    assert_eq!(
        chain_fetch_args("refs/heads/main", "main", &at, true, true).unwrap(),
        words(&format!("fetch --quiet --deepen=10 origin {}", spec))
    );
    assert!(chain_fetch_args("refs/heads/main", "main", &at, true, false).is_none());
    let full = ChainState { depth_done: 0, step: 10, no_shallow: true };
    assert_eq!(
        chain_fetch_args("refs/heads/main", "main", &full, true, true).unwrap(),
        words(&format!("fetch --quiet origin {}", spec))
    );
    let far = ChainState { depth_done: u32::MAX, step: u32::MAX, no_shallow: false };
    assert_eq!(
        chain_fetch_args("refs/heads/main", "main", &far, false, false).unwrap()[2],
        "--depth=8589934590"
    );
}

#[test]
fn transport_fails_from_shallow_piece() {
    let r = transport_args("/p", "refs/heads/main", "main", true, true);
    assert!(r.is_err(), "a shallow piece must never be moved silently");
    assert_eq!(
        r.unwrap_err().render(),
        "refusing to transport refs/heads/main from a shallow piece repository"
    );
}

#[test]
fn transport_of_a_complete_chain() {
    assert_eq!(
        transport_args("/p", "refs/heads/main", "main", true, false).unwrap(),
        words("fetch --quiet /p +refs/heads/main:refs/remotes/origin/main")
    );
    assert_eq!(
        transport_args("/p", "refs/heads/main", "main", false, false).unwrap(),
        words("fetch --quiet /p +refs/heads/main:refs/rgc/wip/main")
    );
    assert_eq!(wip_ref("main"), "refs/rgc/wip/main");
}

#[test]
fn tag_batch_transports() {
    let tags = vec![
        RefEntry { full_name: "refs/tags/v1".into(), short_name: "v1".into(), oid: "aa".into() },
        RefEntry { full_name: "refs/tags/v2".into(), short_name: "v2".into(), oid: "bb".into() },
    ];
    assert_eq!(
        fetch_tags_args(&tags),
        words("fetch --quiet --no-tags origin +aa:refs/tags/v1 +bb:refs/tags/v2")
    );
    assert_eq!(
        transport_tags_args("/p", &tags),
        words("fetch --quiet /p +refs/tags/v1:refs/tags/v1 +refs/tags/v2:refs/tags/v2")
    );
}

#[test]
fn a_rewritten_history_wedges_the_chain() {
    assert_eq!(boundary_commits("aa\nbb\n"), vec!["aa", "bb"]);
    assert!(!is_wedged(&vec![]));
    assert!(is_wedged(&vec![false, false]));
    assert!(!is_wedged(&vec![false, true]));
    assert_eq!(is_ancestor_args("aa", "main"), words("merge-base --is-ancestor aa refs/heads/main"));
}

#[test]
fn plain_commands() {
    assert_eq!(init_args("/r"), words("init --quiet /r"));
    assert_eq!(origin_url_args(), words("remote get-url origin"));
    assert_eq!(add_origin_args("u"), words("remote add origin u"));
    assert_eq!(set_origin_args("u"), words("remote set-url origin u"));
    assert_eq!(no_gc_args(), words("config gc.auto 0"));
    assert_eq!(git_dir_args(), words("rev-parse --git-dir"));
    assert_eq!(resolve_args("refs/tags/v1"), words("rev-parse --verify refs/tags/v1"));
    assert_eq!(delete_ref_args("refs/tags/v1"), words("update-ref -d refs/tags/v1"));
    assert_eq!(count_commits_args("main"), words("rev-list --count refs/heads/main"));
    assert_eq!(
        clone_shared_args("/m", "/p"),
        words("clone --shared --no-checkout --quiet /m /p")
    );
    assert_eq!(
        borrow_refs_args("/m"),
        words("fetch --quiet /m +refs/remotes/origin/*:refs/remotes/origin/* +refs/tags/*:refs/tags/*")
    );
    assert_eq!(
        list_some_ref_args(),
        words("for-each-ref --count=1 refs/remotes/origin refs/tags refs/heads")
    );
}
