use rgc::planner::{
    adapted_step, build_plan, halve_step, plan_path, Piece, Plan, PlannerConfig, INITIAL_STEP,
    MAX_STEP, MIN_STEP,
};
use rgc::refs::{RefEntry, RemoteRefs};
use rgc::state::ChainState;

fn entry(full: &str, short: &str, oid: &str) -> RefEntry {
    RefEntry { full_name: full.into(), short_name: short.into(), oid: oid.into() }
}

fn chain(name: &str) -> Piece {
    Piece::Chain { full_ref: format!("refs/heads/{}", name), short_name: name.into() }
}

#[test]
fn it_builds() {
    assert!(true);
}

#[test]
fn build_plan_orders_default_first() {
    let refs = RemoteRefs {
        default_branch: Some("main".into()),
        branches: vec![
            entry("refs/heads/zlib", "zlib", "a"),
            entry("refs/heads/main", "main", "b"),
        ],
        tags: vec![entry("refs/tags/v1", "v1", "c")],
    };
    let plan = build_plan("https://x/y.git", &refs, &PlannerConfig::default()).unwrap();
    assert!(matches!(&plan.pieces[0], Piece::Chain { short_name, .. } if short_name == "main"));
    assert!(matches!(plan.pieces.last().unwrap(), Piece::TagBatch { .. }));
    assert_eq!(plan.initial_step, INITIAL_STEP);
}

#[test]
fn build_plan_batches_tags() {
    let tags: Vec<RefEntry> = (0..5)
        .map(|i| entry(&format!("refs/tags/t{}", i), &format!("t{}", i), "o"))
        .collect();
    let refs = RemoteRefs { default_branch: None, branches: vec![], tags };
    let plan = build_plan("u", &refs, &PlannerConfig { tags_per_batch: 2, ..Default::default() }).unwrap();
    assert_eq!(plan.pieces.len(), 3);
    assert_eq!(plan.pieces[0].piece_dir_name(), "tags_t0");
    assert_eq!(plan.fingerprint(), "9975f445b711d4a5");
}

#[test]
fn halve_step_floors_at_min() {
    assert_eq!(halve_step(1000), 500);
    assert_eq!(halve_step(100), 100);
}

#[test]
fn empty_remote_is_an_error() {
    let refs = RemoteRefs { default_branch: None, branches: vec![], tags: vec![] };
    assert!(build_plan("u", &refs, &PlannerConfig::default()).is_err());
    assert_eq!(
        build_plan("u", &refs, &PlannerConfig::default()).unwrap_err().render(),
        "remote has no branches or tags — nothing to clone"
    );
}

#[test]
fn retry_loop_halves_step_then_adapts() {
    let mut c = ChainState { depth_done: 0, step: 10_000, no_shallow: false };
    c.step = halve_step(c.step);
    assert_eq!(c.step, 5_000);
    c.step = halve_step(c.step);
    assert_eq!(c.step, 2_500);
    // 1000 bytes and 10 commits in a second are 6000 commits in 600 seconds
    c.step = adapted_step(1000, 10, Some(6_000));
    assert_eq!(c.step, 6_000);
    assert_eq!(halve_step(MIN_STEP), MIN_STEP);
}

#[test]
fn adapted_step_stays_in_bounds() {
    assert_eq!(adapted_step(0, 10, Some(6000)), INITIAL_STEP);
    assert_eq!(adapted_step(10, 0, Some(6000)), INITIAL_STEP);
    assert_eq!(adapted_step(10, 10, None), INITIAL_STEP);
    assert_eq!(adapted_step(10, 10, Some(1)), MIN_STEP);
    assert_eq!(adapted_step(10, 10, Some(u32::MAX)), MAX_STEP);
    assert_eq!(MAX_STEP, 5_000_000);
}

#[test]
fn ids_and_directories() {
    let c = chain("feature/x");
    assert_eq!(c.id(), "chain:refs/heads/feature/x");
    assert_eq!(c.piece_dir_name(), "chain_refs_heads_feature_x");
    let t = Piece::TagBatch { tags: vec![entry("refs/tags/v1", "v1", "o"), entry("refs/tags/v2", "v2", "p")] };
    assert_eq!(t.id(), "tags:v1");
    assert_eq!(t.clone().piece_dir_name(), "tags_v1");
}

#[test]
fn each_piece_has_a_directory_of_its_own() {
    assert_eq!(chain("a/b").piece_dir_name(), "chain_refs_heads_a_b");
    assert_eq!(chain("a_b").piece_dir_name(), "chain_refs_heads_a%5Fb");
    assert_eq!(chain("a%5Fb").piece_dir_name(), "chain_refs_heads_a%255Fb");
    let tags = |name: &str| Piece::TagBatch { tags: vec![entry("x", name, "o")] };
    assert_eq!(tags("a/b").piece_dir_name(), "tags_a_b");
    assert_eq!(tags("a_b").piece_dir_name(), "tags_a%5Fb");
    assert_eq!(tags("a:b").piece_dir_name(), "tags_a%3Ab");
    let names = ["a", "_", "/", "%", ":", "%5F", "_/", "/_", "//", "%2F", "a/b", "a_b", "a:b", "5F"];
    for (i, x) in names.iter().enumerate() {
        for y in &names[i + 1..] {
            assert_ne!(chain(x).piece_dir_name(), chain(y).piece_dir_name(), "{} {}", x, y);
            assert_ne!(tags(x).piece_dir_name(), tags(y).piece_dir_name(), "{} {}", x, y);
        }
        assert_ne!(chain(x).piece_dir_name(), tags(x).piece_dir_name());
        assert!(!chain(x).piece_dir_name().contains(|c| c == '/' || c == ':'));
    }
}

#[test]
fn fingerprint_is_fnv1a_of_url_and_ids() {
    let plan = Plan {
        url: "https://x/y.git".into(),
        default_branch: Some("main".into()),
        initial_step: 7,
        pieces: vec![chain("main")],
    };
    assert_eq!(plan.fingerprint(), "f6812e50b7ee7587");
    assert_eq!(plan.clone().fingerprint(), plan.fingerprint());
}

#[test]
fn fingerprint_tells_order_and_url() {
    let a = Plan { url: "u".into(), default_branch: None, initial_step: 1, pieces: vec![chain("a"), chain("b")] };
    let b = Plan { url: "u".into(), default_branch: None, initial_step: 1, pieces: vec![chain("b"), chain("a")] };
    let c = Plan { url: "v".into(), default_branch: None, initial_step: 1, pieces: vec![chain("a"), chain("b")] };
    assert_ne!(a.fingerprint(), b.fingerprint());
    assert_ne!(a.fingerprint(), c.fingerprint());
}

#[test]
fn other_branches_keep_their_order() {
    let refs = RemoteRefs {
        default_branch: Some("m".into()),
        branches: vec![
            entry("refs/heads/z", "z", "1"),
            entry("refs/heads/a", "a", "2"),
            entry("refs/heads/m", "m", "3"),
            entry("refs/heads/b", "b", "4"),
        ],
        tags: vec![],
    };
    let plan = build_plan("u", &refs, &PlannerConfig::default()).unwrap();
    let ids: Vec<String> = plan.pieces.iter().map(|p| p.id()).collect();
    assert_eq!(
        ids,
        vec!["chain:refs/heads/m", "chain:refs/heads/z", "chain:refs/heads/a", "chain:refs/heads/b"]
    );
}

#[test]
fn full_batches_have_thirty_two_tags() {
    let tags: Vec<RefEntry> = (0..70)
        .map(|i| entry(&format!("refs/tags/t{}", i), &format!("t{}", i), "o"))
        .collect();
    let refs = RemoteRefs { default_branch: None, branches: vec![], tags };
    let plan = build_plan("u", &refs, &PlannerConfig::default()).unwrap();
    let sizes: Vec<usize> = plan
        .pieces
        .iter()
        .map(|p| match p {
            Piece::TagBatch { tags } => tags.len(),
            Piece::Chain { .. } => 0,
        })
        .collect();
    assert_eq!(sizes, vec![32, 32, 6]);
}

#[test]
fn an_empty_batch_is_no_valid_plan() {
    let mut plan = Plan { url: "u".into(), default_branch: None, initial_step: 1, pieces: vec![chain("a")] };
    assert!(plan.is_valid());
    plan.pieces.push(Piece::TagBatch { tags: vec![] });
    assert!(!plan.is_valid());
}

#[test]
fn plan_is_kept_below_the_directory() {
    assert_eq!(plan_path("/tmp/r"), "/tmp/r/.rgc/plan.json");
    assert_eq!(plan_path("/tmp/r/"), "/tmp/r/.rgc/plan.json");
}
