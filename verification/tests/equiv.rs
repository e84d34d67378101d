use rgc::equiv::{
    assert_same_objects, assert_same_refs, list_objects_args, list_refs_args, snapshot,
};

const REFS: &str = "refs/heads/main aa\nrefs/remotes/origin/HEAD aa\nrefs/remotes/origin/dev bb\nrefs/remotes/origin/main aa\nrefs/tags/v1 cc\n";
const OBJECTS: &str = "aa\nbb\ncc\ndd path/with space\nee f0.txt\n";

#[test]
fn snapshots_of_two_clones_are_equivalent() {
    // the same repository, listed in another order
    let refs: Vec<&str> = REFS.lines().rev().collect();
    let objects: Vec<&str> = OBJECTS.lines().rev().collect();
    let sa = snapshot(REFS, OBJECTS);
    let sb = snapshot(&refs.join("\n"), &objects.join("\n"));
    assert_same_refs(&sa, &sb).unwrap();
    assert_same_objects(&sa, &sb).unwrap();
}

#[test]
fn missing_tag_breaks_ref_equivalence() {
    let sa = snapshot(REFS, OBJECTS);
    let sb = snapshot(&REFS.replace("refs/tags/v1 cc\n", ""), OBJECTS);
    assert!(assert_same_refs(&sa, &sb).is_err());
    assert_eq!(
        assert_same_refs(&sa, &sb).unwrap_err().render(),
        "refs differ:\nonly A: {\"refs/remotes/origin/dev\": \"bb\", \"refs/remotes/origin/main\": \"aa\", \"refs/tags/v1\": \"cc\"}\nonly B: {\"refs/remotes/origin/dev\": \"bb\", \"refs/remotes/origin/main\": \"aa\"}"
    );
}

#[test]
fn extra_commit_breaks_object_equivalence() {
    let sa = snapshot(REFS, OBJECTS);
    // one more local commit: a local branch and an object
    let sb = snapshot(
        &REFS.replace("refs/heads/main aa", "refs/heads/main ff"),
        &format!("{}ff\n", OBJECTS),
    );
    assert!(assert_same_refs(&sa, &sb).is_ok(), "local branches do not count");
    assert!(assert_same_objects(&sa, &sb).is_err(), "the objects of local branches do");
    assert_eq!(
        assert_same_objects(&sa, &sb).unwrap_err().render(),
        "objects differ (counts 5 vs 6)\nonly A: []\nonly B: [\"ff\"]"
    );
}

#[test]
fn origin_head_symref_is_excluded() {
    let sa = snapshot(REFS, OBJECTS);
    let sb = snapshot(&REFS.replace("refs/remotes/origin/HEAD aa\n", ""), OBJECTS);
    assert!(sa.object_of("refs/remotes/origin/HEAD").is_some());
    assert!(sb.object_of("refs/remotes/origin/HEAD").is_none());
    assert_same_refs(&sa, &sb).unwrap();
}

#[test]
fn a_moved_ref_is_a_difference() {
    let sa = snapshot(REFS, OBJECTS);
    let sb = snapshot(&REFS.replace("refs/tags/v1 cc", "refs/tags/v1 dd"), OBJECTS);
    assert!(assert_same_refs(&sa, &sb).is_err());
}

#[test]
fn the_first_ten_differences_are_shown_in_order() {
    let many: Vec<String> = (0..12).rev().map(|i| format!("{:02} x", i)).collect();
    let sa = snapshot("", &many.join("\n"));
    let sb = snapshot("", "05\nzz\n");
    let e = assert_same_objects(&sa, &sb).unwrap_err().render();
    assert_eq!(
        e,
        "objects differ (counts 12 vs 2)\nonly A: [\"00\", \"01\", \"02\", \"03\", \"04\", \"06\", \"07\", \"08\", \"09\", \"10\"]\nonly B: [\"zz\"]"
    );
}

#[test]
fn repeated_lines_count_once() {
    let s = snapshot("a 1\na 2\nno-space\n", "x\nx y\nx z\n");
    assert_eq!(s.object_of("a").as_deref(), Some("2"), "the later line counts");
    assert!(s.object_of("no-space").is_none());
    assert_eq!(s.object_count(), 1);
}

#[test]
fn names_are_ordered_by_their_bytes() {
    let s = snapshot("refs/tags/é 1\nrefs/tags/z 2\nrefs/tags/Z 3\nrefs/tags/zz 4\n", "");
    let none = snapshot("", "");
    assert_eq!(
        assert_same_refs(&s, &none).unwrap_err().render(),
        "refs differ:\nonly A: {\"refs/tags/Z\": \"3\", \"refs/tags/z\": \"2\", \"refs/tags/zz\": \"4\", \"refs/tags/é\": \"1\"}\nonly B: {}"
    );
}

#[test]
fn names_with_quotes_are_escaped() {
    let s = snapshot("refs/tags/a\"b 1\n", "");
    let e = assert_same_refs(&s, &snapshot("", "")).unwrap_err().render();
    assert_eq!(e, "refs differ:\nonly A: {\"refs/tags/a\\\"b\": \"1\"}\nonly B: {}");
}

#[test]
fn snapshot_commands() {
    assert_eq!(list_refs_args(), vec!["for-each-ref", "--format=%(refname) %(objectname)"]);
    assert_eq!(list_objects_args(), vec!["rev-list", "--objects", "--all"]);
}
