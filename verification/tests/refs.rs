use rgc::errors::{Error, RgcError};
use rgc::gitio::GitOutput;
use rgc::refs::{ls_remote, ls_remote_args, parse_ls_remote};

const SAMPLE: &str = "ref: refs/heads/main\tHEAD\nabc111\tHEAD\nabc111\trefs/heads/main\ndef222\trefs/heads/dev\n789aaa\trefs/tags/v1\nbbb222\trefs/tags/v1^{}\nccc333\trefs/pull/1/head\n";

#[test]
fn parse_ls_remote_basic() {
    let r = parse_ls_remote(SAMPLE);
    assert_eq!(r.default_branch.as_deref(), Some("main"));
    assert_eq!(r.branches.len(), 2);
    assert_eq!(r.branches[1].short_name, "dev");
    assert_eq!(r.tags.len(), 1);
    assert_eq!(r.tags[0].oid, "789aaa");
}

#[test]
fn second_symref_does_not_override_head() {
    let out = "ref: refs/heads/main\tHEAD\n7b8e\tHEAD\nref: refs/heads/b2\trefs/heads/alias\n7b8e\trefs/heads/alias\n7b8e\trefs/heads/main\n";
    let r = parse_ls_remote(out);
    assert_eq!(r.default_branch.as_deref(), Some("main"), "the symref of HEAD must win");
    assert_eq!(r.branches.len(), 2);
}

#[test]
fn head_symref_to_non_branch_leaves_default_none() {
    let out = "ref: refs/tags/v1\tHEAD\nabc\tHEAD\nabc\trefs/heads/main\n";
    let r = parse_ls_remote(out);
    assert_eq!(r.default_branch, None);
    assert_eq!(r.branches.len(), 1);
}

#[test]
fn repeated_prefix_names_kept_literal() {
    let out = "abc\trefs/heads/refs/heads/x\ndef\trefs/tags/refs/tags/y\n";
    let r = parse_ls_remote(out);
    assert_eq!(r.branches[0].short_name, "refs/heads/x");
    assert_eq!(r.tags[0].short_name, "refs/tags/y");
}

#[test]
fn branch_names_with_spaces_parse() {
    let out = "abc\trefs/heads/feature with space\n";
    let r = parse_ls_remote(out);
    assert_eq!(r.branches[0].short_name, "feature with space");
}

#[test]
fn crlf_output_parses() {
    let out = "ref: refs/heads/main\tHEAD\r\nabc111\trefs/heads/main\r\n";
    let r = parse_ls_remote(out);
    assert_eq!(r.default_branch.as_deref(), Some("main"));
    assert_eq!(r.branches.len(), 1);
    assert_eq!(r.branches[0].oid, "abc111");
}

#[test]
fn ls_remote_reads_fixture() {
    let listing = "ref: refs/heads/main\tHEAD\n1111\tHEAD\n2222\trefs/heads/dev\n1111\trefs/heads/main\n3333\trefs/tags/v1\n";
    let r = ls_remote(Ok(GitOutput { stdout: listing.into(), stderr: String::new() })).unwrap();
    assert_eq!(r.default_branch.as_deref(), Some("main"));
    assert_eq!(r.branches.len(), 2);
    assert_eq!(r.tags.len(), 1);
}

#[test]
fn failed_listing_fails_as_it_did() {
    let e: Error = RgcError::Network("down".into()).into();
    assert_eq!(ls_remote(Err(e)).unwrap_err().render(), "[Network] down");
}

#[test]
fn empty_listing_has_nothing() {
    let r = parse_ls_remote("");
    assert_eq!(r.default_branch, None);
    assert!(r.branches.is_empty() && r.tags.is_empty());
}

#[test]
fn listing_command() {
    assert_eq!(ls_remote_args("u"), vec!["ls-remote", "--symref", "u"]);
}
