use asset_pipeline::errors::PipelineError;
use asset_pipeline::repo::parse_github_repo;

#[test]
fn well_formed_spec_parses() {
    let (owner, name) = parse_github_repo("owner/repo").unwrap();
    assert_eq!(owner, "owner");
    assert_eq!(name, "repo");
}

#[test]
fn surrounding_whitespace_is_trimmed() {
    let (owner, name) = parse_github_repo("  owner/repo \n").unwrap();
    assert_eq!(owner, "owner");
    assert_eq!(name, "repo");
}

#[test]
fn empty_segments_are_dropped() {
    let (owner, name) = parse_github_repo("/owner//repo/").unwrap();
    assert_eq!(owner, "owner");
    assert_eq!(name, "repo");
}

#[test]
fn single_segment_is_rejected() {
    let e = parse_github_repo("onlyone").unwrap_err();
    assert!(matches!(e, PipelineError::InputValidation(_)));
    assert_eq!(e.message(), "repo must be in the format owner/repo");
}

#[test]
fn three_segments_are_rejected() {
    assert!(parse_github_repo("a/b/c").is_err());
}

#[test]
fn empty_spec_is_rejected() {
    assert!(parse_github_repo("").is_err());
    assert!(parse_github_repo("   ").is_err());
    assert!(parse_github_repo("///").is_err());
}
