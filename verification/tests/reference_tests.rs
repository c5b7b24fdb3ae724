use containers::error::ContainerError;
use containers::reference::{
    resolve_attempt_project, resolve_compose_project, resolve_trimmed, AttemptRecord,
    ContainerQuery,
};

#[test]
fn path_like_reference_resolves_to_final_segment() {
    assert_eq!(resolve_compose_project("a/b/proj-1"), Ok("proj-1".to_string()));
}

#[test]
fn empty_reference_is_not_provisioned() {
    assert_eq!(resolve_compose_project(""), Err(ContainerError::EmptyReference));
}

#[test]
fn whitespace_only_reference_is_not_provisioned() {
    assert_eq!(resolve_compose_project("   "), Err(ContainerError::EmptyReference));
    assert_eq!(resolve_compose_project(" \t\r\n"), Err(ContainerError::EmptyReference));
    assert_eq!(resolve_compose_project("\u{a0}\u{2003}"), Err(ContainerError::EmptyReference));
}

#[test]
fn bare_reference_is_returned_unchanged() {
    assert_eq!(resolve_compose_project("proj-1"), Ok("proj-1".to_string()));
}

#[test]
fn surrounding_whitespace_is_trimmed() {
    assert_eq!(resolve_compose_project("  proj-1\n"), Ok("proj-1".to_string()));
    assert_eq!(resolve_compose_project("\t/var/lib/proj_2/ "), Ok("proj_2".to_string()));
}

#[test]
fn inner_whitespace_is_rejected() {
    assert_eq!(
        resolve_compose_project("proj 1"),
        Err(ContainerError::InvalidIdentifier("proj 1".to_string()))
    );
}

#[test]
fn path_without_final_component_fails_resolution() {
    assert_eq!(resolve_compose_project("/"), Err(ContainerError::ResolutionFailed));
    assert_eq!(resolve_compose_project("a/b/.."), Err(ContainerError::ResolutionFailed));
}

#[test]
fn final_segment_is_validated() {
    assert_eq!(
        resolve_compose_project("a/b/pro j"),
        Err(ContainerError::InvalidIdentifier("pro j".to_string()))
    );
}

#[test]
fn trailing_separator_is_ignored() {
    assert_eq!(resolve_compose_project("/srv/work/proj.3/"), Ok("proj.3".to_string()));
}

#[test]
fn resolve_trimmed_follows_the_given_component() {
    assert_eq!(resolve_trimmed("", None), Err(ContainerError::EmptyReference));
    assert_eq!(resolve_trimmed("", Some("x")), Err(ContainerError::EmptyReference));
    assert_eq!(resolve_trimmed("a/b", Some("b")), Ok("b".to_string()));
    assert_eq!(resolve_trimmed("a\\b", Some("b")), Ok("b".to_string()));
    assert_eq!(resolve_trimmed("a/b", None), Err(ContainerError::ResolutionFailed));
    assert_eq!(
        resolve_trimmed("a/b", Some("b c")),
        Err(ContainerError::InvalidIdentifier("b c".to_string()))
    );
    assert_eq!(resolve_trimmed("ab", Some("zz")), Ok("ab".to_string()));
    assert_eq!(resolve_trimmed("ab", None), Ok("ab".to_string()));
    assert_eq!(
        resolve_trimmed("a b", None),
        Err(ContainerError::InvalidIdentifier("a b".to_string()))
    );
}

#[test]
fn missing_attempt_is_not_found() {
    assert_eq!(resolve_attempt_project(None), Err(ContainerError::NotFound));
}

#[test]
fn attempt_without_reference_is_not_provisioned() {
    let attempt = AttemptRecord { container_ref: None };
    assert_eq!(resolve_attempt_project(Some(attempt)), Err(ContainerError::NotProvisioned));
}

#[test]
fn attempt_with_reference_is_resolved() {
    let attempt = AttemptRecord { container_ref: Some("/tmp/worktrees/vk-12ab".to_string()) };
    assert_eq!(resolve_attempt_project(Some(attempt)), Ok("vk-12ab".to_string()));
    let blank = AttemptRecord { container_ref: Some(" ".to_string()) };
    assert_eq!(resolve_attempt_project(Some(blank)), Err(ContainerError::EmptyReference));
}

#[test]
fn query_holds_the_reference() {
    let query = ContainerQuery { container_ref: "a/b".to_string() };
    assert_eq!(query.clone(), query);
    assert_eq!(query.container_ref, "a/b");
}
