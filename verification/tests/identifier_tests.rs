use containers::error::{ContainerError, ErrorKind};
use containers::identifier::sanitize_identifier;

#[test]
fn accepts_letters_digits_dot_underscore_hyphen() {
    assert_eq!(sanitize_identifier("proj-1"), Ok("proj-1".to_string()));
    assert_eq!(sanitize_identifier("A.b_c-9"), Ok("A.b_c-9".to_string()));
    assert_eq!(sanitize_identifier("-"), Ok("-".to_string()));
    assert_eq!(sanitize_identifier("."), Ok(".".to_string()));
}

#[test]
fn rejects_empty_identifier() {
    assert_eq!(
        sanitize_identifier(""),
        Err(ContainerError::InvalidIdentifier(String::new()))
    );
}

#[test]
fn rejects_characters_outside_the_set() {
    for bad in ["a b", "a;b", "a/b", "$(id)", "a\n", "\na", "caf\u{e9}", "a|b", "a&b", "a'b"] {
        assert_eq!(
            sanitize_identifier(bad),
            Err(ContainerError::InvalidIdentifier(bad.to_string())),
            "{bad:?}"
        );
    }
}

#[test]
fn a_trailing_line_feed_is_not_overlooked() {
    assert!(sanitize_identifier("proj\n").is_err());
}

#[test]
fn every_ascii_character_is_judged_by_the_set() {
    for code in 0u8..128 {
        let c = code as char;
        let text = c.to_string();
        let allowed = c.is_ascii_alphanumeric() || c == '.' || c == '_' || c == '-';
        assert_eq!(sanitize_identifier(&text).is_ok(), allowed, "{c:?}");
    }
}

#[test]
fn invalid_identifier_message_quotes_the_value() {
    let err = sanitize_identifier("a b").unwrap_err();
    assert_eq!(err.kind(), ErrorKind::InvalidIdentifier);
    assert_eq!(
        err.message(),
        "Identifier 'a b' contains unsupported characters."
    );
}

#[test]
fn messages_of_the_other_failures() {
    assert_eq!(ContainerError::NotFound.message(), "Task attempt not found.");
    assert_eq!(
        ContainerError::NotProvisioned.message(),
        "This attempt does not have a container reference yet."
    );
    assert_eq!(
        ContainerError::EmptyReference.message(),
        "Container reference is empty; run the attempt once to provision it."
    );
    assert_eq!(
        ContainerError::ResolutionFailed.message(),
        "Failed to derive compose project from container reference."
    );
    assert_eq!(
        ContainerError::CommandFailed("boom".to_string()).message(),
        "docker ps failed: boom"
    );
}

#[test]
fn kinds_of_failures() {
    assert_eq!(ContainerError::NotFound.kind(), ErrorKind::NotFound);
    assert_eq!(ContainerError::NotProvisioned.kind(), ErrorKind::NotProvisioned);
    assert_eq!(ContainerError::EmptyReference.kind(), ErrorKind::NotProvisioned);
    assert_eq!(ContainerError::ResolutionFailed.kind(), ErrorKind::ResolutionFailed);
    assert_eq!(
        ContainerError::CommandFailed(String::new()).kind(),
        ErrorKind::CommandFailed
    );
}
