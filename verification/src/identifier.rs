//! Validation of every token that reaches a command line or a label filter.

use crate::error::{text_result, ContainerError, ErrorView};
use crate::text::is_ascii_digit;
use vstd::prelude::*;

verus! {

pub open spec fn is_identifier_char(c: char) -> bool {
    ||| 'A' <= c && c <= 'Z'
    ||| 'a' <= c && c <= 'z'
    ||| is_ascii_digit(c)
    ||| c == '.'
    ||| c == '_'
    ||| c == '-'
}

/// A non-empty text of ASCII letters, digits, `.`, `_` and `-`.
pub open spec fn is_identifier(s: Seq<char>) -> bool {
    s.len() > 0 && forall|i: int| 0 <= i < s.len() ==> is_identifier_char(#[trigger] s[i])
}

/// The regular expression that identifiers are held against.
pub open spec fn identifier_pattern() -> Seq<char> {
    "^[A-Za-z0-9._-]+$"@
}

pub open spec fn sanitized(value: Seq<char>) -> Result<Seq<char>, ErrorView> {
    if is_identifier(value) {
        Ok(value)
    } else {
        Err(ErrorView::InvalidIdentifier(value))
    }
}

/// Compiles `pattern` with `regex::Regex::new` and asks `Regex::is_match` whether
/// `text` matches. The pattern is the identifier pattern: anchored at both ends
/// of the text, one or more characters of the class `[A-Za-z0-9._-]`; so a match
/// means that `text` is non-empty and holds characters of that class only.
#[verifier::external_body]
fn matches_pattern(pattern: &str, text: &str) -> (r: bool)
    requires
        pattern@ == identifier_pattern(),
    ensures
        r == is_identifier(text@),
{
    match regex::Regex::new(pattern) {
        Ok(re) => re.is_match(text),
        Err(_) => false,
    }
}

/// Returns `value` unchanged when it is an identifier, and fails with
/// `InvalidIdentifier` carrying `value` otherwise.
pub fn sanitize_identifier(value: &str) -> (r: Result<String, ContainerError>)
    ensures
        text_result(r) == sanitized(value@),
{
    if value.is_empty() || !matches_pattern("^[A-Za-z0-9._-]+$", value) {
        Err(ContainerError::InvalidIdentifier(value.to_owned()))
    } else {
        Ok(value.to_owned())
    }
}

/// A value with a character outside `[A-Za-z0-9._-]` is rejected with
/// `InvalidIdentifier`, and so is the empty value; every other value is
/// returned unchanged.
pub proof fn lemma_sanitized_accepts_identifiers_only(value: Seq<char>)
    ensures
        (exists|i: int| 0 <= i < value.len() && !is_identifier_char(value[i])) ==> sanitized(value)
            == Err::<Seq<char>, ErrorView>(ErrorView::InvalidIdentifier(value)),
        value.len() == 0 ==> sanitized(value) == Err::<Seq<char>, ErrorView>(
            ErrorView::InvalidIdentifier(value),
        ),
        value.len() > 0 && (forall|i: int| 0 <= i < value.len() ==> is_identifier_char(value[i]))
            ==> sanitized(value) == Ok::<Seq<char>, ErrorView>(value),
{
}

} // verus!
