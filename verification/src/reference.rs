//! From a container reference to the deployment group that the runtime knows.

use crate::error::{text_result, ContainerError, ErrorView};
use crate::identifier::{sanitize_identifier, sanitized};
use crate::text::{chars_of, text_of, trim_bounds, trimmed, CharClass};
use vstd::prelude::*;

verus! {

/// The query of a lookup by container reference.
#[derive(Clone, Debug, PartialEq, Eq)]
pub struct ContainerQuery {
    pub container_ref: String,
}

/// What the resolver reads of a stored attempt.
#[derive(Clone, Debug, PartialEq, Eq)]
pub struct AttemptRecord {
    /// The container reference, once the attempt has been provisioned.
    pub container_ref: Option<String>,
}

/// Whether `s` looks like a path: it holds `/` or `\`.
pub open spec fn has_separator(s: Seq<char>) -> bool {
    s.contains('/') || s.contains('\\')
}

/// `part` is a contiguous piece of `whole`.
pub open spec fn is_part_of(part: Seq<char>, whole: Seq<char>) -> bool {
    exists|i: int, j: int| 0 <= i <= j <= whole.len() && part == #[trigger] whole.subrange(i, j)
}

/// What a final path component of `path` can be: none, or a piece of `path`.
pub open spec fn may_be_component_of(component: Option<Seq<char>>, path: Seq<char>) -> bool {
    component matches Some(name) ==> is_part_of(name, path)
}

/// The group id for a reference that has been trimmed already, given the final
/// path component that was found in it.
pub open spec fn resolved_from(trimmed: Seq<char>, component: Option<Seq<char>>) -> Result<
    Seq<char>,
    ErrorView,
> {
    if trimmed.len() == 0 {
        Err(ErrorView::EmptyReference)
    } else if has_separator(trimmed) {
        match component {
            Some(name) => sanitized(name),
            None => Err(ErrorView::ResolutionFailed),
        }
    } else {
        sanitized(trimmed)
    }
}

/// `outcome` is a resolution of `reference`: the reference is trimmed of white
/// space; without a separator the outcome is fixed, with one it is fixed by
/// some final path component taken out of the trimmed reference.
pub open spec fn resolves(reference: Seq<char>, outcome: Result<Seq<char>, ErrorView>) -> bool {
    let t = trimmed(reference, CharClass::Whitespace);
    if t.len() > 0 && has_separator(t) {
        exists|component: Option<Seq<char>>| #[trigger]
            may_be_component_of(component, t) && outcome == resolved_from(t, component)
    } else {
        outcome == resolved_from(t, None)
    }
}

pub open spec fn optional_text(text: Option<&str>) -> Option<Seq<char>> {
    match text {
        Some(t) => Some(t@),
        None => None,
    }
}

/// Calls `std::path::Path::file_name` on `path` and converts what it returns
/// to text. The final component, where there is one, is a piece of the path;
/// which piece, and whether there is one, depends on the platform's path
/// syntax and is not stated.
#[verifier::external_body]
fn final_component(path: &str) -> (name: Option<String>)
    ensures
        name matches Some(n) ==> is_part_of(n@, path@),
{
    let name = std::path::Path::new(path).file_name()?;
    Some(name.to_str()?.to_owned())
}

fn contains_char(chars: &Vec<char>, c: char) -> (r: bool)
    ensures
        r == chars@.contains(c),
{
    let mut i: usize = 0;
    while i < chars.len()
        invariant
            i <= chars.len(),
            forall|k: int| 0 <= k < i ==> chars@[k] != c,
        decreases chars.len() - i,
    {
        if chars[i] == c {
            return true;
        }
        i += 1;
    }
    false
}

/// Resolves a trimmed reference, given the final path component found in it.
pub fn resolve_trimmed(trimmed: &str, component: Option<&str>) -> (r: Result<
    String,
    ContainerError,
>)
    ensures
        text_result(r) == resolved_from(trimmed@, optional_text(component)),
{
    if trimmed.is_empty() {
        return Err(ContainerError::EmptyReference);
    }
    let chars = chars_of(trimmed);
    if contains_char(&chars, '/') || contains_char(&chars, '\\') {
        match component {
            Some(name) => sanitize_identifier(name),
            None => Err(ContainerError::ResolutionFailed),
        }
    } else {
        sanitize_identifier(trimmed)
    }
}

/// Turns a container reference into its deployment group id.
///
/// The reference is trimmed of white space. An empty one fails with
/// `EmptyReference`. One that holds `/` or `\` is taken for a path: its final
/// component is the candidate, and `ResolutionFailed` is returned when it has
/// none. Any other reference is itself the candidate. The candidate is
/// returned if it is an identifier, and rejected with `InvalidIdentifier` if not.
pub fn resolve_compose_project(container_ref: &str) -> (r: Result<String, ContainerError>)
    ensures
        resolves(container_ref@, text_result(r)),
{
    let chars = chars_of(container_ref);
    let (from, to) = trim_bounds(&chars, 0, chars.len(), CharClass::Whitespace);
    assert(chars@.subrange(0, chars.len() as int) == chars@);
    let trimmed_ref = text_of(&chars, from, to);
    let trimmed_chars = chars_of(trimmed_ref.as_str());
    if from < to && (contains_char(&trimmed_chars, '/') || contains_char(&trimmed_chars, '\\')) {
        let name = final_component(trimmed_ref.as_str());
        let r = match &name {
            Some(n) => resolve_trimmed(trimmed_ref.as_str(), Some(n.as_str())),
            None => resolve_trimmed(trimmed_ref.as_str(), None),
        };
        proof {
            let component = match name {
                Some(n) => Some(n@),
                None => None,
            };
            assert(may_be_component_of(component, trimmed_ref@));
        }
        r
    } else {
        resolve_trimmed(trimmed_ref.as_str(), None)
    }
}

/// The deployment group of a stored attempt.
pub open spec fn attempt_resolves(
    attempt: Option<AttemptRecord>,
    outcome: Result<Seq<char>, ErrorView>,
) -> bool {
    match attempt {
        None => outcome == Err::<Seq<char>, ErrorView>(ErrorView::NotFound),
        Some(record) => match record.container_ref {
            None => outcome == Err::<Seq<char>, ErrorView>(ErrorView::NotProvisioned),
            Some(reference) => resolves(reference@, outcome),
        },
    }
}

/// Resolves the deployment group of the attempt that a lookup returned: fails
/// with `NotFound` when there is no attempt, with `NotProvisioned` when it has
/// no container reference, and otherwise resolves the reference.
pub fn resolve_attempt_project(attempt: Option<AttemptRecord>) -> (r: Result<
    String,
    ContainerError,
>)
    ensures
        attempt_resolves(attempt, text_result(r)),
{
    match attempt {
        None => Err(ContainerError::NotFound),
        Some(record) => match record.container_ref {
            None => Err(ContainerError::NotProvisioned),
            Some(reference) => resolve_compose_project(reference.as_str()),
        },
    }
}

} // verus!
