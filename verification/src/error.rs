//! Failures of discovery and of session setup.

use vstd::prelude::*;
use vstd::string::StringExecFns;

verus! {

/// Why a discovery call or a session request was turned down.
#[derive(Clone, Debug, PartialEq, Eq)]
pub enum ContainerError {
    /// No attempt is stored under the requested id.
    NotFound,
    /// The attempt exists but has no container reference yet.
    NotProvisioned,
    /// The container reference is empty once surrounding white space is removed.
    EmptyReference,
    /// The container reference looks like a path but has no final component.
    ResolutionFailed,
    /// The value holds a character outside `[A-Za-z0-9._-]`, or is empty.
    InvalidIdentifier(String),
    /// The listing command exited with a failure; holds what it wrote to standard error.
    CommandFailed(String),
}

/// The category a failure is reported under.
#[derive(Clone, Copy, Debug, PartialEq, Eq)]
pub enum ErrorKind {
    NotFound,
    NotProvisioned,
    ResolutionFailed,
    InvalidIdentifier,
    CommandFailed,
}

/// Mathematical value of a [`ContainerError`].
pub enum ErrorView {
    NotFound,
    NotProvisioned,
    EmptyReference,
    ResolutionFailed,
    InvalidIdentifier(Seq<char>),
    CommandFailed(Seq<char>),
}

impl View for ContainerError {
    type V = ErrorView;

    open spec fn view(&self) -> ErrorView {
        match self {
            ContainerError::NotFound => ErrorView::NotFound,
            ContainerError::NotProvisioned => ErrorView::NotProvisioned,
            ContainerError::EmptyReference => ErrorView::EmptyReference,
            ContainerError::ResolutionFailed => ErrorView::ResolutionFailed,
            ContainerError::InvalidIdentifier(value) => ErrorView::InvalidIdentifier(value@),
            ContainerError::CommandFailed(text) => ErrorView::CommandFailed(text@),
        }
    }
}

/// Mathematical value of a result that carries a text or a failure.
pub open spec fn text_result(r: Result<String, ContainerError>) -> Result<Seq<char>, ErrorView> {
    match r {
        Ok(text) => Ok(text@),
        Err(e) => Err(e@),
    }
}

pub open spec fn kind_of(e: ErrorView) -> ErrorKind {
    match e {
        ErrorView::NotFound => ErrorKind::NotFound,
        ErrorView::NotProvisioned => ErrorKind::NotProvisioned,
        ErrorView::EmptyReference => ErrorKind::NotProvisioned,
        ErrorView::ResolutionFailed => ErrorKind::ResolutionFailed,
        ErrorView::InvalidIdentifier(_) => ErrorKind::InvalidIdentifier,
        ErrorView::CommandFailed(_) => ErrorKind::CommandFailed,
    }
}

/// The human-readable text of a failure.
pub open spec fn message_of(e: ErrorView) -> Seq<char> {
    match e {
        ErrorView::NotFound => "Task attempt not found."@,
        ErrorView::NotProvisioned => "This attempt does not have a container reference yet."@,
        ErrorView::EmptyReference =>
            "Container reference is empty; run the attempt once to provision it."@,
        ErrorView::ResolutionFailed =>
            "Failed to derive compose project from container reference."@,
        ErrorView::InvalidIdentifier(value) => "Identifier '"@ + value
            + "' contains unsupported characters."@,
        ErrorView::CommandFailed(text) => "docker ps failed: "@ + text,
    }
}

impl ContainerError {
    pub fn kind(&self) -> (kind: ErrorKind)
        ensures
            kind == kind_of(self@),
    {
        match self {
            ContainerError::NotFound => ErrorKind::NotFound,
            ContainerError::NotProvisioned => ErrorKind::NotProvisioned,
            ContainerError::EmptyReference => ErrorKind::NotProvisioned,
            ContainerError::ResolutionFailed => ErrorKind::ResolutionFailed,
            ContainerError::InvalidIdentifier(_) => ErrorKind::InvalidIdentifier,
            ContainerError::CommandFailed(_) => ErrorKind::CommandFailed,
        }
    }

    pub fn message(&self) -> (text: String)
        ensures
            text@ == message_of(self@),
    {
        match self {
            ContainerError::NotFound => String::from_str("Task attempt not found."),
            ContainerError::NotProvisioned => String::from_str(
                "This attempt does not have a container reference yet.",
            ),
            ContainerError::EmptyReference => String::from_str(
                "Container reference is empty; run the attempt once to provision it.",
            ),
            ContainerError::ResolutionFailed => String::from_str(
                "Failed to derive compose project from container reference.",
            ),
            ContainerError::InvalidIdentifier(value) => {
                let mut text = String::from_str("Identifier '");
                text.append(value.as_str());
                text.append("' contains unsupported characters.");
                text
            },
            ContainerError::CommandFailed(stderr) => {
                let mut text = String::from_str("docker ps failed: ");
                text.append(stderr.as_str());
                text
            },
        }
    }
}

} // verus!
