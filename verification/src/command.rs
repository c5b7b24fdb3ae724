//! The command lines that are handed to the container runtime.
//!
//! Every token that comes from outside is validated before it becomes part
//! of an argument list; a token that fails validation yields no command line.

use crate::error::{ContainerError, ErrorView};
use crate::identifier::{sanitize_identifier, sanitized};
use crate::text::texts;
use vstd::prelude::*;
use vstd::string::StringExecFns;

verus! {

/// A program and the arguments it is started with.
#[derive(Clone, Debug, PartialEq, Eq)]
pub struct Invocation {
    pub program: String,
    pub arguments: Vec<String>,
}

/// Mathematical value of an [`Invocation`].
pub struct InvocationView {
    pub program: Seq<char>,
    pub arguments: Seq<Seq<char>>,
}

impl View for Invocation {
    type V = InvocationView;

    open spec fn view(&self) -> InvocationView {
        InvocationView { program: self.program@, arguments: texts(self.arguments@) }
    }
}

pub open spec fn invocation_result(r: Result<Invocation, ContainerError>) -> Result<
    InvocationView,
    ErrorView,
> {
    match r {
        Ok(invocation) => Ok(invocation@),
        Err(e) => Err(e@),
    }
}

/// Follows the log of a container: the last 400 lines, then what is written
/// from then on.
pub open spec fn log_command(container: Seq<char>) -> InvocationView {
    InvocationView {
        program: "docker"@,
        arguments: seq!["logs"@, "--follow"@, "--tail"@, "400"@, container],
    }
}

/// Runs an interactive shell inside a container, with its input kept open.
pub open spec fn shell_command(container: Seq<char>) -> InvocationView {
    InvocationView {
        program: "docker"@,
        arguments: seq!["exec"@, "-i"@, container, "sh"@, "-i"@],
    }
}

/// Lists the containers that carry the label of a deployment group, one JSON
/// object per line.
pub open spec fn listing_command(project: Seq<char>) -> InvocationView {
    InvocationView {
        program: "docker"@,
        arguments: seq![
            "ps"@,
            "--filter"@,
            "label=com.docker.compose.project="@ + project,
            "--format"@,
            "{{json .}}"@,
        ],
    }
}

/// The command for `token` if it is an identifier, the failure of its
/// validation if it is not.
pub open spec fn command_for(
    token: Seq<char>,
    command: spec_fn(Seq<char>) -> InvocationView,
) -> Result<InvocationView, ErrorView> {
    match sanitized(token) {
        Ok(name) => Ok(command(name)),
        Err(e) => Err(e),
    }
}

fn docker(arguments: Vec<String>) -> (invocation: Invocation)
    ensures
        invocation@ == (InvocationView { program: "docker"@, arguments: texts(arguments@) }),
{
    Invocation { program: String::from_str("docker"), arguments }
}

/// The command line of a log session for the container `container_name`.
pub fn log_invocation(container_name: &str) -> (r: Result<Invocation, ContainerError>)
    ensures
        invocation_result(r) == command_for(
            container_name@,
            |name: Seq<char>| log_command(name),
        ),
{
    match sanitize_identifier(container_name) {
        Ok(name) => {
            let mut arguments: Vec<String> = Vec::new();
            arguments.push(String::from_str("logs"));
            arguments.push(String::from_str("--follow"));
            arguments.push(String::from_str("--tail"));
            arguments.push(String::from_str("400"));
            arguments.push(name);
            assert(texts(arguments@) == log_command(container_name@).arguments);
            Ok(docker(arguments))
        },
        Err(e) => Err(e),
    }
}

/// The command line of a shell session for the container `container_name`.
pub fn shell_invocation(container_name: &str) -> (r: Result<Invocation, ContainerError>)
    ensures
        invocation_result(r) == command_for(
            container_name@,
            |name: Seq<char>| shell_command(name),
        ),
{
    match sanitize_identifier(container_name) {
        Ok(name) => {
            let mut arguments: Vec<String> = Vec::new();
            arguments.push(String::from_str("exec"));
            arguments.push(String::from_str("-i"));
            arguments.push(name);
            arguments.push(String::from_str("sh"));
            arguments.push(String::from_str("-i"));
            assert(texts(arguments@) == shell_command(container_name@).arguments);
            Ok(docker(arguments))
        },
        Err(e) => Err(e),
    }
}

/// The command line that lists the containers of the deployment group `project`.
pub fn listing_invocation(project: &str) -> (r: Result<Invocation, ContainerError>)
    ensures
        invocation_result(r) == command_for(project@, |name: Seq<char>| listing_command(name)),
{
    match sanitize_identifier(project) {
        Ok(name) => {
            let mut filter = String::from_str("label=com.docker.compose.project=");
            filter.append(name.as_str());
            let mut arguments: Vec<String> = Vec::new();
            arguments.push(String::from_str("ps"));
            arguments.push(String::from_str("--filter"));
            arguments.push(filter);
            arguments.push(String::from_str("--format"));
            arguments.push(String::from_str("{{json .}}"));
            assert(texts(arguments@) == listing_command(project@).arguments);
            Ok(docker(arguments))
        },
        Err(e) => Err(e),
    }
}

} // verus!
