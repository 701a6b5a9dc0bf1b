//! What running a command answered, and how its failure is told.
use vstd::prelude::*;

use crate::text::{self, cat3, cat4, fail, Error, Text};

verus! {

/// The answer to running a command for what it prints.
#[derive(Debug, Clone)]
pub enum CommandRead {
    NotExecuted { cause: String },
    Exited { status: String, stderr: String },
    NotText { cause: String },
    Printed { stdout: String },
}

pub enum CommandView {
    NotExecuted { cause: Text },
    Exited { status: Text, stderr: Text },
    NotText { cause: Text },
    Printed { stdout: Text },
}

impl DeepView for CommandRead {
    type V = CommandView;

    open spec fn deep_view(&self) -> CommandView {
        match self {
            CommandRead::NotExecuted { cause } => CommandView::NotExecuted { cause: cause@ },
            CommandRead::Exited { status, stderr } => CommandView::Exited {
                status: status@,
                stderr: stderr@,
            },
            CommandRead::NotText { cause } => CommandView::NotText { cause: cause@ },
            CommandRead::Printed { stdout } => CommandView::Printed { stdout: stdout@ },
        }
    }
}

/// How a command that failed is told.
pub open spec fn exit_message(label: Text, status: Text, stderr: Text) -> Text {
    label + " failed with status "@ + status + "\n"@ + stderr
}

pub fn exit_error(label: &str, status: &str, stderr: &str) -> (r: String)
    ensures
        r@ == exit_message(label@, status@, stderr@),
{
    let mut r = cat4(label, " failed with status ", status, "\n");
    r.append(stderr);
    r
}

/// What a command printed, or how its failure is told.
pub open spec fn printed(label: Text, read: CommandView) -> Result<Text, Text> {
    match read {
        CommandView::NotExecuted { cause } => Err("failed to execute "@ + label + ": "@ + cause),
        CommandView::Exited { status, stderr } => Err(exit_message(label, status, stderr)),
        CommandView::NotText { cause } => Err(
            label + " output was not valid UTF-8: "@ + cause,
        ),
        CommandView::Printed { stdout } => Ok(stdout),
    }
}

pub fn output_of(label: &str, read: &CommandRead) -> (r: Result<String, Error>)
    ensures
        text::outcome(r) == printed(label@, read.deep_view()),
{
    match read {
        CommandRead::NotExecuted { cause } => Err(
            fail(cat4("failed to execute ", label, ": ", cause.as_str())),
        ),
        CommandRead::Exited { status, stderr } => Err(
            fail(exit_error(label, status.as_str(), stderr.as_str())),
        ),
        CommandRead::NotText { cause } => Err(
            fail(cat3(label, " output was not valid UTF-8: ", cause.as_str())),
        ),
        CommandRead::Printed { stdout } => Ok(stdout.clone()),
    }
}

/// Whether a command succeeded, or why it could not be run.
pub open spec fn succeeded(label: Text, read: CommandView) -> Result<bool, Text> {
    match read {
        CommandView::NotExecuted { cause } => Err("failed to execute "@ + label + ": "@ + cause),
        CommandView::Exited { .. } => Ok(false),
        _ => Ok(true),
    }
}

pub(crate) fn success_of(label: &str, read: &CommandRead) -> (r: Result<bool, Error>)
    ensures
        text::outcome(r) == succeeded(label@, read.deep_view()),
{
    match read {
        CommandRead::NotExecuted { cause } => Err(
            fail(cat4("failed to execute ", label, ": ", cause.as_str())),
        ),
        CommandRead::Exited { .. } => Ok(false),
        _ => Ok(true),
    }
}

/// An error within a larger undertaking.
pub open spec fn within<T>(context: Text, r: Result<T, Text>) -> Result<T, Text> {
    match r {
        Ok(value) => Ok(value),
        Err(problem) => Err(context + ": "@ + problem),
    }
}

pub(crate) fn in_context<T: DeepView>(context: &str, r: Result<T, Error>) -> (s: Result<T, Error>)
    ensures
        text::outcome(s) == within(context@, text::outcome(r)),
{
    match r {
        Ok(value) => Ok(value),
        Err(error) => Err(fail(cat3(context, ": ", error.message.as_str()))),
    }
}

} // verus!
