//! What a run of git hands back to the library. The caller starts git with
//! the arguments that the library gives and reports how the run ended.

use crate::text::opt_view;
use vstd::prelude::*;

verus! {

/// How a run of git ended, as the caller saw it.
#[derive(Debug)]
pub enum GitOutput {
    /// The program could not be started; the message says why.
    NotStarted { message: String },
    /// The program ran to its end.
    Exited { success: bool, stdout: String, stderr: String },
}

/// The message of a run that failed: why git could not be started, or what it
/// wrote to standard error before it exited with a failure.
pub open spec fn failure_of(outcome: GitOutput) -> Option<Seq<char>> {
    match outcome {
        GitOutput::NotStarted { message } => Some(message@),
        GitOutput::Exited { success, stdout, stderr } => if success {
            None
        } else {
            Some(stderr@)
        },
    }
}

/// What a successful run wrote to standard output.
pub open spec fn output_of(outcome: GitOutput) -> Option<Seq<char>> {
    match outcome {
        GitOutput::NotStarted { message } => None,
        GitOutput::Exited { success, stdout, stderr } => if success {
            Some(stdout@)
        } else {
            None
        },
    }
}

pub(crate) fn failure(outcome: &GitOutput) -> (r: Option<String>)
    ensures
        opt_view(r) == failure_of(*outcome),
{
    match outcome {
        GitOutput::NotStarted { message } => Some(message.clone()),
        GitOutput::Exited { success, stdout, stderr } => if *success {
            None
        } else {
            Some(stderr.clone())
        },
    }
}

} // verus!
