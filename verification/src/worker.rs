//! The shape of a worker thread's tasks and commands.

use vstd::prelude::*;

verus! {

/// What a task is made from.
pub trait TaskInput: Send {

}

/// What a task yields.
pub trait TaskOutput: Send {

}

/// A task that a worker thread carries out.
pub trait Task: Send {
    type Input: TaskInput;

    type Output: TaskOutput;

    /// The task for the given input.
    fn new(input: Self::Input) -> Self where Self: Sized;

    /// Carries the task out.
    fn execute(&mut self) -> Result<Self::Output, String>;
}

/// A command to a worker thread.
#[derive(Clone, Copy, Debug, PartialEq, Eq, Structural)]
pub enum CommandRequest {
    Terminate,
}

/// The answer to a command.
pub enum CommandResult {
    TerminateOk,
    TerminateError(String),
}

} // verus!
