//! What a networking worker is asked and what it answers: commands and
//! tasks, their results, and the rules by which a request is answered.

use vstd::prelude::*;

verus! {

/// A command to the worker.
pub enum NetworkingCommand {
    Terminate,
}

/// The answer to a command.
pub enum NetworkingCommandResult {
    TerminateOk,
    TerminateError(TerminateCommandError),
}

/// Why the worker could not terminate.
pub enum TerminateCommandError {
    UnexpectedError(String),
}

/// A task for the worker.
pub enum NetworkingTask {
    ConnectToServer(ConnectToServerTask),
}

/// What a task is to be done with.
pub enum NetworkingTaskParameters {
    ConnectToServer(ConnectToServerTaskParameters),
}

/// The server to connect to.
pub struct ConnectToServerTaskParameters {
    pub server_address: String,
    pub server_port: u16,
}

/// The answer to a task.
pub enum NetworkingTaskResult {
    ConnectToServerOk(ConnectToServerTaskResult),
    ConnectToServerError(ConnectToServerTaskError),
}

/// Why the connection failed.
pub enum ConnectToServerTaskError {
    UnexpectedError(String),
}

/// A connection that was made.
pub struct ConnectToServerTaskResult;

/// The task of connecting to a server.
pub struct ConnectToServerTask {
    pub parameters: ConnectToServerTaskParameters,
}

/// What the worker is sent.
pub enum NetworkingThreadRequest {
    Command(NetworkingCommand),
    Task(NetworkingTask),
}

/// What the worker sends back.
pub enum NetworkingThreadResult {
    Command(NetworkingCommandResult),
    Task(NetworkingTaskResult),
}

/// What the worker does next with a request.
pub enum NetworkingThreadStep {
    /// Send the result back and stop.
    AnswerAndStop(NetworkingThreadResult),
    /// Try to connect, then send back how it went.
    Connect(ConnectToServerTask),
}

/// The request of a task, as it is sent to the worker.
pub fn task_request(task: NetworkingTask) -> (request: NetworkingThreadRequest)
    ensures
        request == NetworkingThreadRequest::Task(task),
{
    NetworkingThreadRequest::Task(task)
}

/// The request of a command, as it is sent to the worker.
pub fn command_request(command: NetworkingCommand) -> (request: NetworkingThreadRequest)
    ensures
        request == NetworkingThreadRequest::Command(command),
{
    NetworkingThreadRequest::Command(command)
}

/// What the worker does with a request: a command to terminate is
/// answered at once, and ends the worker; a task is carried out.
pub fn next_step(request: NetworkingThreadRequest) -> (step: NetworkingThreadStep)
    ensures
        request matches NetworkingThreadRequest::Command(NetworkingCommand::Terminate) ==> step
            == NetworkingThreadStep::AnswerAndStop(
            NetworkingThreadResult::Command(NetworkingCommandResult::TerminateOk),
        ),
        request matches NetworkingThreadRequest::Task(NetworkingTask::ConnectToServer(task))
            ==> step == NetworkingThreadStep::Connect(task),
{
    match request {
        NetworkingThreadRequest::Command(command) => match command {
            NetworkingCommand::Terminate => NetworkingThreadStep::AnswerAndStop(
                NetworkingThreadResult::Command(NetworkingCommandResult::TerminateOk),
            ),
        },
        NetworkingThreadRequest::Task(task) => match task {
            NetworkingTask::ConnectToServer(task) => NetworkingThreadStep::Connect(task),
        },
    }
}

/// The result that the worker sends back once an attempt to connect has
/// ended.
pub fn connection_result(
    outcome: Result<ConnectToServerTaskResult, ConnectToServerTaskError>,
) -> (result: NetworkingThreadResult)
    ensures
        outcome matches Ok(made) ==> result == NetworkingThreadResult::Task(
            NetworkingTaskResult::ConnectToServerOk(made),
        ),
        outcome matches Err(error) ==> result == NetworkingThreadResult::Task(
            NetworkingTaskResult::ConnectToServerError(error),
        ),
{
    match outcome {
        Ok(made) => NetworkingThreadResult::Task(NetworkingTaskResult::ConnectToServerOk(made)),
        Err(error) => NetworkingThreadResult::Task(
            NetworkingTaskResult::ConnectToServerError(error),
        ),
    }
}

} // verus!
