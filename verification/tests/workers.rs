use chunk_address::networking::{
    command_request, connection_result, next_step, task_request, ConnectToServerTask,
    ConnectToServerTaskError, ConnectToServerTaskParameters, ConnectToServerTaskResult,
    NetworkingCommand, NetworkingCommandResult, NetworkingTask, NetworkingTaskResult,
    NetworkingThreadRequest, NetworkingThreadResult, NetworkingThreadStep,
};
use chunk_address::thread_pool::{
    fibonacci, ThreadAllocationState, ThreadID, ThreadPool, ThreadPoolError, FIBONACCI_LAST,
    FIBONACCI_LENGTH, NUM_THREADS,
};
use chunk_address::worker::CommandRequest;
use chunk_address::workload::{heavy_computation, HEAVY_COMPUTATION_ROUNDS};

fn connect_task() -> ConnectToServerTask {
    ConnectToServerTask {
        parameters: ConnectToServerTaskParameters {
            server_address: "example.net".to_string(),
            server_port: 25565,
        },
    }
}

#[test]
fn heavy_computation_ends_at_zero() {
    assert_eq!(HEAVY_COMPUTATION_ROUNDS, 1000000);
    assert_eq!(heavy_computation(), Ok(0));
}

#[test]
fn fibonacci_values() {
    assert_eq!(fibonacci(0), 0);
    assert_eq!(fibonacci(1), 1);
    assert_eq!(fibonacci(2), 1);
    assert_eq!(fibonacci(10), 55);
    assert_eq!(fibonacci(FIBONACCI_LENGTH), 987);
    assert_eq!(fibonacci(FIBONACCI_LAST), 12200160415121876738);
}

#[test]
fn thread_id_keeps_its_number() {
    assert_eq!(ThreadID::new(7).get_id(), 7);
    assert_eq!(ThreadID::new(7), ThreadID::new(7));
    assert_ne!(ThreadID::new(7), ThreadID::new(8));
    assert_ne!(ThreadAllocationState::Free, ThreadAllocationState::Allocated);
    assert_eq!(CommandRequest::Terminate, CommandRequest::Terminate);
}

#[test]
fn pool_allocates_from_the_front() {
    let mut pool = ThreadPool::open();
    let mut expected = 0u32;
    while expected < NUM_THREADS {
        assert_eq!(pool.allocate_thread(), Ok(ThreadID::new(expected)));
        assert_eq!(pool.get_thread(&ThreadID::new(expected)), Ok(expected as usize));
        expected += 1;
    }
    assert_eq!(pool.allocate_thread(), Err(ThreadPoolError::NoFreeThread));
}

#[test]
fn pool_frees_allocated_threads_only() {
    let mut pool = ThreadPool::open();
    assert_eq!(
        pool.free_thread(ThreadID::new(0)),
        Err(ThreadPoolError::ThreadAlreadyFree)
    );
    assert_eq!(
        pool.free_thread(ThreadID::new(99)),
        Err(ThreadPoolError::ThreadNotFound)
    );
    assert_eq!(
        pool.get_thread(&ThreadID::new(0)),
        Err(ThreadPoolError::ThreadNotFound)
    );
    assert_eq!(pool.allocate_thread(), Ok(ThreadID::new(0)));
    assert_eq!(pool.allocate_thread(), Ok(ThreadID::new(1)));
    assert_eq!(pool.allocate_thread(), Ok(ThreadID::new(2)));
    assert_eq!(pool.free_thread(ThreadID::new(1)), Ok(()));
    assert_eq!(pool.get_thread(&ThreadID::new(0)), Ok(0));
    assert_eq!(pool.get_thread(&ThreadID::new(2)), Ok(1));
    assert_eq!(
        pool.get_thread(&ThreadID::new(1)),
        Err(ThreadPoolError::ThreadNotFound)
    );
    // a freed thread has left the books
    assert_eq!(
        pool.free_thread(ThreadID::new(1)),
        Err(ThreadPoolError::ThreadNotFound)
    );
    assert_eq!(pool.allocate_thread(), Ok(ThreadID::new(3)));
}

#[test]
fn pool_closes_only_with_nothing_allocated() {
    let pool = ThreadPool::open();
    assert_eq!(pool.close(), Ok(()));
    let mut pool = ThreadPool::open();
    assert_eq!(pool.allocate_thread(), Ok(ThreadID::new(0)));
    assert_eq!(pool.close(), Err(ThreadPoolError::ThreadsStillAllocated));
    let mut pool = ThreadPool::open();
    assert_eq!(pool.allocate_thread(), Ok(ThreadID::new(0)));
    assert_eq!(pool.free_thread(ThreadID::new(0)), Ok(()));
    assert_eq!(pool.close(), Ok(()));
}

#[test]
fn requests_wrap_what_is_asked() {
    assert!(matches!(
        command_request(NetworkingCommand::Terminate),
        NetworkingThreadRequest::Command(NetworkingCommand::Terminate)
    ));
    match task_request(NetworkingTask::ConnectToServer(connect_task())) {
        NetworkingThreadRequest::Task(NetworkingTask::ConnectToServer(task)) => {
            assert_eq!(task.parameters.server_address, "example.net");
            assert_eq!(task.parameters.server_port, 25565);
        }
        _ => panic!("a task request must hold the task"),
    }
}

#[test]
fn terminate_is_answered_and_stops_the_worker() {
    assert!(matches!(
        next_step(command_request(NetworkingCommand::Terminate)),
        NetworkingThreadStep::AnswerAndStop(NetworkingThreadResult::Command(
            NetworkingCommandResult::TerminateOk
        ))
    ));
}

#[test]
fn a_task_is_carried_out() {
    match next_step(task_request(NetworkingTask::ConnectToServer(connect_task()))) {
        NetworkingThreadStep::Connect(task) => {
            assert_eq!(task.parameters.server_address, "example.net");
            assert_eq!(task.parameters.server_port, 25565);
        }
        _ => panic!("a task must be carried out"),
    }
}

#[test]
fn outcome_of_connecting_is_sent_back() {
    assert!(matches!(
        connection_result(Ok(ConnectToServerTaskResult)),
        NetworkingThreadResult::Task(NetworkingTaskResult::ConnectToServerOk(
            ConnectToServerTaskResult
        ))
    ));
    match connection_result(Err(ConnectToServerTaskError::UnexpectedError(
        "refused".to_string(),
    ))) {
        NetworkingThreadResult::Task(NetworkingTaskResult::ConnectToServerError(
            ConnectToServerTaskError::UnexpectedError(text),
        )) => assert_eq!(text, "refused"),
        _ => panic!("a failure must be sent back as a failure"),
    }
}
