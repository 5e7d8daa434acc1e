//! An example of a kind of task: three operations, none of which is
//! implemented yet, so that each fails with an error of its own.

use vstd::prelude::*;
use crate::task::Task;

verus! {

/// Why an example task failed.
#[derive(Clone, Copy, Debug, PartialEq, Eq, Structural)]
pub enum MyExampleTaskError {
    OperationANotImplemented,
    OperationBNotImplemented,
    OperationCNotImplemented,
}

/// The operations that an example task can ask for.
#[derive(Clone, Copy, Debug, PartialEq, Eq, Structural)]
pub enum MyExampleTask {
    DoOperationA,
    DoOperationB,
    DoOperationC,
}

impl MyExampleTaskError {
    /// The sentence that tells the error.
    pub fn message(&self) -> (text: &'static str)
        ensures
            *self == MyExampleTaskError::OperationANotImplemented ==> text@
                == "Operation A not implemented."@,
            *self == MyExampleTaskError::OperationBNotImplemented ==> text@
                == "Operation B not implemented."@,
            *self == MyExampleTaskError::OperationCNotImplemented ==> text@
                == "Operation C not implemented."@,
    {
        match self {
            MyExampleTaskError::OperationANotImplemented => "Operation A not implemented.",
            MyExampleTaskError::OperationBNotImplemented => "Operation B not implemented.",
            MyExampleTaskError::OperationCNotImplemented => "Operation C not implemented.",
        }
    }
}

impl MyExampleTask {
    /// The error that the operation fails with.
    pub open spec fn failure(&self) -> MyExampleTaskError {
        match self {
            MyExampleTask::DoOperationA => MyExampleTaskError::OperationANotImplemented,
            MyExampleTask::DoOperationB => MyExampleTaskError::OperationBNotImplemented,
            MyExampleTask::DoOperationC => MyExampleTaskError::OperationCNotImplemented,
        }
    }
}

impl Task for MyExampleTask {
    type SuccessType = ();

    type FailureType = MyExampleTaskError;

    /// Fails with the error that belongs to the operation.
    fn execute(&self) -> (r: Result<(), MyExampleTaskError>)
        ensures
            r == Err::<(), MyExampleTaskError>(self.failure()),
    {
        match self {
            MyExampleTask::DoOperationA => Err(MyExampleTaskError::OperationANotImplemented),
            MyExampleTask::DoOperationB => Err(MyExampleTaskError::OperationBNotImplemented),
            MyExampleTask::DoOperationC => Err(MyExampleTaskError::OperationCNotImplemented),
        }
    }
}

} // verus!
