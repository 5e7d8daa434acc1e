//! Tasks that succeed or fail, a queue that runs them and hands each
//! outcome to a callback, and a registry of the kinds of task in use.

use vstd::prelude::*;
use std::any::TypeId;

verus! {

/// A piece of work that ends in a success or in a failure.
pub trait Task: Send + Sync {
    /// What the task yields when it succeeds.
    type SuccessType;

    /// What the task yields when it fails.
    type FailureType;

    /// Does the work.
    fn execute(&self) -> (r: Result<Self::SuccessType, Self::FailureType>);
}

/// A task in the queue, with what is to be called on its outcome.
pub struct InternalTaskRepresentation<
    T: Task,
    S: FnOnce(T::SuccessType),
    F: FnOnce(T::FailureType),
> {
    pub task: T,
    pub success_callback: Option<S>,
    pub failure_callback: Option<F>,
}

impl<
    T: Task,
    S: FnOnce(T::SuccessType),
    F: FnOnce(T::FailureType),
> InternalTaskRepresentation<T, S, F> {
    /// Each callback that is there can be called on whatever the task
    /// yields.
    pub open spec fn callable(&self) -> bool {
        &&& self.success_callback matches Some(f) ==> forall|v: T::SuccessType|
            call_requires(f, (v,))
        &&& self.failure_callback matches Some(f) ==> forall|e: T::FailureType|
            call_requires(f, (e,))
    }

    /// The task has run with the given outcome, and the callback for that
    /// kind of outcome, where there is one, has run on what the task
    /// yielded.
    pub open spec fn handled(&self, outcome: Result<T::SuccessType, T::FailureType>) -> bool {
        &&& call_ensures(T::execute, (&self.task,), outcome)
        &&& outcome matches Ok(v) ==> (self.success_callback matches Some(f) ==> call_ensures(
            f,
            (v,),
            (),
        ))
        &&& outcome matches Err(e) ==> (self.failure_callback matches Some(f) ==> call_ensures(
            f,
            (e,),
            (),
        ))
    }

    /// The task has run, and the callback for its outcome, where there is
    /// one, has run on what the task yielded.
    pub open spec fn finished(&self) -> bool {
        exists|outcome: Result<T::SuccessType, T::FailureType>| self.handled(outcome)
    }
}

/// A queue of tasks of one kind, run in the order in which they came.
pub struct TaskManager<T: Task, S: FnOnce(T::SuccessType), F: FnOnce(T::FailureType)> {
    tasks: Vec<InternalTaskRepresentation<T, S, F>>,
}

impl<T: Task, S: FnOnce(T::SuccessType), F: FnOnce(T::FailureType)> View for TaskManager<T, S, F> {
    type V = Seq<InternalTaskRepresentation<T, S, F>>;

    /// The tasks that wait, the oldest first.
    closed spec fn view(&self) -> Seq<InternalTaskRepresentation<T, S, F>> {
        self.tasks@
    }
}

impl<T: Task, S: FnOnce(T::SuccessType), F: FnOnce(T::FailureType)> TaskManager<T, S, F> {
    /// Every callback in the queue can be called on whatever its task
    /// yields.
    pub open spec fn well_formed(&self) -> bool {
        forall|i: int| 0 <= i < self@.len() ==> (#[trigger] self@[i]).callable()
    }

    /// An empty queue.
    pub fn new() -> (manager: Self)
        ensures
            manager@.len() == 0,
            manager.well_formed(),
    {
        TaskManager { tasks: Vec::new() }
    }

    /// Puts a task at the end of the queue. A callback that is given must
    /// accept whatever the task may yield.
    pub fn add_task(&mut self, task: T, success_callback: Option<S>, failure_callback: Option<F>)
        requires
            old(self).well_formed(),
            (InternalTaskRepresentation { task, success_callback, failure_callback }).callable(),
        ensures
            final(self).well_formed(),
            final(self)@ == old(self)@.push(
                (InternalTaskRepresentation { task, success_callback, failure_callback }),
            ),
    {
        self.tasks.push(InternalTaskRepresentation { task, success_callback, failure_callback });
    }

    /// Runs every waiting task, the oldest first, calls the success
    /// callback on what a task yields when it succeeds and the failure
    /// callback on what it yields when it fails, and leaves the queue empty.
    pub fn execute_tasks(&mut self)
        requires
            old(self).well_formed(),
        ensures
            final(self).well_formed(),
            final(self)@.len() == 0,
            forall|i: int| 0 <= i < old(self)@.len() ==> (#[trigger] old(self)@[i]).finished(),
    {
        let ghost waiting = self.tasks@;
        let mut reversed: Vec<InternalTaskRepresentation<T, S, F>> = Vec::new();
        while self.tasks.len() > 0
            invariant
                reversed@.len() + self.tasks@.len() == waiting.len(),
                forall|i: int| 0 <= i < self.tasks@.len() ==> self.tasks@[i] == waiting[i],
                forall|j: int|
                    0 <= j < reversed@.len() ==> reversed@[j] == waiting[waiting.len() - 1 - j],
                forall|i: int| 0 <= i < waiting.len() ==> (#[trigger] waiting[i]).callable(),
            decreases self.tasks@.len(),
        {
            let entry = self.tasks.pop().unwrap();
            reversed.push(entry);
        }
        let ghost mut done: int = 0;
        while reversed.len() > 0
            invariant
                self.tasks@.len() == 0,
                0 <= done,
                reversed@.len() + done == waiting.len(),
                forall|j: int|
                    0 <= j < reversed@.len() ==> reversed@[j] == waiting[waiting.len() - 1 - j],
                forall|i: int| 0 <= i < waiting.len() ==> (#[trigger] waiting[i]).callable(),
                forall|i: int| 0 <= i < done ==> (#[trigger] waiting[i]).finished(),
            decreases reversed@.len(),
        {
            let entry = reversed.pop().unwrap();
            proof {
                assert(entry == waiting[done]);
                assert(waiting[done].callable());
            }
            let result = entry.task.execute();
            let ghost outcome = result;
            match result {
                Ok(success) => {
                    match entry.success_callback {
                        Some(callback) => {
                            callback(success);
                        },
                        None => {},
                    }
                },
                Err(failure) => {
                    match entry.failure_callback {
                        Some(callback) => {
                            callback(failure);
                        },
                        None => {},
                    }
                },
            }
            proof {
                assert(waiting[done].handled(outcome));
                done = done + 1;
            }
        }
    }
}

/// `std::any::TypeId`, taken as a value of which nothing is seen but
/// whether it is the same as another.
#[verifier::external_type_specification]
#[verifier::external_body]
pub struct ExTypeId(std::any::TypeId);

/// `==` on `TypeId`: two identifiers are equal exactly when they are the
/// same identifier.
#[verifier::external_body]
fn same_type(a: &TypeId, b: &TypeId) -> (r: bool)
    ensures
        r == (*a == *b),
{
    a == b
}

/// Why a queue could not be found.
#[derive(Clone, Copy, Debug, PartialEq, Eq, Structural)]
pub enum TaskLookupError {
    /// No queue is registered for the kind of task asked for.
    NotRegistered,
}

/// A registry of the kinds of task in use. Each registration stands for
/// one queue of that kind; the registry keeps the kinds in the order in
/// which they were registered.
pub struct TaskAPI {
    task_managers: Vec<TypeId>,
}

impl View for TaskAPI {
    type V = Seq<TypeId>;

    /// The registered kinds, the oldest first.
    closed spec fn view(&self) -> Seq<TypeId> {
        self.task_managers@
    }
}

impl TaskAPI {
    /// A registry with nothing registered.
    pub fn new() -> (api: Self)
        ensures
            api@ == Seq::<TypeId>::empty(),
    {
        TaskAPI { task_managers: Vec::new() }
    }

    /// Registers one more queue of the given kind, after all others.
    pub fn register_task_type(&mut self, task_type: TypeId)
        ensures
            final(self)@ == old(self)@.push(task_type),
    {
        self.task_managers.push(task_type);
    }

    /// Removes every registration of the given kind and keeps the others in
    /// their order.
    pub fn unregister_task_type(&mut self, task_type: TypeId)
        ensures
            final(self)@ == old(self)@.filter(|kind: TypeId| kind != task_type),
    {
        let ghost keep = |kind: TypeId| kind != task_type;
        let ghost before = self.task_managers@;
        let mut kept: Vec<TypeId> = Vec::new();
        let mut i: usize = 0;
        proof {
            reveal(Seq::filter);
            assert(before.take(0) =~= Seq::<TypeId>::empty());
        }
        while i < self.task_managers.len()
            invariant
                i <= before.len(),
                self.task_managers@ == before,
                keep == (|kind: TypeId| kind != task_type),
                kept@ == before.take(i as int).filter(keep),
            decreases before.len() - i,
        {
            let kind = self.task_managers[i];
            proof {
                reveal(Seq::filter);
                assert(before.take(i + 1).drop_last() =~= before.take(i as int));
                assert(before.take(i + 1).last() == kind);
            }
            if !same_type(&kind, &task_type) {
                kept.push(kind);
            }
            i = i + 1;
        }
        proof {
            assert(before.take(before.len() as int) =~= before);
        }
        self.task_managers = kept;
    }

    /// The place, in the order of registration, of the first queue of the
    /// given kind.
    pub fn get_task_manager(&self, task_type: TypeId) -> (r: Result<usize, TaskLookupError>)
        ensures
            self@.contains(task_type) ==> (r matches Ok(place) && place < self@.len()
                && self@[place as int] == task_type && forall|j: int|
                0 <= j < place ==> self@[j] != task_type),
            !self@.contains(task_type) ==> r == Err::<usize, TaskLookupError>(
                TaskLookupError::NotRegistered,
            ),
    {
        let mut i: usize = 0;
        while i < self.task_managers.len()
            invariant
                i <= self.task_managers@.len(),
                forall|j: int| 0 <= j < i ==> self.task_managers@[j] != task_type,
            decreases self.task_managers@.len() - i,
        {
            if same_type(&self.task_managers[i], &task_type) {
                return Ok(i);
            }
            i = i + 1;
        }
        Err(TaskLookupError::NotRegistered)
    }
}

} // verus!
