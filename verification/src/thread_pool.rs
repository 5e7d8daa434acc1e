//! The bookkeeping of a pool of worker threads: which threads are free and
//! which are allocated, and the work that a worker does.

use vstd::prelude::*;

verus! {

/// How often the main thread asks every worker for work.
pub const REQUEST_ITERATIONS: u32 = 5;

/// The number of threads that a pool opens with.
pub const NUM_THREADS: u32 = 16;

/// The Fibonacci number that a worker computes.
pub const FIBONACCI_LENGTH: u32 = 16;

/// The most times that a worker computes it for one request.
pub const FIBONACCI_MAX_ITERATIONS: u32 = 1000000;

/// The last Fibonacci number that fits in 64 bits is the 93rd.
pub const FIBONACCI_LAST: u32 = 93;

/// Whether a thread of the pool is in use.
#[derive(Clone, Copy, Debug, PartialEq, Eq, Structural)]
pub enum ThreadAllocationState {
    Free,
    Allocated,
}

/// The number by which a thread of the pool is known.
#[derive(Clone, Copy, Debug, PartialEq, Eq, Structural)]
pub struct ThreadID {
    id: u32,
}

impl View for ThreadID {
    type V = u32;

    closed spec fn view(&self) -> u32 {
        self.id
    }
}

impl ThreadID {
    /// The identifier with the given number.
    pub fn new(id: u32) -> (r: ThreadID)
        ensures
            r@ == id,
    {
        ThreadID { id }
    }

    /// The number of the identifier.
    pub fn get_id(&self) -> (id: u32)
        ensures
            id == self@,
    {
        self.id
    }
}

/// The `n`-th Fibonacci number.
pub open spec fn fib(n: nat) -> nat
    decreases n,
{
    if n == 0 {
        0
    } else if n == 1 {
        1
    } else {
        fib((n - 2) as nat) + fib((n - 1) as nat)
    }
}

/// The Fibonacci numbers never fall.
pub proof fn lemma_fib_monotone(a: nat, b: nat)
    requires
        a <= b,
    ensures
        fib(a) <= fib(b),
    decreases b,
{
    if a < b {
        lemma_fib_monotone(a, (b - 1) as nat);
        if b >= 2 {
            assert(fib(b) == fib((b - 2) as nat) + fib((b - 1) as nat));
        }
    }
}

/// The 93rd Fibonacci number fits in 64 bits.
pub proof fn lemma_fib_last()
    ensures
        fib(FIBONACCI_LAST as nat) == 12200160415121876738,
        fib(FIBONACCI_LAST as nat) <= u64::MAX,
{
    assert(fib(0) == 0);
    assert(fib(1) == 1);
    assert(fib(2) == 1);
    assert(fib(3) == 2);
    assert(fib(4) == 3);
    assert(fib(5) == 5);
    assert(fib(6) == 8);
    assert(fib(7) == 13);
    assert(fib(8) == 21);
    assert(fib(9) == 34);
    assert(fib(10) == 55);
    assert(fib(11) == 89);
    assert(fib(12) == 144);
    assert(fib(13) == 233);
    assert(fib(14) == 377);
    assert(fib(15) == 610);
    assert(fib(16) == 987);
    assert(fib(17) == 1597);
    assert(fib(18) == 2584);
    assert(fib(19) == 4181);
    assert(fib(20) == 6765);
    assert(fib(21) == 10946);
    assert(fib(22) == 17711);
    assert(fib(23) == 28657);
    assert(fib(24) == 46368);
    assert(fib(25) == 75025);
    assert(fib(26) == 121393);
    assert(fib(27) == 196418);
    assert(fib(28) == 317811);
    assert(fib(29) == 514229);
    assert(fib(30) == 832040);
    assert(fib(31) == 1346269);
    assert(fib(32) == 2178309);
    assert(fib(33) == 3524578);
    assert(fib(34) == 5702887);
    assert(fib(35) == 9227465);
    assert(fib(36) == 14930352);
    assert(fib(37) == 24157817);
    assert(fib(38) == 39088169);
    assert(fib(39) == 63245986);
    assert(fib(40) == 102334155);
    assert(fib(41) == 165580141);
    assert(fib(42) == 267914296);
    assert(fib(43) == 433494437);
    assert(fib(44) == 701408733);
    assert(fib(45) == 1134903170);
    assert(fib(46) == 1836311903);
    assert(fib(47) == 2971215073);
    assert(fib(48) == 4807526976);
    assert(fib(49) == 7778742049);
    assert(fib(50) == 12586269025);
    assert(fib(51) == 20365011074);
    assert(fib(52) == 32951280099);
    assert(fib(53) == 53316291173);
    assert(fib(54) == 86267571272);
    assert(fib(55) == 139583862445);
    assert(fib(56) == 225851433717);
    assert(fib(57) == 365435296162);
    assert(fib(58) == 591286729879);
    assert(fib(59) == 956722026041);
    assert(fib(60) == 1548008755920);
    assert(fib(61) == 2504730781961);
    assert(fib(62) == 4052739537881);
    assert(fib(63) == 6557470319842);
    assert(fib(64) == 10610209857723);
    assert(fib(65) == 17167680177565);
    assert(fib(66) == 27777890035288);
    assert(fib(67) == 44945570212853);
    assert(fib(68) == 72723460248141);
    assert(fib(69) == 117669030460994);
    assert(fib(70) == 190392490709135);
    assert(fib(71) == 308061521170129);
    assert(fib(72) == 498454011879264);
    assert(fib(73) == 806515533049393);
    assert(fib(74) == 1304969544928657);
    assert(fib(75) == 2111485077978050);
    assert(fib(76) == 3416454622906707);
    assert(fib(77) == 5527939700884757);
    assert(fib(78) == 8944394323791464);
    assert(fib(79) == 14472334024676221);
    assert(fib(80) == 23416728348467685);
    assert(fib(81) == 37889062373143906);
    assert(fib(82) == 61305790721611591);
    assert(fib(83) == 99194853094755497);
    assert(fib(84) == 160500643816367088);
    assert(fib(85) == 259695496911122585);
    assert(fib(86) == 420196140727489673);
    assert(fib(87) == 679891637638612258);
    assert(fib(88) == 1100087778366101931);
    assert(fib(89) == 1779979416004714189);
    assert(fib(90) == 2880067194370816120);
    assert(fib(91) == 4660046610375530309);
    assert(fib(92) == 7540113804746346429);
    assert(fib(93) == 12200160415121876738);
}

/// The `n`-th Fibonacci number, for every `n` whose Fibonacci number fits
/// in 64 bits.
pub fn fibonacci(n: u32) -> (r: u64)
    requires
        n <= FIBONACCI_LAST,
    ensures
        r == fib(n as nat),
{
    if n == 0 {
        return 0;
    }
    if n == 1 {
        return 1;
    }
    let mut a: u64 = 0;
    let mut b: u64 = 1;
    let mut i: u32 = 2;
    while i <= n
        invariant
            2 <= i <= n + 1,
            n <= FIBONACCI_LAST,
            a == fib((i - 2) as nat),
            b == fib((i - 1) as nat),
        decreases n + 1 - i,
    {
        proof {
            lemma_fib_last();
            lemma_fib_monotone(i as nat, FIBONACCI_LAST as nat);
        }
        let c = a + b;
        a = b;
        b = c;
        i = i + 1;
    }
    b
}

/// Why the pool refused.
#[derive(Clone, Copy, Debug, PartialEq, Eq, Structural)]
pub enum ThreadPoolError {
    /// The pool cannot close while threads are allocated.
    ThreadsStillAllocated,
    /// No thread is free.
    NoFreeThread,
    /// The thread is free already.
    ThreadAlreadyFree,
    /// The thread is not among the allocated ones.
    ThreadNotFound,
}

/// The first place at which `id` stands in `ids`, or the length of `ids`
/// where it does not stand there.
pub open spec fn first_place(ids: Seq<ThreadID>, id: ThreadID) -> int
    decreases ids.len(),
{
    if ids.len() == 0 {
        0
    } else if ids[0] == id {
        0
    } else {
        1 + first_place(ids.drop_first(), id)
    }
}

/// `first_place` finds the first occurrence, if there is one.
pub proof fn lemma_first_place(ids: Seq<ThreadID>, id: ThreadID)
    ensures
        0 <= first_place(ids, id) <= ids.len(),
        first_place(ids, id) < ids.len() <==> ids.contains(id),
        first_place(ids, id) < ids.len() ==> ids[first_place(ids, id)] == id,
        forall|j: int| 0 <= j < first_place(ids, id) ==> ids[j] != id,
    decreases ids.len(),
{
    if ids.len() > 0 && ids[0] != id {
        let rest = ids.drop_first();
        lemma_first_place(rest, id);
        let p = first_place(rest, id);
        if p < rest.len() {
            assert(ids[p + 1] == id);
        }
        if ids.contains(id) {
            let k = choose|k: int| 0 <= k < ids.len() && ids[k] == id;
            assert(rest[k - 1] == id);
        }
        assert forall|j: int| 0 <= j < first_place(ids, id) implies ids[j] != id by {
            if j > 0 {
                assert(rest[j - 1] != id);
            }
        }
    }
}

/// Which threads of a pool are free and which are allocated. A thread that
/// is freed leaves the pool's books.
pub struct ThreadPool {
    free_threads: Vec<ThreadID>,
    allocated_threads: Vec<ThreadID>,
}

/// The place of `id` among `ids`, by a search from the front.
fn find_thread(ids: &Vec<ThreadID>, id: ThreadID) -> (place: usize)
    ensures
        place == first_place(ids@, id),
{
    let mut i: usize = 0;
    proof {
        lemma_first_place(ids@, id);
    }
    while i < ids.len()
        invariant
            i <= ids@.len(),
            i <= first_place(ids@, id) <= ids@.len(),
            first_place(ids@, id) < ids@.len() ==> ids@[first_place(ids@, id)] == id,
            forall|j: int| 0 <= j < first_place(ids@, id) ==> ids@[j] != id,
        decreases ids@.len() - i,
    {
        if ids[i].get_id() == id.get_id() {
            return i;
        }
        i = i + 1;
    }
    i
}

impl ThreadPool {
    /// The free threads, the next to be allocated first.
    pub closed spec fn free(&self) -> Seq<ThreadID> {
        self.free_threads@
    }

    /// The allocated threads, in the order of their allocation.
    pub closed spec fn allocated(&self) -> Seq<ThreadID> {
        self.allocated_threads@
    }

    /// A pool of `NUM_THREADS` free threads, numbered from zero.
    pub fn open() -> (pool: ThreadPool)
        ensures
            pool.allocated().len() == 0,
            pool.free().len() == NUM_THREADS,
            forall|i: int| 0 <= i < NUM_THREADS ==> (#[trigger] pool.free()[i])@ == i,
    {
        let mut free_threads: Vec<ThreadID> = Vec::new();
        let mut i: u32 = 0;
        while i < NUM_THREADS
            invariant
                i <= NUM_THREADS,
                free_threads@.len() == i,
                forall|j: int| 0 <= j < i ==> (#[trigger] free_threads@[j])@ == j,
            decreases NUM_THREADS - i,
        {
            free_threads.push(ThreadID::new(i));
            i = i + 1;
        }
        ThreadPool { free_threads, allocated_threads: Vec::new() }
    }

    /// Closes the pool, unless a thread is still allocated.
    pub fn close(self) -> (r: Result<(), ThreadPoolError>)
        ensures
            self.allocated().len() > 0 ==> r == Err::<(), ThreadPoolError>(
                ThreadPoolError::ThreadsStillAllocated,
            ),
            self.allocated().len() == 0 ==> r is Ok,
    {
        if self.allocated_threads.len() > 0 {
            return Err(ThreadPoolError::ThreadsStillAllocated);
        }
        Ok(())
    }

    /// Allocates the first free thread and tells which it is.
    pub fn allocate_thread(&mut self) -> (r: Result<ThreadID, ThreadPoolError>)
        ensures
            old(self).free().len() == 0 ==> {
                &&& r == Err::<ThreadID, ThreadPoolError>(ThreadPoolError::NoFreeThread)
                &&& final(self).free() == old(self).free()
                &&& final(self).allocated() == old(self).allocated()
            },
            old(self).free().len() > 0 ==> r == Ok::<ThreadID, ThreadPoolError>(old(self).free()[0])
                && final(self).free() == old(self).free().drop_first() && final(self).allocated()
                == old(self).allocated().push(old(self).free()[0]),
    {
        if self.free_threads.len() == 0 {
            return Err(ThreadPoolError::NoFreeThread);
        }
        let thread = self.free_threads.remove(0);
        self.allocated_threads.push(thread);
        proof {
            assert(self.free_threads@ =~= old(self).free().drop_first());
        }
        Ok(thread)
    }

    /// Frees an allocated thread: it leaves the allocated ones. A thread
    /// that is free already, or unknown, is refused.
    pub fn free_thread(&mut self, thread_id: ThreadID) -> (r: Result<(), ThreadPoolError>)
        ensures
            final(self).free() == old(self).free(),
            old(self).free().contains(thread_id) ==> r == Err::<(), ThreadPoolError>(
                ThreadPoolError::ThreadAlreadyFree,
            ) && final(self).allocated() == old(self).allocated(),
            !old(self).free().contains(thread_id) && !old(self).allocated().contains(thread_id)
                ==> {
                &&& r == Err::<(), ThreadPoolError>(ThreadPoolError::ThreadNotFound)
                &&& final(self).allocated() == old(self).allocated()
            },
            !old(self).free().contains(thread_id) && old(self).allocated().contains(thread_id)
                ==> r is Ok && final(self).allocated() == old(self).allocated().remove(
                first_place(old(self).allocated(), thread_id),
            ),
    {
        proof {
            lemma_first_place(self.free_threads@, thread_id);
            lemma_first_place(self.allocated_threads@, thread_id);
        }
        if find_thread(&self.free_threads, thread_id) < self.free_threads.len() {
            return Err(ThreadPoolError::ThreadAlreadyFree);
        }
        let place = find_thread(&self.allocated_threads, thread_id);
        if place < self.allocated_threads.len() {
            self.allocated_threads.remove(place);
            Ok(())
        } else {
            Err(ThreadPoolError::ThreadNotFound)
        }
    }

    /// The place of a thread among the allocated ones.
    pub fn get_thread(&self, id: &ThreadID) -> (r: Result<usize, ThreadPoolError>)
        ensures
            self.allocated().contains(*id) ==> r == Ok::<usize, ThreadPoolError>(
                first_place(self.allocated(), *id) as usize,
            ),
            !self.allocated().contains(*id) ==> r == Err::<usize, ThreadPoolError>(
                ThreadPoolError::ThreadNotFound,
            ),
    {
        proof {
            lemma_first_place(self.allocated_threads@, *id);
        }
        let place = find_thread(&self.allocated_threads, *id);
        if place < self.allocated_threads.len() {
            Ok(place)
        } else {
            Err(ThreadPoolError::ThreadNotFound)
        }
    }
}

} // verus!
