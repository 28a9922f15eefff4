//! The cooperative scheduler's bookkeeping: which tasks exist, which are ready to run in
//! the order they were woken, and the coordinated exit.
//!
//! Tasks are named by their index. The caller owns the suspended work itself, resumes a
//! task when this scheduler hands out its index, and reports back whether it completed.
use vstd::prelude::*;

verus! {

/// Whether a task may still be resumed.
#[derive(Debug, Clone, Copy, PartialEq, Eq, Structural)]
pub enum TaskStatus {
    Pending,
    Complete,
}

/// The scheduler as a value: task states, the ready queue front first, the exit flag, and
/// the tasks suspended until exit.
pub struct ExecutorView {
    pub tasks: Seq<TaskStatus>,
    pub ready: Seq<usize>,
    pub exit_requested: bool,
    pub waiters: Seq<usize>,
}

/// Every index the scheduler holds names a task, and no task waits for exit twice.
pub open spec fn view_wf(v: ExecutorView) -> bool {
    &&& forall|i: int| 0 <= i < v.ready.len() ==> (#[trigger] v.ready[i]) < v.tasks.len()
    &&& forall|i: int| 0 <= i < v.waiters.len() ==> (#[trigger] v.waiters[i]) < v.tasks.len()
    &&& v.waiters.no_duplicates()
}

/// The task that is resumed next, and the scheduler after taking it off the queue: queue
/// entries of completed tasks are dropped on the way.
pub open spec fn next_spec(v: ExecutorView) -> (Option<usize>, ExecutorView)
    decreases v.ready.len(),
{
    if v.ready.len() == 0 {
        (None, v)
    } else {
        let id = v.ready[0];
        let rest = ExecutorView { ready: v.ready.skip(1), ..v };
        if v.tasks[id as int] is Pending {
            (Some(id), rest)
        } else {
            next_spec(rest)
        }
    }
}

/// A wake of task `id`: it joins the back of the queue.
pub open spec fn wake_spec(v: ExecutorView, id: usize) -> ExecutorView {
    ExecutorView { ready: v.ready.push(id), ..v }
}

/// The record of a resumption of `id`: a task that completed is never pending again.
pub open spec fn complete_spec(v: ExecutorView, id: usize, done: bool) -> ExecutorView {
    if done {
        ExecutorView { tasks: v.tasks.update(id as int, TaskStatus::Complete), ..v }
    } else {
        v
    }
}

/// The exit request: the flag is set and every task waiting for it is woken.
pub open spec fn exit_spec(v: ExecutorView) -> ExecutorView {
    ExecutorView {
        exit_requested: true,
        ready: v.ready + v.waiters,
        waiters: Seq::empty(),
        ..v
    }
}

/// A poll of the wait for exit by task `id`: ready once exit is requested, else `id` is
/// recorded to be woken by the request.
pub open spec fn poll_exit_spec(v: ExecutorView, id: usize) -> (bool, ExecutorView) {
    if v.exit_requested {
        (true, v)
    } else if v.waiters.contains(id) {
        (false, v)
    } else {
        (false, ExecutorView { waiters: v.waiters.push(id), ..v })
    }
}

pub open spec fn count_pending(tasks: Seq<TaskStatus>) -> nat
    decreases tasks.len(),
{
    if tasks.len() == 0 {
        0
    } else {
        count_pending(tasks.drop_last()) + if tasks.last() is Pending {
            1nat
        } else {
            0nat
        }
    }
}

/// What the run loop does next.
#[derive(Debug, Clone, Copy, PartialEq, Eq, Structural)]
pub enum RunStep {
    /// Resume the given task until it yields.
    Poll(usize),
    /// Nothing is ready: idle until a wake handle fires.
    Idle,
    /// Exit was requested and nothing is left to run.
    Exit,
}

/// The scheduler.
pub struct Executor {
    tasks: Vec<TaskStatus>,
    ready: Vec<usize>,
    exit_flag: bool,
    exit_waiters: Vec<usize>,
}

impl View for Executor {
    type V = ExecutorView;

    closed spec fn view(&self) -> ExecutorView {
        ExecutorView {
            tasks: self.tasks@,
            ready: self.ready@,
            exit_requested: self.exit_flag,
            waiters: self.exit_waiters@,
        }
    }
}

impl Executor {
    /// A scheduler with no tasks.
    pub fn new() -> (r: Executor)
        ensures
            view_wf(r@),
            r@.tasks == Seq::<TaskStatus>::empty(),
            r@.ready == Seq::<usize>::empty(),
            !r@.exit_requested,
            r@.waiters == Seq::<usize>::empty(),
    {
        Executor { tasks: Vec::new(), ready: Vec::new(), exit_flag: false, exit_waiters: Vec::new() }
    }

    /// Adds a pending task and queues it for its first run; returns its index.
    pub fn spawn(&mut self) -> (id: usize)
        requires
            view_wf(old(self)@),
        ensures
            view_wf(final(self)@),
            id == old(self)@.tasks.len(),
            final(self)@ == (ExecutorView {
                tasks: old(self)@.tasks.push(TaskStatus::Pending),
                ready: old(self)@.ready.push(id),
                ..old(self)@
            }),
    {
        let id = self.tasks.len();
        self.tasks.push(TaskStatus::Pending);
        self.ready.push(id);
        id
    }

    /// The number of tasks spawned.
    pub fn task_count(&self) -> (r: usize)
        ensures
            r == self@.tasks.len(),
    {
        self.tasks.len()
    }

    /// Fires task `id`'s wake handle.
    pub fn wake(&mut self, id: usize)
        requires
            view_wf(old(self)@),
            id < old(self)@.tasks.len(),
        ensures
            view_wf(final(self)@),
            final(self)@ == wake_spec(old(self)@, id),
    {
        self.ready.push(id);
        assert(final(self)@ =~= wake_spec(old(self)@, id));
    }

    /// Takes the next task to resume off the queue, skipping stale wakes of completed tasks.
    pub fn next_task(&mut self) -> (r: Option<usize>)
        requires
            view_wf(old(self)@),
        ensures
            view_wf(final(self)@),
            (r, final(self)@) == next_spec(old(self)@),
            final(self)@.exit_requested == old(self)@.exit_requested,
            r is Some ==> r->Some_0 < final(self)@.tasks.len() && final(self)@.tasks[r->Some_0 as int] is Pending,
    {
        while self.ready.len() > 0
            invariant
                view_wf(self@),
                next_spec(self@) == next_spec(old(self)@),
                self@.exit_requested == old(self)@.exit_requested,
            decreases self.ready@.len(),
        {
            let ghost before = self@;
            let id = self.ready.remove(0);
            assert(self@ =~= ExecutorView { ready: before.ready.skip(1), ..before });
            if self.tasks[id] == TaskStatus::Pending {
                return Some(id);
            }
        }
        None
    }

    /// Records the outcome of resuming task `id`: `done` when it completed.
    pub fn complete(&mut self, id: usize, done: bool)
        requires
            view_wf(old(self)@),
            id < old(self)@.tasks.len(),
        ensures
            view_wf(final(self)@),
            final(self)@ == complete_spec(old(self)@, id, done),
    {
        if done {
            self.tasks.set(id, TaskStatus::Complete);
        }
        assert(final(self)@ =~= complete_spec(old(self)@, id, done));
    }

    /// Decides the run loop's next step: resume the next ready task; else stop if exit
    /// was requested, or wait.
    pub fn run_step(&mut self) -> (r: RunStep)
        requires
            view_wf(old(self)@),
        ensures
            view_wf(final(self)@),
            final(self)@ == next_spec(old(self)@).1,
            match next_spec(old(self)@).0 {
                Some(id) => r == RunStep::Poll(id),
                None => r == (if old(self)@.exit_requested {
                    RunStep::Exit
                } else {
                    RunStep::Idle
                }),
            },
    {
        match self.next_task() {
            Some(id) => RunStep::Poll(id),
            None => if self.exit_flag {
                RunStep::Exit
            } else {
                RunStep::Idle
            },
        }
    }

    /// Requests exit and wakes every task waiting for it.
    pub fn exit(&mut self)
        requires
            view_wf(old(self)@),
        ensures
            view_wf(final(self)@),
            final(self)@ == exit_spec(old(self)@),
    {
        self.exit_flag = true;
        let mut waiters: Vec<usize> = Vec::new();
        std::mem::swap(&mut waiters, &mut self.exit_waiters);
        self.ready.append(&mut waiters);
        assert(final(self)@ =~= exit_spec(old(self)@));
    }

    /// Polls task `id`'s wait for exit: `true` once exit has been requested.
    pub fn wait_for_exit(&mut self, id: usize) -> (r: bool)
        requires
            view_wf(old(self)@),
            id < old(self)@.tasks.len(),
        ensures
            view_wf(final(self)@),
            (r, final(self)@) == poll_exit_spec(old(self)@, id),
    {
        if self.exit_flag {
            return true;
        }
        let mut i: usize = 0;
        while i < self.exit_waiters.len()
            invariant
                i <= self.exit_waiters@.len(),
                self@ == old(self)@,
                view_wf(old(self)@),
                !self.exit_flag,
                forall|k: int| 0 <= k < i ==> self.exit_waiters@[k] != id,
            decreases self.exit_waiters@.len() - i,
        {
            if self.exit_waiters[i] == id {
                assert(self.exit_waiters@.contains(id));
                return false;
            }
            i = i + 1;
        }
        self.exit_waiters.push(id);
        assert(final(self)@ =~= poll_exit_spec(old(self)@, id).1);
        false
    }

    /// The number of tasks that have not completed.
    pub fn active_tasks(&self) -> (r: usize)
        ensures
            r == count_pending(self@.tasks),
    {
        let mut n: usize = 0;
        let mut i: usize = 0;
        while i < self.tasks.len()
            invariant
                i <= self.tasks@.len(),
                n == count_pending(self.tasks@.take(i as int)),
                n <= i,
            decreases self.tasks@.len() - i,
        {
            assert(self.tasks@.take(i + 1).drop_last() =~= self.tasks@.take(i as int));
            if self.tasks[i] == TaskStatus::Pending {
                n = n + 1;
            }
            i = i + 1;
        }
        assert(self.tasks@.take(i as int) =~= self.tasks@);
        n
    }
}

/// A completed task is never resumed again: no operation of the scheduler hands it out or
/// makes it pending, however often its wake handle fires.
pub proof fn lemma_completed_never_resumed(v: ExecutorView, id: usize, other: usize, done: bool)
    requires
        view_wf(v),
        id < v.tasks.len(),
        other < v.tasks.len(),
        v.tasks[id as int] is Complete,
    ensures
        next_spec(v).0 != Some(id),
        next_spec(v).1.tasks[id as int] is Complete,
        wake_spec(v, other).tasks[id as int] is Complete,
        complete_spec(v, other, done).tasks[id as int] is Complete,
        exit_spec(v).tasks[id as int] is Complete,
        poll_exit_spec(v, other).1.tasks[id as int] is Complete,
    decreases v.ready.len(),
{
    if v.ready.len() > 0 {
        let rest = ExecutorView { ready: v.ready.skip(1), ..v };
        assert(view_wf(rest)) by {
            assert forall|i: int| 0 <= i < rest.ready.len() implies (#[trigger] rest.ready[i])
                < rest.tasks.len() by {
                assert(rest.ready[i] == v.ready[i + 1]);
            }
        }
        lemma_completed_never_resumed(rest, id, other, done);
    }
}

/// After exit is requested, every task that was waiting for it is queued to run and its
/// wait is ready.
pub proof fn lemma_exit_wakes_waiters(v: ExecutorView, w: usize)
    requires
        view_wf(v),
        v.waiters.contains(w),
    ensures
        exit_spec(v).exit_requested,
        exit_spec(v).ready.contains(w),
        poll_exit_spec(exit_spec(v), w).0,
        exit_spec(v).waiters.len() == 0,
{
    let i = choose|i: int| 0 <= i < v.waiters.len() && v.waiters[i] == w;
    assert(exit_spec(v).ready[v.ready.len() + i] == w);
}

} // verus!
