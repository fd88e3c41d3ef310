//! The hand-off of the result of a piece of background work: a task is
//! pending until the work is done, then holds the result until it is
//! polled, and hands the result out exactly once.

use vstd::prelude::*;

verus! {

/// Where a task stands.
#[derive(Debug, Clone, Copy, PartialEq, Eq, Structural)]
pub enum TaskStatus {
    /// The work is not done yet.
    Pending,
    /// The work is done and its result waits to be polled.
    Completed,
    /// The result has been handed out.
    Polled,
}

/// What a task holds: where it stands and, while completed, the result.
pub struct TaskView<T> {
    pub status: TaskStatus,
    pub result: Option<T>,
}

impl<T> TaskView<T> {
    /// A task whose work is not done yet.
    pub open spec fn pending() -> TaskView<T> {
        TaskView { status: TaskStatus::Pending, result: None }
    }

    /// The task after the work has delivered `value`: a pending task is
    /// completed and holds the value; any other task stays as it is.
    pub open spec fn complete(self, value: T) -> TaskView<T> {
        if self.status == TaskStatus::Pending {
            TaskView { status: TaskStatus::Completed, result: Some(value) }
        } else {
            self
        }
    }

    /// What a poll hands out: the result of a completed task, else nothing.
    pub open spec fn polled_value(self) -> Option<T> {
        if self.status == TaskStatus::Completed {
            self.result
        } else {
            None
        }
    }

    /// The task after a poll: a completed task has handed out its result;
    /// any other task stays as it is.
    pub open spec fn poll(self) -> TaskView<T> {
        if self.status == TaskStatus::Completed {
            TaskView { status: TaskStatus::Polled, result: None }
        } else {
            self
        }
    }

    /// The task after `n` polls.
    pub open spec fn poll_times(self, n: nat) -> TaskView<T>
        decreases n,
    {
        if n == 0 {
            self
        } else {
            self.poll().poll_times((n - 1) as nat)
        }
    }

    /// However often a pending task is polled, it hands out nothing and
    /// stays pending.
    pub proof fn lemma_pending_polls(n: nat)
        ensures
            Self::pending().poll_times(n) == Self::pending(),
            Self::pending().poll_times(n).polled_value() == None::<T>,
        decreases n,
    {
        if n > 0 {
            Self::lemma_pending_polls((n - 1) as nat);
        }
    }

    /// Once the work has delivered `value` to a pending task, the first
    /// poll hands out `value`, and every poll after it hands out nothing.
    pub proof fn lemma_single_delivery(value: T, n: nat)
        ensures
            Self::pending().complete(value).polled_value() == Some(value),
            Self::pending().complete(value).poll().poll_times(n).polled_value() == None::<T>,
            Self::pending().complete(value).poll().poll_times(n).status == TaskStatus::Polled,
        decreases n,
    {
        let polled = Self::pending().complete(value).poll();
        Self::lemma_polled_stays(polled, n);
    }

    /// A task that has handed out its result stays as it is under polls.
    pub proof fn lemma_polled_stays(task: TaskView<T>, n: nat)
        requires
            task.status == TaskStatus::Polled,
        ensures
            task.poll_times(n) == task,
            task.polled_value() == None::<T>,
        decreases n,
    {
        if n > 0 {
            Self::lemma_polled_stays(task, (n - 1) as nat);
        }
    }
}

/// The result slot of a piece of background work.
pub struct Task<T> {
    status: TaskStatus,
    data: Option<T>,
}

impl<T> View for Task<T> {
    type V = TaskView<T>;

    closed spec fn view(&self) -> TaskView<T> {
        TaskView { status: self.status, result: self.data }
    }
}

impl<T> Task<T> {
    #[verifier::type_invariant]
    closed spec fn valid(&self) -> bool {
        self.status == TaskStatus::Completed <==> self.data.is_some()
    }

    /// A task whose work is not done yet.
    pub fn new() -> (r: Self)
        ensures
            r@ == TaskView::<T>::pending(),
    {
        Task { status: TaskStatus::Pending, data: None }
    }

    /// Where the task stands.
    pub fn status(&self) -> (r: TaskStatus)
        ensures
            r == self@.status,
            r == TaskStatus::Completed <==> self@.result.is_some(),
    {
        proof {
            use_type_invariant(self);
        }
        self.status
    }

    /// Delivers the result of the work. A pending task is completed and
    /// keeps `value` for the next poll, and `true` is returned; a task that
    /// was completed before stays as it is.
    pub fn complete(&mut self, value: T) -> (r: bool)
        ensures
            final(self)@ == old(self)@.complete(value),
            r == (old(self)@.status == TaskStatus::Pending),
    {
        proof {
            use_type_invariant(&*self);
        }
        match self.status {
            TaskStatus::Pending => {
                *self = Task { status: TaskStatus::Completed, data: Some(value) };
                true
            },
            _ => false,
        }
    }

    /// Hands out the result if the work is done and the result has not
    /// been handed out before; else `None`. Never waits.
    pub fn poll(&mut self) -> (r: Option<T>)
        ensures
            r == old(self)@.polled_value(),
            final(self)@ == old(self)@.poll(),
            r.is_some() <==> old(self)@.status == TaskStatus::Completed,
    {
        proof {
            use_type_invariant(&*self);
        }
        match self.status {
            TaskStatus::Completed => {
                let mut taken = Task { status: TaskStatus::Polled, data: None };
                core::mem::swap(self, &mut taken);
                let Task { status: _, data } = taken;
                data
            },
            _ => None,
        }
    }
}

/// The number of worker threads for a machine with `logical_cpus` logical
/// processors: two less than there are processors, and at least one.
pub open spec fn spec_worker_count(logical_cpus: int) -> int {
    if logical_cpus - 2 >= 1 {
        logical_cpus - 2
    } else {
        1
    }
}

/// The number of worker threads for a machine with `logical_cpus` logical
/// processors.
pub fn worker_count(logical_cpus: usize) -> (r: usize)
    ensures
        r == spec_worker_count(logical_cpus as int),
        r >= 1,
{
    if logical_cpus > 3 {
        logical_cpus - 2
    } else {
        1
    }
}

/// `num_cpus::get`: the number of logical processors that this process can
/// use. Trusted without a claim: the number depends on the machine.
#[verifier::external_body]
fn logical_cpus() -> (r: usize) {
    num_cpus::get()
}

/// The number of worker threads for this machine.
pub fn default_worker_count() -> (r: usize)
    ensures
        r >= 1,
{
    worker_count(logical_cpus())
}

} // verus!
