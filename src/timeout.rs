//! Resettable timeouts, sleeps and key presses: the decisions of the suspendable
//! operations that wait on time or on the console.
use vstd::prelude::*;

verus! {

/// A resettable deadline shared by a background expiry task and the operations that race
/// against it.
pub struct TimeoutController {
    duration_ms: u64,
    waiter: Option<usize>,
    expired: bool,
}

impl TimeoutController {
    pub closed spec fn duration(&self) -> u64 {
        self.duration_ms
    }

    pub closed spec fn is_expired_spec(&self) -> bool {
        self.expired
    }

    /// The task to wake when the deadline passes.
    pub closed spec fn waiter_spec(&self) -> Option<usize> {
        self.waiter
    }

    /// A controller for deadlines `duration_ms` after each start, not expired.
    pub fn new(duration_ms: u64) -> (r: Self)
        ensures
            r.duration() == duration_ms,
            !r.is_expired_spec(),
            r.waiter_spec() is None,
    {
        TimeoutController { duration_ms, waiter: None, expired: false }
    }

    /// The configured duration.
    pub fn duration_ms(&self) -> (r: u64)
        ensures
            r == self.duration(),
    {
        self.duration_ms
    }

    /// Clears the expiry; done before each new race.
    pub fn reset(&mut self)
        ensures
            !final(self).is_expired_spec(),
            final(self).duration() == old(self).duration(),
            final(self).waiter_spec() == old(self).waiter_spec(),
    {
        self.expired = false;
    }

    /// Marks the deadline passed; returns the waiting task to wake.
    pub fn set_expired(&mut self) -> (r: Option<usize>)
        ensures
            final(self).is_expired_spec(),
            final(self).duration() == old(self).duration(),
            r == old(self).waiter_spec(),
            final(self).waiter_spec() is None,
    {
        self.expired = true;
        let w = self.waiter;
        self.waiter = None;
        w
    }

    /// Whether the deadline has passed.
    pub fn is_expired(&self) -> (r: bool)
        ensures
            r == self.is_expired_spec(),
    {
        self.expired
    }

    /// Polls the timeout side of a race for task `task`: ready once expired; otherwise
    /// `task` is recorded to be woken on expiry.
    pub fn poll(&mut self, task: usize) -> (r: bool)
        ensures
            r == old(self).is_expired_spec(),
            final(self).is_expired_spec() == old(self).is_expired_spec(),
            final(self).duration() == old(self).duration(),
            final(self).waiter_spec() == if r {
                old(self).waiter_spec()
            } else {
                Some(task)
            },
    {
        if self.expired {
            true
        } else {
            self.waiter = Some(task);
            false
        }
    }
}

/// Why a raced operation gave no result.
#[derive(Debug, Clone, Copy, PartialEq, Eq, Structural)]
pub enum TimeoutError {
    TimedOut,
}

impl TimeoutError {
    pub fn to_string(&self) -> (r: String)
        ensures
            r@ == "Operation timed out"@,
    {
        "Operation timed out".to_owned()
    }
}

/// One poll of a race between a timeout and an operation. The timeout side is polled
/// first, so when both are ready the race is lost; `None` means neither is ready.
pub fn race_outcome<T>(timeout_ready: bool, operation: Option<T>) -> (r: Option<Result<T, TimeoutError>>)
    ensures
        timeout_ready ==> r == Some(Err::<T, TimeoutError>(TimeoutError::TimedOut)),
        !timeout_ready ==> match operation {
            Some(v) => r == Some(Ok::<T, TimeoutError>(v)),
            None => r is None,
        },
{
    if timeout_ready {
        Some(Err(TimeoutError::TimedOut))
    } else {
        match operation {
            Some(v) => Some(Ok(v)),
            None => None,
        }
    }
}

/// A sleep until a deadline on the host clock.
pub struct Sleep {
    pub deadline: u64,
}

impl Sleep {
    /// A sleep of `duration_ms` from `now`; a deadline past the clock's range never comes.
    pub fn new(now: u64, duration_ms: u64) -> (r: Self)
        ensures
            r.deadline == if now + duration_ms <= u64::MAX {
                (now + duration_ms) as u64
            } else {
                u64::MAX
            },
    {
        Sleep { deadline: now.saturating_add(duration_ms) }
    }

    /// Whether the sleep is over at time `now`.
    pub fn is_due(&self, now: u64) -> (r: bool)
        ensures
            r == (now >= self.deadline),
    {
        now >= self.deadline
    }
}

/// A key press read from the console: the host reports -1 while no key is waiting.
pub struct KeyPress;

impl KeyPress {
    /// The key that the host reported, if any.
    pub fn key_event(code: i32) -> (r: Option<i32>)
        ensures
            code == -1 ==> r is None,
            code != -1 ==> r == Some(code),
    {
        if code == -1 {
            None
        } else {
            Some(code)
        }
    }
}

} // verus!
