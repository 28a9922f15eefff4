//! The resolver's single-flight guard: the stack runs one lookup at a time, so a lookup
//! holds the guard from issue to result, and others wait their turn.
use vstd::prelude::*;

verus! {

/// The guard as a value: the task that holds it, and the waiting tasks, first come first.
pub struct DnsView {
    pub holder: Option<usize>,
    pub waiters: Seq<usize>,
}

/// A try by task `t` to take the guard: it succeeds only when no one holds it; otherwise
/// `t` is queued to be woken on release.
pub open spec fn acquire_spec(v: DnsView, t: usize) -> (bool, DnsView) {
    if v.holder is None {
        (true, DnsView { holder: Some(t), ..v })
    } else if v.waiters.contains(t) {
        (false, v)
    } else {
        (false, DnsView { waiters: v.waiters.push(t), ..v })
    }
}

/// The holder gives the guard back; the first waiter, if any, is to be woken.
pub open spec fn release_spec(v: DnsView) -> (Option<usize>, DnsView) {
    if v.waiters.len() == 0 {
        (None, DnsView { holder: None, ..v })
    } else {
        (Some(v.waiters[0]), DnsView { holder: None, waiters: v.waiters.skip(1) })
    }
}

/// The resolver, with its single-flight guard.
pub struct Dns {
    holder: Option<usize>,
    waiters: Vec<usize>,
}

impl View for Dns {
    type V = DnsView;

    closed spec fn view(&self) -> DnsView {
        DnsView { holder: self.holder, waiters: self.waiters@ }
    }
}

impl Dns {
    /// A resolver with the guard free.
    pub fn new() -> (r: Self)
        ensures
            r@.holder is None,
            r@.waiters == Seq::<usize>::empty(),
    {
        Dns { holder: None, waiters: Vec::new() }
    }

    /// The task that holds the guard.
    pub fn holder(&self) -> (r: Option<usize>)
        ensures
            r == self@.holder,
    {
        self.holder
    }

    /// Task `t` tries to take the guard before issuing its lookup.
    pub fn try_acquire(&mut self, t: usize) -> (r: bool)
        ensures
            (r, final(self)@) == acquire_spec(old(self)@, t),
    {
        if self.holder.is_none() {
            self.holder = Some(t);
            return true;
        }
        let mut i: usize = 0;
        while i < self.waiters.len()
            invariant
                i <= self.waiters@.len(),
                self@ == old(self)@,
                self.holder is Some,
                forall|k: int| 0 <= k < i ==> self.waiters@[k] != t,
            decreases self.waiters@.len() - i,
        {
            if self.waiters[i] == t {
                assert(self.waiters@.contains(t));
                return false;
            }
            i = i + 1;
        }
        self.waiters.push(t);
        false
    }

    /// The holder releases the guard once its lookup has a result; returns the waiter to wake.
    pub fn release(&mut self) -> (r: Option<usize>)
        requires
            old(self)@.holder is Some,
        ensures
            (r, final(self)@) == release_spec(old(self)@),
    {
        self.holder = None;
        if self.waiters.len() == 0 {
            None
        } else {
            let first = self.waiters.remove(0);
            assert(self.waiters@ =~= old(self)@.waiters.skip(1));
            Some(first)
        }
    }
}

/// Two lookups never hold the guard at once: while one task holds it, another task's try
/// fails and leaves the holder in place, and the guard is free only after a release.
pub proof fn lemma_single_flight(v: DnsView, a: usize, b: usize)
    requires
        v.holder == Some(a),
        b != a,
    ensures
        !acquire_spec(v, b).0,
        acquire_spec(v, b).1.holder == Some(a),
        acquire_spec(v, b).1.waiters.contains(b),
        release_spec(acquire_spec(v, b).1).1.holder is None,
        acquire_spec(release_spec(acquire_spec(v, b).1).1, b).0,
{
    if !v.waiters.contains(b) {
        assert(v.waiters.push(b)[v.waiters.len() as int] == b);
    }
}

} // verus!
