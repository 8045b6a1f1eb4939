//! The limit on concurrent SSE connections.

use vstd::prelude::*;

verus! {

/// Why an SSE connection was refused.
#[derive(Debug, Clone, Copy, PartialEq, Eq, Structural)]
pub enum SseConnectionError {
    /// As many connections are open as the pool allows.
    LimitExceeded,
}

impl SseConnectionError {
    /// The text of the error.
    pub fn message(&self) -> (r: String)
        ensures
            r@ == "SSE connection limit exceeded"@,
    {
        "SSE connection limit exceeded".to_owned()
    }
}

/// The count after taking one more connection with `current` open ones, where
/// the maximum allows it.
pub open spec fn acquired_count(current: nat, max: nat) -> Option<nat> {
    if current < max {
        Some(current + 1)
    } else {
        None
    }
}

/// The count after closing a connection.
pub open spec fn released_count(current: nat) -> nat {
    if current > 0 {
        (current - 1) as nat
    } else {
        0
    }
}

/// Counts the open SSE connections against a maximum.
pub struct SseConnectionPool {
    current: usize,
    max: usize,
}

/// Proof that a connection was acquired; it is handed back when the
/// connection closes.
pub struct SseConnectionGuard {
    acquired: bool,
}

impl SseConnectionPool {
    pub closed spec fn current_spec(&self) -> nat {
        self.current as nat
    }

    pub closed spec fn max_spec(&self) -> nat {
        self.max as nat
    }

    /// Never more connections open than the maximum.
    #[verifier::type_invariant]
    spec fn wf(&self) -> bool {
        self.current <= self.max
    }

    /// A pool with no connection open that takes up to `max`.
    pub fn new(max: usize) -> (p: SseConnectionPool)
        ensures
            p.current_spec() == 0,
            p.max_spec() == max,
    {
        SseConnectionPool { current: 0, max }
    }

    /// Admits one more connection where fewer than the maximum are open,
    /// else refuses it and changes nothing.
    pub fn try_acquire(&mut self) -> (r: Result<SseConnectionGuard, SseConnectionError>)
        ensures
            final(self).current_spec() <= final(self).max_spec(),
            final(self).max_spec() == old(self).max_spec(),
            match acquired_count(old(self).current_spec(), old(self).max_spec()) {
                Some(n) => r is Ok && final(self).current_spec() == n,
                None => r is Err && final(self).current_spec() == old(self).current_spec(),
            },
    {
        proof {
            use_type_invariant(&*self);
        }
        if self.current >= self.max {
            return Err(SseConnectionError::LimitExceeded);
        }
        self.current = self.current + 1;
        Ok(SseConnectionGuard { acquired: true })
    }

    /// Closes the connection of `guard`.
    pub fn release(&mut self, guard: SseConnectionGuard)
        ensures
            final(self).current_spec() <= final(self).max_spec(),
            final(self).max_spec() == old(self).max_spec(),
            final(self).current_spec() == released_count(old(self).current_spec()),
    {
        proof {
            use_type_invariant(&*self);
        }
        let _ = guard.acquired;
        if self.current > 0 {
            self.current = self.current - 1;
        }
    }

    /// The number of open connections.
    pub fn current_count(&self) -> (r: usize)
        ensures
            r == self.current_spec(),
            r <= self.max_spec(),
    {
        proof {
            use_type_invariant(self);
        }
        self.current
    }
}

/// Acquiring a connection never takes the count past the maximum, and
/// releasing an acquired connection gives back the count from before.
pub proof fn lemma_acquire_release(current: nat, max: nat)
    ensures
        acquired_count(current, max) matches Some(n) ==> n <= max && released_count(n) == current,
        acquired_count(current, max) is None ==> current >= max,
{
}

} // verus!
