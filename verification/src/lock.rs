//! The lock on the queue's receiving end. One worker at a time holds it, for
//! the length of one attempt to receive. A holder that is aborted leaves it
//! poisoned, and a poisoned lock says so to everyone who asks for it later.

use vstd::prelude::*;

verus! {

/// The state of the lock.
#[derive(Clone, Copy, Debug, PartialEq, Eq, Structural)]
pub enum Lock {
    /// Nobody holds it.
    Free,
    /// The worker with this id holds it.
    Held(usize),
    /// A holder was aborted while it held the lock. This state is final.
    Poisoned,
}

/// The answer to one request for the lock.
#[derive(Clone, Copy, Debug, PartialEq, Eq, Structural)]
pub enum Acquired {
    /// The lock was free and now belongs to the one who asked.
    Granted,
    /// Somebody holds the lock: the one who asked has to wait.
    Busy,
    /// The lock is poisoned and will never be granted again.
    Poisoned,
}

impl Lock {
    /// The lock after `who` asked for it.
    pub open spec fn acquire_spec(self, who: usize) -> Lock {
        match self {
            Lock::Free => Lock::Held(who),
            _ => self,
        }
    }

    /// The answer that `who` gets when it asks for the lock.
    pub open spec fn answer(self) -> Acquired {
        match self {
            Lock::Free => Acquired::Granted,
            Lock::Held(_) => Acquired::Busy,
            Lock::Poisoned => Acquired::Poisoned,
        }
    }

    /// The lock after `who` gave it back.
    pub open spec fn release_spec(self, who: usize) -> Lock {
        if self == Lock::Held(who) {
            Lock::Free
        } else {
            self
        }
    }

    /// The lock after `who` was aborted.
    pub open spec fn poison_spec(self, who: usize) -> Lock {
        if self == Lock::Held(who) {
            Lock::Poisoned
        } else {
            self
        }
    }

    /// One request for the lock on behalf of `who`. It never blocks: a lock
    /// that is held answers `Busy`.
    pub fn acquire(&mut self, who: usize) -> (answer: Acquired)
        ensures
            *final(self) == old(self).acquire_spec(who),
            answer == old(self).answer(),
    {
        match *self {
            Lock::Free => {
                *self = Lock::Held(who);
                Acquired::Granted
            },
            Lock::Held(_) => Acquired::Busy,
            Lock::Poisoned => Acquired::Poisoned,
        }
    }

    /// Gives the lock back if `who` holds it, and does nothing otherwise.
    pub fn release(&mut self, who: usize)
        ensures
            *final(self) == old(self).release_spec(who),
    {
        match *self {
            Lock::Held(holder) => {
                if holder == who {
                    *self = Lock::Free;
                }
            },
            _ => {},
        }
    }

    /// Poisons the lock if `who` holds it, and does nothing otherwise.
    pub fn poison(&mut self, who: usize)
        ensures
            *final(self) == old(self).poison_spec(who),
    {
        match *self {
            Lock::Held(holder) => {
                if holder == who {
                    *self = Lock::Poisoned;
                }
            },
            _ => {},
        }
    }
}

} // verus!
