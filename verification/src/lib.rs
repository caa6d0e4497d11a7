//! The core of a small web server: a fixed-size worker pool, stated as a
//! state machine and proved against it, and the rule by which the server
//! answers a request.
//!
//! The pool is a plain value: a queue of pending work items, one record per
//! worker, and the lock that guards the receiving end of the queue. Nothing in
//! here starts a thread or blocks. Every operation is one transition of the
//! pool: a submission, one worker's attempt to go on, the end of an item, a
//! worker's abort, the start of teardown. A driver that owns real threads keeps
//! the pool behind its own mutual exclusion, lets each thread call the
//! transition that belongs to it, and carries out the action that comes back.
//!
//! One worker's loop, driven by hand:
//!
//! ```
//! use mini_server::pool::{Teardown, ThreadPool};
//! use mini_server::worker::Action;
//!
//! let mut pool: ThreadPool<u32> = ThreadPool::new(1);
//! assert!(pool.execute(7).is_ok());
//! assert_eq!(pool.teardown(), Teardown::Wait(0));
//! assert_eq!(pool.advance(0), Action::Run(7));
//! assert!(pool.finish(0));
//! assert_eq!(pool.advance(0), Action::Stop);
//! assert_eq!(pool.teardown(), Teardown::Done);
//! ```
//!
//! * [`queue`]: the work queue, an ordered sequence of items with a closed flag.
//! * [`lock`]: the lock on the queue's receiving end, with poisoning.
//! * [`worker`]: one worker and the body of its loop.
//! * [`model`]: the pool as a mathematical value, its transitions and its
//!   invariant.
//! * [`pool`]: the executable pool, which follows the model step by step.
//! * [`laws`]: what holds in every state that the transitions can reach, and
//!   of every transition.
//! * [`runs`]: what holds of whole runs: every item runs exactly once, a
//!   failing item strands no work, teardown can always complete.
//! * [`http`]: which answer a request line gets, and the bytes of a response.

pub mod queue;
pub mod lock;
pub mod worker;
pub mod model;
pub mod pool;
pub mod laws;
pub mod runs;
pub mod http;

pub use crate::pool::ThreadPool;
