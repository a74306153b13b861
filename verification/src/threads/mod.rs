//! Worker pools: the bookkeeping that decides which task a worker runs next.
//! The threads themselves belong to the program that owns the pool.

use crate::error::EspressoProcessingError;
use vstd::prelude::*;

pub mod stream_threads;

verus! {

/// The submitting side of a worker pool holding tasks of type `J`.
pub trait TPool<J>: Sized {
    /// The pool's invariant.
    spec fn valid(&self) -> bool;

    /// The tasks accepted and not yet handed to a worker, oldest first.
    spec fn queued(&self) -> Seq<J>;

    /// Whether the pool accepts a further task.
    spec fn accepting(&self) -> bool;

    /// A pool of `size` idle workers with nothing queued.
    fn new(size: usize) -> (pool: Self)
        requires
            size > 0,
        ensures
            pool.valid(),
            pool.accepting(),
            pool.queued() == Seq::<J>::empty(),
    ;

    /// Queues `task` behind the tasks accepted before it. A pool that is not
    /// accepting refuses the task and stays as it is.
    fn exec(&mut self, task: J) -> (r: Result<(), EspressoProcessingError>)
        requires
            old(self).valid(),
        ensures
            final(self).valid(),
            r is Ok <==> old(self).accepting(),
            r is Ok ==> final(self).queued() == old(self).queued().push(task),
            r is Err ==> r == Err::<(), EspressoProcessingError>(
                EspressoProcessingError::FailedThreadPool,
            ) && final(self).queued() == old(self).queued(),
    ;
}

} // verus!
