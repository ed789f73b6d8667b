use vstd::prelude::*;

verus! {

/// The sizing rule of the worker pool that runs generation and teardown;
/// the threads themselves belong to the caller, which replaces them when
/// the size changes.
#[derive(Clone, Copy, Debug, PartialEq, Eq, Structural)]
pub struct ChunkGenerationThreadPool {
    pub thread_count: u32,
}

pub open spec fn at_least_one(n: u32) -> u32 {
    if n == 0 { 1 } else { n }
}

impl ChunkGenerationThreadPool {
    /// A pool of `n` threads, and never fewer than one.
    pub fn new(n: u32) -> (r: ChunkGenerationThreadPool)
        ensures
            r.thread_count == at_least_one(n),
    {
        ChunkGenerationThreadPool { thread_count: if n == 0 { 1 } else { n } }
    }

    /// Takes a requested size from the settings. Returns the new size when
    /// the pool has to be replaced, and `None` when it stays as it is.
    pub fn update_thread_count(&mut self, n: u32) -> (r: Option<u32>)
        ensures
            final(self).thread_count == at_least_one(n),
            r == (if at_least_one(n) != old(self).thread_count { Some(at_least_one(n)) } else { None::<u32> }),
    {
        let wanted = if n == 0 { 1 } else { n };
        if wanted != self.thread_count {
            self.thread_count = wanted;
            Some(wanted)
        } else {
            None
        }
    }
}

} // verus!
