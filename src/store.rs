use vstd::prelude::*;
use std::collections::HashMap;
use crate::chunk::Chunk;

verus! {

broadcast use vstd::std_specs::hash::group_hash_axioms;

/// `after` is `before` marked dirty, with its blocks, solid index and
/// coordinate kept.
pub open spec fn dirtied(before: Chunk, after: Chunk) -> bool {
    after.blocks == before.blocks && after.solid_blocks == before.solid_blocks && after.coord == before.coord
        && after.dirty
}

/// The chunk data of the resident chunks, under the handles that the chunk
/// map hands out.
pub struct ChunkStore {
    pub chunks: HashMap<u64, Chunk>,
}

impl ChunkStore {
    /// The chunks held, by handle.
    pub open spec fn held(&self) -> Map<u64, Chunk> {
        self.chunks@
    }

    /// Every chunk held has its full block array.
    pub open spec fn wf(&self) -> bool {
        forall|h: u64| #[trigger] self.held().contains_key(h) ==> self.held()[h].wf()
    }

    pub fn new() -> (r: ChunkStore)
        ensures
            r.wf(),
            r.held() == Map::<u64, Chunk>::empty(),
    {
        ChunkStore { chunks: HashMap::new() }
    }

    pub fn insert(&mut self, h: u64, chunk: Chunk)
        requires
            old(self).wf(),
            chunk.wf(),
        ensures
            final(self).wf(),
            final(self).held() == old(self).held().insert(h, chunk),
    {
        self.chunks.insert(h, chunk);
        proof {
            assert forall|k: u64| #[trigger] self.held().contains_key(k) implies self.held()[k].wf() by {
                if k != h {
                    assert(old(self).held().contains_key(k));
                }
            }
        }
    }

    pub fn remove(&mut self, h: u64) -> (r: Option<Chunk>)
        requires
            old(self).wf(),
        ensures
            final(self).wf(),
            final(self).held() == old(self).held().remove(h),
            r == (if old(self).held().contains_key(h) { Some(old(self).held()[h]) } else { None::<Chunk> }),
    {
        let r = self.chunks.remove(&h);
        proof {
            assert forall|k: u64| #[trigger] self.held().contains_key(k) implies self.held()[k].wf() by {
                if k != h {
                    assert(old(self).held().contains_key(k));
                }
            }
        }
        r
    }

    pub fn get(&self, h: u64) -> (r: Option<&Chunk>)
        ensures
            r == (if self.held().contains_key(h) { Some(&self.held()[h]) } else { None::<&Chunk> }),
    {
        self.chunks.get(&h)
    }

    pub fn contains(&self, h: u64) -> (r: bool)
        ensures
            r == self.held().contains_key(h),
    {
        self.chunks.contains_key(&h)
    }

    pub fn len(&self) -> (r: usize)
        ensures
            r == self.held().len(),
    {
        self.chunks.len()
    }

    /// Marks the chunk under `h` dirty, if there is one.
    pub fn mark_dirty(&mut self, h: u64)
        requires
            old(self).wf(),
        ensures
            final(self).wf(),
            final(self).held().dom() == old(self).held().dom(),
            old(self).held().contains_key(h) ==> dirtied(old(self).held()[h], final(self).held()[h]),
            forall|k: u64| k != h && #[trigger] old(self).held().contains_key(k) ==> final(self).held()[k] == old(
                self,
            ).held()[k],
            !old(self).held().contains_key(h) ==> final(self).held() == old(self).held(),
    {
        match self.chunks.remove(&h) {
            Some(mut chunk) => {
                chunk.dirty = true;
                self.chunks.insert(h, chunk);
                proof {
                    assert(self.held().dom() =~= old(self).held().dom());
                    assert forall|k: u64| #[trigger] self.held().contains_key(k) implies self.held()[k].wf() by {
                        if k != h {
                            assert(old(self).held().contains_key(k));
                        } else {
                            assert(old(self).held().contains_key(h));
                            assert(self.held()[h].blocks == old(self).held()[h].blocks);
                        }
                    }
                }
            },
            None => {
                proof {
                    assert(self.held() =~= old(self).held());
                }
            },
        }
    }
}

} // verus!
