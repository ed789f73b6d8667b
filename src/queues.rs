use vstd::prelude::*;
use crate::coord::ChunkCoord;

verus! {

pub open spec fn no_dups(s: Seq<ChunkCoord>) -> bool {
    forall|i: int, j: int| 0 <= i < j < s.len() ==> s[i] != s[j]
}

/// Whether `c` is among `v`'s items.
pub fn contains_coord(v: &Vec<ChunkCoord>, c: ChunkCoord) -> (r: bool)
    ensures
        r == v@.contains(c),
{
    let mut i: usize = 0;
    while i < v.len()
        invariant
            i <= v@.len(),
            forall|j: int| 0 <= j < i ==> v@[j] != c,
        decreases v@.len() - i,
    {
        if v[i] == c {
            return true;
        }
        i = i + 1;
    }
    false
}

pub proof fn lemma_push_contains<T>(s: Seq<T>, x: T, y: T)
    ensures
        s.push(x).contains(y) <==> (s.contains(y) || y == x),
{
    if s.push(x).contains(y) {
        let k = choose|k: int| 0 <= k < s.push(x).len() && s.push(x)[k] == y;
        if k < s.len() {
            assert(s[k] == y);
        }
    }
    if s.contains(y) {
        let k = choose|k: int| 0 <= k < s.len() && s[k] == y;
        assert(s.push(x)[k] == y);
    }
    if y == x {
        assert(s.push(x)[s.len() as int] == y);
    }
}

/// Removes `c` from a list without repeats, keeping the order of the rest.
pub fn remove_coord(v: &mut Vec<ChunkCoord>, c: ChunkCoord)
    requires
        no_dups(old(v)@),
    ensures
        no_dups(final(v)@),
        forall|x: ChunkCoord| final(v)@.contains(x) <==> (old(v)@.contains(x) && x != c),
        final(v)@.len() <= old(v)@.len(),
{
    let mut out: Vec<ChunkCoord> = Vec::new();
    let mut i: usize = 0;
    while i < v.len()
        invariant
            i <= v@.len(),
            no_dups(v@),
            no_dups(out@),
            out@.len() <= i,
            forall|x: ChunkCoord| out@.contains(x) <==> (v@.subrange(0, i as int).contains(x) && x != c),
        decreases v@.len() - i,
    {
        let x = v[i];
        let ghost prev = out@;
        proof {
            assert(v@.subrange(0, i + 1) == v@.subrange(0, i as int).push(x));
            assert forall|y: ChunkCoord| #![auto] v@.subrange(0, i + 1).contains(y) <==> (v@.subrange(0, i as int).contains(y) || y == x) by {
                lemma_push_contains(v@.subrange(0, i as int), x, y);
            }
        }
        if x != c {
            proof {
                assert(!v@.subrange(0, i as int).contains(x)) by {
                    if v@.subrange(0, i as int).contains(x) {
                        let k = choose|k: int| 0 <= k < i && v@.subrange(0, i as int)[k] == x;
                        assert(v@[k] == v@[i as int]);
                    }
                }
                assert forall|j: int| 0 <= j < out@.len() implies out@[j] != x by {
                    assert(out@.contains(out@[j]));
                }
            }
            out.push(x);
            proof {
                assert forall|y: ChunkCoord| #![auto] out@.contains(y) <==> (v@.subrange(0, i + 1).contains(y) && y != c) by {
                    lemma_push_contains(prev, x, y);
                }
            }
        }
        i = i + 1;
    }
    proof {
        assert(v@.subrange(0, v@.len() as int) == v@);
    }
    *v = out;
}

/// Chunks waiting to be generated, in the order they were asked for, and
/// those whose generation has started and not yet come back.
pub struct ChunkLoadQueue {
    pub pending: Vec<ChunkCoord>,
    pub generating: Vec<ChunkCoord>,
}

impl ChunkLoadQueue {
    pub fn new() -> (r: ChunkLoadQueue)
        ensures
            r.wf(),
            r.pending@.len() == 0,
            r.generating@.len() == 0,
    {
        ChunkLoadQueue { pending: Vec::new(), generating: Vec::new() }
    }

    /// No coordinate is queued twice, nor both queued and generating.
    pub open spec fn wf(&self) -> bool {
        &&& no_dups(self.pending@)
        &&& no_dups(self.generating@)
        &&& forall|c: ChunkCoord| self.pending@.contains(c) ==> !self.generating@.contains(c)
    }

    pub open spec fn in_flight(&self, c: ChunkCoord) -> bool {
        self.pending@.contains(c) || self.generating@.contains(c)
    }

    pub fn pending(&self) -> (r: &Vec<ChunkCoord>)
        ensures
            r@ == self.pending@,
    {
        &self.pending
    }

    pub fn generating(&self) -> (r: &Vec<ChunkCoord>)
        ensures
            r@ == self.generating@,
    {
        &self.generating
    }

    pub fn is_in_flight(&self, c: ChunkCoord) -> (r: bool)
        ensures
            r == self.in_flight(c),
    {
        contains_coord(&self.pending, c) || contains_coord(&self.generating, c)
    }

    pub fn is_generating(&self, c: ChunkCoord) -> (r: bool)
        ensures
            r == self.generating@.contains(c),
    {
        contains_coord(&self.generating, c)
    }
}

/// Chunks chosen for eviction with their handles, in order, and those whose
/// teardown has started and not yet come back.
pub struct ChunkUnloadQueue {
    pub pending: Vec<(u64, ChunkCoord)>,
    pub unloading: Vec<ChunkCoord>,
}

pub open spec fn coords_of(s: Seq<(u64, ChunkCoord)>) -> Seq<ChunkCoord> {
    s.map_values(|p: (u64, ChunkCoord)| p.1)
}

impl ChunkUnloadQueue {
    pub fn new() -> (r: ChunkUnloadQueue)
        ensures
            r.wf(),
            r.pending@.len() == 0,
            r.unloading@.len() == 0,
    {
        ChunkUnloadQueue { pending: Vec::new(), unloading: Vec::new() }
    }

    pub open spec fn wf(&self) -> bool {
        &&& no_dups(coords_of(self.pending@))
        &&& no_dups(self.unloading@)
        &&& forall|c: ChunkCoord| coords_of(self.pending@).contains(c) ==> !self.unloading@.contains(c)
    }

    pub open spec fn in_flight(&self, c: ChunkCoord) -> bool {
        coords_of(self.pending@).contains(c) || self.unloading@.contains(c)
    }

    pub fn pending(&self) -> (r: &Vec<(u64, ChunkCoord)>)
        ensures
            r@ == self.pending@,
    {
        &self.pending
    }

    pub fn unloading(&self) -> (r: &Vec<ChunkCoord>)
        ensures
            r@ == self.unloading@,
    {
        &self.unloading
    }

    pub fn is_in_flight(&self, c: ChunkCoord) -> (r: bool)
        ensures
            r == self.in_flight(c),
    {
        let mut i: usize = 0;
        while i < self.pending.len()
            invariant
                i <= self.pending@.len(),
                forall|j: int| 0 <= j < i ==> self.pending@[j].1 != c,
            decreases self.pending@.len() - i,
        {
            if self.pending[i].1 == c {
                proof {
                    assert(coords_of(self.pending@)[i as int] == c);
                }
                return true;
            }
            i = i + 1;
        }
        proof {
            if coords_of(self.pending@).contains(c) {
                let j = choose|j: int| 0 <= j < coords_of(self.pending@).len() && coords_of(self.pending@)[j] == c;
                assert(self.pending@[j].1 == c);
            }
        }
        contains_coord(&self.unloading, c)
    }
}

} // verus!
