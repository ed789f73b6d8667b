use vstd::prelude::*;
use dashmap::DashMap;
use crate::coord::ChunkCoord;

verus! {

#[verifier::external_type_specification]
#[verifier::external_body]
#[verifier::reject_recursive_types(K)]
#[verifier::reject_recursive_types(V)]
#[verifier::reject_recursive_types(S)]
pub struct ExDashMap<K, V, S>(DashMap<K, V, S>);

/// Key of the chunk map: a chunk coordinate as a plain tuple.
pub type ChunkKey = (i32, i32, i32);

/// The concurrent table behind the chunk map.
pub type ChunkTable = DashMap<ChunkKey, u64>;

/// The entries that a chunk map holds, key to handle.
pub uninterp spec fn dash_contents(m: ChunkTable) -> Map<ChunkKey, u64>;

/// Relies on DashMap::new: a fresh map holds no entries.
#[verifier::external_body]
fn dash_new() -> (r: ChunkTable)
    ensures
        dash_contents(r) =~= Map::empty(),
{
    DashMap::new()
}

/// Relies on DashMap::insert: the key maps to the value afterwards, and the
/// value it held before, if any, is handed back.
#[verifier::external_body]
fn dash_insert(m: &mut ChunkTable, k: ChunkKey, v: u64) -> (r: Option<u64>)
    ensures
        dash_contents(*final(m)) == dash_contents(*old(m)).insert(k, v),
        r == (if dash_contents(*old(m)).contains_key(k) {
            Some(dash_contents(*old(m))[k])
        } else {
            None::<u64>
        }),
{
    m.insert(k, v)
}

/// Relies on DashMap::get: the value under the key, if there is one.
#[verifier::external_body]
fn dash_get(m: &ChunkTable, k: ChunkKey) -> (r: Option<u64>)
    ensures
        r == (if dash_contents(*m).contains_key(k) {
            Some(dash_contents(*m)[k])
        } else {
            None::<u64>
        }),
{
    m.get(&k).map(|e| *e.value())
}

/// Relies on DashMap::remove: the key is gone afterwards, and its value, if
/// it had one, is handed back.
#[verifier::external_body]
fn dash_remove(m: &mut ChunkTable, k: ChunkKey) -> (r: Option<u64>)
    ensures
        dash_contents(*final(m)) == dash_contents(*old(m)).remove(k),
        r == (if dash_contents(*old(m)).contains_key(k) {
            Some(dash_contents(*old(m))[k])
        } else {
            None::<u64>
        }),
{
    m.remove(&k).map(|(_, v)| v)
}

/// Relies on DashMap::len: the number of entries.
#[verifier::external_body]
fn dash_len(m: &ChunkTable) -> (r: usize)
    ensures
        r == dash_contents(*m).len(),
{
    m.len()
}

/// Relies on DashMap::iter: each entry is visited once, in an order that the
/// map's hasher decides.
#[verifier::external_body]
fn dash_entries(m: &ChunkTable) -> (r: Vec<(ChunkKey, u64)>)
    ensures
        r@.len() == dash_contents(*m).len(),
        forall|i: int| 0 <= i < r@.len() ==> dash_contents(*m).contains_key(#[trigger] r@[i].0)
            && dash_contents(*m)[r@[i].0] == r@[i].1,
        forall|i: int, j: int| 0 <= i < j < r@.len() ==> r@[i].0 != r@[j].0,
        forall|k: ChunkKey| dash_contents(*m).contains_key(k) ==> exists|i: int|
            0 <= i < r@.len() && #[trigger] r@[i].0 == k,
{
    m.iter().map(|e| (*e.key(), *e.value())).collect()
}

/// Within one chunk of `center` on every axis.
pub open spec fn near_cube(center: ChunkCoord, c: ChunkCoord) -> bool {
    center.x - 1 <= c.x <= center.x + 1 && center.y - 1 <= c.y <= center.y + 1 && center.z - 1 <= c.z <= center.z + 1
}

/// The spatial chunk map: which chunks are resident, and the handle under
/// which each one's data lives.
pub struct ChunkStorage {
    chunks: ChunkTable,
}

impl ChunkStorage {
    /// The resident chunks, keyed by coordinate.
    pub closed spec fn view(&self) -> Map<ChunkKey, u64> {
        dash_contents(self.chunks)
    }

    pub open spec fn resident(&self, c: ChunkCoord) -> bool {
        self@.contains_key(c.key())
    }

    pub fn new() -> (r: ChunkStorage)
        ensures
            r@ == Map::<ChunkKey, u64>::empty(),
    {
        ChunkStorage { chunks: dash_new() }
    }

    pub fn insert(&mut self, coord: ChunkCoord, handle: u64)
        ensures
            final(self)@ == old(self)@.insert(coord.key(), handle),
    {
        let _ = dash_insert(&mut self.chunks, coord.to_key(), handle);
    }

    pub fn get(&self, coord: &ChunkCoord) -> (r: Option<u64>)
        ensures
            r == (if self.resident(*coord) {
                Some(self@[coord.key()])
            } else {
                None::<u64>
            }),
    {
        dash_get(&self.chunks, coord.to_key())
    }

    pub fn contains(&self, coord: &ChunkCoord) -> (r: bool)
        ensures
            r == self.resident(*coord),
    {
        dash_get(&self.chunks, coord.to_key()).is_some()
    }

    pub fn remove(&mut self, coord: &ChunkCoord) -> (r: Option<u64>)
        ensures
            final(self)@ == old(self)@.remove(coord.key()),
            r == (if old(self).resident(*coord) {
                Some(old(self)@[coord.key()])
            } else {
                None::<u64>
            }),
    {
        dash_remove(&mut self.chunks, coord.to_key())
    }

    pub fn len(&self) -> (r: usize)
        ensures
            r == self@.len(),
    {
        dash_len(&self.chunks)
    }

    /// Every resident chunk with its handle, each once.
    pub fn entries(&self) -> (r: Vec<(ChunkCoord, u64)>)
        ensures
            r@.len() == self@.len(),
            forall|i: int| 0 <= i < r@.len() ==> self.resident(#[trigger] r@[i].0)
                && self@[r@[i].0.key()] == r@[i].1,
            forall|i: int, j: int| 0 <= i < j < r@.len() ==> r@[i].0 != r@[j].0,
            forall|c: ChunkCoord| self.resident(c) ==> exists|i: int|
                0 <= i < r@.len() && #[trigger] r@[i].0 == c,
    {
        let raw = dash_entries(&self.chunks);
        let mut out: Vec<(ChunkCoord, u64)> = Vec::new();
        let mut i: usize = 0;
        while i < raw.len()
            invariant
                i <= raw@.len(),
                out@.len() == i,
                forall|j: int| 0 <= j < i ==> (#[trigger] out@[j]).0 == ChunkCoord::from_key(raw@[j].0)
                    && out@[j].1 == raw@[j].1,
            decreases raw@.len() - i,
        {
            let (k, v) = raw[i];
            out.push((ChunkCoord { x: k.0, y: k.1, z: k.2 }, v));
            i = i + 1;
        }
        assert forall|i: int| 0 <= i < out@.len() implies self.resident(#[trigger] out@[i].0)
            && self@[out@[i].0.key()] == out@[i].1 by {
            assert(out@[i].0.key() == raw@[i].0);
        }
        assert forall|i: int, j: int| 0 <= i < j < out@.len() implies out@[i].0 != out@[j].0 by {
            assert(raw@[i].0 != raw@[j].0);
            assert(out@[i].0.key() == raw@[i].0);
            assert(out@[j].0.key() == raw@[j].0);
        }
        assert forall|c: ChunkCoord| self.resident(c) implies exists|i: int|
            0 <= i < out@.len() && #[trigger] out@[i].0 == c by {
            let i = choose|i: int| 0 <= i < raw@.len() && #[trigger] raw@[i].0 == c.key();
            assert(out@[i].0 == c);
        }
        out
    }

    /// The resident chunks in the 3x3x3 block of chunks centred on `center`,
    /// with their handles.
    pub fn get_nearby_chunks(&self, center: ChunkCoord) -> (r: Vec<(ChunkCoord, u64)>)
        requires
            i32::MIN < center.x < i32::MAX,
            i32::MIN < center.y < i32::MAX,
            i32::MIN < center.z < i32::MAX,
        ensures
            forall|i: int| 0 <= i < r@.len() ==> self.resident(#[trigger] r@[i].0) && self@[r@[i].0.key()] == r@[i].1
                && near_cube(center, r@[i].0),
            forall|c: ChunkCoord| near_cube(center, c) && self.resident(c) ==> exists|i: int|
                0 <= i < r@.len() && #[trigger] r@[i].0 == c,
    {
        let mut out: Vec<(ChunkCoord, u64)> = Vec::new();
        let mut dx: i32 = -1;
        while dx <= 1
            invariant
                -1 <= dx <= 2,
                i32::MIN < center.x < i32::MAX,
                i32::MIN < center.y < i32::MAX,
                i32::MIN < center.z < i32::MAX,
                forall|i: int| 0 <= i < out@.len() ==> self.resident(#[trigger] out@[i].0) && self@[out@[i].0.key()]
                    == out@[i].1 && near_cube(center, out@[i].0),
                forall|c: ChunkCoord| near_cube(center, c) && c.x < center.x + dx && self.resident(c) ==> exists|i: int|
                    0 <= i < out@.len() && #[trigger] out@[i].0 == c,
            decreases 2 - dx,
        {
            let mut dy: i32 = -1;
            while dy <= 1
                invariant
                    -1 <= dx <= 1,
                    -1 <= dy <= 2,
                    i32::MIN < center.x < i32::MAX,
                    i32::MIN < center.y < i32::MAX,
                    i32::MIN < center.z < i32::MAX,
                    forall|i: int| 0 <= i < out@.len() ==> self.resident(#[trigger] out@[i].0) && self@[out@[i].0.key()]
                        == out@[i].1 && near_cube(center, out@[i].0),
                    forall|c: ChunkCoord| near_cube(center, c) && (c.x < center.x + dx || (c.x == center.x + dx && c.y
                        < center.y + dy)) && self.resident(c) ==> exists|i: int| 0 <= i < out@.len() && #[trigger] out@[i].0 == c,
                decreases 2 - dy,
            {
                let mut dz: i32 = -1;
                while dz <= 1
                    invariant
                        -1 <= dx <= 1,
                        -1 <= dy <= 1,
                        -1 <= dz <= 2,
                        i32::MIN < center.x < i32::MAX,
                        i32::MIN < center.y < i32::MAX,
                        i32::MIN < center.z < i32::MAX,
                        forall|i: int| 0 <= i < out@.len() ==> self.resident(#[trigger] out@[i].0)
                            && self@[out@[i].0.key()] == out@[i].1 && near_cube(center, out@[i].0),
                        forall|c: ChunkCoord| near_cube(center, c) && (c.x < center.x + dx || (c.x == center.x + dx
                            && c.y < center.y + dy) || (c.x == center.x + dx && c.y == center.y + dy && c.z < center.z + dz))
                            && self.resident(c) ==> exists|i: int| 0 <= i < out@.len() && #[trigger] out@[i].0 == c,
                    decreases 2 - dz,
                {
                    let c = ChunkCoord { x: center.x + dx, y: center.y + dy, z: center.z + dz };
                    let ghost prev = out@;
                    match self.get(&c) {
                        Some(h) => {
                            out.push((c, h));
                            proof {
                                assert(out@[out@.len() - 1].0 == c);
                                assert forall|d: ChunkCoord| near_cube(center, d) && (d.x < center.x + dx || (d.x == center.x + dx
                                    && d.y < center.y + dy) || (d.x == center.x + dx && d.y == center.y + dy && d.z < center.z + dz))
                                    && self.resident(d) implies exists|i: int| 0 <= i < out@.len() && #[trigger] out@[i].0 == d by {
                                    let i = choose|i: int| 0 <= i < prev.len() && #[trigger] prev[i].0 == d;
                                    assert(out@[i].0 == d);
                                }
                            }
                        },
                        None => {},
                    }
                    dz = dz + 1;
                }
                dy = dy + 1;
            }
            dx = dx + 1;
        }
        out
    }

}

} // verus!
