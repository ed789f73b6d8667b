use vstd::prelude::*;
use crate::chunk::{block_code, cell_index, BlockId, Chunk};
use crate::coord::{chunk_of, world_pos_to_chunk_coord, ChunkCoord};
use crate::queues::no_dups;
use crate::storage::ChunkStorage;
use crate::store::{dirtied, ChunkStore};

verus! {

/// A block's position inside its chunk along one axis.
pub open spec fn local_of(w: int) -> int {
    w - 32 * chunk_of(w)
}

proof fn lemma_local_range(w: int)
    ensures
        0 <= local_of(w) < 32,
{
    assert(0 <= w - 32 * (w / 32) < 32) by (nonlinear_arith);
}

fn local_axis(w: i32, c: i32) -> (r: u32)
    requires
        c as int == chunk_of(w as int),
    ensures
        r as int == local_of(w as int),
        r < 32,
{
    proof {
        lemma_local_range(w as int);
    }
    (w as i64 - 32 * (c as i64)) as u32
}

pub open spec fn offset(c: ChunkCoord, dx: int, dy: int, dz: int) -> ChunkCoord {
    ChunkCoord { x: (c.x + dx) as i32, y: (c.y + dy) as i32, z: (c.z + dz) as i32 }
}

/// The neighbouring chunks whose faces an edit at cell (lx, ly, lz) of
/// chunk `c` touches: one across each border that the cell lies on.
pub open spec fn touched_neighbor(c: ChunkCoord, lx: int, ly: int, lz: int, n: ChunkCoord) -> bool {
    (lx == 0 && n == offset(c, -1, 0, 0)) || (lx == 31 && n == offset(c, 1, 0, 0)) || (ly == 0 && n == offset(
        c,
        0,
        -1,
        0,
    )) || (ly == 31 && n == offset(c, 0, 1, 0)) || (lz == 0 && n == offset(c, 0, 0, -1)) || (lz == 31 && n
        == offset(c, 0, 0, 1))
}

/// Chunk coordinates that have a neighbour on every side.
pub open spec fn inner_coord(c: ChunkCoord) -> bool {
    i32::MIN < c.x < i32::MAX && i32::MIN < c.y < i32::MAX && i32::MIN < c.z < i32::MAX
}

fn push_new(r: &mut Vec<ChunkCoord>, n: ChunkCoord)
    requires
        no_dups(old(r)@),
        !old(r)@.contains(n),
    ensures
        no_dups(final(r)@),
        forall|x: ChunkCoord| final(r)@.contains(x) <==> (old(r)@.contains(x) || x == n),
{
    let ghost prev = r@;
    r.push(n);
    proof {
        assert forall|x: ChunkCoord| r@.contains(x) <==> (prev.contains(x) || x == n) by {
            crate::queues::lemma_push_contains(prev, n, x);
        }
        assert forall|i: int, j: int| 0 <= i < j < r@.len() implies r@[i] != r@[j] by {
            if j == r@.len() - 1 {
                assert(prev.contains(r@[i]));
            }
        }
    }
}

pub fn neighbors_touched(c: ChunkCoord, lx: u32, ly: u32, lz: u32) -> (r: Vec<ChunkCoord>)
    requires
        inner_coord(c),
    ensures
        no_dups(r@),
        forall|n: ChunkCoord| r@.contains(n) <==> touched_neighbor(c, lx as int, ly as int, lz as int, n),
{
    let mut r: Vec<ChunkCoord> = Vec::new();
    if lx == 0 {
        push_new(&mut r, ChunkCoord { x: c.x - 1, y: c.y, z: c.z });
    }
    if lx == 31 {
        push_new(&mut r, ChunkCoord { x: c.x + 1, y: c.y, z: c.z });
    }
    if ly == 0 {
        push_new(&mut r, ChunkCoord { x: c.x, y: c.y - 1, z: c.z });
    }
    if ly == 31 {
        push_new(&mut r, ChunkCoord { x: c.x, y: c.y + 1, z: c.z });
    }
    if lz == 0 {
        push_new(&mut r, ChunkCoord { x: c.x, y: c.y, z: c.z - 1 });
    }
    if lz == 31 {
        push_new(&mut r, ChunkCoord { x: c.x, y: c.y, z: c.z + 1 });
    }
    r
}

/// Where a block lives: its chunk and its cell in that chunk.
pub fn locate_block(wx: i32, wy: i32, wz: i32) -> (r: (ChunkCoord, (u32, u32, u32)))
    ensures
        r.0.x as int == chunk_of(wx as int) && r.0.y as int == chunk_of(wy as int) && r.0.z as int == chunk_of(wz as int),
        r.1.0 as int == local_of(wx as int) && r.1.1 as int == local_of(wy as int) && r.1.2 as int == local_of(wz as int),
        r.1.0 < 32 && r.1.1 < 32 && r.1.2 < 32,
{
    let c = world_pos_to_chunk_coord(wx, wy, wz);
    (c, (local_axis(wx, c.x), local_axis(wy, c.y), local_axis(wz, c.z)))
}

/// The chunk that holds a block.
pub open spec fn edit_target(wx: i32, wy: i32, wz: i32) -> ChunkCoord {
    ChunkCoord { x: chunk_of(wx as int) as i32, y: chunk_of(wy as int) as i32, z: chunk_of(wz as int) as i32 }
}

/// The cell that holds a block, in its chunk.
pub open spec fn edit_cell(wx: i32, wy: i32, wz: i32) -> int {
    cell_index(local_of(wx as int), local_of(wy as int), local_of(wz as int))
}

/// `k` is the handle of a resident chunk across a border face of the
/// edited cell.
pub open spec fn touched_handle(map: &ChunkStorage, wx: i32, wy: i32, wz: i32, k: u64) -> bool {
    exists|n: ChunkCoord|
        touched_neighbor(edit_target(wx, wy, wz), local_of(wx as int), local_of(wy as int), local_of(wz as int), n)
            && #[trigger] map.resident(n) && map@[n.key()] == k
}

/// What an edit of the block at (wx, wy, wz) does to the chunk store: when
/// the block's chunk is resident and held, its cell takes the new block, its
/// solid index is rebuilt and it turns dirty; each other held chunk across
/// a border face of the cell turns dirty and keeps its blocks; every other
/// chunk is unchanged. Otherwise nothing changes.
pub open spec fn block_edit(
    map: &ChunkStorage,
    before: Map<u64, Chunk>,
    after: Map<u64, Chunk>,
    wx: i32,
    wy: i32,
    wz: i32,
    id: BlockId,
    r: bool,
) -> bool {
    let c = edit_target(wx, wy, wz);
    let h = map@[c.key()];
    &&& r == (map.resident(c) && before.contains_key(h))
    &&& !r ==> after == before
    &&& r ==> {
        &&& after.dom() == before.dom()
        &&& after[h].blocks@ == before[h].blocks@.update(edit_cell(wx, wy, wz), block_code(id))
        &&& after[h].coord == before[h].coord
        &&& after[h].dirty
        &&& after[h].solid_index_exact()
        &&& forall|k: u64| k != h && #[trigger] before.contains_key(k) && touched_handle(map, wx, wy, wz, k) ==> dirtied(
            before[k],
            after[k],
        )
        &&& forall|k: u64| k != h && #[trigger] before.contains_key(k) && !touched_handle(map, wx, wy, wz, k) ==> after[k]
            == before[k]
    }
}

/// Writes a block into the world: finds its chunk through the map, writes
/// the cell, rebuilds the chunk's solid index and marks it dirty, and marks
/// dirty the resident chunks across any border face of the cell. Returns
/// whether the chunk was resident.
pub fn place_block(map: &ChunkStorage, store: &mut ChunkStore, wx: i32, wy: i32, wz: i32, id: BlockId) -> (r: bool)
    requires
        old(store).wf(),
    ensures
        final(store).wf(),
        block_edit(map, old(store).held(), final(store).held(), wx, wy, wz, id, r),
{
    let (c, (lx, ly, lz)) = locate_block(wx, wy, wz);
    assert(c == edit_target(wx, wy, wz));
    let h = match map.get(&c) {
        None => {
            return false;
        },
        Some(h) => h,
    };
    if !store.contains(h) {
        return false;
    }
    assert(-67108864 <= c.x <= 67108863 && -67108864 <= c.y <= 67108863 && -67108864 <= c.z <= 67108863) by {
        assert(i32::MIN as int / 32 == -67108864);
        assert(i32::MAX as int / 32 == 67108863);
    }
    let nbs = neighbors_touched(c, lx, ly, lz);
    let ghost before = store.held();
    let mut i: usize = 0;
    while i < nbs.len()
        invariant
            store.wf(),
            i <= nbs@.len(),
            store.held().dom() == before.dom(),
            before.contains_key(h),
            h == map@[c.key()],
            c == edit_target(wx, wy, wz),
            lx as int == local_of(wx as int) && ly as int == local_of(wy as int) && lz as int == local_of(wz as int),
            store.held()[h] == before[h],
            forall|n: ChunkCoord| nbs@.contains(n) <==> touched_neighbor(c, lx as int, ly as int, lz as int, n),
            forall|k: u64| #[trigger] before.contains_key(k) ==> store.held()[k] == before[k] || (k != h
                && touched_handle(map, wx, wy, wz, k) && dirtied(before[k], store.held()[k])),
            forall|j: int| 0 <= j < i && map.resident(#[trigger] nbs@[j]) && map@[nbs@[j].key()] != h
                && before.contains_key(map@[nbs@[j].key()]) ==> dirtied(
                before[map@[nbs@[j].key()]],
                store.held()[map@[nbs@[j].key()]],
            ),
        decreases nbs@.len() - i,
    {
        let n = nbs[i];
        let ghost cur = store.held();
        match map.get(&n) {
            Some(hn) => {
                if hn != h {
                    proof {
                        assert(nbs@.contains(n));
                        assert(touched_handle(map, wx, wy, wz, hn));
                    }
                    store.mark_dirty(hn);
                }
            },
            None => {},
        }
        i = i + 1;
    }
    let ghost marked = store.held();
    let mut chunk = match store.remove(h) {
        Some(ch) => ch,
        None => {
            return false;
        },
    };
    chunk.set_block(lx, ly, lz, id);
    store.insert(h, chunk);
    proof {
        assert(store.held().dom() =~= before.dom());
        assert forall|k: u64| k != h && #[trigger] before.contains_key(k) && touched_handle(map, wx, wy, wz, k)
            implies dirtied(before[k], store.held()[k]) by {
            let n = choose|n: ChunkCoord|
                touched_neighbor(edit_target(wx, wy, wz), local_of(wx as int), local_of(wy as int), local_of(wz as int), n)
                    && #[trigger] map.resident(n) && map@[n.key()] == k;
            assert(nbs@.contains(n));
            let j = choose|j: int| 0 <= j < nbs@.len() && nbs@[j] == n;
            assert(map.resident(nbs@[j]));
        }
    }
    true
}

/// Clears the block at a world position: `place_block` with air.
pub fn destroy_block(map: &ChunkStorage, store: &mut ChunkStore, wx: i32, wy: i32, wz: i32) -> (r: bool)
    requires
        old(store).wf(),
    ensures
        final(store).wf(),
        block_edit(map, old(store).held(), final(store).held(), wx, wy, wz, BlockId::Air, r),
{
    place_block(map, store, wx, wy, wz, BlockId::Air)
}

} // verus!
