//! The unit of streaming: a fixed-size cube of voxels with a dense value
//! table and a sparse, append-only list of the occupied indices.

use vstd::prelude::*;
use crate::block::BlockType;
use crate::coords::Coord3;
use crate::coords::VoxelError;

verus! {

/// Edge length of a chunk, in voxels.
pub const CHUNK_SIZE: usize = 20;

/// Number of voxels in a chunk: `CHUNK_SIZE` cubed.
pub const CHUNK_VOLUME: usize = 8000;

/// True when each axis of a local coordinate lies in `[0, CHUNK_SIZE)`.
pub open spec fn local_in_bounds(l: Coord3) -> bool {
    &&& 0 <= l.x < CHUNK_SIZE
    &&& 0 <= l.y < CHUNK_SIZE
    &&& 0 <= l.z < CHUNK_SIZE
}

/// The dense index of an in-bounds local coordinate:
/// `x * CHUNK_SIZE^2 + y * CHUNK_SIZE + z`.
pub open spec fn spec_index_of(l: Coord3) -> int {
    l.x * (CHUNK_SIZE * CHUNK_SIZE) + l.y * CHUNK_SIZE + l.z
}

/// The local coordinate of a dense index.
pub open spec fn spec_local_of(i: int) -> Coord3 {
    Coord3 {
        x: (i / (CHUNK_SIZE * CHUNK_SIZE) as int) as i32,
        y: ((i % (CHUNK_SIZE * CHUNK_SIZE) as int) / CHUNK_SIZE as int) as i32,
        z: (i % CHUNK_SIZE as int) as i32,
    }
}

/// True when some axis is outside `[0, CHUNK_SIZE)`: such a position
/// belongs to a neighboring chunk and must be resolved through the
/// registry, never through this chunk's own table.
pub open spec fn spec_is_outer(l: Coord3) -> bool {
    ||| l.x < 0 || l.x >= CHUNK_SIZE
    ||| l.y < 0 || l.y >= CHUNK_SIZE
    ||| l.z < 0 || l.z >= CHUNK_SIZE
}

/// True when some axis is on the chunk's boundary: a candidate for
/// cross-chunk face queries.
pub open spec fn spec_is_border(l: Coord3) -> bool {
    ||| l.x == 0 || l.x == CHUNK_SIZE - 1
    ||| l.y == 0 || l.y == CHUNK_SIZE - 1
    ||| l.z == 0 || l.z == CHUNK_SIZE - 1
}

/// Chunk positions for which every world position of the chunk, and of the
/// one-voxel shell around it, fits in an `i32`.
pub open spec fn chunk_pos_in_range(c: Coord3) -> bool {
    &&& -107374181 <= c.x <= 107374181
    &&& -107374181 <= c.y <= 107374181
    &&& -107374181 <= c.z <= 107374181
}

/// A fixed-size cube of voxels. Invariant: the occupancy list holds exactly
/// the indices whose table value is not air, each at most once. A chunk is
/// created empty, populated once by a generator, then read repeatedly;
/// clearing a voxel back to air is unsupported by design.
#[derive(Clone)]
pub struct Chunk {
    chunk_position: Coord3,
    voxels_table: Vec<BlockType>,
    voxels: Vec<usize>,
}

impl Chunk {
    /// The chunk-space position.
    pub closed spec fn spec_position(self) -> Coord3 {
        self.chunk_position
    }

    /// The dense voxel table, one material per index.
    pub closed spec fn spec_table(self) -> Seq<BlockType> {
        self.voxels_table@
    }

    /// The occupancy list: the indices of the non-air voxels, in insertion
    /// order.
    pub closed spec fn spec_occupied(self) -> Seq<usize> {
        self.voxels@
    }

    /// Well-formedness: the table has exactly one entry per voxel, and the
    /// occupancy list holds exactly the non-air indices, without
    /// duplicates.
    pub open spec fn wf(self) -> bool {
        &&& self.spec_table().len() == CHUNK_VOLUME
        &&& self.spec_occupied().no_duplicates()
        &&& forall|j: int|
            0 <= j < self.spec_occupied().len() ==> self.spec_occupied()[j] < CHUNK_VOLUME
        &&& forall|u: usize|
            u < CHUNK_VOLUME ==> (self.spec_table()[u as int] != BlockType::Air
                <==> #[trigger] self.spec_occupied().contains(u))
    }

    pub fn is_border(local_position: Coord3) -> (r: bool)
        ensures
            r == spec_is_border(local_position),
    {
        (local_position.x == 0) || (local_position.x == CHUNK_SIZE as i32 - 1)
            || (local_position.y == 0) || (local_position.y == CHUNK_SIZE as i32 - 1)
            || (local_position.z == 0) || (local_position.z == CHUNK_SIZE as i32 - 1)
    }

    pub fn is_outer(local_position: Coord3) -> (r: bool)
        ensures
            r == spec_is_outer(local_position),
    {
        (local_position.x < 0) || (local_position.x >= CHUNK_SIZE as i32)
            || (local_position.y < 0) || (local_position.y >= CHUNK_SIZE as i32)
            || (local_position.z < 0) || (local_position.z >= CHUNK_SIZE as i32)
    }

    /// True when no voxel has been set.
    pub fn is_empty(&self) -> (r: bool)
        ensures
            r == (self.spec_occupied().len() == 0),
    {
        self.voxels.len() == 0
    }

    /// The dense index of an in-bounds local coordinate.
    pub fn get_index(local_position: Coord3) -> (r: usize)
        requires
            local_in_bounds(local_position),
        ensures
            r == spec_index_of(local_position),
            r < CHUNK_VOLUME,
    {
        let c3d: (usize, usize, usize) = match local_position.to_usize3() {
            Ok(t) => t,
            Err(_) => {
                proof {
                    assert(false);
                }
                (0, 0, 0)
            },
        };
        assert(c3d.0 < CHUNK_SIZE && c3d.1 < CHUNK_SIZE && c3d.2 < CHUNK_SIZE);
        let sq: usize = CHUNK_SIZE * CHUNK_SIZE;
        c3d.0 * sq + c3d.1 * CHUNK_SIZE + c3d.2
    }

    /// The local coordinate of a dense index.
    pub fn get_local_position_from_index(index: usize) -> (r: Coord3)
        requires
            index < CHUNK_VOLUME,
        ensures
            r == spec_local_of(index as int),
            local_in_bounds(r),
            spec_index_of(r) == index,
    {
        proof {
            lemma_local_of_index(index as int);
        }
        Coord3 {
            x: (index / (CHUNK_SIZE * CHUNK_SIZE)) as i32,
            y: ((index % (CHUNK_SIZE * CHUNK_SIZE)) / CHUNK_SIZE) as i32,
            z: (index % CHUNK_SIZE) as i32,
        }
    }

    /// The world position of a local coordinate:
    /// `chunk_position * CHUNK_SIZE + local`.
    pub fn get_world_position(&self, local_position: Coord3) -> (r: Coord3)
        requires
            i32::MIN <= self.spec_position().x * CHUNK_SIZE + local_position.x <= i32::MAX,
            i32::MIN <= self.spec_position().y * CHUNK_SIZE + local_position.y <= i32::MAX,
            i32::MIN <= self.spec_position().z * CHUNK_SIZE + local_position.z <= i32::MAX,
        ensures
            r.x == self.spec_position().x * CHUNK_SIZE + local_position.x,
            r.y == self.spec_position().y * CHUNK_SIZE + local_position.y,
            r.z == self.spec_position().z * CHUNK_SIZE + local_position.z,
    {
        let wx = self.chunk_position.x as i64 * CHUNK_SIZE as i64 + local_position.x as i64;
        let wy = self.chunk_position.y as i64 * CHUNK_SIZE as i64 + local_position.y as i64;
        let wz = self.chunk_position.z as i64 * CHUNK_SIZE as i64 + local_position.z as i64;
        Coord3 { x: wx as i32, y: wy as i32, z: wz as i32 }
    }

    /// The material at an in-bounds local coordinate.
    pub fn get_voxel(&self, local_position: Coord3) -> (r: BlockType)
        requires
            self.wf(),
            local_in_bounds(local_position),
        ensures
            r == self.spec_table()[spec_index_of(local_position)],
    {
        let i = Chunk::get_index(local_position);
        self.voxels_table[i]
    }

    /// The material at a dense index.
    pub fn get_voxel_from_index(&self, index: usize) -> (r: BlockType)
        requires
            self.wf(),
            index < CHUNK_VOLUME,
        ensures
            r == self.spec_table()[index as int],
    {
        self.voxels_table[index]
    }

    /// Sets a voxel. Clearing to air is unsupported: it fails with
    /// `UnsupportedClear` and leaves the chunk untouched. On success the
    /// index is appended to the occupancy list exactly when the prior value
    /// was air, so the list never holds an index twice.
    pub fn set_voxel(&mut self, local_coord: Coord3, value: BlockType) -> (r: Result<
        (),
        VoxelError,
    >)
        requires
            old(self).wf(),
            local_in_bounds(local_coord),
        ensures
            value == BlockType::Air ==> r == Err::<(), VoxelError>(VoxelError::UnsupportedClear)
                && *final(self) == *old(self),
            value != BlockType::Air ==> {
                &&& r == Ok::<(), VoxelError>(())
                &&& final(self).wf()
                &&& final(self).spec_position() == old(self).spec_position()
                &&& final(self).spec_table() == old(self).spec_table().update(
                    spec_index_of(local_coord),
                    value,
                )
                &&& (old(self).spec_table()[spec_index_of(local_coord)] != BlockType::Air
                    ==> final(self).spec_occupied() == old(self).spec_occupied())
                &&& (old(self).spec_table()[spec_index_of(local_coord)] == BlockType::Air
                    ==> final(self).spec_occupied() == old(self).spec_occupied().push(
                    spec_index_of(local_coord) as usize,
                ))
            },
    {
        if value == BlockType::Air {
            return Err(VoxelError::UnsupportedClear);
        }
        let index = Chunk::get_index(local_coord);
        let prior = self.voxels_table[index];
        if prior == BlockType::Air {
            proof {
                assert(!old(self).spec_occupied().contains(index));
            }
            self.voxels.push(index);
        }
        self.voxels_table[index] = value;
        proof {
            lemma_set_voxel_wf(*old(self), *self, index, value);
        }
        Ok(())
    }

    /// The chunk-space position.
    pub fn get_chunk_position(&self) -> (r: Coord3)
        ensures
            r == self.spec_position(),
    {
        self.chunk_position
    }

    /// Moves the chunk to another chunk-space position.
    pub fn set_chunk_position(&mut self, chunk_position: Coord3)
        ensures
            final(self).spec_position() == chunk_position,
            final(self).spec_table() == old(self).spec_table(),
            final(self).spec_occupied() == old(self).spec_occupied(),
    {
        self.chunk_position = chunk_position;
    }

    /// The occupancy list: indices of non-air voxels in insertion order.
    pub fn get_voxels(&self) -> (r: &Vec<usize>)
        ensures
            r@ == self.spec_occupied(),
    {
        &self.voxels
    }
}

impl Default for Chunk {
    /// An empty chunk at the origin: every voxel is air.
    fn default() -> (r: Self)
        ensures
            r.wf(),
            r.spec_position() == (Coord3 { x: 0, y: 0, z: 0 }),
            r.spec_occupied() == Seq::<usize>::empty(),
            forall|i: int| 0 <= i < CHUNK_VOLUME ==> r.spec_table()[i] == BlockType::Air,
    {
        let mut table: Vec<BlockType> = Vec::new();
        let mut i: usize = 0;
        while i < CHUNK_VOLUME
            invariant
                i <= CHUNK_VOLUME,
                table@.len() == i,
                forall|j: int| 0 <= j < i ==> table@[j] == BlockType::Air,
            decreases CHUNK_VOLUME - i,
        {
            table.push(BlockType::Air);
            i += 1;
        }
        Chunk { chunk_position: Coord3 { x: 0, y: 0, z: 0 }, voxels_table: table, voxels: Vec::new() }
    }
}

/// Walks every local coordinate of a chunk, in dense-index order.
pub struct ChunkCoordsIterator {
    cnt: usize,
}

impl ChunkCoordsIterator {
    /// How many coordinates have been handed out so far.
    pub closed spec fn spec_cnt(self) -> usize {
        self.cnt
    }

    pub fn new() -> (r: ChunkCoordsIterator)
        ensures
            r.spec_cnt() == 0,
    {
        ChunkCoordsIterator { cnt: 0 }
    }

    /// The next local coordinate, or `None` after all of them.
    pub fn next(&mut self) -> (r: Option<Coord3>)
        ensures
            old(self).spec_cnt() < CHUNK_VOLUME ==> {
                &&& r == Some(spec_local_of(old(self).spec_cnt() as int))
                &&& final(self).spec_cnt() == old(self).spec_cnt() + 1
            },
            old(self).spec_cnt() >= CHUNK_VOLUME ==> {
                &&& r is None
                &&& final(self).spec_cnt() == old(self).spec_cnt()
            },
    {
        if self.cnt < CHUNK_VOLUME {
            self.cnt += 1;
            return Some(Chunk::get_local_position_from_index(self.cnt - 1));
        }
        None
    }
}

/// Helper: the table update of `set_voxel` preserves well-formedness.
proof fn lemma_set_voxel_wf(pre: Chunk, post: Chunk, index: usize, value: BlockType)
    requires
        pre.wf(),
        index < CHUNK_VOLUME,
        value != BlockType::Air,
        post.spec_table() == pre.spec_table().update(index as int, value),
        pre.spec_table()[index as int] != BlockType::Air ==> post.spec_occupied()
            == pre.spec_occupied(),
        pre.spec_table()[index as int] == BlockType::Air ==> post.spec_occupied()
            == pre.spec_occupied().push(index),
    ensures
        post.wf(),
{
    let pt = post.spec_table();
    let po = post.spec_occupied();
    assert(pt.len() == CHUNK_VOLUME);
    if pre.spec_table()[index as int] == BlockType::Air {
        assert(!pre.spec_occupied().contains(index));
        assert forall|i: int, j: int| 0 <= i < j < po.len() implies po[i] != po[j] by {
            if j < pre.spec_occupied().len() {
                assert(pre.spec_occupied().no_duplicates());
            } else {
                assert(po[j] == index);
                assert(po[i] == pre.spec_occupied()[i]);
                assert(pre.spec_occupied().contains(pre.spec_occupied()[i]));
            }
        }
        assert(po.no_duplicates());
        assert forall|u: usize| u < CHUNK_VOLUME implies (pt[u as int] != BlockType::Air
            <==> #[trigger] po.contains(u)) by {
            if u == index {
                assert(po[po.len() - 1] == index);
                assert(po.contains(index));
            } else {
                assert(pt[u as int] == pre.spec_table()[u as int]);
                if pre.spec_occupied().contains(u) {
                    let k = choose|k: int|
                        0 <= k < pre.spec_occupied().len() && pre.spec_occupied()[k] == u;
                    assert(po[k] == u);
                    assert(po.contains(u));
                }
                if po.contains(u) {
                    let k = choose|k: int| 0 <= k < po.len() && po[k] == u;
                    assert(k < pre.spec_occupied().len());
                    assert(pre.spec_occupied().contains(u));
                }
            }
        }
    } else {
        assert(po == pre.spec_occupied());
        assert forall|u: usize| u < CHUNK_VOLUME implies (pt[u as int] != BlockType::Air
            <==> #[trigger] po.contains(u)) by {
            if u == index {
                assert(pre.spec_table()[u as int] != BlockType::Air);
            } else {
                assert(pt[u as int] == pre.spec_table()[u as int]);
            }
        }
    }
}

/// The index of an in-bounds local coordinate is in range, and maps back to
/// the same coordinate: `get_index` and `get_local_position_from_index` are
/// a bijection over `[0, CHUNK_SIZE)^3`.
pub proof fn lemma_index_roundtrip(l: Coord3)
    requires
        local_in_bounds(l),
    ensures
        0 <= spec_index_of(l) < CHUNK_VOLUME,
        spec_local_of(spec_index_of(l)) == l,
{
    let s = CHUNK_SIZE as int;
    let i = spec_index_of(l);
    assert(i == l.x * (s * s) + (l.y * s + l.z));
    assert(0 <= l.y * s + l.z < s * s);
    vstd::arithmetic::div_mod::lemma_fundamental_div_mod_converse(
        i,
        s * s,
        l.x as int,
        l.y * s + l.z,
    );
    assert(i / (s * s) == l.x);
    assert(i % (s * s) == l.y * s + l.z);
    vstd::arithmetic::div_mod::lemma_fundamental_div_mod_converse(
        l.y * s + l.z,
        s,
        l.y as int,
        l.z as int,
    );
    assert((i % (s * s)) / s == l.y);
    assert(i == (l.x * s + l.y) * s + l.z);
    vstd::arithmetic::div_mod::lemma_fundamental_div_mod_converse(
        i,
        s,
        l.x * s + l.y,
        l.z as int,
    );
    assert(i % s == l.z);
}

/// Every dense index in range maps to an in-bounds local coordinate, and
/// back to itself: the other direction of the bijection.
pub proof fn lemma_local_of_index(i: int)
    requires
        0 <= i < CHUNK_VOLUME,
    ensures
        local_in_bounds(spec_local_of(i)),
        spec_index_of(spec_local_of(i)) == i,
{
    let s = CHUNK_SIZE as int;
    let x = i / (s * s);
    let m = i % (s * s);
    let y = m / s;
    let z = i % s;
    vstd::arithmetic::div_mod::lemma_fundamental_div_mod(i, s * s);
    assert(0 <= m < s * s);
    assert(i == (s * s) * x + m);
    assert(x < s) by {
        if x >= s {
            assert((s * s) * x >= (s * s) * s) by (nonlinear_arith)
                requires s > 0 && x >= s;
            assert(false);
        }
    }
    assert(x >= 0) by {
        if x < 0 {
            assert((s * s) * x <= (s * s) * -1) by (nonlinear_arith)
                requires s > 0 && x <= -1;
            assert(false);
        }
    }
    vstd::arithmetic::div_mod::lemma_fundamental_div_mod(m, s);
    assert(0 <= y < s);
    vstd::arithmetic::div_mod::lemma_fundamental_div_mod(i, s);
    assert(0 <= z < s);
    assert(m == s * y + (m % s));
    assert(s * (s * x + y) == (s * s) * x + s * y) by (nonlinear_arith);
    assert(i == s * (s * x + y) + (m % s));
    vstd::arithmetic::div_mod::lemma_fundamental_div_mod_converse(
        i,
        s,
        s * x + y,
        m % s,
    );
    assert(m % s == i % s);
    assert(spec_index_of(spec_local_of(i)) == x * (s * s) + y * s + z);
    assert(i == x * (s * s) + y * s + z);
}

/// Splitting a world coordinate by the chunk size: the chunk coordinate is
/// the floor of the quotient, the local remainder is in `[0, CHUNK_SIZE)`,
/// and together they recompose the world coordinate.
pub proof fn lemma_world_split(w: int)
    requires
        i32::MIN <= w <= i32::MAX,
    ensures
        0 <= w % (CHUNK_SIZE as int) < CHUNK_SIZE,
        w == (w / (CHUNK_SIZE as int)) * (CHUNK_SIZE as int) + w % (CHUNK_SIZE as int),
{
    vstd::arithmetic::div_mod::lemma_fundamental_div_mod(w, CHUNK_SIZE as int);
}

} // verus!
