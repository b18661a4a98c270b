use vstd::prelude::*;
use std::collections::HashMap;
use crate::voxel::Voxel;
use crate::chunk::{Chunk, CHUNK_VOLUME, local_index, lemma_chunk_len};

verus! {

broadcast use lemma_chunk_len;

/// Chunk-grid coordinates.
pub type ChunkPos = (i32, i32, i32);

/// The chunk coordinate of world coordinate `w` (`floor(w / 16)`).
pub open spec fn chunk_coord(w: i32) -> i32 {
    (w as int / 16) as i32
}

/// The local coordinate of world coordinate `w` inside its chunk (`w mod 16`).
pub open spec fn local_coord(w: i32) -> u8 {
    (w as int % 16) as u8
}

/// The chunk that holds world position `(wx, wy, wz)`.
pub open spec fn chunk_of(wx: i32, wy: i32, wz: i32) -> ChunkPos {
    (chunk_coord(wx), chunk_coord(wy), chunk_coord(wz))
}

/// The position of world position `(wx, wy, wz)` in its chunk's cells.
pub open spec fn cell_index(wx: i32, wy: i32, wz: i32) -> int {
    local_index(local_coord(wx) as int, local_coord(wy) as int, local_coord(wz) as int)
}

/// The voxel at a world position of a world whose chunks are `m`:
/// `Air` where no chunk has been created.
pub open spec fn voxel_in(m: Map<ChunkPos, Seq<Voxel>>, wx: i32, wy: i32, wz: i32) -> Voxel {
    if m.contains_key(chunk_of(wx, wy, wz)) {
        m[chunk_of(wx, wy, wz)][cell_index(wx, wy, wz)]
    } else {
        Voxel::Air
    }
}

/// The voxel at each world position.
pub type VoxelMap = Map<(i32, i32, i32), Voxel>;

/// The voxel at every world position of a world whose chunks are `m`.
pub open spec fn voxels_of(m: Map<ChunkPos, Seq<Voxel>>) -> VoxelMap {
    Map::new(|p: (i32, i32, i32)| true, |p: (i32, i32, i32)| voxel_in(m, p.0, p.1, p.2))
}

/// A world that is `Air` everywhere.
pub open spec fn all_air() -> VoxelMap {
    Map::new(|p: (i32, i32, i32)| true, |p: (i32, i32, i32)| Voxel::Air)
}

/// The cells of a chunk that is created on demand: all `Air`.
pub open spec fn air_cells() -> Seq<Voxel> {
    Seq::new(CHUNK_VOLUME as nat, |i: int| Voxel::Air)
}

/// The hash key under which the chunk at `c` is stored.
pub open spec fn key_of(c: ChunkPos) -> u128 {
    ((c.0 as u32 as u128) << 64u128) | ((c.1 as u32 as u128) << 32u128) | (c.2 as u32 as u128)
}

/// Distinct chunk positions have distinct keys.
pub proof fn lemma_key_injective(a: ChunkPos, b: ChunkPos)
    ensures
        key_of(a) == key_of(b) ==> a == b,
{
    let (a0, a1, a2) = a;
    let (b0, b1, b2) = b;
    assert(((a0 as u32 as u128) << 64u128) | ((a1 as u32 as u128) << 32u128) | (a2 as u32 as u128)
        == ((b0 as u32 as u128) << 64u128) | ((b1 as u32 as u128) << 32u128) | (b2 as u32 as u128)
        ==> a0 == b0 && a1 == b1 && a2 == b2) by (bit_vector);
}

/// Helper: world position → chunk coordinates and local offset.
pub(crate) fn world_to_chunk(wx: i32, wy: i32, wz: i32) -> (r: (ChunkPos, (u8, u8, u8)))
    ensures
        r.0 == chunk_of(wx, wy, wz),
        r.1 == (local_coord(wx), local_coord(wy), local_coord(wz)),
        r.1.0 < 16 && r.1.1 < 16 && r.1.2 < 16,
{
    let cx: i32 = wx.checked_div_euclid(CHUNK_SIZE_I32).unwrap();
    let cy: i32 = wy.checked_div_euclid(CHUNK_SIZE_I32).unwrap();
    let cz: i32 = wz.checked_div_euclid(CHUNK_SIZE_I32).unwrap();
    let lx: u8 = wx.checked_rem_euclid(CHUNK_SIZE_I32).unwrap() as u8;
    let ly: u8 = wy.checked_rem_euclid(CHUNK_SIZE_I32).unwrap() as u8;
    let lz: u8 = wz.checked_rem_euclid(CHUNK_SIZE_I32).unwrap() as u8;
    ((cx, cy, cz), (lx, ly, lz))
}

/// `CHUNK_SIZE` as a signed world-coordinate step.
pub const CHUNK_SIZE_I32: i32 = 16;

fn chunk_key(c: ChunkPos) -> (k: u128)
    ensures
        k == key_of(c),
{
    ((c.0 as u32 as u128) << 64u128) | ((c.1 as u32 as u128) << 32u128) | (c.2 as u32 as u128)
}

/// The chunks of a world, keyed by position, from its hash table.
pub open spec fn chunks_by_pos(m: Map<u128, Chunk>) -> Map<ChunkPos, Seq<Voxel>> {
    Map::new(|c: ChunkPos| m.contains_key(key_of(c)), |c: ChunkPos| m[key_of(c)]@)
}

proof fn lemma_chunks_by_pos_insert(m: Map<u128, Chunk>, c: ChunkPos, ch: Chunk)
    ensures
        chunks_by_pos(m.insert(key_of(c), ch)) =~= chunks_by_pos(m).insert(c, ch@),
{
    assert forall|d: ChunkPos| d != c implies key_of(d) != key_of(c) by {
        lemma_key_injective(d, c);
    }
}

/// The chunks of a world after setting the voxel at `(wx, wy, wz)` to `v`:
/// its chunk (created all `Air` if missing) has that one cell replaced.
pub open spec fn set_in(m: Map<ChunkPos, Seq<Voxel>>, wx: i32, wy: i32, wz: i32, v: Voxel) -> Map<
    ChunkPos,
    Seq<Voxel>,
> {
    m.insert(
        chunk_of(wx, wy, wz),
        (if m.contains_key(chunk_of(wx, wy, wz)) {
            m[chunk_of(wx, wy, wz)]
        } else {
            air_cells()
        }).update(cell_index(wx, wy, wz), v),
    )
}

/// Every chunk of `m` holds a full chunk of cells.
pub open spec fn cells_valid(m: Map<ChunkPos, Seq<Voxel>>) -> bool {
    forall|c: ChunkPos| #[trigger] m.contains_key(c) ==> m[c].len() == CHUNK_VOLUME
}

/// A world position is determined by its chunk and its place in the chunk.
pub proof fn lemma_world_pos_unique(wx: i32, wy: i32, wz: i32, qx: i32, qy: i32, qz: i32)
    requires
        chunk_of(wx, wy, wz) == chunk_of(qx, qy, qz),
        cell_index(wx, wy, wz) == cell_index(qx, qy, qz),
    ensures
        wx == qx && wy == qy && wz == qz,
{
    crate::chunk::lemma_coords_of_index(local_coord(wx) as int, local_coord(wy) as int, local_coord(wz) as int);
    crate::chunk::lemma_coords_of_index(local_coord(qx) as int, local_coord(qy) as int, local_coord(qz) as int);
}

/// Reading a voxel after writing one: the written position reads back the
/// written voxel, and every other position reads as before.
pub proof fn law_read_after_write(
    m: Map<ChunkPos, Seq<Voxel>>,
    wx: i32,
    wy: i32,
    wz: i32,
    v: Voxel,
    qx: i32,
    qy: i32,
    qz: i32,
)
    requires
        cells_valid(m),
    ensures
        voxel_in(set_in(m, wx, wy, wz, v), qx, qy, qz) == if (qx, qy, qz) == (wx, wy, wz) {
            v
        } else {
            voxel_in(m, qx, qy, qz)
        },
{
    crate::chunk::lemma_coords_of_index(local_coord(wx) as int, local_coord(wy) as int, local_coord(wz) as int);
    if chunk_of(wx, wy, wz) == chunk_of(qx, qy, qz) && cell_index(wx, wy, wz) == cell_index(qx, qy, qz) {
        lemma_world_pos_unique(wx, wy, wz, qx, qy, qz);
    }
}

/// A collection of chunks forming the voxel world.
#[derive(Debug)]
pub struct World {
    chunks: HashMap<u128, Chunk>,
}

impl World {
    /// Every chunk is stored under the key of its own position.
    #[verifier::type_invariant]
    closed spec fn chunks_keyed_by_position(self) -> bool {
        forall|k: u128| #[trigger] self.chunks@.contains_key(k) ==> key_of(self.chunks@[k].position()) == k
    }
}

impl Clone for World {
    /// A copy of the world with the same chunks.
    fn clone(&self) -> (w: Self)
        ensures
            w@ == self@,
            w.chunk_map() == self.chunk_map(),
    {
        proof {
            use_type_invariant(self);
        }
        World { chunks: self.chunks.clone() }
    }
}

impl Default for World {
    /// An empty world.
    fn default() -> (w: Self)
        ensures
            w@ == all_air(),
    {
        Self::new()
    }
}

impl World {
    /// The world's chunks: the cells of each chunk that exists, by position.
    pub closed spec fn chunk_map(&self) -> Map<ChunkPos, Seq<Voxel>> {
        chunks_by_pos(self.chunks@)
    }
}

impl View for World {
    type V = VoxelMap;

    /// The voxel at every world position.
    open spec fn view(&self) -> VoxelMap {
        voxels_of(self.chunk_map())
    }
}

impl World {
    /// The voxel at world coordinates.
    pub open spec fn voxel_at(&self, wx: i32, wy: i32, wz: i32) -> Voxel {
        voxel_in(self.chunk_map(), wx, wy, wz)
    }

    /// Create an empty world.
    pub fn new() -> (w: Self)
        ensures
            w@ == all_air(),
            w.chunk_map() == Map::<ChunkPos, Seq<Voxel>>::empty(),
            forall|x: i32, y: i32, z: i32| #[trigger] w.voxel_at(x, y, z) == Voxel::Air,
    {
        let w = World { chunks: HashMap::new() };
        assert(w.chunk_map() =~= Map::<ChunkPos, Seq<Voxel>>::empty());
        assert(w@ =~= all_air());
        w
    }

    /// Set a voxel at world coordinates, creating its chunk (all `Air`)
    /// first if it does not exist.
    pub fn set_voxel(&mut self, wx: i32, wy: i32, wz: i32, v: Voxel)
        ensures
            final(self)@ == old(self)@.insert((wx, wy, wz), v),
            final(self).chunk_map() == set_in(old(self).chunk_map(), wx, wy, wz, v),
            forall|qx: i32, qy: i32, qz: i32| #[trigger] final(self).voxel_at(qx, qy, qz) == if (qx, qy, qz)
                == (wx, wy, wz) {
                v
            } else {
                old(self).voxel_at(qx, qy, qz)
            },
    {
        proof {
            use_type_invariant(&*self);
        }
        let (cc, local) = world_to_chunk(wx, wy, wz);
        let key: u128 = chunk_key(cc);
        let ghost old_map = self.chunks@;
        // Work on the table outside `self`, so that the world's invariant
        // holds at every call.
        let mut chunks = HashMap::new();
        std::mem::swap(&mut chunks, &mut self.chunks);
        let chunk = chunks.entry(key).or_insert(Chunk::new(cc.0, cc.1, cc.2));
        chunk.set(local.0, local.1, local.2, v);
        proof {
            assert forall|k: u128| #[trigger] chunks@.contains_key(k) implies key_of(chunks@[k].position()) == k by {
                if k != key {
                    assert(old_map.contains_key(k));
                }
            }
        }
        self.chunks = chunks;
        proof {
            lemma_chunks_by_pos_insert(old_map, cc, self.chunks@[key]);
            assert forall|qx: i32, qy: i32, qz: i32| #[trigger] self.voxel_at(qx, qy, qz) == if (qx, qy, qz)
                == (wx, wy, wz) {
                v
            } else {
                voxel_in(chunks_by_pos(old_map), qx, qy, qz)
            } by {
                law_read_after_write(chunks_by_pos(old_map), wx, wy, wz, v, qx, qy, qz);
            }
            assert(self@ =~= voxels_of(chunks_by_pos(old_map)).insert((wx, wy, wz), v));
        }
    }

    pub(crate) fn insert_chunk(&mut self, pos: ChunkPos, chunk: Chunk)
        requires
            chunk.position() == pos,
        ensures
            final(self).chunk_map() == old(self).chunk_map().insert(pos, chunk@),
    {
        proof {
            use_type_invariant(&*self);
        }
        let ghost old_map = self.chunks@;
        let mut chunks = HashMap::new();
        std::mem::swap(&mut chunks, &mut self.chunks);
        chunks.insert(chunk_key(pos), chunk);
        self.chunks = chunks;
        proof {
            lemma_chunks_by_pos_insert(old_map, pos, chunk);
        }
    }

    /// Get the voxel at world coordinates (returns `Air` if chunk absent).
    pub fn get_voxel(&self, wx: i32, wy: i32, wz: i32) -> (v: Voxel)
        ensures
            v == self@[(wx, wy, wz)],
            v == self.voxel_at(wx, wy, wz),
    {
        let (cc, local) = world_to_chunk(wx, wy, wz);
        match self.chunks.get(&chunk_key(cc)) {
            Some(chunk) => chunk.get(local.0, local.1, local.2),
            None => Voxel::Air,
        }
    }
}

} // verus!
