use vstd::prelude::*;
use crate::voxel::Voxel;
use crate::chunk::{
    Chunk, CHUNK_SIZE, CHUNK_VOLUME, local_index, in_chunk, coords_of, lemma_chunk_len,
    lemma_cells_by_coords, lemma_index_of_coords,
};
use crate::world::{
    World, ChunkPos, VoxelMap, CHUNK_SIZE_I32, voxel_in, voxels_of, chunk_coord, local_coord,
    cell_index,
};

verus! {

broadcast use lemma_chunk_len;

/// The voxel at height `wy` of a column whose surface is at `ground`: stone
/// below it, grass on it, air above.
pub open spec fn flat_voxel(wy: int, ground: int) -> Voxel {
    if wy < ground {
        Voxel::Stone
    } else if wy == ground {
        Voxel::Grass
    } else {
        Voxel::Air
    }
}

/// The cells of a chunk at chunk height `cy` in a flat world.
pub open spec fn flat_cells(cy: int, ground: int) -> Seq<Voxel> {
    Seq::new(CHUNK_VOLUME as nat, |i: int| flat_voxel(16 * cy + coords_of(i).1, ground))
}

/// Whether a flat world of radius `r` and ground level `ground` has a chunk at
/// `c`: within the radius horizontally, and at the ground's chunk height or
/// from 0 up to below it.
pub open spec fn flat_has_chunk(r: int, ground: int, c: ChunkPos) -> bool {
    &&& -r <= c.0 <= r
    &&& -r <= c.2 <= r
    &&& (c.1 == ground / 16 || 0 <= c.1 < ground / 16)
}

/// The chunks of the flat world of radius `r` with ground level `ground`.
pub open spec fn flat_world(r: int, ground: int) -> Map<ChunkPos, Seq<Voxel>> {
    Map::new(|c: ChunkPos| flat_has_chunk(r, ground, c), |c: ChunkPos| flat_cells(c.1 as int, ground))
}

/// The chunks of one column `(cx, cz)` of a flat world.
pub open spec fn flat_column(cx: i32, cz: i32, ground: int) -> Map<ChunkPos, Seq<Voxel>> {
    Map::new(
        |c: ChunkPos| c.0 == cx && c.2 == cz && (c.1 == ground / 16 || 0 <= c.1 < ground / 16),
        |c: ChunkPos| flat_cells(c.1 as int, ground),
    )
}

/// The chunks of a flat world in the columns before `(cx, cz)`, columns
/// ordered by `cx`, then `cz`.
pub open spec fn flat_prefix(r: int, ground: int, cx: int, cz: int) -> Map<ChunkPos, Seq<Voxel>> {
    Map::new(
        |c: ChunkPos| flat_has_chunk(r, ground, c) && (c.0 < cx || (c.0 == cx && c.2 < cz)),
        |c: ChunkPos| flat_cells(c.1 as int, ground),
    )
}

proof fn lemma_flat_prefix_step(r: int, ground: int, cx: int, cz: int)
    requires
        r <= i32::MAX,
        -r <= cx <= r,
        -r <= cz <= r,
    ensures
        flat_prefix(r, ground, cx, cz).union_prefer_right(flat_column(cx as i32, cz as i32, ground))
            =~= flat_prefix(r, ground, cx, cz + 1),
{
}

proof fn lemma_flat_prefix_row(r: int, ground: int, cx: int)
    requires
        -r <= cx <= r,
    ensures
        flat_prefix(r, ground, cx, r + 1) =~= flat_prefix(r, ground, cx + 1, -r),
{
}

/// A terrain column: the world column `(x, z)` and its surface height.
pub type Heights = Map<(i32, i32), i32>;

/// The world column of local column `(lx, lz)` of chunk column `(cx, cz)`.
pub open spec fn column_pos(cx: int, cz: int, lx: int, lz: int) -> (i32, i32) {
    ((16 * cx + lx) as i32, (16 * cz + lz) as i32)
}

/// World column `p` lies in chunk column `(cx, cz)`.
pub open spec fn in_chunk_column(p: (i32, i32), cx: int, cz: int) -> bool {
    p.0 as int / 16 == cx && p.1 as int / 16 == cz
}

/// World column `(x, z)` lies within chunk radius `r` of the origin.
pub open spec fn in_radius(r: int, p: (i32, i32)) -> bool {
    -r <= p.0 as int / 16 <= r && -r <= p.1 as int / 16 <= r
}

/// The cells of chunk `(cx, cy, cz)` of terrain whose columns have the
/// surface heights `hm`: stone below the surface, grass on it, air above.
pub open spec fn terrain_cells(hm: Heights, cx: int, cy: int, cz: int) -> Seq<Voxel> {
    Seq::new(
        CHUNK_VOLUME as nat,
        |i: int|
            flat_voxel(
                16 * cy + coords_of(i).1,
                hm[column_pos(cx, cz, coords_of(i).0, coords_of(i).2)] as int,
            ),
    )
}

/// Some column of chunk column `(cx, cz)` reaches chunk height `cy`.
pub open spec fn column_reaches(hm: Heights, cx: int, cz: int, cy: int) -> bool {
    exists|lx: int, lz: int|
        0 <= lx < 16 && 0 <= lz < 16 && #[trigger] hm[column_pos(cx, cz, lx, lz)] >= 16 * cy
}

/// Whether terrain of chunk radius `r` and surface heights `hm` has a chunk
/// at `c`: within the radius horizontally, at chunk height 0 or above, and
/// reached by some column of its chunk column.
pub open spec fn terrain_has_chunk(r: int, hm: Heights, c: ChunkPos) -> bool {
    &&& -r <= c.0 <= r
    &&& -r <= c.2 <= r
    &&& 0 <= c.1
    &&& column_reaches(hm, c.0 as int, c.2 as int, c.1 as int)
}

/// The chunks of terrain of chunk radius `r` with surface heights `hm`.
pub open spec fn terrain_world(r: int, hm: Heights) -> Map<ChunkPos, Seq<Voxel>> {
    Map::new(
        |c: ChunkPos| terrain_has_chunk(r, hm, c),
        |c: ChunkPos| terrain_cells(hm, c.0 as int, c.1 as int, c.2 as int),
    )
}

/// Chunk column `(a, b)` comes before `(cx, cz)`, ordered by x, then z.
pub open spec fn column_before(a: int, b: int, cx: int, cz: int) -> bool {
    a < cx || (a == cx && b < cz)
}

/// The chunks of terrain in the chunk columns before `(cx, cz)`.
pub open spec fn terrain_prefix(r: int, hm: Heights, cx: int, cz: int) -> Map<ChunkPos, Seq<Voxel>> {
    Map::new(
        |c: ChunkPos| terrain_has_chunk(r, hm, c) && column_before(c.0 as int, c.2 as int, cx, cz),
        |c: ChunkPos| terrain_cells(hm, c.0 as int, c.1 as int, c.2 as int),
    )
}

/// The chunks of one terrain chunk column `(cx, cz)`.
pub open spec fn terrain_column(hm: Heights, cx: i32, cz: i32) -> Map<ChunkPos, Seq<Voxel>> {
    Map::new(
        |c: ChunkPos| c.0 == cx && c.2 == cz && 0 <= c.1 && column_reaches(hm, cx as int, cz as int, c.1 as int),
        |c: ChunkPos| terrain_cells(hm, cx as int, c.1 as int, cz as int),
    )
}

/// Chunk coordinates whose columns have world x and z in `i32`.
pub open spec fn column_in_range(cx: int, cz: int) -> bool {
    -134217728 <= cx <= 134217727 && -134217728 <= cz <= 134217727
}

/// Terrain built from two height maps that agree on chunk column `(cx, cz)`
/// is the same in that column.
proof fn lemma_terrain_agree(h1: Heights, h2: Heights, cx: int, cz: int)
    requires
        forall|lx: int, lz: int|
            0 <= lx < 16 && 0 <= lz < 16 ==> #[trigger] h1[column_pos(cx, cz, lx, lz)] == h2[column_pos(
                cx,
                cz,
                lx,
                lz,
            )],
    ensures
        forall|cy: int| #[trigger] terrain_cells(h1, cx, cy, cz) == terrain_cells(h2, cx, cy, cz),
        forall|cy: int| #[trigger] column_reaches(h1, cx, cz, cy) == column_reaches(h2, cx, cz, cy),
{
    assert forall|cy: int| #[trigger] terrain_cells(h1, cx, cy, cz) =~= terrain_cells(h2, cx, cy, cz) by {
        assert forall|i: int| 0 <= i < CHUNK_VOLUME implies terrain_cells(h1, cx, cy, cz)[i]
            == terrain_cells(h2, cx, cy, cz)[i] by {
            lemma_index_of_coords(i);
        }
    }
    assert forall|cy: int| #[trigger] column_reaches(h1, cx, cz, cy) implies column_reaches(h2, cx, cz, cy) by {
        let (lx, lz) = choose|lx: int, lz: int|
            0 <= lx < 16 && 0 <= lz < 16 && #[trigger] h1[column_pos(cx, cz, lx, lz)] >= 16 * cy;
        assert(h2[column_pos(cx, cz, lx, lz)] >= 16 * cy);
    }
    assert forall|cy: int| #[trigger] column_reaches(h2, cx, cz, cy) implies column_reaches(h1, cx, cz, cy) by {
        let (lx, lz) = choose|lx: int, lz: int|
            0 <= lx < 16 && 0 <= lz < 16 && #[trigger] h2[column_pos(cx, cz, lx, lz)] >= 16 * cy;
        assert(h1[column_pos(cx, cz, lx, lz)] >= 16 * cy);
    }
}

/// Positions of a chunk column within the coordinate range lie in that
/// chunk column and nowhere else.
proof fn lemma_column_pos(cx: int, cz: int, lx: int, lz: int)
    requires
        column_in_range(cx, cz),
        0 <= lx < 16,
        0 <= lz < 16,
    ensures
        column_pos(cx, cz, lx, lz).0 == 16 * cx + lx,
        column_pos(cx, cz, lx, lz).1 == 16 * cz + lz,
        in_chunk_column(column_pos(cx, cz, lx, lz), cx, cz),
{
}

/// Adding the next chunk column to the terrain built so far.
proof fn lemma_terrain_prefix_step(r: int, hm: Heights, cm: Heights, cx: int, cz: int)
    requires
        0 <= r <= 134217727,
        -r <= cx <= r,
        -r <= cz <= r,
        forall|p: (i32, i32)| #[trigger] hm.contains_key(p) <==> in_radius(r, p) && column_before(
            p.0 as int / 16,
            p.1 as int / 16,
            cx,
            cz,
        ),
        forall|p: (i32, i32)| #[trigger] cm.contains_key(p) <==> in_chunk_column(p, cx, cz),
    ensures
        terrain_prefix(r, hm, cx, cz).union_prefer_right(terrain_column(cm, cx as i32, cz as i32))
            =~= terrain_prefix(r, hm.union_prefer_right(cm), cx, cz + 1),
{
    let h2 = hm.union_prefer_right(cm);
    assert forall|c: ChunkPos| -r <= c.0 <= r && -r <= c.2 <= r && column_before(
        c.0 as int,
        c.2 as int,
        cx,
        cz + 1,
    ) implies (forall|cy: int| #[trigger] terrain_cells(h2, c.0 as int, cy, c.2 as int) == (if c.0 == cx
        && c.2 == cz {
        terrain_cells(cm, c.0 as int, cy, c.2 as int)
    } else {
        terrain_cells(hm, c.0 as int, cy, c.2 as int)
    })) && (forall|cy: int| #[trigger] column_reaches(h2, c.0 as int, c.2 as int, cy) == (if c.0 == cx
        && c.2 == cz {
        column_reaches(cm, c.0 as int, c.2 as int, cy)
    } else {
        column_reaches(hm, c.0 as int, c.2 as int, cy)
    })) by {
        let (a, b) = (c.0 as int, c.2 as int);
        if a == cx && b == cz {
            assert forall|lx: int, lz: int| 0 <= lx < 16 && 0 <= lz < 16 implies #[trigger] cm[column_pos(
                a,
                b,
                lx,
                lz,
            )] == h2[column_pos(a, b, lx, lz)] by {
                lemma_column_pos(a, b, lx, lz);
            }
            lemma_terrain_agree(cm, h2, a, b);
        } else {
            assert forall|lx: int, lz: int| 0 <= lx < 16 && 0 <= lz < 16 implies #[trigger] hm[column_pos(
                a,
                b,
                lx,
                lz,
            )] == h2[column_pos(a, b, lx, lz)] by {
                lemma_column_pos(a, b, lx, lz);
                assert(!cm.contains_key(column_pos(a, b, lx, lz)));
            }
            lemma_terrain_agree(hm, h2, a, b);
        }
    }
}

/// Moving from the end of one row of chunk columns to the next.
proof fn lemma_terrain_prefix_row(r: int, hm: Heights, cx: int)
    requires
        -r <= cx <= r,
    ensures
        terrain_prefix(r, hm, cx, r + 1) =~= terrain_prefix(r, hm, cx + 1, -r),
{
}

/// In a flat world, a position inside the generated chunks is stone below the
/// ground level, grass at it and air above; every other position is air.
pub proof fn law_flat_voxels(r: int, ground: int, wx: i32, wy: i32, wz: i32)
    ensures
        voxel_in(flat_world(r, ground), wx, wy, wz) == if -r <= chunk_coord(wx) <= r && -r <= chunk_coord(
            wz,
        ) <= r && (chunk_coord(wy) == ground / 16 || 0 <= chunk_coord(wy) < ground / 16) {
            flat_voxel(wy as int, ground)
        } else {
            Voxel::Air
        },
{
    crate::chunk::lemma_coords_of_index(local_coord(wx) as int, local_coord(wy) as int, local_coord(wz) as int);
    assert(16 * (chunk_coord(wy) as int) + local_coord(wy) == wy);
}

/// In generated terrain, a column within the radius is stone below its
/// surface height, grass at it and air above, from height 0 up; every other
/// position is air.
pub proof fn law_terrain_voxels(r: int, hm: Heights, wx: i32, wy: i32, wz: i32)
    ensures
        voxel_in(terrain_world(r, hm), wx, wy, wz) == if in_radius(r, (wx, wz)) && 0 <= wy {
            flat_voxel(wy as int, hm[(wx, wz)] as int)
        } else {
            Voxel::Air
        },
{
    let (cx, cy, cz) = (chunk_coord(wx) as int, chunk_coord(wy) as int, chunk_coord(wz) as int);
    let (lx, ly, lz) = (local_coord(wx) as int, local_coord(wy) as int, local_coord(wz) as int);
    crate::chunk::lemma_coords_of_index(lx, ly, lz);
    assert(16 * cx + lx == wx && 16 * cy + ly == wy && 16 * cz + lz == wz);
    assert(column_pos(cx, cz, lx, lz) == (wx, wz));
    if in_radius(r, (wx, wz)) && 0 <= wy && !column_reaches(hm, cx, cz, cy) {
        assert(!(hm[column_pos(cx, cz, lx, lz)] >= 16 * cy));
    }
}

/// The voxels of the flat world of radius `r` with ground level `ground`.
pub open spec fn flat_voxels(r: int, ground: int) -> VoxelMap {
    Map::new(
        |p: (i32, i32, i32)| true,
        |p: (i32, i32, i32)|
            if -r <= chunk_coord(p.0) <= r && -r <= chunk_coord(p.2) <= r && (chunk_coord(p.1) == ground
                / 16 || 0 <= chunk_coord(p.1) < ground / 16) {
                flat_voxel(p.1 as int, ground)
            } else {
                Voxel::Air
            },
    )
}

/// The voxels of terrain of chunk radius `r` with surface heights `hm`.
pub open spec fn terrain_voxels(r: int, hm: Heights) -> VoxelMap {
    Map::new(
        |p: (i32, i32, i32)| true,
        |p: (i32, i32, i32)|
            if in_radius(r, (p.0, p.2)) && 0 <= p.1 {
                flat_voxel(p.1 as int, hm[(p.0, p.2)] as int)
            } else {
                Voxel::Air
            },
    )
}

/// In a generated flat world, every column within the chunk radius (its
/// chunk coordinates `x / 16` and `z / 16` between `-r` and `r`) is grass at
/// the ground level, stone from 0 (or from the bottom of the ground's chunk,
/// if lower) up to below it, and air above it; every position outside the
/// radius, or below 0 and below the ground's chunk, is air.
pub proof fn law_flat_world_layers(r: int, ground: int, x: i32, y: i32, z: i32)
    ensures
        ({
            let v = flat_voxels(r, ground)[(x, y, z)];
            let inside = -r <= x as int / 16 <= r && -r <= z as int / 16 <= r;
            &&& !inside ==> v == Voxel::Air
            &&& (inside && y == ground) ==> v == Voxel::Grass
            &&& (inside && 0 <= y < ground) ==> v == Voxel::Stone
            &&& (inside && y < ground && y as int / 16 == ground / 16) ==> v == Voxel::Stone
            &&& y > ground ==> v == Voxel::Air
            &&& (y < 0 && y as int / 16 != ground / 16) ==> v == Voxel::Air
        }),
{
}

/// In generated terrain with column heights `hm`, every column `(x, z)`
/// within the chunk radius is stone from 0 up to below its height `h`, grass
/// at `h` (when `h >= 0`) and air above; everything below 0 and everything
/// outside the radius is air.
pub proof fn law_terrain_layers(r: int, hm: Heights, x: i32, y: i32, z: i32)
    ensures
        ({
            let v = terrain_voxels(r, hm)[(x, y, z)];
            let h = hm[(x, z)];
            let inside = -r <= x as int / 16 <= r && -r <= z as int / 16 <= r;
            &&& (!inside || y < 0) ==> v == Voxel::Air
            &&& (inside && 0 <= y < h) ==> v == Voxel::Stone
            &&& (inside && 0 <= y && y == h) ==> v == Voxel::Grass
            &&& y > h ==> v == Voxel::Air
        }),
{
}

impl World {
    /// The chunk containing the ground of a flat world: stone below local
    /// height `ly_ground`, grass at it, air above.
    fn flat_ground_chunk(cx: i32, cy: i32, cz: i32, ly_ground: usize) -> (chunk: Chunk)
        requires
            ly_ground < CHUNK_SIZE,
        ensures
            chunk.position() == (cx, cy, cz),
            chunk@ == Seq::new(
                CHUNK_VOLUME as nat,
                |i: int| flat_voxel(coords_of(i).1, ly_ground as int),
            ),
    {
        let mut chunk = Chunk::new(cx, cy, cz);
        let mut z: usize = 0;
        while z < CHUNK_SIZE
            invariant
                chunk.position() == (cx, cy, cz),
                z <= CHUNK_SIZE,
                ly_ground < CHUNK_SIZE,
                forall|a: int, b: int, c: int|
                    in_chunk(a, b, c) ==> #[trigger] chunk@[local_index(a, b, c)] == if c < z {
                        flat_voxel(b, ly_ground as int)
                    } else {
                        Voxel::Air
                    },
            decreases CHUNK_SIZE - z,
        {
            let mut x: usize = 0;
            while x < CHUNK_SIZE
                invariant
                    chunk.position() == (cx, cy, cz),
                    x <= CHUNK_SIZE,
                    z < CHUNK_SIZE,
                    ly_ground < CHUNK_SIZE,
                    forall|a: int, b: int, c: int|
                        in_chunk(a, b, c) ==> #[trigger] chunk@[local_index(a, b, c)] == if c < z
                            || (c == z && a < x) {
                            flat_voxel(b, ly_ground as int)
                        } else {
                            Voxel::Air
                        },
                decreases CHUNK_SIZE - x,
            {
                let mut y: usize = 0;
                while y <= ly_ground
                    invariant
                        chunk.position() == (cx, cy, cz),
                        y <= ly_ground + 1,
                        x < CHUNK_SIZE,
                        z < CHUNK_SIZE,
                        ly_ground < CHUNK_SIZE,
                        forall|a: int, b: int, c: int|
                            in_chunk(a, b, c) ==> #[trigger] chunk@[local_index(a, b, c)] == if c < z
                                || (c == z && a < x) || (c == z && a == x && b < y) {
                                flat_voxel(b, ly_ground as int)
                            } else {
                                Voxel::Air
                            },
                    decreases ly_ground + 1 - y,
                {
                    let v = if y == ly_ground {
                        Voxel::Grass
                    } else {
                        Voxel::Stone
                    };
                    chunk.set(x as u8, y as u8, z as u8, v);
                    y += 1;
                }
                x += 1;
            }
            z += 1;
        }
        proof {
            lemma_cells_by_coords(chunk@, |a: int, b: int, c: int| flat_voxel(b, ly_ground as int));
        }
        chunk
    }

    /// Add the chunks of one column `(cx, cz)` of a flat world: stone
    /// chunks from chunk height 0 up to below the ground's chunk, then the
    /// ground's chunk.
    fn add_flat_column(&mut self, cx: i32, cz: i32, ground_level: i32, ground_chunk_y: i32)
        requires
            ground_chunk_y as int == ground_level as int / 16,
        ensures
            final(self).chunk_map() == old(self).chunk_map().union_prefer_right(flat_column(cx, cz, ground_level as int)),
    {
        let ghost g = ground_level as int;
        let ghost start = self.chunk_map();
        proof {
            assert forall|cy: int| 0 <= cy < ground_chunk_y implies #[trigger] flat_cells(cy, g)
                =~= Seq::new(CHUNK_VOLUME as nat, |i: int| Voxel::Stone) by {
                assert forall|i: int| 0 <= i < CHUNK_VOLUME implies flat_cells(cy, g)[i] == Voxel::Stone by {
                    lemma_index_of_coords(i);
                }
            }
        }
        // Fill stone chunks entirely below ground_level's chunk.
        let mut cy: i32 = 0;
        while cy < ground_chunk_y
            invariant
                0 <= cy <= ground_chunk_y || (cy == 0 && ground_chunk_y < 0),
                g == ground_level as int,
                ground_chunk_y as int == g / 16,
                forall|cy: int| 0 <= cy < ground_chunk_y ==> #[trigger] flat_cells(cy, g)
                    == Seq::new(CHUNK_VOLUME as nat, |i: int| Voxel::Stone),
                self.chunk_map() == start.union_prefer_right(Map::new(
                    |c: ChunkPos| c.0 == cx && c.2 == cz && 0 <= c.1 < cy && c.1 < ground_chunk_y,
                    |c: ChunkPos| flat_cells(c.1 as int, g),
                )),
            decreases ground_chunk_y - cy,
        {
            let mut chunk = Chunk::new(cx, cy, cz);
            chunk.fill(Voxel::Stone);
            self.insert_chunk((cx, cy, cz), chunk);
            assert(self.chunk_map() =~= start.union_prefer_right(Map::new(
                |c: ChunkPos| c.0 == cx && c.2 == cz && 0 <= c.1 < cy + 1 && c.1 < ground_chunk_y,
                |c: ChunkPos| flat_cells(c.1 as int, g),
            )));
            cy += 1;
        }

        // The chunk containing ground_level.
        let ly_ground: usize = ground_level.checked_rem_euclid(CHUNK_SIZE_I32).unwrap() as usize;
        let chunk = Self::flat_ground_chunk(cx, ground_chunk_y, cz, ly_ground);
        assert forall|i: int| 0 <= i < CHUNK_VOLUME implies #[trigger] chunk@[i] == flat_cells(
            ground_chunk_y as int,
            g,
        )[i] by {
            lemma_index_of_coords(i);
        }
        assert(chunk@ =~= flat_cells(ground_chunk_y as int, g));
        self.insert_chunk((cx, ground_chunk_y, cz), chunk);
        assert(self.chunk_map() =~= start.union_prefer_right(flat_column(cx, cz, g)));
    }

    /// Sample the surface height of every column of chunk column `(cx, cz)`,
    /// returning the heights (indexed `lx + 16 * lz`) and their maximum
    /// (`i32::MIN` stands for no column).
    fn sample_heights<F: Fn(i32, i32) -> i32>(cx: i32, cz: i32, height_fn: &F) -> (res: (
        [i32; 256],
        i32,
    ))
        requires
            forall|x: i32, z: i32| height_fn.requires((x, z)),
            column_in_range(cx as int, cz as int),
        ensures
            forall|lx: int, lz: int|
                0 <= lx < 16 && 0 <= lz < 16 ==> height_fn.ensures(
                    column_pos(cx as int, cz as int, lx, lz),
                    #[trigger] res.0@[lx + 16 * lz],
                ),
            forall|lx: int, lz: int|
                0 <= lx < 16 && 0 <= lz < 16 ==> #[trigger] res.0@[lx + 16 * lz] <= res.1,
            res.1 == i32::MIN || exists|lx: int, lz: int|
                0 <= lx < 16 && 0 <= lz < 16 && #[trigger] res.0@[lx + 16 * lz] == res.1,
    {
        let mut max_h: i32 = i32::MIN;
        let mut heights = [0i32; 256];
        let mut lz: usize = 0;
        while lz < CHUNK_SIZE
            invariant
                lz <= CHUNK_SIZE,
                forall|x: i32, z: i32| height_fn.requires((x, z)),
                column_in_range(cx as int, cz as int),
                forall|a: int, b: int|
                    0 <= a < 16 && 0 <= b < lz ==> height_fn.ensures(
                        column_pos(cx as int, cz as int, a, b),
                        #[trigger] heights@[a + 16 * b],
                    ),
                forall|a: int, b: int| 0 <= a < 16 && 0 <= b < lz ==> #[trigger] heights@[a + 16 * b] <= max_h,
                max_h == i32::MIN || exists|a: int, b: int|
                    0 <= a < 16 && 0 <= b < lz && #[trigger] heights@[a + 16 * b] == max_h,
            decreases CHUNK_SIZE - lz,
        {
            let mut lx: usize = 0;
            while lx < CHUNK_SIZE
                invariant
                    lx <= CHUNK_SIZE,
                    lz < CHUNK_SIZE,
                    forall|x: i32, z: i32| height_fn.requires((x, z)),
                    column_in_range(cx as int, cz as int),
                    forall|a: int, b: int|
                        0 <= a < 16 && 0 <= b < 16 && (b < lz || (b == lz && a < lx)) ==> height_fn.ensures(
                            column_pos(cx as int, cz as int, a, b),
                            #[trigger] heights@[a + 16 * b],
                        ),
                    forall|a: int, b: int|
                        0 <= a < 16 && 0 <= b < 16 && (b < lz || (b == lz && a < lx)) ==> #[trigger] heights@[a + 16 * b] <= max_h,
                    max_h == i32::MIN || exists|a: int, b: int|
                        0 <= a < 16 && 0 <= b < 16 && (b < lz || (b == lz && a < lx)) && #[trigger] heights@[a + 16 * b] == max_h,
                decreases CHUNK_SIZE - lx,
            {
                let wx: i32 = cx * CHUNK_SIZE_I32 + lx as i32;
                let wz: i32 = cz * CHUNK_SIZE_I32 + lz as i32;
                let h: i32 = height_fn(wx, wz);
                let ghost prev_heights = heights@;
                let ghost prev_max = max_h;
                heights[lx + CHUNK_SIZE * lz] = h;
                if h > max_h {
                    max_h = h;
                }
                proof {
                    if max_h == h {
                        assert(heights@[lx + 16 * lz] == max_h);
                    } else if prev_max != i32::MIN {
                        let (a, b) = choose|a: int, b: int|
                            0 <= a < 16 && 0 <= b < 16 && (b < lz || (b == lz && a < lx))
                                && #[trigger] prev_heights[a + 16 * b] == prev_max;
                        assert(heights@[a + 16 * b] == max_h);
                    }
                }
                lx += 1;
            }
            lz += 1;
        }
        proof {
            if max_h != i32::MIN {
                let (a, b) = choose|a: int, b: int|
                    0 <= a < 16 && 0 <= b < 16 && (b < 16) && #[trigger] heights@[a + 16 * b] == max_h;
                assert(heights@[a + 16 * b] == max_h);
                assert(exists|lx: int, lz: int|
                    0 <= lx < 16 && 0 <= lz < 16 && #[trigger] heights@[lx + 16 * lz] == max_h);
            }
        }
        let res = (heights, max_h);
        assert(res.0@ == heights@);
        res
    }

    /// The chunk at `(cx, cy, cz)` of terrain whose column heights are
    /// `heights` (indexed `lx + 16 * lz`).
    fn terrain_chunk(cx: i32, cy: i32, cz: i32, heights: &[i32; 256]) -> (chunk: Chunk)
        requires
            0 <= cy,
            16 * cy + 15 <= i32::MAX,
        ensures
            chunk.position() == (cx, cy, cz),
            chunk@ == Seq::new(
                CHUNK_VOLUME as nat,
                |i: int|
                    flat_voxel(
                        16 * cy + coords_of(i).1,
                        heights@[coords_of(i).0 + 16 * coords_of(i).2] as int,
                    ),
            ),
    {
        let mut chunk = Chunk::new(cx, cy, cz);
        let ghost f = |a: int, b: int, c: int| flat_voxel(16 * cy + b, heights@[a + 16 * c] as int);
        let mut lz: usize = 0;
        while lz < CHUNK_SIZE
            invariant
                chunk.position() == (cx, cy, cz),
                lz <= CHUNK_SIZE,
                0 <= cy,
                16 * cy + 15 <= i32::MAX,
                f == |a: int, b: int, c: int| flat_voxel(16 * cy + b, heights@[a + 16 * c] as int),
                forall|a: int, b: int, c: int|
                    in_chunk(a, b, c) ==> #[trigger] chunk@[local_index(a, b, c)] == if c < lz {
                        f(a, b, c)
                    } else {
                        Voxel::Air
                    },
            decreases CHUNK_SIZE - lz,
        {
            let mut lx: usize = 0;
            while lx < CHUNK_SIZE
                invariant
                    chunk.position() == (cx, cy, cz),
                    lx <= CHUNK_SIZE,
                    lz < CHUNK_SIZE,
                    0 <= cy,
                    16 * cy + 15 <= i32::MAX,
                    f == |a: int, b: int, c: int| flat_voxel(16 * cy + b, heights@[a + 16 * c] as int),
                    forall|a: int, b: int, c: int|
                        in_chunk(a, b, c) ==> #[trigger] chunk@[local_index(a, b, c)] == if c < lz
                            || (c == lz && a < lx) {
                            f(a, b, c)
                        } else {
                            Voxel::Air
                        },
                decreases CHUNK_SIZE - lx,
            {
                let surface_y: i32 = heights[lx + CHUNK_SIZE * lz];
                let chunk_bottom = cy * CHUNK_SIZE_I32;
                if surface_y < chunk_bottom {
                    lx += 1;
                    continue;
                }
                let mut ly: usize = 0;
                while ly < CHUNK_SIZE
                    invariant
                        chunk.position() == (cx, cy, cz),
                        ly <= CHUNK_SIZE,
                        lx < CHUNK_SIZE,
                        lz < CHUNK_SIZE,
                        0 <= cy,
                        16 * cy + 15 <= i32::MAX,
                        surface_y == heights@[lx + 16 * lz],
                        f == |a: int, b: int, c: int| flat_voxel(16 * cy + b, heights@[a + 16 * c] as int),
                        forall|a: int, b: int, c: int|
                            in_chunk(a, b, c) ==> #[trigger] chunk@[local_index(a, b, c)] == if c < lz
                                || (c == lz && a < lx) || (c == lz && a == lx && b < ly) {
                                f(a, b, c)
                            } else {
                                Voxel::Air
                            },
                    decreases CHUNK_SIZE - ly,
                {
                    let wy: i32 = cy * CHUNK_SIZE_I32 + ly as i32;
                    if wy > surface_y {
                        // Above surface: air.
                        ly += 1;
                        continue;
                    }
                    let v = if wy == surface_y {
                        Voxel::Grass
                    } else {
                        Voxel::Stone
                    };
                    chunk.set(lx as u8, ly as u8, lz as u8, v);
                    ly += 1;
                }
                lx += 1;
            }
            lz += 1;
        }
        proof {
            lemma_cells_by_coords(chunk@, f);
        }
        chunk
    }

    /// Add the chunks of terrain chunk column `(cx, cz)`, sampling the
    /// surface height of each of its columns once; returns the heights sampled.
    fn add_terrain_column<F: Fn(i32, i32) -> i32>(&mut self, cx: i32, cz: i32, height_fn: &F) -> (cm:
        Ghost<Heights>)
        requires
            forall|x: i32, z: i32| height_fn.requires((x, z)),
            column_in_range(cx as int, cz as int),
        ensures
            forall|p: (i32, i32)| #[trigger] cm@.contains_key(p) <==> in_chunk_column(p, cx as int, cz as int),
            forall|p: (i32, i32)| cm@.contains_key(p) ==> height_fn.ensures(p, #[trigger] cm@[p]),
            final(self).chunk_map() == old(self).chunk_map().union_prefer_right(terrain_column(cm@, cx, cz)),
    {
        let ghost start = self.chunk_map();
        // Collect per-column heights in this chunk to determine max Y.
        let (heights, max_h) = Self::sample_heights(cx, cz, height_fn);
        let ghost cm = Map::new(
            |p: (i32, i32)| in_chunk_column(p, cx as int, cz as int),
            |p: (i32, i32)| heights@[(p.0 - 16 * cx) + 16 * (p.1 - 16 * cz)],
        );
        proof {
            assert forall|lx: int, lz: int| 0 <= lx < 16 && 0 <= lz < 16 implies #[trigger] cm[column_pos(
                cx as int,
                cz as int,
                lx,
                lz,
            )] == heights@[lx + 16 * lz] by {
                lemma_column_pos(cx as int, cz as int, lx, lz);
            }
            assert forall|p: (i32, i32)| cm.contains_key(p) implies height_fn.ensures(p, #[trigger] cm[p]) by {
                let lx: int = p.0 - 16 * cx;
                let lz: int = p.1 - 16 * cz;
                lemma_column_pos(cx as int, cz as int, lx, lz);
                assert(column_pos(cx as int, cz as int, lx, lz) == p);
            }
        }
        if max_h < 0 {
            proof {
                assert forall|cy: int| 0 <= cy implies !#[trigger] column_reaches(cm, cx as int, cz as int, cy) by {
                    if column_reaches(cm, cx as int, cz as int, cy) {
                        let (lx, lz) = choose|lx: int, lz: int|
                            0 <= lx < 16 && 0 <= lz < 16 && #[trigger] cm[column_pos(cx as int, cz as int, lx, lz)]
                                >= 16 * cy;
                        assert(heights@[lx + 16 * lz] <= max_h);
                    }
                }
                assert(self.chunk_map() =~= start.union_prefer_right(terrain_column(cm, cx, cz)));
            }
            return Ghost(cm);
        }
        let max_cy: i32 = max_h.checked_div_euclid(CHUNK_SIZE_I32).unwrap();
        proof {
            assert forall|cy: int| 0 <= cy implies (#[trigger] column_reaches(cm, cx as int, cz as int, cy)
                <==> cy <= max_cy) by {
                if column_reaches(cm, cx as int, cz as int, cy) {
                    let (lx, lz) = choose|lx: int, lz: int|
                        0 <= lx < 16 && 0 <= lz < 16 && #[trigger] cm[column_pos(cx as int, cz as int, lx, lz)]
                            >= 16 * cy;
                    assert(heights@[lx + 16 * lz] <= max_h);
                }
                if cy <= max_cy {
                    let (lx, lz) = choose|lx: int, lz: int|
                        0 <= lx < 16 && 0 <= lz < 16 && #[trigger] heights@[lx + 16 * lz] == max_h;
                    assert(cm[column_pos(cx as int, cz as int, lx, lz)] >= 16 * cy);
                }
            }
        }
        let mut cy: i32 = 0;
        while cy <= max_cy
            invariant
                0 <= cy <= max_cy + 1,
                0 <= max_cy <= 134217727,
                forall|lx: int, lz: int| 0 <= lx < 16 && 0 <= lz < 16 ==> #[trigger] cm[column_pos(
                    cx as int,
                    cz as int,
                    lx,
                    lz,
                )] == heights@[lx + 16 * lz],
                self.chunk_map() == start.union_prefer_right(Map::new(
                    |c: ChunkPos| c.0 == cx && c.2 == cz && 0 <= c.1 < cy,
                    |c: ChunkPos| terrain_cells(cm, cx as int, c.1 as int, cz as int),
                )),
            decreases max_cy + 1 - cy,
        {
            let chunk = Self::terrain_chunk(cx, cy, cz, &heights);
            assert forall|i: int| 0 <= i < CHUNK_VOLUME implies #[trigger] chunk@[i] == terrain_cells(
                cm,
                cx as int,
                cy as int,
                cz as int,
            )[i] by {
                lemma_index_of_coords(i);
            }
            assert(chunk@ =~= terrain_cells(cm, cx as int, cy as int, cz as int));
            self.insert_chunk((cx, cy, cz), chunk);
            assert(self.chunk_map() =~= start.union_prefer_right(Map::new(
                |c: ChunkPos| c.0 == cx && c.2 == cz && 0 <= c.1 < cy + 1,
                |c: ChunkPos| terrain_cells(cm, cx as int, c.1 as int, cz as int),
            )));
            cy += 1;
        }
        assert(self.chunk_map() =~= start.union_prefer_right(terrain_column(cm, cx, cz)));
        Ghost(cm)
    }

    /// Generate terrain using a height function.
    ///
    /// `height_fn(x, z)` returns the topmost solid Y for a column; it is
    /// called once for each column within the chunk radius.
    pub fn generate_heightmap<F>(chunk_radius: i32, height_fn: F) -> (world: Self) where
        F: Fn(i32, i32) -> i32,

        requires
            chunk_radius > i32::MIN,
            chunk_radius <= 134217727,
            forall|x: i32, z: i32| height_fn.requires((x, z)),
        ensures
            exists|hm: Heights|
                #![trigger terrain_world(chunk_radius as int, hm)]
                {
                    &&& forall|p: (i32, i32)|
                        in_radius(chunk_radius as int, p) ==> #[trigger] hm.contains_key(p)
                            && height_fn.ensures(p, hm[p])
                    &&& world.chunk_map() == terrain_world(chunk_radius as int, hm)
                    &&& world@ == terrain_voxels(chunk_radius as int, hm)
                },
    {
        let mut world = World::new();
        let ghost r = chunk_radius as int;
        let ghost mut hm = Map::<(i32, i32), i32>::empty();
        assert(world.chunk_map() =~= terrain_prefix(r, hm, -r, -r));

        let mut cx: i64 = -(chunk_radius as i64);
        while cx <= chunk_radius as i64
            invariant
                -r <= cx <= r + 1 || r < 0,
                cx == -r || r >= 0,
                r == chunk_radius as int,
                r <= 134217727,
                forall|x: i32, z: i32| height_fn.requires((x, z)),
                forall|p: (i32, i32)| #[trigger] hm.contains_key(p) <==> in_radius(r, p) && column_before(
                    p.0 as int / 16,
                    p.1 as int / 16,
                    cx as int,
                    -r,
                ),
                forall|p: (i32, i32)| hm.contains_key(p) ==> height_fn.ensures(p, #[trigger] hm[p]),
                world.chunk_map() == terrain_prefix(r, hm, cx as int, -r),
            decreases r + 1 - cx,
        {
            let mut cz: i64 = -(chunk_radius as i64);
            while cz <= chunk_radius as i64
                invariant
                    -r <= cx <= r,
                    -r <= cz <= r + 1,
                    r == chunk_radius as int,
                    r <= 134217727,
                    forall|x: i32, z: i32| height_fn.requires((x, z)),
                    forall|p: (i32, i32)| #[trigger] hm.contains_key(p) <==> in_radius(r, p) && column_before(
                        p.0 as int / 16,
                        p.1 as int / 16,
                        cx as int,
                        cz as int,
                    ),
                    forall|p: (i32, i32)| hm.contains_key(p) ==> height_fn.ensures(p, #[trigger] hm[p]),
                    world.chunk_map() == terrain_prefix(r, hm, cx as int, cz as int),
                decreases r + 1 - cz,
            {
                let Ghost(cm) = world.add_terrain_column(cx as i32, cz as i32, &height_fn);
                proof {
                    lemma_terrain_prefix_step(r, hm, cm, cx as int, cz as int);
                    hm = hm.union_prefer_right(cm);
                }
                cz += 1;
            }
            proof {
                lemma_terrain_prefix_row(r, hm, cx as int);
            }
            cx += 1;
        }
        assert(world.chunk_map() =~= terrain_world(r, hm));
        assert forall|p: (i32, i32, i32)| #[trigger] world@[p] == terrain_voxels(r, hm)[p] by {
            law_terrain_voxels(r, hm, p.0, p.1, p.2);
        }
        assert(world@ =~= terrain_voxels(r, hm));
        world
    }

    /// Generate a flat world of the given chunk radius with a grass surface.
    ///
    /// `ground_level` is the Y value (in blocks) where grass is placed; stone
    /// fills everything below.
    pub fn generate_flat(chunk_radius: i32, ground_level: i32) -> (world: Self)
        requires
            chunk_radius > i32::MIN,
        ensures
            world@ == flat_voxels(chunk_radius as int, ground_level as int),
            world.chunk_map() == flat_world(chunk_radius as int, ground_level as int),
    {
        let mut world = World::new();
        let ground_chunk_y: i32 = ground_level.checked_div_euclid(CHUNK_SIZE_I32).unwrap();
        let ghost r = chunk_radius as int;
        let ghost g = ground_level as int;
        assert(world.chunk_map() =~= flat_prefix(r, g, -r, -r));

        let mut cx: i64 = -(chunk_radius as i64);
        while cx <= chunk_radius as i64
            invariant
                -r <= cx <= r + 1 || r < 0,
                cx == -r || r >= 0,
                r == chunk_radius as int,
                g == ground_level as int,
                ground_chunk_y as int == g / 16,
                world.chunk_map() == flat_prefix(r, g, cx as int, -r),
            decreases r + 1 - cx,
        {
            let mut cz: i64 = -(chunk_radius as i64);
            while cz <= chunk_radius as i64
                invariant
                    -r <= cx <= r,
                    -r <= cz <= r + 1,
                    r == chunk_radius as int,
                    g == ground_level as int,
                    ground_chunk_y as int == g / 16,
                    world.chunk_map() == flat_prefix(r, g, cx as int, cz as int),
                decreases r + 1 - cz,
            {
                world.add_flat_column(cx as i32, cz as i32, ground_level, ground_chunk_y);
                proof {
                    assert(r <= i32::MAX);
                    lemma_flat_prefix_step(r, g, cx as int, cz as int);
                }
                cz += 1;
            }
            proof {
                lemma_flat_prefix_row(r, g, cx as int);
            }
            cx += 1;
        }
        assert(world.chunk_map() =~= flat_world(r, g));
        assert forall|p: (i32, i32, i32)| #[trigger] world@[p] == flat_voxels(r, g)[p] by {
            law_flat_voxels(r, g, p.0, p.1, p.2);
        }
        assert(world@ =~= flat_voxels(r, g));
        world
    }

}

} // verus!
