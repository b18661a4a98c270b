use vstd::prelude::*;
use crate::voxel::Voxel;
use crate::world::{World, VoxelMap};

verus! {

/// Predefined structure patterns for game rooms.
#[derive(Debug, Clone, Copy, PartialEq, Eq, Structural)]
pub enum BuildPattern {
    Cabin,
    Tower,
    Garden,
    Crystal,
    Ruins,
}

/// What a 5×4×5 cabin places at offset `(x, y, z)` from its origin: wood
/// walls and roof, two glass windows, a glow light inside.
pub open spec fn cabin_voxel(x: int, y: int, z: int) -> Option<Voxel> {
    if 0 <= x < 5 && 0 <= z < 5 && 0 <= y < 4 {
        let is_wall = x == 0 || x == 4 || z == 0 || z == 4;
        let is_roof = y == 3;
        let is_window = y == 1 && ((x == 2 && z == 0) || (x == 0 && z == 2));
        if is_roof || (is_wall && !is_window) {
            Some(Voxel::Wood)
        } else if is_wall && is_window {
            Some(Voxel::Glass)
        } else if x == 2 && y == 2 && z == 2 {
            Some(Voxel::Glow(200))
        } else {
            None
        }
    } else {
        None
    }
}

/// What a tower places at offset `(x, y, z)`: a hollow 3×8×3 stone shaft with
/// a glow beacon on top.
pub open spec fn tower_voxel(x: int, y: int, z: int) -> Option<Voxel> {
    if 0 <= x < 3 && 0 <= z < 3 && 0 <= y < 8 && (x == 0 || x == 2 || z == 0 || z == 2) {
        Some(Voxel::Stone)
    } else if x == 1 && y == 8 && z == 1 {
        Some(Voxel::Glow(255))
    } else {
        None
    }
}

/// What a garden places at offset `(x, y, z)`: a 7×7 lawn with custom
/// flowers on a checkerboard above it.
pub open spec fn garden_voxel(x: int, y: int, z: int) -> Option<Voxel> {
    if 0 <= x < 7 && 0 <= z < 7 && y == 0 {
        Some(Voxel::Grass)
    } else if 0 <= x < 7 && 0 <= z < 7 && y == 1 && (x + z) % 2 == 0 {
        Some(Voxel::Custom((x * 3 + z * 7) as u8))
    } else {
        None
    }
}

/// The radius of the crystal's layer `y`.
pub open spec fn crystal_radius(y: int) -> int {
    if y < 4 {
        y
    } else {
        6 - y
    }
}

/// The glow intensity of the crystal's layer `y`.
pub open spec fn crystal_intensity(y: int) -> u8 {
    if 100 + 20 * y < 255 {
        (100 + 20 * y) as u8
    } else {
        255
    }
}

/// What a crystal places at offset `(x, y, z)`: a diamond of glow centred on
/// `(3, ·, 3)`, seven layers high, brighter towards the top.
pub open spec fn crystal_voxel(x: int, y: int, z: int) -> Option<Voxel> {
    if 0 <= y < 7 && abs(x - 3) + abs(z - 3) <= crystal_radius(y) {
        Some(Voxel::Glow(crystal_intensity(y)))
    } else {
        None
    }
}

/// Absolute value.
pub open spec fn abs(a: int) -> int {
    if a < 0 {
        -a
    } else {
        a
    }
}

/// What ruins place at offset `(x, y, z)`: scattered stone walls.
pub open spec fn ruins_voxel(x: int, y: int, z: int) -> Option<Voxel> {
    if 0 <= y < 3 && ((x == 0 && z == 0) || (x == 1 && z == 0) || (x == 4 && z == 4) || (x == 4
        && z == 3)) {
        Some(Voxel::Stone)
    } else if x == 2 && z == 2 && (y == 0 || y == 1) {
        Some(Voxel::Stone)
    } else {
        None
    }
}

/// What `pattern` places at offset `(x, y, z)` from its origin, if anything.
pub open spec fn pattern_voxel(pattern: BuildPattern, x: int, y: int, z: int) -> Option<Voxel> {
    match pattern {
        BuildPattern::Cabin => cabin_voxel(x, y, z),
        BuildPattern::Tower => tower_voxel(x, y, z),
        BuildPattern::Garden => garden_voxel(x, y, z),
        BuildPattern::Crystal => crystal_voxel(x, y, z),
        BuildPattern::Ruins => ruins_voxel(x, y, z),
    }
}

/// The largest offset along x, y and z at which `pattern` places a voxel.
pub open spec fn pattern_extent(pattern: BuildPattern) -> (int, int, int) {
    match pattern {
        BuildPattern::Cabin => (4, 3, 4),
        BuildPattern::Tower => (2, 8, 2),
        BuildPattern::Garden => (6, 1, 6),
        BuildPattern::Crystal => (6, 6, 6),
        BuildPattern::Ruins => (4, 2, 4),
    }
}

/// The voxel at `(qx, qy, qz)` of the world `m` with `placed`, if any, put there.
pub open spec fn overlay(m: VoxelMap, placed: Option<Voxel>, qx: i32, qy: i32, qz: i32) -> Voxel {
    match placed {
        Some(v) => v,
        None => m[(qx, qy, qz)],
    }
}

/// The world `m` after building `pattern` at origin `(ox, oy, oz)`.
pub open spec fn built(m: VoxelMap, pattern: BuildPattern, ox: i32, oy: i32, oz: i32) -> VoxelMap {
    Map::new(
        |p: (i32, i32, i32)| true,
        |p: (i32, i32, i32)|
            overlay(m, pattern_voxel(pattern, p.0 - ox, p.1 - oy, p.2 - oz), p.0, p.1, p.2),
    )
}

/// Lexicographic progress of three nested loops: `(a, b, c)` was visited
/// before the loops reached `(i, j, k)`.
pub open spec fn visited(a: int, b: int, c: int, i: int, j: int, k: int) -> bool {
    a < i || (a == i && (b < j || (b == j && c < k)))
}

/// What was placed, counting only the offsets already visited.
pub open spec fn placed_if(pv: Option<Voxel>, done: bool) -> Option<Voxel> {
    if done {
        pv
    } else {
        None
    }
}

impl BuildPattern {
    /// Whether the pattern can be built at origin `(ox, oy, oz)`: every
    /// coordinate it places a voxel at fits in `i32`.
    pub fn fits_at(self, ox: i32, oy: i32, oz: i32) -> (b: bool)
        ensures
            b == (ox + pattern_extent(self).0 <= i32::MAX && oy + pattern_extent(self).1 <= i32::MAX
                && oz + pattern_extent(self).2 <= i32::MAX),
    {
        let (ex, ey, ez): (i32, i32, i32) = match self {
            BuildPattern::Cabin => (4, 3, 4),
            BuildPattern::Tower => (2, 8, 2),
            BuildPattern::Garden => (6, 1, 6),
            BuildPattern::Crystal => (6, 6, 6),
            BuildPattern::Ruins => (4, 2, 4),
        };
        ox <= i32::MAX - ex && oy <= i32::MAX - ey && oz <= i32::MAX - ez
    }
}

/// A cabin, seen from its origin: a wood roof over the whole 5×5 top layer
/// (height 3); wood walls on the four sides `x == 0`, `x == 4`, `z == 0`,
/// `z == 4` below it, except two glass windows at (2, 1, 0) and (0, 1, 2);
/// a glow light of intensity 200 at (2, 2, 2); the rest of the inside keeps
/// what was there.
pub proof fn law_cabin_shape(m: VoxelMap, ox: i32, oy: i32, oz: i32, x: int, y: int, z: int)
    requires
        ox + 4 <= i32::MAX,
        oy + 3 <= i32::MAX,
        oz + 4 <= i32::MAX,
        0 <= x < 5,
        0 <= y < 4,
        0 <= z < 5,
    ensures
        ({
            let p = ((ox + x) as i32, (oy + y) as i32, (oz + z) as i32);
            let b = built(m, BuildPattern::Cabin, ox, oy, oz);
            &&& y == 3 ==> b[p] == Voxel::Wood
            &&& (y < 3 && (x == 0 || x == 4 || z == 0 || z == 4) && !(x == 2 && y == 1 && z == 0) && !(x
                == 0 && y == 1 && z == 2)) ==> b[p] == Voxel::Wood
            &&& ((x == 2 && y == 1 && z == 0) || (x == 0 && y == 1 && z == 2)) ==> b[p] == Voxel::Glass
            &&& (x == 2 && y == 2 && z == 2) ==> b[p] == Voxel::Glow(200)
            &&& (1 <= x <= 3 && 1 <= z <= 3 && y < 3 && !(x == 2 && y == 2 && z == 2)) ==> b[p] == m[p]
        }),
{
}

/// A tower, seen from its origin: stone on the eight outer columns of a 3×3
/// square, heights 0 to 7, the middle column kept hollow (what was there
/// stays), and a glow beacon of intensity 255 at (1, 8, 1).
pub proof fn law_tower_shape(m: VoxelMap, ox: i32, oy: i32, oz: i32, x: int, y: int, z: int)
    requires
        ox + 2 <= i32::MAX,
        oy + 8 <= i32::MAX,
        oz + 2 <= i32::MAX,
        0 <= x < 3,
        0 <= y < 9,
        0 <= z < 3,
    ensures
        ({
            let p = ((ox + x) as i32, (oy + y) as i32, (oz + z) as i32);
            let b = built(m, BuildPattern::Tower, ox, oy, oz);
            &&& (y < 8 && !(x == 1 && z == 1)) ==> b[p] == Voxel::Stone
            &&& (y < 8 && x == 1 && z == 1) ==> b[p] == m[p]
            &&& (y == 8 && x == 1 && z == 1) ==> b[p] == Voxel::Glow(255)
            &&& (y == 8 && !(x == 1 && z == 1)) ==> b[p] == m[p]
        }),
{
}

/// A garden, seen from its origin: grass on the whole 7×7 bottom layer, and
/// on the layer above it a custom voxel numbered `3x + 7z` on every cell with
/// `x + z` even, the other cells keeping what was there.
pub proof fn law_garden_shape(m: VoxelMap, ox: i32, oy: i32, oz: i32, x: int, y: int, z: int)
    requires
        ox + 6 <= i32::MAX,
        oy + 1 <= i32::MAX,
        oz + 6 <= i32::MAX,
        0 <= x < 7,
        0 <= y < 2,
        0 <= z < 7,
    ensures
        ({
            let p = ((ox + x) as i32, (oy + y) as i32, (oz + z) as i32);
            let b = built(m, BuildPattern::Garden, ox, oy, oz);
            &&& y == 0 ==> b[p] == Voxel::Grass
            &&& (y == 1 && (x + z) % 2 == 0) ==> b[p] == Voxel::Custom((3 * x + 7 * z) as u8)
            &&& (y == 1 && (x + z) % 2 == 1) ==> b[p] == m[p]
        }),
{
}

/// A crystal, seen from its origin: on each layer `y` from 0 to 6, glow of
/// intensity `100 + 20y` on every cell within taxicab distance
/// `min(y, 6 - y)` of the column (3, 3); other cells keep what was there.
pub proof fn law_crystal_shape(m: VoxelMap, ox: i32, oy: i32, oz: i32, x: int, y: int, z: int)
    requires
        ox + 6 <= i32::MAX,
        oy + 6 <= i32::MAX,
        oz + 6 <= i32::MAX,
        0 <= x < 7,
        0 <= y < 7,
        0 <= z < 7,
    ensures
        ({
            let p = ((ox + x) as i32, (oy + y) as i32, (oz + z) as i32);
            let b = built(m, BuildPattern::Crystal, ox, oy, oz);
            let d = (if x < 3 { 3 - x } else { x - 3 }) + (if z < 3 { 3 - z } else { z - 3 });
            let radius = if y <= 3 { y } else { 6 - y };
            &&& d <= radius ==> b[p] == Voxel::Glow((100 + 20 * y) as u8)
            &&& d > radius ==> b[p] == m[p]
        }),
{
}

/// Ruins, seen from their origin: stone columns of height 3 at (0, ·, 0),
/// (1, ·, 0), (4, ·, 4) and (4, ·, 3), and a broken column of height 2 at
/// (2, ·, 2); every other cell of the 5×3×5 box keeps what was there.
pub proof fn law_ruins_shape(m: VoxelMap, ox: i32, oy: i32, oz: i32, x: int, y: int, z: int)
    requires
        ox + 4 <= i32::MAX,
        oy + 2 <= i32::MAX,
        oz + 4 <= i32::MAX,
        0 <= x < 5,
        0 <= y < 3,
        0 <= z < 5,
    ensures
        ({
            let p = ((ox + x) as i32, (oy + y) as i32, (oz + z) as i32);
            let b = built(m, BuildPattern::Ruins, ox, oy, oz);
            let column = (x == 0 && z == 0) || (x == 1 && z == 0) || (x == 4 && z == 4) || (x == 4 && z
                == 3);
            &&& column ==> b[p] == Voxel::Stone
            &&& (x == 2 && z == 2 && y < 2) ==> b[p] == Voxel::Stone
            &&& (!column && !(x == 2 && z == 2 && y < 2)) ==> b[p] == m[p]
        }),
{
}

/// Building a pattern leaves every position outside its bounding box (from
/// its origin up to its extent) as it was.
pub proof fn law_build_outside_box_unchanged(
    m: VoxelMap,
    pattern: BuildPattern,
    ox: i32,
    oy: i32,
    oz: i32,
    q: (i32, i32, i32),
)
    requires
        !(ox <= q.0 <= ox + pattern_extent(pattern).0 && oy <= q.1 <= oy + pattern_extent(pattern).1 && oz
            <= q.2 <= oz + pattern_extent(pattern).2),
    ensures
        built(m, pattern, ox, oy, oz)[q] == m[q],
{
}

/// Every pattern places at least one non-`Air` voxel.
pub proof fn law_patterns_place_solid(pattern: BuildPattern)
    ensures
        exists|x: int, y: int, z: int| #[trigger] pattern_voxel(pattern, x, y, z) matches Some(v) && v
            != Voxel::Air,
{
    match pattern {
        BuildPattern::Crystal => {
            assert(pattern_voxel(pattern, 3, 0, 3) == Some(Voxel::Glow(100)));
        },
        _ => {
            assert(pattern_voxel(pattern, 0, 0, 0) is Some && pattern_voxel(pattern, 0, 0, 0)->0
                != Voxel::Air);
        },
    }
}

fn build_cabin(world: &mut World, ox: i32, oy: i32, oz: i32)
    requires
        ox <= i32::MAX - 4,
        oy <= i32::MAX - 3,
        oz <= i32::MAX - 4,
    ensures
        forall|qx: i32, qy: i32, qz: i32| #[trigger] final(world).voxel_at(qx, qy, qz) == overlay(
            old(world)@,
            cabin_voxel(qx - ox, qy - oy, qz - oz),
            qx,
            qy,
            qz,
        ),
{
    let ghost m0 = world@;
    // 5×4×5 wood cabin with glass window and glow light.
    let mut x: i32 = 0;
    while x < 5
        invariant
            0 <= x <= 5,
            ox <= i32::MAX - 4,
            oy <= i32::MAX - 3,
            oz <= i32::MAX - 4,
            forall|qx: i32, qy: i32, qz: i32| #[trigger] world.voxel_at(qx, qy, qz) == overlay(
                m0,
                placed_if(
                    cabin_voxel(qx - ox, qy - oy, qz - oz),
                    visited(qx - ox, 0, 0, x as int, 0, 0) && (qx - ox != 2 || qy - oy != 2 || qz - oz != 2),
                ),
                qx,
                qy,
                qz,
            ),
        decreases 5 - x,
    {
        let mut z: i32 = 0;
        while z < 5
            invariant
                0 <= x < 5,
                0 <= z <= 5,
                ox <= i32::MAX - 4,
                oy <= i32::MAX - 3,
                oz <= i32::MAX - 4,
                forall|qx: i32, qy: i32, qz: i32| #[trigger] world.voxel_at(qx, qy, qz) == overlay(
                    m0,
                    placed_if(
                        cabin_voxel(qx - ox, qy - oy, qz - oz),
                        visited(qx - ox, qz - oz, 0, x as int, z as int, 0) && (qx - ox != 2 || qy - oy
                            != 2 || qz - oz != 2),
                    ),
                    qx,
                    qy,
                    qz,
                ),
            decreases 5 - z,
        {
            let mut y: i32 = 0;
            while y < 4
                invariant
                    0 <= x < 5,
                    0 <= z < 5,
                    0 <= y <= 4,
                    ox <= i32::MAX - 4,
                    oy <= i32::MAX - 3,
                    oz <= i32::MAX - 4,
                    forall|qx: i32, qy: i32, qz: i32| #[trigger] world.voxel_at(qx, qy, qz) == overlay(
                        m0,
                        placed_if(
                            cabin_voxel(qx - ox, qy - oy, qz - oz),
                            visited(qx - ox, qz - oz, qy - oy, x as int, z as int, y as int) && (qx - ox
                                != 2 || qy - oy != 2 || qz - oz != 2),
                        ),
                        qx,
                        qy,
                        qz,
                    ),
                decreases 4 - y,
            {
                let is_wall = x == 0 || x == 4 || z == 0 || z == 4;
                let is_roof = y == 3;
                if is_roof || (is_wall && !(y == 1 && ((x == 2 && z == 0) || (x == 0 && z == 2)))) {
                    world.set_voxel(ox + x, oy + y, oz + z, Voxel::Wood);
                } else if is_wall && y == 1 && ((x == 2 && z == 0) || (x == 0 && z == 2)) {
                    world.set_voxel(ox + x, oy + y, oz + z, Voxel::Glass);
                }
                y += 1;
            }
            z += 1;
        }
        x += 1;
    }
    // Glow light inside.
    world.set_voxel(ox + 2, oy + 2, oz + 2, Voxel::Glow(200));
}

fn build_tower(world: &mut World, ox: i32, oy: i32, oz: i32)
    requires
        ox <= i32::MAX - 2,
        oy <= i32::MAX - 8,
        oz <= i32::MAX - 2,
    ensures
        forall|qx: i32, qy: i32, qz: i32| #[trigger] final(world).voxel_at(qx, qy, qz) == overlay(
            old(world)@,
            tower_voxel(qx - ox, qy - oy, qz - oz),
            qx,
            qy,
            qz,
        ),
{
    let ghost m0 = world@;
    let mut y: i32 = 0;
    while y < 8
        invariant
            0 <= y <= 8,
            ox <= i32::MAX - 2,
            oy <= i32::MAX - 8,
            oz <= i32::MAX - 2,
            forall|qx: i32, qy: i32, qz: i32| #[trigger] world.voxel_at(qx, qy, qz) == overlay(
                m0,
                placed_if(tower_voxel(qx - ox, qy - oy, qz - oz), qy - oy < y),
                qx,
                qy,
                qz,
            ),
        decreases 8 - y,
    {
        let mut x: i32 = 0;
        while x < 3
            invariant
                0 <= y < 8,
                0 <= x <= 3,
                ox <= i32::MAX - 2,
                oy <= i32::MAX - 8,
                oz <= i32::MAX - 2,
                forall|qx: i32, qy: i32, qz: i32| #[trigger] world.voxel_at(qx, qy, qz) == overlay(
                    m0,
                    placed_if(
                        tower_voxel(qx - ox, qy - oy, qz - oz),
                        visited(qy - oy, qx - ox, 0, y as int, x as int, 0),
                    ),
                    qx,
                    qy,
                    qz,
                ),
            decreases 3 - x,
        {
            let mut z: i32 = 0;
            while z < 3
                invariant
                    0 <= y < 8,
                    0 <= x < 3,
                    0 <= z <= 3,
                    ox <= i32::MAX - 2,
                    oy <= i32::MAX - 8,
                    oz <= i32::MAX - 2,
                    forall|qx: i32, qy: i32, qz: i32| #[trigger] world.voxel_at(qx, qy, qz) == overlay(
                        m0,
                        placed_if(
                            tower_voxel(qx - ox, qy - oy, qz - oz),
                            visited(qy - oy, qx - ox, qz - oz, y as int, x as int, z as int),
                        ),
                        qx,
                        qy,
                        qz,
                    ),
                decreases 3 - z,
            {
                let is_edge = x == 0 || x == 2 || z == 0 || z == 2;
                if is_edge {
                    world.set_voxel(ox + x, oy + y, oz + z, Voxel::Stone);
                }
                z += 1;
            }
            x += 1;
        }
        y += 1;
    }
    // Glow beacon on top.
    world.set_voxel(ox + 1, oy + 8, oz + 1, Voxel::Glow(255));
}

fn build_garden(world: &mut World, ox: i32, oy: i32, oz: i32)
    requires
        ox <= i32::MAX - 6,
        oy <= i32::MAX - 1,
        oz <= i32::MAX - 6,
    ensures
        forall|qx: i32, qy: i32, qz: i32| #[trigger] final(world).voxel_at(qx, qy, qz) == overlay(
            old(world)@,
            garden_voxel(qx - ox, qy - oy, qz - oz),
            qx,
            qy,
            qz,
        ),
{
    let ghost m0 = world@;
    // 7×1×7 grass with flowers (Custom voxels).
    let mut x: i32 = 0;
    while x < 7
        invariant
            0 <= x <= 7,
            ox <= i32::MAX - 6,
            oy <= i32::MAX - 1,
            oz <= i32::MAX - 6,
            forall|qx: i32, qy: i32, qz: i32| #[trigger] world.voxel_at(qx, qy, qz) == overlay(
                m0,
                placed_if(garden_voxel(qx - ox, qy - oy, qz - oz), qx - ox < x),
                qx,
                qy,
                qz,
            ),
        decreases 7 - x,
    {
        let mut z: i32 = 0;
        while z < 7
            invariant
                0 <= x < 7,
                0 <= z <= 7,
                ox <= i32::MAX - 6,
                oy <= i32::MAX - 1,
                oz <= i32::MAX - 6,
                forall|qx: i32, qy: i32, qz: i32| #[trigger] world.voxel_at(qx, qy, qz) == overlay(
                    m0,
                    placed_if(
                        garden_voxel(qx - ox, qy - oy, qz - oz),
                        visited(qx - ox, qz - oz, 0, x as int, z as int, 0),
                    ),
                    qx,
                    qy,
                    qz,
                ),
            decreases 7 - z,
        {
            world.set_voxel(ox + x, oy, oz + z, Voxel::Grass);
            // Checkerboard flowers.
            if (x + z) % 2 == 0 {
                world.set_voxel(ox + x, oy + 1, oz + z, Voxel::Custom((x * 3 + z * 7) as u8));
            }
            z += 1;
        }
        x += 1;
    }
}

fn build_crystal(world: &mut World, ox: i32, oy: i32, oz: i32)
    requires
        ox <= i32::MAX - 6,
        oy <= i32::MAX - 6,
        oz <= i32::MAX - 6,
    ensures
        forall|qx: i32, qy: i32, qz: i32| #[trigger] final(world).voxel_at(qx, qy, qz) == overlay(
            old(world)@,
            crystal_voxel(qx - ox, qy - oy, qz - oz),
            qx,
            qy,
            qz,
        ),
{
    let ghost m0 = world@;
    // Diamond-shaped glow structure.
    let mut y: i32 = 0;
    while y < 7
        invariant
            0 <= y <= 7,
            ox <= i32::MAX - 6,
            oy <= i32::MAX - 6,
            oz <= i32::MAX - 6,
            forall|qx: i32, qy: i32, qz: i32| #[trigger] world.voxel_at(qx, qy, qz) == overlay(
                m0,
                placed_if(crystal_voxel(qx - ox, qy - oy, qz - oz), qy - oy < y),
                qx,
                qy,
                qz,
            ),
        decreases 7 - y,
    {
        let radius: i32 = if y < 4 {
            y
        } else {
            6 - y
        };
        let mut x: i32 = -radius;
        while x <= radius
            invariant
                0 <= y < 7,
                radius == crystal_radius(y as int),
                -radius <= x <= radius + 1,
                ox <= i32::MAX - 6,
                oy <= i32::MAX - 6,
                oz <= i32::MAX - 6,
                forall|qx: i32, qy: i32, qz: i32| #[trigger] world.voxel_at(qx, qy, qz) == overlay(
                    m0,
                    placed_if(
                        crystal_voxel(qx - ox, qy - oy, qz - oz),
                        visited(qy - oy, qx - ox - 3, 0, y as int, x as int, 0),
                    ),
                    qx,
                    qy,
                    qz,
                ),
            decreases radius + 1 - x,
        {
            let mut z: i32 = -radius;
            while z <= radius
                invariant
                    0 <= y < 7,
                    radius == crystal_radius(y as int),
                    -radius <= x <= radius,
                    -radius <= z <= radius + 1,
                    ox <= i32::MAX - 6,
                    oy <= i32::MAX - 6,
                    oz <= i32::MAX - 6,
                    forall|qx: i32, qy: i32, qz: i32| #[trigger] world.voxel_at(qx, qy, qz) == overlay(
                        m0,
                        placed_if(
                            crystal_voxel(qx - ox, qy - oy, qz - oz),
                            visited(qy - oy, qx - ox - 3, qz - oz - 3, y as int, x as int, z as int),
                        ),
                        qx,
                        qy,
                        qz,
                    ),
                decreases radius + 1 - z,
            {
                let ax: i32 = if x < 0 {
                    -x
                } else {
                    x
                };
                let az: i32 = if z < 0 {
                    -z
                } else {
                    z
                };
                if ax + az <= radius {
                    let intensity: u8 = (100 + y as u16 * 20).min(255) as u8;
                    world.set_voxel(ox + 3 + x, oy + y, oz + 3 + z, Voxel::Glow(intensity));
                }
                z += 1;
            }
            x += 1;
        }
        y += 1;
    }
}

fn build_ruins(world: &mut World, ox: i32, oy: i32, oz: i32)
    requires
        ox <= i32::MAX - 4,
        oy <= i32::MAX - 2,
        oz <= i32::MAX - 4,
    ensures
        forall|qx: i32, qy: i32, qz: i32| #[trigger] final(world).voxel_at(qx, qy, qz) == overlay(
            old(world)@,
            ruins_voxel(qx - ox, qy - oy, qz - oz),
            qx,
            qy,
            qz,
        ),
{
    let ghost m0 = world@;
    // Scattered stone walls.
    let mut y: i32 = 0;
    while y < 3
        invariant
            0 <= y <= 3,
            ox <= i32::MAX - 4,
            oy <= i32::MAX - 2,
            oz <= i32::MAX - 4,
            forall|qx: i32, qy: i32, qz: i32| #[trigger] world.voxel_at(qx, qy, qz) == overlay(
                m0,
                placed_if(
                    ruins_voxel(qx - ox, qy - oy, qz - oz),
                    qy - oy < y && !(qx - ox == 2 && qz - oz == 2),
                ),
                qx,
                qy,
                qz,
            ),
        decreases 3 - y,
    {
        world.set_voxel(ox, oy + y, oz, Voxel::Stone);
        world.set_voxel(ox + 1, oy + y, oz, Voxel::Stone);
        world.set_voxel(ox + 4, oy + y, oz + 4, Voxel::Stone);
        world.set_voxel(ox + 4, oy + y, oz + 3, Voxel::Stone);
        y += 1;
    }
    // Broken wall.
    world.set_voxel(ox + 2, oy, oz + 2, Voxel::Stone);
    world.set_voxel(ox + 2, oy + 1, oz + 2, Voxel::Stone);
}

/// Build a structure into the world at a given origin (world coordinates):
/// every position at which the pattern places a voxel gets that voxel, every
/// other position keeps its voxel.
pub fn build_structure(world: &mut World, pattern: BuildPattern, ox: i32, oy: i32, oz: i32)
    requires
        ox + pattern_extent(pattern).0 <= i32::MAX,
        oy + pattern_extent(pattern).1 <= i32::MAX,
        oz + pattern_extent(pattern).2 <= i32::MAX,
    ensures
        final(world)@ == built(old(world)@, pattern, ox, oy, oz),
{
    let ghost m0 = world@;
    match pattern {
        BuildPattern::Cabin => build_cabin(world, ox, oy, oz),
        BuildPattern::Tower => build_tower(world, ox, oy, oz),
        BuildPattern::Garden => build_garden(world, ox, oy, oz),
        BuildPattern::Crystal => build_crystal(world, ox, oy, oz),
        BuildPattern::Ruins => build_ruins(world, ox, oy, oz),
    }
    assert forall|p: (i32, i32, i32)| #[trigger] world@[p] == built(m0, pattern, ox, oy, oz)[p] by {
        assert(world@[p] == world.voxel_at(p.0, p.1, p.2));
    }
    assert(world@ =~= built(m0, pattern, ox, oy, oz));
}

} // verus!
