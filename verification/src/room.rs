use vstd::prelude::*;
use crate::voxel::Voxel;
use crate::world::{World, VoxelMap};

verus! {

/// The x (or z, with `step` 13) coordinate of the `i`-th glow voxel around a
/// room centred at `c` with radius `r`: `c + (step * i) mod (2r + 1) - r`.
pub open spec fn glow_coord(c: int, r: int, step: int, i: int) -> int {
    c + (step * i) % (2 * r + 1) - r
}

/// Position `(x, y, z)` is one of the first `n` glow positions of a room
/// centred at `(cx, cy, cz)` with radius `r`.
pub open spec fn is_glow_spot(cx: int, cy: int, cz: int, r: int, n: int, x: int, y: int, z: int) -> bool {
    y == cy + 3 && exists|i: int|
        0 <= i < n && #[trigger] glow_coord(cx, r, 7, i) == x && glow_coord(cz, r, 13, i) == z
}

/// The coordinates of every glow position fit in `i32`, and so do the
/// intermediate sums that compute them.
pub open spec fn glow_fits(cx: int, cy: int, cz: int, r: int, n: int) -> bool {
    &&& n > 0 ==> (n - 1) * 13 <= i32::MAX && cy + 3 <= i32::MAX
    &&& forall|i: int|
        0 <= i < n ==> {
            &&& i32::MIN <= cx + #[trigger] ((7 * i) % (2 * r + 1)) <= i32::MAX
            &&& i32::MIN <= glow_coord(cx, r, 7, i) <= i32::MAX
            &&& i32::MIN <= cz + ((13 * i) % (2 * r + 1)) <= i32::MAX
            &&& i32::MIN <= glow_coord(cz, r, 13, i) <= i32::MAX
        }
}

/// The voxel at `(x, y, z)` after the glow has been placed.
pub open spec fn after_glow(
    m: VoxelMap,
    cx: int,
    cy: int,
    cz: int,
    r: int,
    n: int,
    intensity: u8,
    x: i32,
    y: i32,
    z: i32,
) -> Voxel {
    if is_glow_spot(cx, cy, cz, r, n, x as int, y as int, z as int) {
        Voxel::Glow(intensity)
    } else {
        m[(x, y, z)]
    }
}

/// Position `(x, z)` lies in the square of radius `r` around `(cx, cz)`.
pub open spec fn in_square(cx: int, cz: int, r: int, x: int, z: int) -> bool {
    cx - r <= x <= cx + r && cz - r <= z <= cz + r
}

/// The voxel at `(x, y, z)` after the glow and, at height `water_y` when there
/// is one, water in every air cell of the room's square.
pub open spec fn after_vibe(
    m: VoxelMap,
    cx: int,
    cy: int,
    cz: int,
    r: int,
    n: int,
    intensity: u8,
    water_y: Option<i32>,
    x: i32,
    y: i32,
    z: i32,
) -> Voxel {
    let g = after_glow(m, cx, cy, cz, r, n, intensity, x, y, z);
    match water_y {
        Some(wy) => if y == wy && in_square(cx, cz, r, x as int, z as int) && g == Voxel::Air {
            Voxel::Water
        } else {
            g
        },
        None => g,
    }
}

/// Apart from the glow positions, the vibe only ever turns `Air` into water:
/// every other voxel is kept.
pub proof fn law_vibe_water_fills_only_air(
    m: VoxelMap,
    cx: int,
    cy: int,
    cz: int,
    r: int,
    n: int,
    intensity: u8,
    water_y: Option<i32>,
    x: i32,
    y: i32,
    z: i32,
)
    requires
        !is_glow_spot(cx, cy, cz, r, n, x as int, y as int, z as int),
    ensures
        after_vibe(m, cx, cy, cz, r, n, intensity, water_y, x, y, z) == m[(x, y, z)] || (m[(x, y, z)]
            == Voxel::Air && after_vibe(m, cx, cy, cz, r, n, intensity, water_y, x, y, z) == Voxel::Water),
{
}

/// The `i`-th glow voxel, at `(cx + (7i mod (2r+1)) - r, cy + 3,
/// cz + (13i mod (2r+1)) - r)`, ends up as glow of the given intensity,
/// whatever the position held before and whether or not water is added.
pub proof fn law_glow_replaces(
    m: VoxelMap,
    cx: int,
    cy: int,
    cz: int,
    r: int,
    n: int,
    intensity: u8,
    water_y: Option<i32>,
    i: int,
    x: i32,
    y: i32,
    z: i32,
)
    requires
        0 <= i < n,
        x == cx + (7 * i) % (2 * r + 1) - r,
        y == cy + 3,
        z == cz + (13 * i) % (2 * r + 1) - r,
    ensures
        after_vibe(m, cx, cy, cz, r, n, intensity, water_y, x, y, z) == Voxel::Glow(intensity),
{
    assert(glow_coord(cx, r, 7, i) == x && glow_coord(cz, r, 13, i) == z);
}

/// With water at height `wy`, every cell `(x, wy, z)` with
/// `cx - r <= x <= cx + r` and `cz - r <= z <= cz + r` that held `Air` and is
/// not a glow position becomes water.
pub proof fn law_water_fills_square(
    m: VoxelMap,
    cx: int,
    cy: int,
    cz: int,
    r: int,
    n: int,
    intensity: u8,
    wy: i32,
    x: i32,
    z: i32,
)
    requires
        cx - r <= x <= cx + r,
        cz - r <= z <= cz + r,
        m[(x, wy, z)] == Voxel::Air,
        wy != cy + 3 || forall|i: int|
            0 <= i < n ==> !(x == cx + #[trigger] ((7 * i) % (2 * r + 1)) - r && z == cz + (13 * i) % (2 * r + 1)
                - r),
    ensures
        after_vibe(m, cx, cy, cz, r, n, intensity, Some(wy), x, wy, z) == Voxel::Water,
{
    if wy == cy + 3 && is_glow_spot(cx, cy, cz, r, n, x as int, wy as int, z as int) {
        let i = choose|i: int|
            0 <= i < n && #[trigger] glow_coord(cx, r, 7, i) == x && glow_coord(cz, r, 13, i) == z;
        assert(x == cx + (7 * i) % (2 * r + 1) - r && z == cz + (13 * i) % (2 * r + 1) - r);
    }
}

/// Outside the glow layer `cy + 3`, a position keeps its voxel unless water
/// is added at its height, it lies in the square `cx - r ..= cx + r` by
/// `cz - r ..= cz + r`, and it held `Air`.
pub proof fn law_vibe_elsewhere_unchanged(
    m: VoxelMap,
    cx: int,
    cy: int,
    cz: int,
    r: int,
    n: int,
    intensity: u8,
    water_y: Option<i32>,
    x: i32,
    y: i32,
    z: i32,
)
    requires
        y != cy + 3,
        !(water_y == Some(y) && cx - r <= x <= cx + r && cz - r <= z <= cz + r && m[(x, y, z)]
            == Voxel::Air),
    ensures
        after_vibe(m, cx, cy, cz, r, n, intensity, water_y, x, y, z) == m[(x, y, z)],
{
}

/// A larger glow count lights every position a smaller one lights.
pub proof fn law_more_glow_covers_less(
    cx: int,
    cy: int,
    cz: int,
    r: int,
    n1: int,
    n2: int,
    x: int,
    y: int,
    z: int,
)
    requires
        n1 <= n2,
        is_glow_spot(cx, cy, cz, r, n1, x, y, z),
    ensures
        is_glow_spot(cx, cy, cz, r, n2, x, y, z),
{
    let i = choose|i: int|
        0 <= i < n1 && #[trigger] glow_coord(cx, r, 7, i) == x && glow_coord(cz, r, 13, i) == z;
    assert(0 <= i < n2 && glow_coord(cx, r, 7, i) == x && glow_coord(cz, r, 13, i) == z);
}

/// Whether `apply_room_vibe` accepts these arguments (with `water` telling
/// whether water is to be added): every coordinate it computes fits in `i32`.
pub fn room_vibe_fits(cx: i32, cy: i32, cz: i32, r: i32, glow_count: i32, water: bool) -> (b: bool)
    ensures
        b == ({
            &&& -1073741824 <= r <= 1073741823
            &&& glow_fits(cx as int, cy as int, cz as int, r as int, glow_count as int)
            &&& water ==> {
                &&& i32::MIN <= cx - r <= i32::MAX
                &&& i32::MIN <= cx + r <= i32::MAX
                &&& i32::MIN <= cz - r <= i32::MAX
                &&& i32::MIN <= cz + r <= i32::MAX
            }
        }),
{
    if r < -1073741824 || r > 1073741823 {
        return false;
    }
    if water {
        let (xl, xh, zl, zh) = (cx as i64 - r as i64, cx as i64 + r as i64, cz as i64 - r as i64, cz as i64
            + r as i64);
        if xl < i32::MIN as i64 || xl > i32::MAX as i64 || xh < i32::MIN as i64 || xh > i32::MAX as i64 {
            return false;
        }
        if zl < i32::MIN as i64 || zl > i32::MAX as i64 || zh < i32::MIN as i64 || zh > i32::MAX as i64 {
            return false;
        }
    }
    if glow_count > 0 {
        if (glow_count as i64 - 1) * 13 > i32::MAX as i64 || cy as i64 + 3 > i32::MAX as i64 {
            return false;
        }
    }
    let span: i32 = 2 * r + 1;
    let mut i: i32 = 0;
    while i < glow_count
        invariant
            0 <= i <= glow_count || (i == 0 && glow_count < 0),
            span == 2 * r + 1,
            -1073741824 <= r <= 1073741823,
            glow_count > 0 ==> (glow_count - 1) * 13 <= i32::MAX,
            forall|j: int|
                0 <= j < i ==> {
                    &&& i32::MIN <= cx + #[trigger] ((7 * j) % (2 * r + 1)) <= i32::MAX
                    &&& i32::MIN <= glow_coord(cx as int, r as int, 7, j) <= i32::MAX
                    &&& i32::MIN <= cz + ((13 * j) % (2 * r + 1)) <= i32::MAX
                    &&& i32::MIN <= glow_coord(cz as int, r as int, 13, j) <= i32::MAX
                },
        decreases glow_count - i,
    {
        let mx: i64 = (i * 7).checked_rem_euclid(span).unwrap() as i64;
        let mz: i64 = (i * 13).checked_rem_euclid(span).unwrap() as i64;
        let (sx, sz) = (cx as i64 + mx, cz as i64 + mz);
        let (gx, gz) = (sx - r as i64, sz - r as i64);
        assert(mx == (7 * i) % (2 * r + 1) && mz == (13 * i) % (2 * r + 1));
        if sx < i32::MIN as i64 || sx > i32::MAX as i64 || gx < i32::MIN as i64 || gx > i32::MAX as i64 {
            assert(!(i32::MIN <= cx + ((7 * (i as int)) % (2 * r + 1)) <= i32::MAX && i32::MIN <= glow_coord(
                cx as int,
                r as int,
                7,
                i as int,
            ) <= i32::MAX));
            return false;
        }
        if sz < i32::MIN as i64 || sz > i32::MAX as i64 || gz < i32::MIN as i64 || gz > i32::MAX as i64 {
            assert(!(i32::MIN <= cx + ((7 * (i as int)) % (2 * r + 1)) <= i32::MAX && i32::MIN <= cz + ((13 * (
            i as int)) % (2 * r + 1)) <= i32::MAX && i32::MIN <= glow_coord(cz as int, r as int, 13, i as int)
                <= i32::MAX));
            return false;
        }
        i += 1;
    }
    true
}

/// Modify the world around a room centred at `(cx, cy, cz)` with radius `r`:
/// place `glow_count` glow voxels of the given intensity on the layer `cy + 3`,
/// spread over the room's square, then, when `water_y` is given, fill every
/// air cell of the square at that height with water.
pub fn apply_room_vibe(
    world: &mut World,
    cx: i32,
    cy: i32,
    cz: i32,
    r: i32,
    glow_count: i32,
    intensity: u8,
    water_y: Option<i32>,
)
    requires
        -1073741824 <= r <= 1073741823,
        glow_fits(cx as int, cy as int, cz as int, r as int, glow_count as int),
        water_y is Some ==> {
            &&& i32::MIN <= cx - r <= i32::MAX
            &&& i32::MIN <= cx + r <= i32::MAX
            &&& i32::MIN <= cz - r <= i32::MAX
            &&& i32::MIN <= cz + r <= i32::MAX
        },
    ensures
        final(world)@ == Map::new(
            |p: (i32, i32, i32)| true,
            |p: (i32, i32, i32)|
                after_vibe(
                    old(world)@,
                    cx as int,
                    cy as int,
                    cz as int,
                    r as int,
                    glow_count as int,
                    intensity,
                    water_y,
                    p.0,
                    p.1,
                    p.2,
                ),
        ),
{
    let ghost m0 = world@;
    let span: i32 = 2 * r + 1;
    let mut i: i32 = 0;
    while i < glow_count
        invariant
            0 <= i <= glow_count || (i == 0 && glow_count < 0),
            span == 2 * r + 1,
            -1073741824 <= r <= 1073741823,
            glow_fits(cx as int, cy as int, cz as int, r as int, glow_count as int),
            forall|x: i32, y: i32, z: i32| #[trigger] world.voxel_at(x, y, z) == after_glow(
                m0,
                cx as int,
                cy as int,
                cz as int,
                r as int,
                i as int,
                intensity,
                x,
                y,
                z,
            ),
        decreases glow_count - i,
    {
        assert(i32::MIN <= cx + ((7 * i) % (2 * r + 1)) <= i32::MAX);
        let gx: i32 = cx + (i * 7).checked_rem_euclid(span).unwrap() - r;
        let gz: i32 = cz + (i * 13).checked_rem_euclid(span).unwrap() - r;
        world.set_voxel(gx, cy + 3, gz, Voxel::Glow(intensity));
        proof {
            assert(glow_coord(cx as int, r as int, 7, i as int) == gx);
            assert forall|x: i32, y: i32, z: i32| #[trigger] world.voxel_at(x, y, z) == after_glow(
                m0,
                cx as int,
                cy as int,
                cz as int,
                r as int,
                i + 1,
                intensity,
                x,
                y,
                z,
            ) by {
                if is_glow_spot(cx as int, cy as int, cz as int, r as int, i + 1, x as int, y as int, z as int)
                    && !(x == gx && y == cy + 3 && z == gz) {
                    let j = choose|j: int|
                        0 <= j < i + 1 && #[trigger] glow_coord(cx as int, r as int, 7, j) == x
                            && glow_coord(cz as int, r as int, 13, j) == z;
                    assert(j != i);
                    assert(is_glow_spot(cx as int, cy as int, cz as int, r as int, i as int, x as int, y as int, z as int));
                }
            }
        }
        i += 1;
    }
    assert forall|x: i32, y: i32, z: i32| #[trigger] world.voxel_at(x, y, z) == after_glow(
        m0,
        cx as int,
        cy as int,
        cz as int,
        r as int,
        glow_count as int,
        intensity,
        x,
        y,
        z,
    ) by {
        if glow_count < 0 {
            assert(!is_glow_spot(cx as int, cy as int, cz as int, r as int, glow_count as int, x as int, y as int, z as int));
            assert(!is_glow_spot(cx as int, cy as int, cz as int, r as int, i as int, x as int, y as int, z as int));
        }
    }

    // Low vibe: add water.
    if let Some(wy) = water_y {
        let ghost m1 = world@;
        assert forall|qx: i32, qy: i32, qz: i32| #[trigger] m1[(qx, qy, qz)] == after_glow(
            m0,
            cx as int,
            cy as int,
            cz as int,
            r as int,
            glow_count as int,
            intensity,
            qx,
            qy,
            qz,
        ) by {
            assert(world.voxel_at(qx, qy, qz) == m1[(qx, qy, qz)]);
        }
        let x_start: i32 = cx - r;
        let x_end: i32 = cx + r;
        let z_start: i32 = cz - r;
        let z_end: i32 = cz + r;
        let mut x: i64 = x_start as i64;
        while x <= x_end as i64
            invariant
                x_start == cx - r,
                x_end == cx + r,
                z_start == cz - r,
                z_end == cz + r,
                x_start <= x <= x_end + 1 || (x == x_start && x_start > x_end),
                forall|qx: i32, qy: i32, qz: i32| #[trigger] world.voxel_at(qx, qy, qz) == if qy == wy
                    && in_square(cx as int, cz as int, r as int, qx as int, qz as int) && qx < x
                    && m1[(qx, qy, qz)] == Voxel::Air {
                    Voxel::Water
                } else {
                    m1[(qx, qy, qz)]
                },
            decreases x_end + 1 - x,
        {
            let mut z: i64 = z_start as i64;
            while z <= z_end as i64
                invariant
                    x_start == cx - r,
                    x_end == cx + r,
                    z_start == cz - r,
                    z_end == cz + r,
                    x_start <= x <= x_end,
                    z_start <= z <= z_end + 1 || (z == z_start && z_start > z_end),
                    forall|qx: i32, qy: i32, qz: i32| #[trigger] world.voxel_at(qx, qy, qz) == if qy == wy
                        && in_square(cx as int, cz as int, r as int, qx as int, qz as int) && (qx < x || (qx
                        == x && qz < z)) && m1[(qx, qy, qz)] == Voxel::Air {
                        Voxel::Water
                    } else {
                        m1[(qx, qy, qz)]
                    },
                decreases z_end + 1 - z,
            {
                let (xi, zi) = (x as i32, z as i32);
                if world.get_voxel(xi, wy, zi) == Voxel::Air {
                    world.set_voxel(xi, wy, zi, Voxel::Water);
                }
                z += 1;
            }
            x += 1;
        }
        assert forall|qx: i32, qy: i32, qz: i32| #[trigger] world.voxel_at(qx, qy, qz) == after_vibe(
            m0,
            cx as int,
            cy as int,
            cz as int,
            r as int,
            glow_count as int,
            intensity,
            water_y,
            qx,
            qy,
            qz,
        ) by {
            assert(m1[(qx, qy, qz)] == after_glow(
                m0,
                cx as int,
                cy as int,
                cz as int,
                r as int,
                glow_count as int,
                intensity,
                qx,
                qy,
                qz,
            ));
        }
    }
    let ghost target = Map::new(
        |p: (i32, i32, i32)| true,
        |p: (i32, i32, i32)|
            after_vibe(
                m0,
                cx as int,
                cy as int,
                cz as int,
                r as int,
                glow_count as int,
                intensity,
                water_y,
                p.0,
                p.1,
                p.2,
            ),
    );
    assert forall|p: (i32, i32, i32)| #[trigger] world@[p] == target[p] by {
        assert(world@[p] == world.voxel_at(p.0, p.1, p.2));
    }
    assert(world@ =~= target);
}

} // verus!
