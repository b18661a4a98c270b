use lau_voxel::{
    apply_room_vibe, build_structure, room_vibe_fits, BuildPattern, Chunk, Voxel, World, CHUNK_SIZE,
};

// -- Voxel tests --------------------------------------------------------

#[test]
fn voxel_display_names() {
    assert_eq!(Voxel::Air.display_name(), "Air");
    assert_eq!(Voxel::Stone.display_name(), "Stone");
    assert_eq!(Voxel::Grass.display_name(), "Grass");
    assert_eq!(Voxel::Water.display_name(), "Water");
    assert_eq!(Voxel::Wood.display_name(), "Wood");
    assert_eq!(Voxel::Glass.display_name(), "Glass");
    assert_eq!(Voxel::Glow(100).display_name(), "Glow");
    assert_eq!(Voxel::Custom(42).display_name(), "Custom");
}

#[test]
fn voxel_base_colors() {
    assert_eq!(Voxel::Air.base_color(), (0, 0, 0));
    assert_eq!(Voxel::Grass.base_color(), (34, 139, 34));
    assert_eq!(Voxel::Water.base_color(), (30, 144, 255));
}

#[test]
fn voxel_solidity() {
    assert!(!Voxel::Air.is_solid());
    assert!(Voxel::Stone.is_solid());
    assert!(Voxel::Water.is_solid());
    assert!(Voxel::Glow(0).is_solid());
}

#[test]
fn glow_color_varies() {
    let c1 = Voxel::Glow(0).base_color();
    let c2 = Voxel::Glow(255).base_color();
    assert_ne!(c1, c2);
}

#[test]
fn custom_color_is_deterministic() {
    let c1 = Voxel::Custom(10).base_color();
    let c2 = Voxel::Custom(10).base_color();
    assert_eq!(c1, c2);
}

#[test]
fn voxel_remaining_colors_exact() {
    assert_eq!(Voxel::Stone.base_color(), (128, 128, 128));
    assert_eq!(Voxel::Wood.base_color(), (139, 90, 43));
    assert_eq!(Voxel::Glass.base_color(), (200, 220, 255));
    // 255 * 200 / 255 = 200; 100 * 200 / 255 = 78.
    assert_eq!(Voxel::Glow(255).base_color(), (255, 255, 200));
    assert_eq!(Voxel::Glow(100).base_color(), (255, 255, 78));
    assert_eq!(Voxel::Glow(0).base_color(), (255, 255, 0));
}

#[test]
fn custom_color_wraps_exactly() {
    // id 10: 730 mod 256 = 218, +40 = 258 mod 256 = 2 -> 2 % 200 + 55 = 57
    //        1370 mod 256 = 90, +80 = 170 -> 170 + 55 = 225
    //        2110 mod 256 = 62, +120 = 182 -> 182 + 55 = 237
    assert_eq!(Voxel::Custom(10).base_color(), (57, 225, 237));
    // id 0: 40 + 55, 80 + 55, 120 + 55
    assert_eq!(Voxel::Custom(0).base_color(), (95, 135, 175));
    // id 2: 146 + 40 = 186 -> 241; 274 mod 256 = 18, +80 = 98 -> 153; 422 mod 256 = 166, +120 = 286 mod 256 = 30 -> 85
    assert_eq!(Voxel::Custom(2).base_color(), (241, 153, 85));
}

// -- Chunk tests --------------------------------------------------------

#[test]
fn chunk_new_is_air() {
    let chunk = Chunk::new(0, 0, 0);
    assert_eq!(chunk.get(0, 0, 0), Voxel::Air);
    assert_eq!(chunk.get(15, 15, 15), Voxel::Air);
}

#[test]
fn chunk_set_get_roundtrip() {
    let mut chunk = Chunk::new(1, 2, 3);
    chunk.set(5, 10, 7, Voxel::Stone);
    assert_eq!(chunk.get(5, 10, 7), Voxel::Stone);
}

#[test]
fn chunk_set_leaves_other_cells() {
    let mut chunk = Chunk::new(0, 0, 0);
    chunk.set(5, 10, 7, Voxel::Stone);
    chunk.set(5, 10, 7, Voxel::Wood);
    assert_eq!(chunk.get(5, 10, 7), Voxel::Wood);
    assert_eq!(chunk.get(6, 10, 7), Voxel::Air);
    assert_eq!(chunk.get(5, 11, 7), Voxel::Air);
    assert_eq!(chunk.get(5, 10, 6), Voxel::Air);
}

#[test]
fn chunk_coordinates_stored() {
    let chunk = Chunk::new(10, 20, 30);
    assert_eq!((chunk.cx, chunk.cy, chunk.cz), (10, 20, 30));
}

#[test]
fn chunk_is_solid() {
    let mut chunk = Chunk::new(0, 0, 0);
    assert!(!chunk.is_solid(0, 0, 0));
    chunk.set(0, 0, 0, Voxel::Grass);
    assert!(chunk.is_solid(0, 0, 0));
}

#[test]
fn chunk_count_by_type() {
    let mut chunk = Chunk::new(0, 0, 0);
    chunk.set(0, 0, 0, Voxel::Stone);
    chunk.set(1, 0, 0, Voxel::Stone);
    chunk.set(2, 0, 0, Voxel::Grass);
    let counts = chunk.count_by_type();
    assert_eq!(*counts.get(&Voxel::Stone).unwrap(), 2);
    assert_eq!(*counts.get(&Voxel::Grass).unwrap(), 1);
    assert_eq!(*counts.get(&Voxel::Air).unwrap(), CHUNK_SIZE * CHUNK_SIZE * CHUNK_SIZE - 3);
}

#[test]
fn chunk_count_absent_type_is_none() {
    let mut chunk = Chunk::new(0, 0, 0);
    chunk.set(3, 4, 5, Voxel::Glow(9));
    let counts = chunk.count_by_type();
    assert!(counts.get(&Voxel::Water).is_none());
    assert!(counts.get(&Voxel::Glow(8)).is_none());
    assert_eq!(*counts.get(&Voxel::Glow(9)).unwrap(), 1);
}

#[test]
fn chunk_surface_voxels_single_block() {
    let mut chunk = Chunk::new(0, 0, 0);
    chunk.set(8, 8, 8, Voxel::Stone);
    let surf = chunk.surface_voxels();
    assert_eq!(surf.len(), 1);
    assert_eq!(surf[0].3, Voxel::Stone);
}

#[test]
fn chunk_surface_voxels_buried_not_exposed() {
    let mut chunk = Chunk::new(0, 0, 0);
    // Fill a 3×3×3 cube — only the shell should be surface.
    for x in 5..8 {
        for y in 5..8 {
            for z in 5..8 {
                chunk.set(x, y, z, Voxel::Stone);
            }
        }
    }
    let surf = chunk.surface_voxels();
    // Shell of a 3³ cube = 27 - 1 = 26.
    assert_eq!(surf.len(), 26);
    assert!(!surf.iter().any(|e| (e.0, e.1, e.2) == (6, 6, 6)));
}

#[test]
fn chunk_surface_order_and_boundary() {
    let mut chunk = Chunk::new(0, 0, 0);
    // A full chunk of stone: only voxels on the chunk boundary are exposed.
    for x in 0..16u8 {
        for y in 0..16u8 {
            for z in 0..16u8 {
                chunk.set(x, y, z, Voxel::Stone);
            }
        }
    }
    let surf = chunk.surface_voxels();
    assert_eq!(surf.len(), 4096 - 14 * 14 * 14);
    assert_eq!(surf[0], (0, 0, 0, Voxel::Stone));
    assert_eq!(surf[1], (1, 0, 0, Voxel::Stone));
    assert_eq!(surf[surf.len() - 1], (15, 15, 15, Voxel::Stone));
}

// -- World tests --------------------------------------------------------

#[test]
fn world_new_is_empty() {
    let world = World::new();
    assert_eq!(world.get_voxel(0, 0, 0), Voxel::Air);
}

#[test]
fn world_set_get_roundtrip() {
    let mut world = World::new();
    world.set_voxel(100, 50, -30, Voxel::Wood);
    assert_eq!(world.get_voxel(100, 50, -30), Voxel::Wood);
}

#[test]
fn world_write_leaves_neighbours() {
    let mut world = World::default();
    world.set_voxel(-1, -1, -1, Voxel::Glass);
    world.set_voxel(-1, -1, -1, Voxel::Stone);
    assert_eq!(world.get_voxel(-1, -1, -1), Voxel::Stone);
    // Same chunk, other cell; neighbouring chunk.
    assert_eq!(world.get_voxel(-2, -1, -1), Voxel::Air);
    assert_eq!(world.get_voxel(0, -1, -1), Voxel::Air);
    world.set_voxel(i32::MIN, i32::MAX, 0, Voxel::Wood);
    assert_eq!(world.get_voxel(i32::MIN, i32::MAX, 0), Voxel::Wood);
    let copy = world.clone();
    assert_eq!(copy.get_voxel(-1, -1, -1), Voxel::Stone);
}

#[test]
fn world_generate_flat() {
    let world = World::generate_flat(1, 5);
    // Above ground: air.
    assert_eq!(world.get_voxel(0, 6, 0), Voxel::Air);
    // Ground surface: grass.
    assert_eq!(world.get_voxel(0, 5, 0), Voxel::Grass);
    // Below ground: stone.
    assert_eq!(world.get_voxel(0, 4, 0), Voxel::Stone);
    assert_eq!(world.get_voxel(0, 0, 0), Voxel::Stone);
}

#[test]
fn world_generate_flat_negative_coords() {
    let world = World::generate_flat(1, 3);
    assert_eq!(world.get_voxel(-10, 3, -10), Voxel::Grass);
    assert_eq!(world.get_voxel(-10, 2, -10), Voxel::Stone);
}

#[test]
fn world_generate_flat_extent() {
    let world = World::generate_flat(1, 20);
    // Stone chunk below the ground's chunk, grass at 20, air above.
    assert_eq!(world.get_voxel(31, 3, -16), Voxel::Stone);
    assert_eq!(world.get_voxel(31, 20, -16), Voxel::Grass);
    assert_eq!(world.get_voxel(31, 21, -16), Voxel::Air);
    // Outside the radius, and below chunk height 0: air.
    assert_eq!(world.get_voxel(32, 20, 0), Voxel::Air);
    assert_eq!(world.get_voxel(0, -1, 0), Voxel::Air);
    // A negative ground level still gets its ground chunk.
    let low = World::generate_flat(0, -3);
    assert_eq!(low.get_voxel(0, -3, 0), Voxel::Grass);
    assert_eq!(low.get_voxel(0, -16, 0), Voxel::Stone);
    assert_eq!(low.get_voxel(0, -17, 0), Voxel::Air);
    // A negative radius generates nothing.
    let none = World::generate_flat(-1, 5);
    assert_eq!(none.get_voxel(0, 5, 0), Voxel::Air);
}

#[test]
fn world_generate_heightmap_flat() {
    let world = World::generate_heightmap(1, |_x, _z| 10);
    assert_eq!(world.get_voxel(0, 10, 0), Voxel::Grass);
    assert_eq!(world.get_voxel(0, 9, 0), Voxel::Stone);
    assert_eq!(world.get_voxel(0, 11, 0), Voxel::Air);
}

#[test]
fn world_generate_heightmap_hilly() {
    let world = World::generate_heightmap(1, |x, _z| {
        if x == 0 { 20 } else { 5 }
    });
    assert_eq!(world.get_voxel(0, 20, 0), Voxel::Grass);
    assert_eq!(world.get_voxel(5, 5, 0), Voxel::Grass);
    assert_eq!(world.get_voxel(5, 6, 0), Voxel::Air);
}

#[test]
fn world_generate_heightmap_edges() {
    // Negative heights: no chunks, all air.
    let world = World::generate_heightmap(0, |_x, _z| -1);
    assert_eq!(world.get_voxel(0, -1, 0), Voxel::Air);
    assert_eq!(world.get_voxel(0, 0, 0), Voxel::Air);
    // A tall column in a chunk makes stone under the lower columns too,
    // from height 0 up.
    let world = World::generate_heightmap(0, |x, z| if x == 3 && z == 4 { 40 } else { 2 });
    assert_eq!(world.get_voxel(3, 40, 4), Voxel::Grass);
    assert_eq!(world.get_voxel(3, 39, 4), Voxel::Stone);
    assert_eq!(world.get_voxel(0, 2, 0), Voxel::Grass);
    assert_eq!(world.get_voxel(0, 30, 0), Voxel::Air);
    assert_eq!(world.get_voxel(0, -1, 0), Voxel::Air);
    assert_eq!(world.get_voxel(16, 2, 0), Voxel::Air);
}

// -- Structures -----------------------------------------------------------

#[test]
fn build_cabin_at_origin() {
    let mut world = World::new();
    build_structure(&mut world, BuildPattern::Cabin, 0, 0, 0);
    assert_eq!(world.get_voxel(0, 0, 0), Voxel::Wood);
    assert_eq!(world.get_voxel(2, 1, 0), Voxel::Glass);
    assert_eq!(world.get_voxel(0, 1, 2), Voxel::Glass);
    assert_eq!(world.get_voxel(2, 2, 2), Voxel::Glow(200));
    assert_eq!(world.get_voxel(2, 1, 2), Voxel::Air);
    assert_eq!(world.get_voxel(2, 3, 2), Voxel::Wood);
    assert_eq!(world.get_voxel(5, 0, 0), Voxel::Air);
}

#[test]
fn build_tower_at_origin() {
    let mut world = World::new();
    build_structure(&mut world, BuildPattern::Tower, 0, 0, 0);
    assert_eq!(world.get_voxel(0, 0, 0), Voxel::Stone);
    assert_eq!(world.get_voxel(1, 4, 1), Voxel::Air);
    assert_eq!(world.get_voxel(1, 8, 1), Voxel::Glow(255));
}

#[test]
fn build_garden_at_origin() {
    let mut world = World::new();
    build_structure(&mut world, BuildPattern::Garden, 0, 0, 0);
    assert_eq!(world.get_voxel(0, 0, 0), Voxel::Grass);
    assert_eq!(world.get_voxel(0, 1, 0), Voxel::Custom(0));
    assert_eq!(world.get_voxel(2, 1, 4), Voxel::Custom(34));
    assert_eq!(world.get_voxel(1, 1, 0), Voxel::Air);
}

#[test]
fn build_crystal_at_origin() {
    let mut world = World::new();
    build_structure(&mut world, BuildPattern::Crystal, 0, 0, 0);
    assert_eq!(world.get_voxel(3, 0, 3), Voxel::Glow(100));
    assert_eq!(world.get_voxel(0, 3, 3), Voxel::Glow(160));
    assert_eq!(world.get_voxel(3, 6, 3), Voxel::Glow(220));
    assert_eq!(world.get_voxel(2, 0, 3), Voxel::Air);
}

#[test]
fn build_ruins_at_offset() {
    let mut world = World::new();
    build_structure(&mut world, BuildPattern::Ruins, -3, 7, 100);
    assert_eq!(world.get_voxel(-3, 7, 100), Voxel::Stone);
    assert_eq!(world.get_voxel(1, 9, 104), Voxel::Stone);
    assert_eq!(world.get_voxel(-1, 8, 102), Voxel::Stone);
    assert_eq!(world.get_voxel(-1, 9, 102), Voxel::Air);
}

#[test]
fn all_patterns_produce_voxels() {
    let patterns = [
        BuildPattern::Cabin,
        BuildPattern::Tower,
        BuildPattern::Garden,
        BuildPattern::Crystal,
        BuildPattern::Ruins,
    ];
    for &p in &patterns {
        let mut world = World::new();
        build_structure(&mut world, p, 0, 0, 0);
        // At least one non-air voxel must exist.
        let mut found = false;
        for x in -5..20 {
            for y in -5..20 {
                for z in -5..20 {
                    if world.get_voxel(x, y, z) != Voxel::Air {
                        found = true;
                        break;
                    }
                }
                if found { break; }
            }
            if found { break; }
        }
        assert!(found, "Pattern {p:?} produced no voxels");
    }
}

// -- Room vibe ------------------------------------------------------------

#[test]
fn room_vibe_glow_positions() {
    let mut world = World::new();
    // r = 5, span = 11, 25 glow voxels at y = 3.
    apply_room_vibe(&mut world, 0, 0, 0, 5, 25, 255, None);
    // i = 0: (-5, -5); i = 1: (7 - 5, 13 % 11 - 5) = (2, -3).
    assert_eq!(world.get_voxel(-5, 3, -5), Voxel::Glow(255));
    assert_eq!(world.get_voxel(2, 3, -3), Voxel::Glow(255));
    assert_eq!(world.get_voxel(-5, 4, -5), Voxel::Air);
    let mut glow_count = 0;
    for x in -5..=5 {
        for z in -5..=5 {
            if matches!(world.get_voxel(x, 3, z), Voxel::Glow(_)) {
                glow_count += 1;
            }
        }
    }
    assert!(glow_count > 5);
}

#[test]
fn room_vibe_water_fills_air_only() {
    let mut world = World::generate_flat(1, 5);
    apply_room_vibe(&mut world, 0, 5, 0, 3, 0, 25, Some(5));
    // Grass at the water height stays; air at other heights too.
    assert_eq!(world.get_voxel(0, 5, 0), Voxel::Grass);
    assert_eq!(world.get_voxel(0, 6, 0), Voxel::Air);
    let mut world = World::new();
    world.set_voxel(1, 2, 1, Voxel::Wood);
    apply_room_vibe(&mut world, 0, 2, 0, 1, 0, 0, Some(2));
    assert_eq!(world.get_voxel(1, 2, 1), Voxel::Wood);
    assert_eq!(world.get_voxel(-1, 2, -1), Voxel::Water);
    assert_eq!(world.get_voxel(2, 2, 0), Voxel::Air);
}

#[test]
fn pattern_fits_at_bounds() {
    assert!(BuildPattern::Tower.fits_at(0, i32::MAX - 8, 0));
    assert!(!BuildPattern::Tower.fits_at(0, i32::MAX - 7, 0));
    assert!(BuildPattern::Cabin.fits_at(i32::MAX - 4, 0, i32::MAX - 4));
    assert!(!BuildPattern::Garden.fits_at(i32::MAX - 5, 0, 0));
    assert!(BuildPattern::Crystal.fits_at(i32::MIN, i32::MIN, i32::MIN));
}

#[test]
fn room_vibe_fits_bounds() {
    assert!(room_vibe_fits(0, 0, 0, 5, 25, true));
    assert!(!room_vibe_fits(0, 0, 0, 1 << 30, 0, false));
    assert!(!room_vibe_fits(i32::MAX, 0, 0, 5, 0, true));
    assert!(room_vibe_fits(i32::MAX, 0, 0, 5, 0, false));
    // The first glow voxel sits at cx - r: fine; the next at cx + 7 - r overflows.
    assert!(room_vibe_fits(i32::MAX - 2, 0, 0, 5, 1, false));
    assert!(!room_vibe_fits(i32::MAX - 2, 0, 0, 5, 2, false));
    assert!(!room_vibe_fits(0, i32::MAX - 2, 0, 5, 1, false));
}

#[test]
fn room_more_glow_covers_less() {
    let mut few = World::new();
    apply_room_vibe(&mut few, 3, 1, -2, 4, 5, 50, None);
    let mut many = World::new();
    apply_room_vibe(&mut many, 3, 1, -2, 4, 12, 50, None);
    for x in -10..=15 {
        for z in -15..=10 {
            if few.get_voxel(x, 4, z) == Voxel::Glow(50) {
                assert_eq!(many.get_voxel(x, 4, z), Voxel::Glow(50));
            }
        }
    }
}

#[test]
fn chunk_coords_getter() {
    let chunk = Chunk::new(-4, 7, 9);
    assert_eq!(chunk.coords(), (-4, 7, 9));
}

#[test]
fn voxel_counts_len_and_entries() {
    let mut chunk = Chunk::new(0, 0, 0);
    chunk.set(0, 0, 0, Voxel::Custom(3));
    chunk.set(1, 0, 0, Voxel::Stone);
    chunk.set(2, 0, 0, Voxel::Stone);
    chunk.set(3, 0, 0, Voxel::Glow(9));
    let counts = chunk.count_by_type();
    assert_eq!(counts.len(), 4);
    assert!(!counts.is_empty());
    // Entries come in order of the types' codes: plain types, then glow, then custom.
    assert_eq!(
        counts.entries(),
        vec![
            (Voxel::Air, 4096 - 4),
            (Voxel::Stone, 2),
            (Voxel::Glow(9), 1),
            (Voxel::Custom(3), 1),
        ]
    );
    let copy = counts.clone();
    assert_eq!(*copy.get(&Voxel::Stone).unwrap(), 2);
    let all_air = Chunk::new(0, 0, 0).count_by_type();
    assert_eq!(all_air.len(), 1);
    assert_eq!(all_air.entries(), vec![(Voxel::Air, 4096)]);
}
