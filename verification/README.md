# lau_voxel

A voxel world engine, with its behaviour proved: voxel types and their colours,
16×16×16 chunks, a world of chunks keyed by chunk position, flat and
height-mapped terrain generation, prefabricated structures, and the
integer part of a room's "vibe" effect on the world.

Layout:

- `src/voxel.rs` — `Voxel`, its names, colours and solidity.
- `src/chunk.rs` — `Chunk` (cells, get/set, per-type counts, exposed surface).
- `src/world.rs` — `World`, modelled as the voxel at every world position;
  reads after writes.
- `src/terrain.rs` — flat and height-mapped terrain generation.
- `src/structures.rs` — `BuildPattern` and `build_structure`.
- `src/room.rs` — glow and water placed around a room.
- `app/` — agents, game events, game rooms and ray casting, which work on
  floating-point positions and call into the library.
- `tests/` — tests of the library.
