use vstd::prelude::*;
use std::collections::HashMap;
use crate::voxel::{Voxel, code_of, solid, lemma_code_injective};

verus! {

/// Chunk dimension (X, Y, Z).
pub const CHUNK_SIZE: usize = 16;

/// Number of voxels in a chunk (`CHUNK_SIZE³`).
pub const CHUNK_VOLUME: usize = 4096;

/// Position of local coordinates `(x, y, z)` in a chunk's voxel array.
pub open spec fn local_index(x: int, y: int, z: int) -> int {
    x + 16 * y + 256 * z
}

/// Whether local coordinates lie inside a chunk.
pub open spec fn in_chunk(x: int, y: int, z: int) -> bool {
    0 <= x < 16 && 0 <= y < 16 && 0 <= z < 16
}

/// Number of occurrences of `v` in `s`.
pub open spec fn count_in(s: Seq<Voxel>, v: Voxel) -> nat
    decreases s.len(),
{
    if s.len() == 0 {
        0
    } else {
        count_in(s.drop_last(), v) + if s.last() == v { 1nat } else { 0nat }
    }
}

/// A voxel occurs in `s` no more often than `s` is long.
pub proof fn lemma_count_in_bound(s: Seq<Voxel>, v: Voxel)
    ensures
        count_in(s, v) <= s.len(),
    decreases s.len(),
{
    if s.len() > 0 {
        lemma_count_in_bound(s.drop_last(), v);
    }
}

/// The voxel at local coordinates `(x, y, z)` of the cells `s`.
pub open spec fn cell(s: Seq<Voxel>, x: int, y: int, z: int) -> Voxel {
    s[local_index(x, y, z)]
}

/// A face towards `(x, y, z)` is open: that position lies outside the chunk,
/// or holds `Air`.
pub open spec fn face_open(s: Seq<Voxel>, x: int, y: int, z: int) -> bool {
    !in_chunk(x, y, z) || cell(s, x, y, z) == Voxel::Air
}

/// The six axis-aligned neighbour offsets, in the order they are examined.
pub open spec fn neighbor_offset(j: int) -> (int, int, int) {
    if j == 0 {
        (-1, 0, 0)
    } else if j == 1 {
        (1, 0, 0)
    } else if j == 2 {
        (0, -1, 0)
    } else if j == 3 {
        (0, 1, 0)
    } else if j == 4 {
        (0, 0, -1)
    } else {
        (0, 0, 1)
    }
}

/// The voxel at `(x, y, z)` has at least one face towards the chunk
/// boundary or towards `Air`.
pub open spec fn exposed(s: Seq<Voxel>, x: int, y: int, z: int) -> bool {
    exists|j: int|
        0 <= j < 6 && #[trigger] face_open(
            s,
            x + neighbor_offset(j).0,
            y + neighbor_offset(j).1,
            z + neighbor_offset(j).2,
        )
}

/// The local coordinates of array position `i`.
pub open spec fn coords_of(i: int) -> (int, int, int) {
    (i % 16, (i / 16) % 16, i / 256)
}

/// The non-`Air` voxel at array position `i` is exposed.
pub open spec fn on_surface(s: Seq<Voxel>, i: int) -> bool {
    s[i] != Voxel::Air && exposed(s, coords_of(i).0, coords_of(i).1, coords_of(i).2)
}

/// The entry that `surface_voxels` reports for array position `i`.
pub open spec fn surface_entry(s: Seq<Voxel>, i: int) -> (u8, u8, u8, Voxel) {
    (coords_of(i).0 as u8, coords_of(i).1 as u8, coords_of(i).2 as u8, s[i])
}

/// The surface entries among the first `n` array positions, in array order.
pub open spec fn surface_prefix(s: Seq<Voxel>, n: int) -> Seq<(u8, u8, u8, Voxel)>
    decreases n,
{
    if n <= 0 {
        Seq::empty()
    } else if on_surface(s, n - 1) {
        surface_prefix(s, n - 1).push(surface_entry(s, n - 1))
    } else {
        surface_prefix(s, n - 1)
    }
}

/// Array positions decode back to the local coordinates they came from.
pub proof fn lemma_coords_of_index(x: int, y: int, z: int)
    requires
        in_chunk(x, y, z),
    ensures
        coords_of(local_index(x, y, z)) == (x, y, z),
{
    let i: int = local_index(x, y, z);
    assert(i % 16 == x && i / 16 == y + 16 * z) by (nonlinear_arith)
        requires
            i == x + 16 * y + 256 * z,
            0 <= x < 16,
            0 <= y < 16,
            0 <= z < 16,
    ;
    assert((y + 16 * z) % 16 == y && i / 256 == z) by (nonlinear_arith)
        requires
            i == x + 16 * y + 256 * z,
            0 <= x < 16,
            0 <= y < 16,
            0 <= z < 16,
    ;
}

/// Every array position is the index of the local coordinates it decodes to.
pub proof fn lemma_index_of_coords(i: int)
    requires
        0 <= i < CHUNK_VOLUME,
    ensures
        in_chunk(coords_of(i).0, coords_of(i).1, coords_of(i).2),
        local_index(coords_of(i).0, coords_of(i).1, coords_of(i).2) == i,
{
    assert(0 <= i % 16 < 16 && 0 <= (i / 16) % 16 < 16 && 0 <= i / 256 < 16
        && i % 16 + 16 * ((i / 16) % 16) + 256 * (i / 256) == i) by (nonlinear_arith)
        requires
            0 <= i < 4096,
    {
        assert(i == 16 * (i / 16) + i % 16);
        assert(i / 16 == 16 * ((i / 16) / 16) + (i / 16) % 16);
        assert((i / 16) / 16 == i / 256);
    }
}

/// Cells described position by position, for every position in the chunk,
/// are the sequence of those descriptions in array order.
pub proof fn lemma_cells_by_coords(s: Seq<Voxel>, f: spec_fn(int, int, int) -> Voxel)
    requires
        s.len() == CHUNK_VOLUME,
        forall|x: int, y: int, z: int|
            in_chunk(x, y, z) ==> #[trigger] s[local_index(x, y, z)] == f(x, y, z),
    ensures
        s == Seq::new(CHUNK_VOLUME as nat, |i: int| f(coords_of(i).0, coords_of(i).1, coords_of(i).2)),
{
    assert forall|i: int| 0 <= i < CHUNK_VOLUME implies s[i] == f(
        coords_of(i).0,
        coords_of(i).1,
        coords_of(i).2,
    ) by {
        lemma_index_of_coords(i);
    }
    assert(s =~= Seq::new(CHUNK_VOLUME as nat, |i: int| f(coords_of(i).0, coords_of(i).1, coords_of(i).2)));
}

/// Setting one cell of a chunk: that cell reads back the new voxel, every
/// other cell reads as before.
pub proof fn law_chunk_set_get(s: Seq<Voxel>, x: int, y: int, z: int, v: Voxel, qx: int, qy: int, qz: int)
    requires
        s.len() == CHUNK_VOLUME,
        in_chunk(x, y, z),
        in_chunk(qx, qy, qz),
    ensures
        cell(s.update(local_index(x, y, z), v), qx, qy, qz) == if (qx, qy, qz) == (x, y, z) {
            v
        } else {
            cell(s, qx, qy, qz)
        },
{
    lemma_coords_of_index(x, y, z);
    lemma_coords_of_index(qx, qy, qz);
}

/// The surface list holds exactly the entries of the non-`Air` exposed
/// voxels among the positions it covers.
pub proof fn law_surface_members(s: Seq<Voxel>, n: int, e: (u8, u8, u8, Voxel))
    ensures
        surface_prefix(s, n).contains(e) <==> exists|i: int|
            0 <= i < n && on_surface(s, i) && #[trigger] surface_entry(s, i) == e,
    decreases n,
{
    if n > 0 {
        law_surface_members(s, n - 1, e);
        if on_surface(s, n - 1) {
            let p = surface_prefix(s, n - 1);
            let q = p.push(surface_entry(s, n - 1));
            assert(q.contains(e) <==> p.contains(e) || surface_entry(s, n - 1) == e) by {
                if q.contains(e) {
                    let k = choose|k: int| 0 <= k < q.len() && #[trigger] q[k] == e;
                    if k < p.len() {
                        assert(p[k] == e);
                    }
                }
                if p.contains(e) {
                    let k = choose|k: int| 0 <= k < p.len() && #[trigger] p[k] == e;
                    assert(q[k] == e);
                }
                if surface_entry(s, n - 1) == e {
                    assert(q[p.len() as int] == e);
                }
            }
        }
    }
}

/// The voxel at `(x, y, z)` has a face on the chunk boundary or on `Air`,
/// written out neighbour by neighbour.
spec fn touches_air_or_boundary(s: Seq<Voxel>, x: int, y: int, z: int) -> bool {
    ||| x == 0 || s[(x - 1) + 16 * y + 256 * z] == Voxel::Air
    ||| x == 15 || s[(x + 1) + 16 * y + 256 * z] == Voxel::Air
    ||| y == 0 || s[x + 16 * (y - 1) + 256 * z] == Voxel::Air
    ||| y == 15 || s[x + 16 * (y + 1) + 256 * z] == Voxel::Air
    ||| z == 0 || s[x + 16 * y + 256 * (z - 1)] == Voxel::Air
    ||| z == 15 || s[x + 16 * y + 256 * (z + 1)] == Voxel::Air
}

proof fn lemma_exposed_explicit(s: Seq<Voxel>, x: int, y: int, z: int)
    requires
        in_chunk(x, y, z),
    ensures
        exposed(s, x, y, z) <==> touches_air_or_boundary(s, x, y, z),
{
    if exposed(s, x, y, z) {
        let j = choose|j: int|
            0 <= j < 6 && #[trigger] face_open(
                s,
                x + neighbor_offset(j).0,
                y + neighbor_offset(j).1,
                z + neighbor_offset(j).2,
            );
        assert(0 <= j < 6);
    }
    if touches_air_or_boundary(s, x, y, z) {
        if x == 0 || s[(x - 1) + 16 * y + 256 * z] == Voxel::Air {
            assert(face_open(s, x + neighbor_offset(0).0, y + neighbor_offset(0).1, z + neighbor_offset(0).2));
        } else if x == 15 || s[(x + 1) + 16 * y + 256 * z] == Voxel::Air {
            assert(face_open(s, x + neighbor_offset(1).0, y + neighbor_offset(1).1, z + neighbor_offset(1).2));
        } else if y == 0 || s[x + 16 * (y - 1) + 256 * z] == Voxel::Air {
            assert(face_open(s, x + neighbor_offset(2).0, y + neighbor_offset(2).1, z + neighbor_offset(2).2));
        } else if y == 15 || s[x + 16 * (y + 1) + 256 * z] == Voxel::Air {
            assert(face_open(s, x + neighbor_offset(3).0, y + neighbor_offset(3).1, z + neighbor_offset(3).2));
        } else if z == 0 || s[x + 16 * y + 256 * (z - 1)] == Voxel::Air {
            assert(face_open(s, x + neighbor_offset(4).0, y + neighbor_offset(4).1, z + neighbor_offset(4).2));
        } else {
            assert(face_open(s, x + neighbor_offset(5).0, y + neighbor_offset(5).1, z + neighbor_offset(5).2));
        }
    }
}

/// An entry `(x, y, z, v)` is in a chunk's surface list exactly when
/// `(x, y, z)` lies in the chunk, holds `v`, `v` is not `Air`, and one of its
/// six axis neighbours lies outside the chunk or holds `Air` (water or any
/// other voxel does not open a face).
pub proof fn law_surface_touches_air(s: Seq<Voxel>, e: (u8, u8, u8, Voxel))
    requires
        s.len() == CHUNK_VOLUME,
    ensures
        surface_prefix(s, CHUNK_VOLUME as int).contains(e) <==> {
            &&& e.0 < 16 && e.1 < 16 && e.2 < 16
            &&& e.3 != Voxel::Air
            &&& s[e.0 + 16 * e.1 + 256 * e.2] == e.3
            &&& {
                let (x, y, z) = (e.0 as int, e.1 as int, e.2 as int);
                ||| x == 0 || s[(x - 1) + 16 * y + 256 * z] == Voxel::Air
                ||| x == 15 || s[(x + 1) + 16 * y + 256 * z] == Voxel::Air
                ||| y == 0 || s[x + 16 * (y - 1) + 256 * z] == Voxel::Air
                ||| y == 15 || s[x + 16 * (y + 1) + 256 * z] == Voxel::Air
                ||| z == 0 || s[x + 16 * y + 256 * (z - 1)] == Voxel::Air
                ||| z == 15 || s[x + 16 * y + 256 * (z + 1)] == Voxel::Air
            }
        },
{
    law_surface_members(s, CHUNK_VOLUME as int, e);
    if surface_prefix(s, CHUNK_VOLUME as int).contains(e) {
        let i = choose|i: int|
            0 <= i < CHUNK_VOLUME && on_surface(s, i) && #[trigger] surface_entry(s, i) == e;
        lemma_index_of_coords(i);
        lemma_exposed_explicit(s, coords_of(i).0, coords_of(i).1, coords_of(i).2);
    }
    if e.0 < 16 && e.1 < 16 && e.2 < 16 && e.3 != Voxel::Air && s[e.0 + 16 * e.1 + 256 * e.2] == e.3
        && touches_air_or_boundary(s, e.0 as int, e.1 as int, e.2 as int) {
        let i = e.0 + 16 * e.1 + 256 * e.2;
        lemma_coords_of_index(e.0 as int, e.1 as int, e.2 as int);
        lemma_exposed_explicit(s, e.0 as int, e.1 as int, e.2 as int);
        assert(on_surface(s, i));
        assert(surface_entry(s, i) == e);
    }
}

/// The count of `v` is the length of `s` with everything but `v` removed.
pub proof fn law_count_is_filtered_length(s: Seq<Voxel>, v: Voxel)
    ensures
        count_in(s, v) == s.filter(|x: Voxel| x == v).len(),
    decreases s.len(),
{
    reveal(Seq::filter);
    if s.len() > 0 {
        law_count_is_filtered_length(s.drop_last(), v);
    }
}

/// The surface list comes in order of z, then y, then x, each position at
/// most once, every position inside the chunk.
pub proof fn law_surface_sorted(s: Seq<Voxel>, n: int)
    requires
        s.len() == CHUNK_VOLUME,
        n <= CHUNK_VOLUME,
    ensures
        forall|i: int|
            0 <= i < surface_prefix(s, n).len() ==> #[trigger] surface_prefix(s, n)[i].0 < 16
                && surface_prefix(s, n)[i].1 < 16 && surface_prefix(s, n)[i].2 < 16
                && surface_prefix(s, n)[i].0 + 16 * surface_prefix(s, n)[i].1 + 256 * surface_prefix(
                s,
                n,
            )[i].2 < n,
        forall|i: int, j: int|
            0 <= i < j < surface_prefix(s, n).len() ==> {
                let a = #[trigger] surface_prefix(s, n)[i];
                let b = #[trigger] surface_prefix(s, n)[j];
                ||| a.2 < b.2
                ||| a.2 == b.2 && a.1 < b.1
                ||| a.2 == b.2 && a.1 == b.1 && a.0 < b.0
            },
    decreases n,
{
    if n > 0 {
        law_surface_sorted(s, n - 1);
        lemma_index_of_coords(n - 1);
        let p = surface_prefix(s, n - 1);
        if on_surface(s, n - 1) {
            let q = p.push(surface_entry(s, n - 1));
            assert(q == surface_prefix(s, n));
            let e = surface_entry(s, n - 1);
            assert(e.0 + 16 * e.1 + 256 * e.2 == n - 1);
            assert forall|i: int| 0 <= i < p.len() implies ({
                let a = #[trigger] q[i];
                ||| a.2 < e.2
                ||| a.2 == e.2 && a.1 < e.1
                ||| a.2 == e.2 && a.1 == e.1 && a.0 < e.0
            }) by {
                let a = q[i];
                assert(a == p[i]);
                assert(a.0 + 16 * a.1 + 256 * a.2 < n - 1);
            }
        }
    }
}

/// A 16 × 16 × 16 block of voxels at chunk-grid position `(cx, cy, cz)`.
#[derive(Debug, Clone)]
pub struct Chunk {
    voxels: [Voxel; CHUNK_VOLUME],
    pub cx: i32,
    pub cy: i32,
    pub cz: i32,
}

impl View for Chunk {
    type V = Seq<Voxel>;

    /// The chunk's voxels, indexed by `local_index`.
    closed spec fn view(&self) -> Seq<Voxel> {
        self.voxels@
    }
}

impl Chunk {
    /// The chunk-grid position `(cx, cy, cz)` stored in the chunk.
    pub closed spec fn position(&self) -> (i32, i32, i32) {
        (self.cx, self.cy, self.cz)
    }
}

/// A chunk always holds `CHUNK_VOLUME` voxels.
pub broadcast proof fn lemma_chunk_len(c: &Chunk)
    ensures
        #[trigger] c@.len() == CHUNK_VOLUME,
{
}

/// Per-type voxel counts, as returned by `Chunk::count_by_type`: each voxel
/// type that occurs, with its count, stored under the type's code.
#[derive(Debug)]
pub struct VoxelCounts {
    counts: HashMap<u16, (Voxel, usize)>,
}

impl VoxelCounts {
    /// Every entry is stored under the code of its voxel type.
    #[verifier::type_invariant]
    closed spec fn entries_keyed_by_code(self) -> bool {
        forall|k: u16| #[trigger] self.counts@.contains_key(k) ==> code_of(self.counts@[k].0) == k
    }
}

impl View for VoxelCounts {
    type V = Map<Voxel, usize>;

    /// The count of each voxel type that occurs.
    closed spec fn view(&self) -> Map<Voxel, usize> {
        Map::new(
            |v: Voxel| self.counts@.contains_key(code_of(v)),
            |v: Voxel| self.counts@[code_of(v)].1,
        )
    }
}

impl Clone for VoxelCounts {
    /// A copy with the same counts.
    fn clone(&self) -> (c: Self)
        ensures
            c@ == self@,
    {
        proof {
            use_type_invariant(self);
        }
        VoxelCounts { counts: self.counts.clone() }
    }
}

/// Every voxel's code lies below `CODE_LIMIT`.
pub const CODE_LIMIT: u16 = 768;

impl VoxelCounts {
    /// The count of voxel type `v`, if it occurs.
    pub fn get(&self, v: &Voxel) -> (r: Option<&usize>)
        ensures
            match r {
                Some(n) => self@.contains_key(*v) && *n == self@[*v],
                None => !self@.contains_key(*v),
            },
    {
        match self.counts.get(&v.code()) {
            Some(entry) => Some(&entry.1),
            None => None,
        }
    }

    /// The number of voxel types that occur.
    pub fn len(&self) -> (n: usize)
        ensures
            self@.dom().finite(),
            n == self@.len(),
    {
        proof {
            use_type_invariant(self);
            let decode = |k: u16| self.counts@[k].0;
            assert(self.counts@.dom().map(decode) =~= self@.dom()) by {
                assert forall|v: Voxel| #[trigger] self@.dom().contains(v) implies self.counts@.dom().map(
                    decode,
                ).contains(v) by {
                    assert(decode(code_of(v)) == v) by {
                        lemma_code_injective(self.counts@[code_of(v)].0, v);
                    }
                }
            }
            assert(vstd::relations::injective_on(decode, self.counts@.dom()));
            vstd::set_lib::lemma_map_size(self.counts@.dom(), self@.dom(), decode);
        }
        self.counts.len()
    }

    /// Whether no voxel type occurs.
    pub fn is_empty(&self) -> (b: bool)
        ensures
            b == (self@.len() == 0),
    {
        self.len() == 0
    }

    /// Every voxel type that occurs, with its count, in order of the types'
    /// codes.
    pub fn entries(&self) -> (es: Vec<(Voxel, usize)>)
        ensures
            forall|i: int|
                0 <= i < es.len() ==> self@.contains_key(#[trigger] es@[i].0) && es@[i].1
                    == self@[es@[i].0],
            forall|v: Voxel| #[trigger] self@.contains_key(v) ==> exists|i: int| 0 <= i < es.len() && #[trigger] es@[i].0 == v,
            forall|i: int, j: int| 0 <= i < j < es.len() ==> code_of(#[trigger] es@[i].0) < code_of(#[trigger] es@[j].0),
    {
        proof {
            use_type_invariant(self);
        }
        let mut es: Vec<(Voxel, usize)> = Vec::new();
        let mut c: u16 = 0;
        while c < CODE_LIMIT
            invariant
                c <= CODE_LIMIT,
                forall|k: u16| #[trigger] self.counts@.contains_key(k) ==> code_of(self.counts@[k].0) == k,
                forall|i: int|
                    0 <= i < es.len() ==> self@.contains_key(#[trigger] es@[i].0) && es@[i].1 == self@[es@[i].0]
                        && code_of(es@[i].0) < c,
                forall|v: Voxel|
                    #[trigger] self@.contains_key(v) && code_of(v) < c ==> exists|i: int|
                        0 <= i < es.len() && #[trigger] es@[i].0 == v,
                forall|i: int, j: int| 0 <= i < j < es.len() ==> code_of(#[trigger] es@[i].0) < code_of(#[trigger] es@[j].0),
            decreases CODE_LIMIT - c,
        {
            if let Some(entry) = self.counts.get(&c) {
                let ghost prev = es@;
                es.push(*entry);
                proof {
                    let v = entry.0;
                    assert(code_of(v) == c);
                    assert(es@[es.len() - 1].0 == v);
                    assert forall|w: Voxel|
                        #[trigger] self@.contains_key(w) && code_of(w) < c + 1 implies exists|i: int|
                            0 <= i < es.len() && #[trigger] es@[i].0 == w by {
                        if code_of(w) == c {
                            lemma_code_injective(w, v);
                            assert(es@[es.len() - 1].0 == w);
                        } else {
                            let i = choose|i: int| 0 <= i < prev.len() && #[trigger] prev[i].0 == w;
                            assert(es@[i].0 == w);
                        }
                    }
                }
            } else {
                proof {
                    assert forall|w: Voxel|
                        #[trigger] self@.contains_key(w) && code_of(w) < c + 1 implies exists|i: int|
                            0 <= i < es.len() && #[trigger] es@[i].0 == w by {
                        if code_of(w) == c {
                            assert(false);
                        }
                    }
                }
            }
            c += 1;
        }
        proof {
            assert forall|v: Voxel| #[trigger] self@.contains_key(v) implies exists|i: int|
                0 <= i < es.len() && #[trigger] es@[i].0 == v by {
                assert(code_of(v) < CODE_LIMIT);
            }
        }
        es
    }
}

impl Chunk {
    /// Create an empty (all-Air) chunk at the given chunk coordinates.
    pub fn new(cx: i32, cy: i32, cz: i32) -> (c: Self)
        ensures
            c.position() == (cx, cy, cz),
            c@ == Seq::new(CHUNK_VOLUME as nat, |i: int| Voxel::Air),
    {
        let c = Chunk { voxels: [Voxel::Air; CHUNK_VOLUME], cx, cy, cz };
        assert(c@ =~= Seq::new(CHUNK_VOLUME as nat, |i: int| Voxel::Air));
        c
    }

    /// The chunk-grid position `(cx, cy, cz)` of the chunk.
    pub fn coords(&self) -> (p: (i32, i32, i32))
        ensures
            p == self.position(),
    {
        (self.cx, self.cy, self.cz)
    }

    /// Fill every voxel of the chunk with `v`.
    pub(crate) fn fill(&mut self, v: Voxel)
        ensures
            final(self)@ == Seq::new(CHUNK_VOLUME as nat, |i: int| v),
            final(self).position() == old(self).position(),
    {
        self.voxels = [v; CHUNK_VOLUME];
        assert(self@ =~= Seq::new(CHUNK_VOLUME as nat, |i: int| v));
    }

    fn idx(x: usize, y: usize, z: usize) -> (i: usize)
        requires
            in_chunk(x as int, y as int, z as int),
        ensures
            i == local_index(x as int, y as int, z as int),
            i < CHUNK_VOLUME,
    {
        x + y * CHUNK_SIZE + z * CHUNK_SIZE * CHUNK_SIZE
    }

    /// Get the voxel at local coordinates (each below `CHUNK_SIZE`).
    pub fn get(&self, x: u8, y: u8, z: u8) -> (v: Voxel)
        requires
            in_chunk(x as int, y as int, z as int),
        ensures
            v == self@[local_index(x as int, y as int, z as int)],
    {
        let (x, y, z) = (x as usize, y as usize, z as usize);
        self.voxels[Self::idx(x, y, z)]
    }

    /// Set the voxel at local coordinates (each below `CHUNK_SIZE`).
    pub fn set(&mut self, x: u8, y: u8, z: u8, v: Voxel)
        requires
            in_chunk(x as int, y as int, z as int),
        ensures
            final(self)@ == old(self)@.update(local_index(x as int, y as int, z as int), v),
            final(self).position() == old(self).position(),
    {
        let (x, y, z) = (x as usize, y as usize, z as usize);
        self.voxels[Self::idx(x, y, z)] = v;
    }

    /// Whether the voxel at `(x, y, z)` is solid.
    pub fn is_solid(&self, x: u8, y: u8, z: u8) -> (s: bool)
        requires
            in_chunk(x as int, y as int, z as int),
        ensures
            s == solid(self@[local_index(x as int, y as int, z as int)]),
    {
        self.get(x, y, z).is_solid()
    }

    /// Return voxels that have at least one face adjacent to `Air`
    /// (i.e. exposed to the outside), as `(x, y, z, Voxel)` tuples in
    /// order of z, then y, then x.
    pub fn surface_voxels(&self) -> (result: Vec<(u8, u8, u8, Voxel)>)
        ensures
            result@ == surface_prefix(self@, CHUNK_VOLUME as int),
    {
        let mut result: Vec<(u8, u8, u8, Voxel)> = Vec::new();
        let mut z: usize = 0;
        while z < CHUNK_SIZE
            invariant
                z <= CHUNK_SIZE,
                self.voxels@.len() == CHUNK_VOLUME,
                result@ == surface_prefix(self.voxels@, local_index(0, 0, z as int)),
            decreases CHUNK_SIZE - z,
        {
            let mut y: usize = 0;
            while y < CHUNK_SIZE
                invariant
                    y <= CHUNK_SIZE,
                    z < CHUNK_SIZE,
                    self.voxels@.len() == CHUNK_VOLUME,
                    result@ == surface_prefix(self.voxels@, local_index(0, y as int, z as int)),
                decreases CHUNK_SIZE - y,
            {
                let mut x: usize = 0;
                while x < CHUNK_SIZE
                    invariant
                        x <= CHUNK_SIZE,
                        y < CHUNK_SIZE,
                        z < CHUNK_SIZE,
                        self.voxels@.len() == CHUNK_VOLUME,
                        result@ == surface_prefix(
                            self.voxels@,
                            local_index(x as int, y as int, z as int),
                        ),
                    decreases CHUNK_SIZE - x,
                {
                    let i: usize = Self::idx(x, y, z);
                    proof {
                        lemma_coords_of_index(x as int, y as int, z as int);
                    }
                    let v = self.voxels[i];
                    if v == Voxel::Air {
                        x += 1;
                        continue;
                    }
                    if self.has_exposed_face(x, y, z) {
                        result.push((x as u8, y as u8, z as u8, v));
                    }
                    x += 1;
                }
                y += 1;
            }
            z += 1;
        }
        result
    }

    fn has_exposed_face(&self, x: usize, y: usize, z: usize) -> (e: bool)
        requires
            in_chunk(x as int, y as int, z as int),
        ensures
            e == exposed(self@, x as int, y as int, z as int),
    {
        let neighbors: [(i32, i32, i32); 6] = [
            (-1, 0, 0),
            (1, 0, 0),
            (0, -1, 0),
            (0, 1, 0),
            (0, 0, -1),
            (0, 0, 1),
        ];
        let mut k: usize = 0;
        while k < 6
            invariant
                k <= 6,
                in_chunk(x as int, y as int, z as int),
                self.voxels@.len() == CHUNK_VOLUME,
                forall|j: int| 0 <= j < 6 ==> neighbors@[j] == (
                    neighbor_offset(j).0 as i32,
                    neighbor_offset(j).1 as i32,
                    neighbor_offset(j).2 as i32,
                ),
                forall|j: int|
                    0 <= j < k ==> !#[trigger] face_open(
                        self.voxels@,
                        x + neighbor_offset(j).0,
                        y + neighbor_offset(j).1,
                        z + neighbor_offset(j).2,
                    ),
            decreases 6 - k,
        {
            let (dx, dy, dz) = neighbors[k];
            let nx: i32 = x as i32 + dx;
            let ny: i32 = y as i32 + dy;
            let nz: i32 = z as i32 + dz;
            if nx < 0 || ny < 0 || nz < 0 {
                // Adjacent to chunk boundary → exposed.
                assert(face_open(
                    self.voxels@,
                    x + neighbor_offset(k as int).0,
                    y + neighbor_offset(k as int).1,
                    z + neighbor_offset(k as int).2,
                ));
                return true;
            }
            let (nx, ny, nz) = (nx as usize, ny as usize, nz as usize);
            if nx >= CHUNK_SIZE || ny >= CHUNK_SIZE || nz >= CHUNK_SIZE {
                assert(face_open(
                    self.voxels@,
                    x + neighbor_offset(k as int).0,
                    y + neighbor_offset(k as int).1,
                    z + neighbor_offset(k as int).2,
                ));
                return true;
            }
            if self.voxels[Self::idx(nx, ny, nz)] == Voxel::Air {
                assert(face_open(
                    self.voxels@,
                    x + neighbor_offset(k as int).0,
                    y + neighbor_offset(k as int).1,
                    z + neighbor_offset(k as int).2,
                ));
                return true;
            }
            k += 1;
        }
        false
    }

    /// Count how many of each voxel type exist in this chunk.
    pub fn count_by_type(&self) -> (counts: VoxelCounts)
        ensures
            forall|v: Voxel| #[trigger] counts@.contains_key(v) <==> count_in(self@, v) > 0,
            forall|v: Voxel| #[trigger] counts@.contains_key(v) ==> counts@[v] == count_in(self@, v),
    {
        let mut counts: HashMap<u16, (Voxel, usize)> = HashMap::new();
        let mut i: usize = 0;
        while i < CHUNK_VOLUME
            invariant
                i <= CHUNK_VOLUME,
                self.voxels@.len() == CHUNK_VOLUME,
                forall|v: Voxel| #[trigger] counts@.contains_key(code_of(v)) <==> count_in(self.voxels@.take(i as int), v) > 0,
                forall|v: Voxel| #[trigger] counts@.contains_key(code_of(v)) ==> counts@[code_of(v)].1 == count_in(self.voxels@.take(i as int), v),
                forall|k: u16| #[trigger] counts@.contains_key(k) ==> code_of(counts@[k].0) == k,
            decreases CHUNK_VOLUME - i,
        {
            let v = self.voxels[i];
            let ghost prev = self.voxels@.take(i as int);
            let ghost next = self.voxels@.take(i + 1);
            assert(next.drop_last() =~= prev);
            proof {
                lemma_count_in_bound(prev, v);
            }
            proof {
                if counts@.contains_key(code_of(v)) {
                    lemma_code_injective(counts@[code_of(v)].0, v);
                }
            }
            let entry = counts.entry(v.code()).or_insert((v, 0));
            entry.1 = entry.1 + 1;
            i += 1;
        }
        assert(self.voxels@.take(CHUNK_VOLUME as int) =~= self.voxels@);
        VoxelCounts { counts }
    }
}

} // verus!
