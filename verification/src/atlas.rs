//! The packed patch atlas: one global barycentric vertex stream and two
//! global index streams (triangles and lines) shared by every canonical LOD
//! key, with per-key element ranges.
//!
//! The host validates the packed metadata against the streams and retains the
//! per-key ranges; a frame resolves each batch's key to its ranges without
//! touching device memory.

use vstd::prelude::*;
use std::collections::BTreeMap;
use crate::error::LodWebGpuError;
use crate::render_words::f32_bits_finite;

verus! {

/// Words of one packed atlas metadata record: a three-word canonical key,
/// then the first index and index count of its triangles and of its lines.
pub const PACKED_ATLAS_RECORD_WORDS: usize = 7;

/// Element ranges of one canonical entry of the packed atlas.
#[derive(Clone, Copy, Debug, PartialEq, Eq, Structural)]
pub struct PackedPatchAtlasEntry {
    pub triangle_first_index: u32,
    pub triangle_index_count: u32,
    pub line_first_index: u32,
    pub line_index_count: u32,
}

/// Primitive kind of a draw.
#[derive(Clone, Copy, Debug, PartialEq, Eq, Structural)]
pub enum RenderGeometry {
    Triangles,
    Lines,
}

/// Key of metadata record `i`.
pub open spec fn record_key(patches: Seq<u32>, i: int) -> (u32, u32, u32) {
    (patches[7 * i], patches[7 * i + 1], patches[7 * i + 2])
}

/// Ranges of metadata record `i`.
pub open spec fn record_entry(patches: Seq<u32>, i: int) -> PackedPatchAtlasEntry {
    PackedPatchAtlasEntry {
        triangle_first_index: patches[7 * i + 3],
        triangle_index_count: patches[7 * i + 4],
        line_first_index: patches[7 * i + 5],
        line_index_count: patches[7 * i + 6],
    }
}

/// The map from key to ranges of the first `n` metadata records.
pub open spec fn records_map(patches: Seq<u32>, n: nat) -> Map<(u32, u32, u32), PackedPatchAtlasEntry>
    decreases n,
{
    if n == 0 {
        Map::empty()
    } else {
        records_map(patches, (n - 1) as nat).insert(
            record_key(patches, n - 1),
            record_entry(patches, n - 1),
        )
    }
}

/// The packed atlas inputs are consistent: nonempty whole metadata records
/// and barycentric triples, finite barycentrics, counts that fit `u32`, every
/// index inside the vertex stream, every record's ranges inside their index
/// stream, and no key repeated.
pub open spec fn packed_atlas_valid(
    patches: Seq<u32>,
    barycentrics: Seq<u32>,
    triangle_indices: Seq<u32>,
    line_indices: Seq<u32>,
) -> bool {
    &&& patches.len() > 0 && patches.len() % 7 == 0
    &&& barycentrics.len() > 0 && barycentrics.len() % 3 == 0
    &&& forall|i: int| 0 <= i < barycentrics.len() ==> f32_bits_finite(#[trigger] barycentrics[i])
    &&& barycentrics.len() / 3 <= u32::MAX
    &&& triangle_indices.len() <= u32::MAX
    &&& line_indices.len() <= u32::MAX
    &&& forall|i: int|
        0 <= i < triangle_indices.len() ==> #[trigger] triangle_indices[i] < barycentrics.len() / 3
    &&& forall|i: int| 0 <= i < line_indices.len() ==> #[trigger] line_indices[i] < barycentrics.len() / 3
    &&& forall|i: int|
        0 <= i < patches.len() / 7 ==> {
            &&& (#[trigger] record_entry(patches, i)).triangle_first_index
                + record_entry(patches, i).triangle_index_count <= triangle_indices.len()
            &&& record_entry(patches, i).line_first_index + record_entry(patches, i).line_index_count
                <= line_indices.len()
        }
    &&& forall|i: int, j: int|
        0 <= i < j < patches.len() / 7 ==> record_key(patches, i) != record_key(patches, j)
}

/// Retained per-key element ranges of a packed atlas and the sizes of its
/// streams.
pub struct PackedPatchAtlas {
    entries: BTreeMap<(u32, u32, u32), PackedPatchAtlasEntry>,
    vertex_count: u32,
    triangle_index_count: u32,
    line_index_count: u32,
}

/// Every value lies below `bound`.
fn all_below(values: &[u32], bound: u32) -> (below: bool)
    ensures
        below == forall|i: int| 0 <= i < values@.len() ==> #[trigger] values@[i] < bound,
{
    let mut i: usize = 0;
    while i < values.len()
        invariant
            i <= values@.len(),
            forall|k: int| 0 <= k < i ==> #[trigger] values@[k] < bound,
        decreases values@.len() - i,
    {
        if values[i] >= bound {
            return false;
        }
        i = i + 1;
    }
    true
}

/// A length as `u32`, when it fits.
fn len_u32(len: usize) -> (r: Option<u32>)
    ensures
        r is Some <==> len <= u32::MAX,
        r matches Some(n) ==> n == len,
{
    if len > u32::MAX as usize {
        None
    } else {
        Some(len as u32)
    }
}

proof fn lemma_records_map_finite(patches: Seq<u32>, n: nat)
    ensures
        records_map(patches, n).dom().finite(),
    decreases n,
{
    if n > 0 {
        lemma_records_map_finite(patches, (n - 1) as nat);
    }
}

/// Metadata records with pairwise distinct keys become exactly one retained
/// entry per record: the map of the first `n` records holds `n` entries, each
/// record's key maps to that record's ranges, and no other key is present.
pub proof fn lemma_records_map_len(patches: Seq<u32>, n: nat)
    requires
        forall|i: int, j: int| 0 <= i < j < n ==> record_key(patches, i) != record_key(patches, j),
    ensures
        records_map(patches, n).len() == n,
        forall|i: int|
            0 <= i < n ==> #[trigger] records_map(patches, n).contains_key(record_key(patches, i))
                && records_map(patches, n)[record_key(patches, i)] == record_entry(patches, i),
        forall|k: (u32, u32, u32)|
            #[trigger] records_map(patches, n).contains_key(k) ==> exists|i: int|
                0 <= i < n && record_key(patches, i) == k,
    decreases n,
{
    if n > 0 {
        lemma_records_map_len(patches, (n - 1) as nat);
        lemma_records_map_finite(patches, (n - 1) as nat);
        let m = records_map(patches, (n - 1) as nat);
        let k = record_key(patches, n - 1);
        if m.contains_key(k) {
            let i = choose|i: int| 0 <= i < n - 1 && record_key(patches, i) == k;
            assert(record_key(patches, i) != record_key(patches, n - 1));
        }
        assert(m.insert(k, record_entry(patches, n - 1)).dom() == m.dom().insert(k));
        assert forall|k2: (u32, u32, u32)| #[trigger] records_map(patches, n).contains_key(k2)
            implies exists|i: int| 0 <= i < n && record_key(patches, i) == k2 by {
            if k2 != k {
                assert(m.contains_key(k2));
            }
        }
    }
}

impl PackedPatchAtlas {
    /// The retained map from canonical key to element ranges.
    pub closed spec fn entries_view(&self) -> Map<(u32, u32, u32), PackedPatchAtlasEntry> {
        self.entries@
    }

    /// Vertices in the global barycentric stream.
    pub closed spec fn vertex_count_view(&self) -> u32 {
        self.vertex_count
    }

    /// Indices in the global triangle stream.
    pub closed spec fn triangle_index_count_view(&self) -> u32 {
        self.triangle_index_count
    }

    /// Indices in the global line stream.
    pub closed spec fn line_index_count_view(&self) -> u32 {
        self.line_index_count
    }

    /// Every retained range lies inside its index stream.
    pub open spec fn wf(&self) -> bool {
        &&& self.entries_view().dom().finite()
        &&& forall|k: (u32, u32, u32)|
            #[trigger] self.entries_view().contains_key(k) ==> {
                &&& self.entries_view()[k].triangle_first_index
                    + self.entries_view()[k].triangle_index_count <= self.triangle_index_count_view()
                &&& self.entries_view()[k].line_first_index
                    + self.entries_view()[k].line_index_count <= self.line_index_count_view()
            }
    }

    /// The element ranges retained for `key`, if any.
    pub fn entry(&self, key: [u32; 3]) -> (r: Option<PackedPatchAtlasEntry>)
        ensures
            r == (if self.entries_view().contains_key((key[0], key[1], key[2])) {
                Some(self.entries_view()[(key[0], key[1], key[2])])
            } else {
                None
            }),
    {
        broadcast use vstd::std_specs::btree::group_btree_axioms;
        broadcast use vstd::laws_cmp::group_laws_cmp;
        match self.entries.get(&(key[0], key[1], key[2])) {
            Some(e) => Some(*e),
            None => None,
        }
    }

    /// Number of canonical keys.
    pub fn entry_count(&self) -> (n: usize)
        ensures
            n == self.entries_view().len(),
    {
        broadcast use vstd::std_specs::btree::group_btree_axioms;
        broadcast use vstd::laws_cmp::group_laws_cmp;
        self.entries.len()
    }

    /// Vertices in the global barycentric stream.
    pub fn vertex_count(&self) -> (n: u32)
        ensures
            n == self.vertex_count_view(),
    {
        self.vertex_count
    }

    /// Indices in the global triangle stream.
    pub fn triangle_index_count(&self) -> (n: u32)
        ensures
            n == self.triangle_index_count_view(),
    {
        self.triangle_index_count
    }

    /// Indices in the global line stream.
    pub fn line_index_count(&self) -> (n: u32)
        ensures
            n == self.line_index_count_view(),
    {
        self.line_index_count
    }

    /// First index and index count of `key`'s triangles or lines.
    pub fn draw(&self, key: [u32; 3], geometry: RenderGeometry) -> (r: Option<(u32, u32)>)
        ensures
            r == (if self.entries_view().contains_key((key[0], key[1], key[2])) {
                let e = self.entries_view()[(key[0], key[1], key[2])];
                Some(
                    match geometry {
                        RenderGeometry::Triangles => (e.triangle_first_index, e.triangle_index_count),
                        RenderGeometry::Lines => (e.line_first_index, e.line_index_count),
                    },
                )
            } else {
                None
            }),
    {
        match geometry {
            RenderGeometry::Triangles => self.triangle_draw(key),
            RenderGeometry::Lines => self.line_draw(key),
        }
    }

    /// First index and index count of `key`'s triangles.
    pub fn triangle_draw(&self, key: [u32; 3]) -> (r: Option<(u32, u32)>)
        ensures
            r == (if self.entries_view().contains_key((key[0], key[1], key[2])) {
                let e = self.entries_view()[(key[0], key[1], key[2])];
                Some((e.triangle_first_index, e.triangle_index_count))
            } else {
                None
            }),
    {
        match self.entry(key) {
            Some(e) => Some((e.triangle_first_index, e.triangle_index_count)),
            None => None,
        }
    }

    /// First index and index count of `key`'s lines.
    pub fn line_draw(&self, key: [u32; 3]) -> (r: Option<(u32, u32)>)
        ensures
            r == (if self.entries_view().contains_key((key[0], key[1], key[2])) {
                let e = self.entries_view()[(key[0], key[1], key[2])];
                Some((e.line_first_index, e.line_index_count))
            } else {
                None
            }),
    {
        match self.entry(key) {
            Some(e) => Some((e.line_first_index, e.line_index_count)),
            None => None,
        }
    }
}

/// Validate packed atlas metadata (seven-word records), barycentric bit
/// patterns (finite triples), and the global triangle and line index streams,
/// retaining each canonical key's element ranges; any inconsistency is a
/// payload error.
pub fn upload_packed_patch_atlas(
    patches: &[u32],
    barycentrics: &[u32],
    triangle_indices: &[u32],
    line_indices: &[u32],
) -> (r: Result<PackedPatchAtlas, LodWebGpuError>)
    ensures
        r is Ok <==> packed_atlas_valid(patches@, barycentrics@, triangle_indices@, line_indices@),
        r matches Err(e) ==> e is Payload,
        r matches Ok(atlas) ==> {
            &&& atlas.wf()
            &&& atlas.entries_view() == records_map(patches@, patches@.len() / 7)
            &&& atlas.entries_view().len() == patches@.len() / 7
            &&& atlas.vertex_count_view() == barycentrics@.len() / 3
            &&& atlas.triangle_index_count_view() == triangle_indices@.len()
            &&& atlas.line_index_count_view() == line_indices@.len()
        },
{
    if patches.len() == 0 || patches.len() % 7 != 0 {
        return Err(
            LodWebGpuError::payload(
                "packed WebGPU atlas metadata must contain nonempty seven-word records",
            ),
        );
    }
    if barycentrics.len() == 0 || barycentrics.len() % 3 != 0 || !crate::render_words::all_finite_bits(
        barycentrics,
    ) {
        return Err(
            LodWebGpuError::payload(
                "packed WebGPU atlas barycentrics must contain finite vec3 records",
            ),
        );
    }
    let vertex_count = match len_u32(barycentrics.len() / 3) {
        Some(n) => n,
        None => {
            return Err(LodWebGpuError::payload("packed WebGPU atlas vertex count exceeds u32"));
        },
    };
    let triangle_index_count = match len_u32(triangle_indices.len()) {
        Some(n) => n,
        None => {
            return Err(
                LodWebGpuError::payload("packed WebGPU atlas triangle index count exceeds u32"),
            );
        },
    };
    let line_index_count = match len_u32(line_indices.len()) {
        Some(n) => n,
        None => {
            return Err(LodWebGpuError::payload("packed WebGPU atlas line index count exceeds u32"));
        },
    };
    if !all_below(triangle_indices, vertex_count) || !all_below(line_indices, vertex_count) {
        return Err(
            LodWebGpuError::payload(
                "packed WebGPU atlas contains an out-of-range global vertex index",
            ),
        );
    }
    let entries = collect_atlas_entries(patches, triangle_index_count, line_index_count)?;
    proof {
        lemma_records_map_len(patches@, patches@.len() / 7);
        lemma_records_map_finite(patches@, patches@.len() / 7);
    }
    Ok(PackedPatchAtlas { entries, vertex_count, triangle_index_count, line_index_count })
}

/// Insert one entry, reporting whether the key was already present.
fn insert_entry(
    entries: &mut BTreeMap<(u32, u32, u32), PackedPatchAtlasEntry>,
    key: (u32, u32, u32),
    entry: PackedPatchAtlasEntry,
) -> (previous: bool)
    ensures
        final(entries)@ == old(entries)@.insert(key, entry),
        previous == old(entries)@.contains_key(key),
{
    broadcast use vstd::std_specs::btree::group_btree_axioms;
    broadcast use vstd::laws_cmp::group_laws_cmp;
    entries.insert(key, entry).is_some()
}

/// The per-key ranges of whole metadata records, each inside its index
/// stream, with no key repeated.
fn collect_atlas_entries(
    patches: &[u32],
    triangle_index_count: u32,
    line_index_count: u32,
) -> (r: Result<BTreeMap<(u32, u32, u32), PackedPatchAtlasEntry>, LodWebGpuError>)
    requires
        patches@.len() % 7 == 0,
    ensures
        r is Ok <==> {
            &&& forall|i: int|
                0 <= i < patches@.len() / 7 ==> {
                    &&& (#[trigger] record_entry(patches@, i)).triangle_first_index
                        + record_entry(patches@, i).triangle_index_count <= triangle_index_count
                    &&& record_entry(patches@, i).line_first_index + record_entry(
                        patches@,
                        i,
                    ).line_index_count <= line_index_count
                }
            &&& forall|i: int, j: int|
                0 <= i < j < patches@.len() / 7 ==> record_key(patches@, i) != record_key(
                    patches@,
                    j,
                )
        },
        r matches Err(e) ==> e is Payload,
        r matches Ok(entries) ==> entries@ == records_map(patches@, patches@.len() / 7),
{
    let len = patches.len();
    let count = len / 7;
    let mut entries: BTreeMap<(u32, u32, u32), PackedPatchAtlasEntry> = BTreeMap::new();
    let mut i: usize = 0;
    while i < count
        invariant
            len == patches@.len(),
            count == patches@.len() / 7,
            patches@.len() % 7 == 0,
            i <= count,
            entries@ == records_map(patches@, i as nat),
            forall|k: int|
                0 <= k < i ==> {
                    &&& (#[trigger] record_entry(patches@, k)).triangle_first_index
                        + record_entry(patches@, k).triangle_index_count <= triangle_index_count
                    &&& record_entry(patches@, k).line_first_index + record_entry(
                        patches@,
                        k,
                    ).line_index_count <= line_index_count
                },
            forall|a: int, b: int|
                0 <= a < b < i ==> record_key(patches@, a) != record_key(patches@, b),
        decreases count - i,
    {
        proof {
            assert(7 * i + 7 <= patches@.len()) by (nonlinear_arith)
                requires
                    i < count,
                    count == patches@.len() / 7,
                    patches@.len() % 7 == 0,
            ;
        }
        let base = 7 * i;
        let key = (patches[base], patches[base + 1], patches[base + 2]);
        let entry = PackedPatchAtlasEntry {
            triangle_first_index: patches[base + 3],
            triangle_index_count: patches[base + 4],
            line_first_index: patches[base + 5],
            line_index_count: patches[base + 6],
        };
        assert(record_entry(patches@, i as int) == entry);
        assert(record_key(patches@, i as int) == key);
        let triangle_end = match entry.triangle_first_index.checked_add(entry.triangle_index_count) {
            Some(end) => end,
            None => {
                return Err(LodWebGpuError::payload("packed WebGPU atlas triangle range overflows"));
            },
        };
        let line_end = match entry.line_first_index.checked_add(entry.line_index_count) {
            Some(end) => end,
            None => {
                return Err(LodWebGpuError::payload("packed WebGPU atlas line range overflows"));
            },
        };
        if triangle_end > triangle_index_count || line_end > line_index_count {
            return Err(
                LodWebGpuError::payload("packed WebGPU atlas entry range exceeds its index buffer"),
            );
        }
        proof {
            lemma_records_map_len(patches@, i as nat);
        }
        let previous = insert_entry(&mut entries, key, entry);
        if previous {
            proof {
                let k = choose|k: int| 0 <= k < i && record_key(patches@, k) == key;
                assert(record_key(patches@, k) == record_key(patches@, i as int));
            }
            return Err(LodWebGpuError::payload("packed WebGPU atlas repeats a canonical key"));
        }
        proof {
            assert forall|a: int, b: int| 0 <= a < b < i + 1 implies record_key(patches@, a)
                != record_key(patches@, b) by {
                if b == i {
                    assert(records_map(patches@, i as nat).contains_key(record_key(patches@, a)));
                }
            }
        }
        i = i + 1;
    }
    Ok(entries)
}

/// Resolve the triangle ranges of every batch of a scene, given each batch's
/// canonical key and required triangle index count; a missing key or a count
/// that differs from the atlas entry is a payload error.
pub fn triangle_draws_for_scene(atlas: &PackedPatchAtlas, batches: &[([u32; 3], u32)]) -> (r: Result<
    Vec<(u32, u32)>,
    LodWebGpuError,
>)
    ensures
        r is Ok <==> forall|b: int|
            0 <= b < batches@.len() ==> {
                let key = (batches@[b].0[0], batches@[b].0[1], batches@[b].0[2]);
                &&& atlas.entries_view().contains_key(key)
                &&& atlas.entries_view()[key].triangle_index_count == (#[trigger] batches@[b]).1
            },
        r matches Err(e) ==> e is Payload,
        r matches Ok(draws) ==> {
            &&& draws@.len() == batches@.len()
            &&& forall|b: int|
                0 <= b < batches@.len() ==> {
                    let key = (batches@[b].0[0], batches@[b].0[1], batches@[b].0[2]);
                    #[trigger] draws@[b] == (
                        atlas.entries_view()[key].triangle_first_index,
                        atlas.entries_view()[key].triangle_index_count,
                    )
                }
        },
{
    let mut draws: Vec<(u32, u32)> = Vec::new();
    let mut b: usize = 0;
    while b < batches.len()
        invariant
            b <= batches@.len(),
            draws@.len() == b,
            forall|k: int|
                0 <= k < b ==> {
                    let key = (batches@[k].0[0], batches@[k].0[1], batches@[k].0[2]);
                    &&& atlas.entries_view().contains_key(key)
                    &&& atlas.entries_view()[key].triangle_index_count == (#[trigger] batches@[k]).1
                    &&& draws@[k] == (
                        atlas.entries_view()[key].triangle_first_index,
                        atlas.entries_view()[key].triangle_index_count,
                    )
                },
        decreases batches@.len() - b,
    {
        let (key, required) = batches[b];
        match atlas.triangle_draw(key) {
            None => {
                return Err(LodWebGpuError::payload("packed WebGPU atlas is missing a batch key"));
            },
            Some(draw) => {
                if draw.1 != required {
                    return Err(
                        LodWebGpuError::payload(
                            "packed WebGPU atlas triangle index count differs from the batch",
                        ),
                    );
                }
                draws.push(draw);
            },
        }
        b = b + 1;
    }
    Ok(draws)
}

} // verus!
