//! Adaptive overlay epochs: the shape of a sparse replacement preparation,
//! the frame row of each replacement patch, and the checks that an overlay
//! still belongs to the model and scene it is drawn with.
//!
//! Batches of a scene are identified by keys that the caller assigns so that
//! two batches have the same key exactly when they are equal.

use vstd::prelude::*;
use crate::atlas::{PackedPatchAtlas, PackedPatchAtlasEntry, RenderGeometry};
use crate::error::LodWebGpuError;
use crate::patch_frame::{
    patch_winding, pipeline_for_pass, pipeline_geometry, winding_spec, DiagnosticPipeline,
    DiagnosticPipelineGeometries, PatchWinding, RenderPass,
};

verus! {

/// Patches in the first `n` batches, `counts[i]` being the member count of
/// batch `i`.
pub open spec fn members_before(counts: Seq<usize>, n: int) -> nat
    decreases n,
{
    if n <= 0 {
        0
    } else {
        members_before(counts, n - 1) + counts[n - 1] as nat
    }
}

/// Frame row of each replacement patch of the first `n` batches: batch `i`
/// contributes `counts[i]` copies of `i`, in batch order.
pub open spec fn frame_rows(counts: Seq<usize>, n: int) -> Seq<u32>
    decreases n,
{
    if n <= 0 {
        Seq::empty()
    } else {
        frame_rows(counts, n - 1) + Seq::new(counts[n - 1] as nat, |_k: int| (n - 1) as u32)
    }
}

proof fn lemma_frame_rows_len(counts: Seq<usize>, n: int)
    requires
        0 <= n <= counts.len(),
    ensures
        frame_rows(counts, n).len() == members_before(counts, n),
    decreases n,
{
    if n > 0 {
        lemma_frame_rows_len(counts, n - 1);
    }
}

pub(crate) proof fn lemma_members_before_monotone(counts: Seq<usize>, a: int, b: int)
    requires
        0 <= a <= b <= counts.len(),
    ensures
        members_before(counts, a) <= members_before(counts, b),
    decreases b - a,
{
    if a < b {
        lemma_members_before_monotone(counts, a, b - 1);
    }
}

/// Patch `k` is drawn with the frame row of the batch whose members cover
/// it: when batch `r`'s members occupy positions `members_before(r)` up to
/// `members_before(r + 1)`, every patch there reads row `r`.
pub proof fn lemma_frame_row_of_patch(counts: Seq<usize>, r: int, k: int)
    requires
        counts.len() <= u32::MAX as int + 1,
        0 <= r < counts.len(),
        members_before(counts, r) <= k < members_before(counts, r + 1),
    ensures
        frame_rows(counts, counts.len() as int)[k] == r,
{
    lemma_frame_row_within(counts, counts.len() as int, r, k);
}

proof fn lemma_frame_row_within(counts: Seq<usize>, n: int, r: int, k: int)
    requires
        0 <= r < n <= counts.len(),
        n <= u32::MAX as int + 1,
        members_before(counts, r) <= k < members_before(counts, r + 1),
    ensures
        frame_rows(counts, n)[k] == r,
    decreases n,
{
    lemma_frame_rows_len(counts, n - 1);
    if r < n - 1 {
        lemma_members_before_monotone(counts, r + 1, n - 1);
        lemma_frame_row_within(counts, n - 1, r, k);
    }
}

/// The frame row buffer of a replacement overlay: one row index per prepared
/// patch. It is refused when a batch index does not fit a row word, or when
/// the batches' members do not cover exactly `patch_count` patches.
pub fn adaptive_patch_frame_rows(member_counts: &[usize], patch_count: u32) -> (r: Result<
    Vec<u32>,
    LodWebGpuError,
>)
    ensures
        r is Ok <==> member_counts@.len() <= u32::MAX as int + 1 && members_before(
            member_counts@,
            member_counts@.len() as int,
        ) == patch_count,
        r matches Ok(rows) ==> rows@ == frame_rows(member_counts@, member_counts@.len() as int),
        r matches Err(e) ==> e is Payload,
{
    let n = member_counts.len();
    let mut rows: Vec<u32> = Vec::new();
    let mut i: usize = 0;
    while i < n
        invariant
            i <= n == member_counts@.len(),
            i <= u32::MAX as int + 1,
            rows@ == frame_rows(member_counts@, i as int),
            rows@.len() == members_before(member_counts@, i as int),
            rows@.len() <= patch_count,
        decreases n - i,
    {
        if i > u32::MAX as usize {
            return Err(LodWebGpuError::payload("adaptive frame row exceeds u32"));
        }
        let row = i as u32;
        let count = member_counts[i];
        let ghost before = rows@;
        let mut k: usize = 0;
        while k < count
            invariant
                i < n == member_counts@.len(),
                count == member_counts@[i as int],
                row == i,
                k <= count,
                before == frame_rows(member_counts@, i as int),
                before.len() == members_before(member_counts@, i as int),
                rows@ == before + Seq::new(k as nat, |_j: int| row),
                rows@.len() <= patch_count,
            decreases count - k,
        {
            if rows.len() >= patch_count as usize {
                proof {
                    lemma_members_before_monotone(member_counts@, i + 1, n as int);
                }
                return Err(
                    LodWebGpuError::payload(
                        "adaptive frame rows do not cover the prepared patch domain",
                    ),
                );
            }
            rows.push(row);
            k = k + 1;
            proof {
                assert(rows@ =~= before + Seq::new(k as nat, |_j: int| row));
            }
        }
        proof {
            assert(rows@ =~= frame_rows(member_counts@, i + 1));
        }
        i = i + 1;
    }
    if rows.len() != patch_count as usize {
        return Err(
            LodWebGpuError::payload("adaptive frame rows do not cover the prepared patch domain"),
        );
    }
    Ok(rows)
}

/// The shape a sparse overlay preparation must have against the resident
/// roots it shares source faces with: the roots belong to the model and
/// cover its faces, at least one patch is prepared, the uniform carries the
/// model's vertex and morph-target counts and a zero joint count (written
/// per frame later), there is one topology record per patch, and there is at
/// least one subject row.
pub open spec fn overlay_preparation_shape_valid(
    roots_model_identity: u64,
    roots_face_count: u32,
    model_identity: u64,
    model_face_count: usize,
    model_vertex_count: u32,
    model_morph_target_count: usize,
    uniform: [u32; 4],
    topology_len: usize,
    subject_count: usize,
) -> bool {
    &&& model_morph_target_count <= u32::MAX
    &&& roots_model_identity == model_identity
    &&& roots_face_count == model_face_count
    &&& uniform[0] != 0
    &&& uniform[1] == model_vertex_count
    &&& uniform[2] == 0
    &&& uniform[3] == model_morph_target_count
    &&& topology_len == uniform[0]
    &&& subject_count > 0
}

/// Check a sparse overlay preparation against its resident roots and model,
/// returning its patch count.
pub fn validate_overlay_preparation_shape(
    roots_model_identity: u64,
    roots_face_count: u32,
    model_identity: u64,
    model_face_count: usize,
    model_vertex_count: u32,
    model_morph_target_count: usize,
    uniform: [u32; 4],
    topology_len: usize,
    subject_count: usize,
) -> (r: Result<u32, LodWebGpuError>)
    ensures
        r is Ok <==> overlay_preparation_shape_valid(
            roots_model_identity,
            roots_face_count,
            model_identity,
            model_face_count,
            model_vertex_count,
            model_morph_target_count,
            uniform,
            topology_len,
            subject_count,
        ),
        r matches Ok(patch_count) ==> patch_count == uniform[0],
        r matches Err(e) ==> e is Payload,
{
    let patch_count = uniform[0];
    if model_morph_target_count > u32::MAX as usize {
        return Err(LodWebGpuError::payload("patch morph target count exceeds u32"));
    }
    let morph_targets = model_morph_target_count as u32;
    if roots_model_identity != model_identity || roots_face_count as usize != model_face_count
        || patch_count == 0 || uniform[1] != model_vertex_count || uniform[2] != 0 || uniform[3]
        != morph_targets || topology_len != patch_count as usize || subject_count == 0 {
        return Err(LodWebGpuError::payload("adaptive overlay preparation shape is malformed"));
    }
    Ok(patch_count)
}

/// Whether a scene needs a replacement overlay at all. The roots must belong
/// to the model; a scene with no replacement batch needs none, and then must
/// suppress no root face.
pub fn adaptive_overlay_required(
    roots_model_identity: u64,
    model_identity: u64,
    replacement_batch_count: usize,
    suppressed_root_face_count: usize,
) -> (r: Result<bool, LodWebGpuError>)
    ensures
        r is Ok <==> roots_model_identity == model_identity && (replacement_batch_count > 0
            || suppressed_root_face_count == 0),
        r matches Ok(required) ==> required == (replacement_batch_count > 0),
        r matches Err(e) ==> e is Payload,
{
    if roots_model_identity != model_identity {
        return Err(
            LodWebGpuError::payload("adaptive overlay roots belong to a different resource epoch"),
        );
    }
    if replacement_batch_count == 0 {
        if suppressed_root_face_count != 0 {
            return Err(
                LodWebGpuError::payload("suppressed roots require a nonempty adaptive overlay"),
            );
        }
        return Ok(false);
    }
    Ok(true)
}

/// What a retained overlay remembers of the model and scene it was built
/// from.
#[derive(Clone, Debug)]
pub struct AdaptiveOverlayEpoch {
    pub model_identity: u64,
    pub scene_revision: u64,
    pub suppressed_root_faces: Vec<u32>,
    /// Index in the scene of each retained replacement batch.
    pub source_batch_indices: Vec<u32>,
    /// Key of each retained replacement batch, in draw order.
    pub batch_keys: Vec<u64>,
}

/// The overlay was built from this scene: from its revision, with its
/// suppressed roots, and each retained batch is still the scene's batch at
/// its source index.
pub open spec fn overlay_scene_current(
    overlay: AdaptiveOverlayEpoch,
    scene_revision: u64,
    scene_suppressed_root_faces: Seq<u32>,
    scene_batch_keys: Seq<u64>,
) -> bool {
    &&& overlay.scene_revision == scene_revision
    &&& overlay.suppressed_root_faces@ == scene_suppressed_root_faces
    &&& overlay.source_batch_indices@.len() == overlay.batch_keys@.len()
    &&& forall|i: int|
        0 <= i < overlay.batch_keys@.len() ==> {
            let source = #[trigger] overlay.source_batch_indices@[i];
            &&& source < scene_batch_keys.len()
            &&& scene_batch_keys[source as int] == overlay.batch_keys@[i]
        }
}

/// The overlay may be drawn with a scene and a resident LOD state when all
/// three belong to the model, the resident state covers the model's faces,
/// and the overlay was built from this scene.
pub open spec fn overlay_epoch_current(
    overlay: AdaptiveOverlayEpoch,
    model_identity: u64,
    resident_model_identity: u64,
    resident_face_count: u32,
    model_face_count: usize,
    scene_revision: u64,
    scene_suppressed_root_faces: Seq<u32>,
    scene_batch_keys: Seq<u64>,
) -> bool {
    &&& overlay.model_identity == model_identity
    &&& resident_model_identity == model_identity
    &&& resident_face_count == model_face_count
    &&& overlay_scene_current(overlay, scene_revision, scene_suppressed_root_faces, scene_batch_keys)
}

/// Whether two word lists are equal.
pub fn same_words(a: &[u32], b: &[u32]) -> (same: bool)
    ensures
        same == (a@ == b@),
{
    if a.len() != b.len() {
        return false;
    }
    let mut i: usize = 0;
    while i < a.len()
        invariant
            i <= a@.len() == b@.len(),
            forall|j: int| 0 <= j < i ==> a@[j] == b@[j],
        decreases a@.len() - i,
    {
        if a[i] != b[i] {
            return false;
        }
        i = i + 1;
    }
    assert(a@ =~= b@);
    true
}

/// Whether a retained overlay was built from the scene being drawn.
pub fn overlay_matches_scene(
    overlay: &AdaptiveOverlayEpoch,
    scene_revision: u64,
    scene_suppressed_root_faces: &[u32],
    scene_batch_keys: &[u64],
) -> (current: bool)
    ensures
        current == overlay_scene_current(
            *overlay,
            scene_revision,
            scene_suppressed_root_faces@,
            scene_batch_keys@,
        ),
{
    if overlay.scene_revision != scene_revision || !same_words(
        &overlay.suppressed_root_faces,
        scene_suppressed_root_faces,
    ) || overlay.source_batch_indices.len() != overlay.batch_keys.len() {
        return false;
    }
    let n = overlay.batch_keys.len();
    let mut i: usize = 0;
    while i < n
        invariant
            i <= n == overlay.batch_keys@.len() == overlay.source_batch_indices@.len(),
            forall|j: int|
                0 <= j < i ==> {
                    let source = #[trigger] overlay.source_batch_indices@[j];
                    &&& source < scene_batch_keys@.len()
                    &&& scene_batch_keys@[source as int] == overlay.batch_keys@[j]
                },
        decreases n - i,
    {
        let source = overlay.source_batch_indices[i] as usize;
        if source >= scene_batch_keys.len() || scene_batch_keys[source] != overlay.batch_keys[i] {
            return false;
        }
        i = i + 1;
    }
    true
}

/// Check that a retained overlay belongs to the scene epoch being drawn.
pub fn validate_adaptive_overlay_epoch(
    overlay: &AdaptiveOverlayEpoch,
    model_identity: u64,
    resident_model_identity: u64,
    resident_face_count: u32,
    model_face_count: usize,
    scene_revision: u64,
    scene_suppressed_root_faces: &[u32],
    scene_batch_keys: &[u64],
) -> (r: Result<(), LodWebGpuError>)
    ensures
        r is Ok <==> overlay_epoch_current(
            *overlay,
            model_identity,
            resident_model_identity,
            resident_face_count,
            model_face_count,
            scene_revision,
            scene_suppressed_root_faces@,
            scene_batch_keys@,
        ),
        r matches Err(e) ==> e is Payload,
{
    if overlay.model_identity != model_identity || resident_model_identity != model_identity
        || resident_face_count as usize != model_face_count || !overlay_matches_scene(
        overlay,
        scene_revision,
        scene_suppressed_root_faces,
        scene_batch_keys,
    ) {
        return Err(
            LodWebGpuError::payload("adaptive overlay resources belong to a different scene epoch"),
        );
    }
    Ok(())
}

/// Build the epoch record of a replacement overlay for a scene:
/// `source_batch_indices` names the scene batches the overlay replaces. The
/// roots must belong to the model; without replacement batches there is no
/// overlay (and the scene must suppress no root face). A built overlay
/// remembers the model, the scene revision, the suppressed roots and the key
/// of each replaced batch, so it is current for the scene it was built from.
pub fn adaptive_overlay_epoch(
    roots_model_identity: u64,
    model_identity: u64,
    scene_revision: u64,
    scene_suppressed_root_faces: &[u32],
    scene_batch_keys: &[u64],
    source_batch_indices: Vec<u32>,
) -> (r: Result<Option<AdaptiveOverlayEpoch>, LodWebGpuError>)
    requires
        forall|i: int|
            0 <= i < source_batch_indices@.len() ==> #[trigger] source_batch_indices@[i]
                < scene_batch_keys@.len(),
    ensures
        r is Ok <==> roots_model_identity == model_identity && (source_batch_indices@.len() > 0
            || scene_suppressed_root_faces@.len() == 0),
        r matches Err(e) ==> e is Payload,
        r matches Ok(None) ==> source_batch_indices@.len() == 0,
        r matches Ok(Some(o)) ==> {
            &&& source_batch_indices@.len() > 0
            &&& o.model_identity == model_identity
            &&& o.scene_revision == scene_revision
            &&& o.suppressed_root_faces@ == scene_suppressed_root_faces@
            &&& o.source_batch_indices@ == source_batch_indices@
            &&& o.batch_keys@.len() == source_batch_indices@.len()
            &&& forall|i: int|
                0 <= i < o.batch_keys@.len() ==> #[trigger] o.batch_keys@[i]
                    == scene_batch_keys@[source_batch_indices@[i] as int]
            &&& overlay_scene_current(
                o,
                scene_revision,
                scene_suppressed_root_faces@,
                scene_batch_keys@,
            )
        },
{
    let required = adaptive_overlay_required(
        roots_model_identity,
        model_identity,
        source_batch_indices.len(),
        scene_suppressed_root_faces.len(),
    )?;
    if !required {
        return Ok(None);
    }
    let mut suppressed: Vec<u32> = Vec::new();
    let mut i: usize = 0;
    while i < scene_suppressed_root_faces.len()
        invariant
            i <= scene_suppressed_root_faces@.len(),
            suppressed@ == scene_suppressed_root_faces@.subrange(0, i as int),
        decreases scene_suppressed_root_faces@.len() - i,
    {
        suppressed.push(scene_suppressed_root_faces[i]);
        i = i + 1;
        assert(suppressed@ =~= scene_suppressed_root_faces@.subrange(0, i as int));
    }
    assert(suppressed@ =~= scene_suppressed_root_faces@);
    let mut keys: Vec<u64> = Vec::new();
    let mut j: usize = 0;
    while j < source_batch_indices.len()
        invariant
            j <= source_batch_indices@.len(),
            keys@.len() == j,
            forall|k: int|
                0 <= k < source_batch_indices@.len() ==> #[trigger] source_batch_indices@[k]
                    < scene_batch_keys@.len(),
            forall|k: int|
                0 <= k < j ==> #[trigger] keys@[k] == scene_batch_keys@[source_batch_indices@[k] as int],
        decreases source_batch_indices@.len() - j,
    {
        let source = source_batch_indices[j];
        keys.push(scene_batch_keys[source as usize]);
        j = j + 1;
    }
    let overlay = AdaptiveOverlayEpoch {
        model_identity,
        scene_revision,
        suppressed_root_faces: suppressed,
        source_batch_indices,
        batch_keys: keys,
    };
    assert forall|k: int| 0 <= k < overlay.batch_keys@.len() implies {
        let source = #[trigger] overlay.source_batch_indices@[k];
        &&& source < scene_batch_keys@.len()
        &&& scene_batch_keys@[source as int] == overlay.batch_keys@[k]
    } by {
        assert(overlay.batch_keys@[k] == scene_batch_keys@[overlay.source_batch_indices@[k] as int]);
    }
    Ok(Some(overlay))
}

/// The root faces published with an overlay: none without an overlay, else
/// the overlay's own, provided it was built for the roots' model (`None`
/// when it was not).
pub open spec fn suppression_publication(
    root_model_identity: u64,
    overlay: Option<&AdaptiveOverlayEpoch>,
) -> Option<Seq<u32>> {
    match overlay {
        None => Some(Seq::empty()),
        Some(o) => if o.model_identity == root_model_identity {
            Some(o.suppressed_root_faces@)
        } else {
            None
        },
    }
}

/// The root faces to suppress when an overlay is published over resident
/// roots; an overlay of another model is refused.
pub fn adaptive_overlay_suppression(
    root_model_identity: u64,
    overlay: Option<&AdaptiveOverlayEpoch>,
) -> (r: Result<Vec<u32>, LodWebGpuError>)
    ensures
        match r {
            Ok(faces) => suppression_publication(root_model_identity, overlay) == Some(faces@),
            Err(e) => suppression_publication(root_model_identity, overlay) is None && e is Payload,
        },
{
    match overlay {
        None => {
            let faces: Vec<u32> = Vec::new();
            assert(faces@ =~= Seq::<u32>::empty());
            Ok(faces)
        },
        Some(o) => {
            if o.model_identity != root_model_identity {
                return Err(
                    LodWebGpuError::payload(
                        "adaptive overlay publication belongs to a different model epoch",
                    ),
                );
            }
            let mut faces: Vec<u32> = Vec::new();
            let mut i: usize = 0;
            while i < o.suppressed_root_faces.len()
                invariant
                    i <= o.suppressed_root_faces@.len(),
                    faces@ == o.suppressed_root_faces@.subrange(0, i as int),
                decreases o.suppressed_root_faces@.len() - i,
            {
                faces.push(o.suppressed_root_faces[i]);
                i = i + 1;
                assert(faces@ =~= o.suppressed_root_faces@.subrange(0, i as int));
            }
            assert(faces@ =~= o.suppressed_root_faces@);
            Ok(faces)
        },
    }
}

/// A resident adaptive frame composes roots and overlay consistently: an
/// overlay is present exactly when the scene suppresses root faces, and the
/// suppression last published to the resident roots is the scene's.
pub open spec fn resident_suppression_consistent(
    scene_suppressed_root_faces: Seq<u32>,
    overlay_present: bool,
    published_suppression: Seq<u32>,
) -> bool {
    &&& (scene_suppressed_root_faces.len() == 0) != overlay_present
    &&& published_suppression == scene_suppressed_root_faces
}

/// What is published with an overlay built for the scene is what the
/// scene's resident adaptive frame then accepts: with no overlay and no
/// suppressed roots, or with an overlay of the roots' model that carries the
/// scene's nonempty suppression.
pub proof fn lemma_published_suppression_is_accepted(
    root_model_identity: u64,
    overlay: Option<&AdaptiveOverlayEpoch>,
    scene_suppressed_root_faces: Seq<u32>,
)
    requires
        match overlay {
            None => scene_suppressed_root_faces.len() == 0,
            Some(o) => {
                &&& o.model_identity == root_model_identity
                &&& o.suppressed_root_faces@ == scene_suppressed_root_faces
                &&& scene_suppressed_root_faces.len() > 0
            },
        },
    ensures
        suppression_publication(root_model_identity, overlay) matches Some(published)
            && resident_suppression_consistent(
            scene_suppressed_root_faces,
            overlay is Some,
            published,
        ),
{
    if overlay is None {
        assert(scene_suppressed_root_faces =~= Seq::<u32>::empty());
    }
}

/// Check that a resident adaptive frame composes roots and overlay
/// consistently.
pub fn validate_resident_adaptive_suppression(
    scene_suppressed_root_faces: &[u32],
    overlay_present: bool,
    published_suppression: &[u32],
) -> (r: Result<(), LodWebGpuError>)
    ensures
        r is Ok <==> resident_suppression_consistent(
            scene_suppressed_root_faces@,
            overlay_present,
            published_suppression@,
        ),
        r matches Err(e) ==> e is Payload,
{
    if (scene_suppressed_root_faces.len() == 0) == overlay_present {
        return Err(
            LodWebGpuError::payload("adaptive overlay presence does not match root suppression"),
        );
    }
    if !same_words(published_suppression, scene_suppressed_root_faces) {
        return Err(
            LodWebGpuError::payload(
                "resident root suppression was not published with the adaptive overlay",
            ),
        );
    }
    Ok(())
}

/// One replacement batch as the overlay draws it: its canonical key, the
/// index counts its triangles and lines must have in the atlas, and what
/// decides its winding.
#[derive(Clone, Copy, Debug, PartialEq, Eq)]
pub struct OverlayBatchDraw {
    pub key: [u32; 3],
    pub triangle_index_count: u32,
    pub line_index_count: u32,
    pub orientation_sign: i32,
    pub parity_bucket: u32,
}

/// One indirect draw of the overlay.
#[derive(Clone, Copy, Debug, PartialEq, Eq, Structural)]
pub struct OverlayDraw {
    pub pipeline: DiagnosticPipeline,
    /// The primitive geometry the pipeline draws.
    pub geometry: RenderGeometry,
    pub batch_index: u32,
    pub first_index: u32,
    pub index_count: u32,
    pub winding: PatchWinding,
}

/// The atlas key of a batch.
pub open spec fn batch_key(batch: OverlayBatchDraw) -> (u32, u32, u32) {
    (batch.key[0], batch.key[1], batch.key[2])
}

/// The index count a batch requires for a geometry.
pub open spec fn required_index_count(batch: OverlayBatchDraw, geometry: RenderGeometry) -> u32 {
    match geometry {
        RenderGeometry::Triangles => batch.triangle_index_count,
        RenderGeometry::Lines => batch.line_index_count,
    }
}

/// First index and index count of an atlas entry's geometry.
pub open spec fn entry_range(entry: PackedPatchAtlasEntry, geometry: RenderGeometry) -> (u32, u32) {
    match geometry {
        RenderGeometry::Triangles => (entry.triangle_first_index, entry.triangle_index_count),
        RenderGeometry::Lines => (entry.line_first_index, entry.line_index_count),
    }
}

/// The atlas holds the batch's key with exactly the index count the batch
/// requires for the geometry.
pub open spec fn batch_in_atlas(
    entries: Map<(u32, u32, u32), PackedPatchAtlasEntry>,
    batch: OverlayBatchDraw,
    geometry: RenderGeometry,
) -> bool {
    &&& entries.contains_key(batch_key(batch))
    &&& entry_range(entries[batch_key(batch)], geometry).1 == required_index_count(batch, geometry)
}

/// The draw of batch `b` in a pass of the given pipeline and geometry.
pub open spec fn overlay_draw_of(
    entries: Map<(u32, u32, u32), PackedPatchAtlasEntry>,
    pipeline: DiagnosticPipeline,
    geometry: RenderGeometry,
    batch: OverlayBatchDraw,
    b: int,
) -> OverlayDraw {
    let range = entry_range(entries[batch_key(batch)], geometry);
    OverlayDraw {
        pipeline,
        geometry,
        batch_index: b as u32,
        first_index: range.0,
        index_count: range.1,
        winding: winding_spec(batch.orientation_sign, batch.parity_bucket),
    }
}

/// The overlay's draws for the first `n` passes of the frame's plan: every
/// pass but transparent PBR draws each batch once, in batch order.
pub open spec fn overlay_draws(
    entries: Map<(u32, u32, u32), PackedPatchAtlasEntry>,
    passes: Seq<(RenderPass, RenderGeometry)>,
    batches: Seq<OverlayBatchDraw>,
    n: int,
) -> Seq<OverlayDraw>
    decreases n,
{
    if n <= 0 {
        Seq::empty()
    } else {
        let earlier = overlay_draws(entries, passes, batches, n - 1);
        let (pass, geometry) = passes[n - 1];
        match pipeline_for_pass(pass) {
            None => earlier,
            Some(pipeline) => earlier + Seq::new(
                batches.len(),
                |b: int| overlay_draw_of(entries, pipeline, geometry, batches[b], b),
            ),
        }
    }
}

/// Passes among the first `n` of a plan that draw (all but transparent PBR).
pub open spec fn drawn_pass_count(passes: Seq<(RenderPass, RenderGeometry)>, n: int) -> nat
    decreases n,
{
    if n <= 0 {
        0
    } else {
        drawn_pass_count(passes, n - 1) + if pipeline_for_pass(passes[n - 1].0) is Some {
            1nat
        } else {
            0nat
        }
    }
}

/// An overlay frame issues one indirect draw per batch in every drawn pass.
pub proof fn lemma_overlay_draw_count(
    entries: Map<(u32, u32, u32), PackedPatchAtlasEntry>,
    passes: Seq<(RenderPass, RenderGeometry)>,
    batches: Seq<OverlayBatchDraw>,
    n: int,
)
    requires
        0 <= n <= passes.len(),
    ensures
        overlay_draws(entries, passes, batches, n).len() == drawn_pass_count(passes, n)
            * batches.len(),
    decreases n,
{
    if n > 0 {
        lemma_overlay_draw_count(entries, passes, batches, n - 1);
        let d = drawn_pass_count(passes, n - 1);
        let earlier = overlay_draws(entries, passes, batches, n - 1);
        let (pass, geometry) = passes[n - 1];
        match pipeline_for_pass(pass) {
            None => {
                assert(overlay_draws(entries, passes, batches, n) == earlier);
                assert(drawn_pass_count(passes, n) == d);
            },
            Some(pipeline) => {
                assert(overlay_draws(entries, passes, batches, n) == earlier + Seq::new(
                    batches.len(),
                    |b: int| overlay_draw_of(entries, pipeline, geometry, batches[b], b),
                ));
                assert(drawn_pass_count(passes, n) == d + 1);
                assert((d + 1) * batches.len() == d * batches.len() + batches.len())
                    by (nonlinear_arith);
            },
        }
    } else {
        assert(0 * batches.len() == 0);
    }
}

/// An overlay frame can be encoded: in every drawn pass each batch is in
/// the atlas with its required index count, and the retained pipeline of the
/// pass draws the pass's geometry.
pub open spec fn overlay_draws_available(
    entries: Map<(u32, u32, u32), PackedPatchAtlasEntry>,
    passes: Seq<(RenderPass, RenderGeometry)>,
    geometries: DiagnosticPipelineGeometries,
    batches: Seq<OverlayBatchDraw>,
) -> bool {
    forall|j: int|
        0 <= j < passes.len() ==> (#[trigger] pipeline_for_pass(passes[j].0) matches Some(
            pipeline,
        ) ==> {
            &&& pipeline_geometry(geometries, pipeline) == passes[j].1
            &&& forall|b: int|
                0 <= b < batches.len() ==> batch_in_atlas(entries, #[trigger] batches[b], passes[j].1)
        })
}

fn pass_pipeline(pass: RenderPass) -> (r: Option<DiagnosticPipeline>)
    ensures
        r == pipeline_for_pass(pass),
{
    match pass {
        RenderPass::PbrOpaque => Some(DiagnosticPipeline::Pbr),
        RenderPass::Matcap => Some(DiagnosticPipeline::Matcap),
        RenderPass::Wire => Some(DiagnosticPipeline::Wire),
        RenderPass::Normals => Some(DiagnosticPipeline::Normals),
        RenderPass::Lod => Some(DiagnosticPipeline::Lod),
        RenderPass::Stretch => Some(DiagnosticPipeline::Stretch),
        RenderPass::PbrTransparent => None,
    }
}

fn drawn_geometry(geometries: DiagnosticPipelineGeometries, pipeline: DiagnosticPipeline) -> (g:
    RenderGeometry)
    ensures
        g == pipeline_geometry(geometries, pipeline),
{
    match pipeline {
        DiagnosticPipeline::Pbr => geometries.pbr,
        DiagnosticPipeline::Matcap => geometries.matcap,
        DiagnosticPipeline::Wire => geometries.wire,
        DiagnosticPipeline::Normals => geometries.normals,
        DiagnosticPipeline::Lod => geometries.lod,
        DiagnosticPipeline::Stretch => geometries.stretch,
    }
}

/// Plan the indirect draws of a replacement overlay: the atlas is checked
/// for every batch of every drawn pass before any draw is planned, then each
/// drawn pass takes its retained pipeline and draws every batch with the
/// batch's winding. Transparent PBR passes are skipped.
pub fn plan_adaptive_overlay_draws(
    atlas: &PackedPatchAtlas,
    passes: &[(RenderPass, RenderGeometry)],
    geometries: DiagnosticPipelineGeometries,
    batches: &[OverlayBatchDraw],
) -> (r: Result<Vec<OverlayDraw>, LodWebGpuError>)
    ensures
        r is Ok <==> overlay_draws_available(atlas.entries_view(), passes@, geometries, batches@),
        r matches Ok(draws) ==> draws@ == overlay_draws(
            atlas.entries_view(),
            passes@,
            batches@,
            passes@.len() as int,
        ),
        r matches Err(e) ==> e is Payload,
{
    let ghost entries = atlas.entries_view();
    let np = passes.len();
    let nb = batches.len();
    let mut j: usize = 0;
    while j < np
        invariant
            j <= np == passes@.len(),
            nb == batches@.len(),
            entries == atlas.entries_view(),
            forall|q: int|
                0 <= q < j ==> (#[trigger] pipeline_for_pass(passes@[q].0) is Some ==> forall|b: int|
                    0 <= b < nb ==> batch_in_atlas(entries, #[trigger] batches@[b], passes@[q].1)),
        decreases np - j,
    {
        let (pass, geometry) = passes[j];
        if pass_pipeline(pass).is_some() {
            let mut b: usize = 0;
            while b < nb
                invariant
                    j < np == passes@.len(),
                    nb == batches@.len(),
                    entries == atlas.entries_view(),
                    (pass, geometry) == passes@[j as int],
                    pipeline_for_pass(pass) is Some,
                    b <= nb,
                    forall|c: int|
                        0 <= c < b ==> batch_in_atlas(entries, #[trigger] batches@[c], geometry),
                decreases nb - b,
            {
                let batch = batches[b];
                proof {
                    assert(pipeline_for_pass(passes@[j as int].0) is Some);
                    assert(batches@[b as int] == batch);
                }
                match atlas.draw(batch.key, geometry) {
                    None => {
                        return Err(
                            LodWebGpuError::payload(
                                "packed WebGPU atlas is missing an adaptive batch key",
                            ),
                        );
                    },
                    Some(draw) => {
                        let expected = match geometry {
                            RenderGeometry::Triangles => batch.triangle_index_count,
                            RenderGeometry::Lines => batch.line_index_count,
                        };
                        if draw.1 != expected {
                            return Err(
                                LodWebGpuError::payload(
                                    "adaptive atlas batch index count differs from the batch",
                                ),
                            );
                        }
                    },
                }
                b = b + 1;
            }
        }
        j = j + 1;
    }
    let mut draws: Vec<OverlayDraw> = Vec::new();
    let mut j: usize = 0;
    while j < np
        invariant
            j <= np == passes@.len(),
            nb == batches@.len(),
            entries == atlas.entries_view(),
            forall|q: int|
                0 <= q < np ==> (#[trigger] pipeline_for_pass(passes@[q].0) is Some ==> forall|b: int|
                    0 <= b < nb ==> batch_in_atlas(entries, #[trigger] batches@[b], passes@[q].1)),
            forall|q: int|
                0 <= q < j ==> (#[trigger] pipeline_for_pass(passes@[q].0) matches Some(pipeline)
                    ==> pipeline_geometry(geometries, pipeline) == passes@[q].1),
            draws@ == overlay_draws(entries, passes@, batches@, j as int),
        decreases np - j,
    {
        let (pass, geometry) = passes[j];
        match pass_pipeline(pass) {
            None => {},
            Some(pipeline) => {
                if drawn_geometry(geometries, pipeline) != geometry {
                    return Err(
                        LodWebGpuError::payload("WebGPU pipeline geometry differs from the command"),
                    );
                }
                let ghost earlier = draws@;
                let mut b: usize = 0;
                while b < nb
                    invariant
                        j < np == passes@.len(),
                        nb == batches@.len(),
                        entries == atlas.entries_view(),
                        (pass, geometry) == passes@[j as int],
                        pipeline_for_pass(pass) == Some(pipeline),
                        forall|c: int|
                            0 <= c < nb ==> batch_in_atlas(entries, #[trigger] batches@[c], geometry),
                        earlier == overlay_draws(entries, passes@, batches@, j as int),
                        b <= nb,
                        draws@ == earlier + Seq::new(
                            b as nat,
                            |c: int| overlay_draw_of(entries, pipeline, geometry, batches@[c], c),
                        ),
                    decreases nb - b,
                {
                    let batch = batches[b];
                    proof {
                        assert(batch_in_atlas(entries, batches@[b as int], geometry));
                    }
                    let range = match atlas.draw(batch.key, geometry) {
                        Some(range) => range,
                        None => (0, 0),
                    };
                    draws.push(
                        OverlayDraw {
                            pipeline,
                            geometry,
                            batch_index: #[verifier::truncate] (b as u32),
                            first_index: range.0,
                            index_count: range.1,
                            winding: patch_winding(batch.orientation_sign, batch.parity_bucket),
                        },
                    );
                    b = b + 1;
                    proof {
                        assert(draws@ =~= earlier + Seq::new(
                            b as nat,
                            |c: int| overlay_draw_of(entries, pipeline, geometry, batches@[c], c),
                        ));
                    }
                }
                proof {
                    assert(Seq::new(
                        nb as nat,
                        |c: int| overlay_draw_of(entries, pipeline, geometry, batches@[c], c),
                    ) =~= Seq::new(
                        batches@.len(),
                        |c: int| overlay_draw_of(entries, pipeline, geometry, batches@[c], c),
                    ));
                }
            },
        }
        j = j + 1;
    }
    Ok(draws)
}

} // verus!
