//! In-place publication of a new topology into a retained patch render scene.
//!
//! A retained scene keeps its allocations while the patch, subject, batch,
//! source, and material cardinalities stay the same; a change of shape is
//! answered by a full replacement. Words that describe the resident model
//! itself may never change under an in-place update.

use vstd::prelude::*;
use crate::error::LodWebGpuError;
use crate::preparation::{preparation_scene_valid, PatchPreparationSceneWords, PreparedModelShape};
use crate::visibility::{compaction_scene_valid, VisibilityCompactionSceneWords};

verus! {

/// What a retained scene's allocations were sized for.
#[derive(Clone, Copy, Debug, PartialEq, Eq)]
pub struct RetainedSceneShape {
    pub model_identity: u64,
    pub patch_count: u32,
    pub subject_count: u32,
    /// The preparation uniform the scene was uploaded with.
    pub preparation_uniform: [u32; 4],
    pub batch_count: u32,
    pub source_count: u32,
    pub material_count: u32,
}

/// Outcome of an in-place scene publication.
#[derive(Clone, Copy, Debug, PartialEq, Eq, Structural)]
pub enum PatchRenderSceneUpdate {
    /// The retained allocations now hold the new scene.
    Updated,
    /// The new scene needs allocations of another size.
    ShapeChanged,
}

/// The new scene fits the retained allocations: same model, as many patches
/// (with one topology record each) and subject rows, as many batches and
/// sources (with one batch record and one eligibility word each), and as many
/// material rows (one default row for none).
pub open spec fn same_scene_shape(
    model_identity: u64,
    retained: RetainedSceneShape,
    patches: PatchPreparationSceneWords,
    visibility: VisibilityCompactionSceneWords,
    material_len: usize,
) -> bool {
    &&& model_identity == retained.model_identity
    &&& patches.uniform[0] == retained.patch_count
    &&& patches.topology@.len() == retained.patch_count
    &&& patches.subjects@.len() == retained.subject_count
    &&& visibility.uniform[0] == retained.batch_count
    &&& visibility.uniform[1] == retained.source_count
    &&& visibility.batches@.len() == retained.batch_count
    &&& visibility.source_eligibility@.len() == retained.source_count
    &&& (if material_len == 0 {
        1
    } else {
        material_len as int
    }) == retained.material_count
}

/// The model's words are unchanged: the preparation uniform past its patch
/// count is the retained one, and the compaction uniform's tail is zero.
pub open spec fn model_words_unchanged(
    retained: RetainedSceneShape,
    patches: PatchPreparationSceneWords,
    visibility: VisibilityCompactionSceneWords,
) -> bool {
    &&& patches.uniform[1] == retained.preparation_uniform[1]
    &&& patches.uniform[2] == retained.preparation_uniform[2]
    &&& patches.uniform[3] == retained.preparation_uniform[3]
    &&& visibility.uniform[2] == 0
    &&& visibility.uniform[3] == 0
}

/// What an in-place update writes must fit what the retained allocations
/// hold: the same model; the retained patch count as the scene's patch count
/// and topology records; the retained subject rows; the retained batch count
/// as the compaction uniform's batch count and as its batch records; the
/// retained source count as its source count and eligibility words; the
/// retained material rows (one default row for none); and the resident
/// model's preparation words, with a zero compaction uniform tail.
pub open spec fn in_place_fits_retained(
    model_identity: u64,
    retained: RetainedSceneShape,
    patches: PatchPreparationSceneWords,
    visibility: VisibilityCompactionSceneWords,
    material_len: usize,
) -> bool {
    &&& model_identity == retained.model_identity
    &&& patches.uniform[0] == retained.patch_count
    &&& patches.topology@.len() == retained.patch_count
    &&& patches.subjects@.len() == retained.subject_count
    &&& patches.uniform[1] == retained.preparation_uniform[1]
    &&& patches.uniform[2] == retained.preparation_uniform[2]
    &&& patches.uniform[3] == retained.preparation_uniform[3]
    &&& visibility.uniform[0] == retained.batch_count
    &&& visibility.batches@.len() == retained.batch_count
    &&& visibility.uniform[1] == retained.source_count
    &&& visibility.source_eligibility@.len() == retained.source_count
    &&& visibility.uniform[2] == 0
    &&& visibility.uniform[3] == 0
    &&& (material_len == 0 ==> retained.material_count == 1)
    &&& (material_len > 0 ==> retained.material_count == material_len)
}

/// A scene of the retained shape with the resident model's words fits every
/// retained allocation, so an in-place update never writes a scene with
/// more or fewer patches, subjects, batches, sources or materials than the
/// allocations were sized for.
pub proof fn lemma_same_shape_fits_every_allocation(
    model_identity: u64,
    retained: RetainedSceneShape,
    patches: PatchPreparationSceneWords,
    visibility: VisibilityCompactionSceneWords,
    material_len: usize,
)
    ensures
        same_scene_shape(model_identity, retained, patches, visibility, material_len)
            && model_words_unchanged(retained, patches, visibility) ==> in_place_fits_retained(
            model_identity,
            retained,
            patches,
            visibility,
            material_len,
        ),
{
}

/// Decide how a new scene is published into a retained one: a different
/// shape asks for a replacement; the same shape is updated in place, unless
/// the new words change the resident model's, which is a payload error.
pub fn patch_render_scene_update(
    model_identity: u64,
    retained: RetainedSceneShape,
    patches: &PatchPreparationSceneWords,
    visibility: &VisibilityCompactionSceneWords,
    material_len: usize,
) -> (r: Result<PatchRenderSceneUpdate, LodWebGpuError>)
    ensures
        !same_scene_shape(model_identity, retained, *patches, *visibility, material_len) ==> r
            == Ok::<PatchRenderSceneUpdate, LodWebGpuError>(PatchRenderSceneUpdate::ShapeChanged),
        same_scene_shape(model_identity, retained, *patches, *visibility, material_len) ==> {
            &&& r is Ok <==> model_words_unchanged(retained, *patches, *visibility)
            &&& r matches Ok(update) ==> update == PatchRenderSceneUpdate::Updated
            &&& r matches Err(e) ==> e is Payload
        },
        r == Ok::<PatchRenderSceneUpdate, LodWebGpuError>(PatchRenderSceneUpdate::Updated)
            ==> in_place_fits_retained(model_identity, retained, *patches, *visibility, material_len),
{
    proof {
        lemma_same_shape_fits_every_allocation(
            model_identity,
            retained,
            *patches,
            *visibility,
            material_len,
        );
    }
    let materials = if material_len == 0 {
        1
    } else {
        material_len
    };
    let same_shape = model_identity == retained.model_identity && patches.uniform[0]
        == retained.patch_count && patches.topology.len() == retained.patch_count as usize
        && patches.subjects.len() == retained.subject_count as usize && visibility.uniform[0]
        == retained.batch_count && visibility.uniform[1] == retained.source_count
        && visibility.batches.len() == retained.batch_count as usize
        && visibility.source_eligibility.len() == retained.source_count as usize && materials
        == retained.material_count as usize;
    if !same_shape {
        return Ok(PatchRenderSceneUpdate::ShapeChanged);
    }
    if patches.uniform[1] != retained.preparation_uniform[1] || patches.uniform[2]
        != retained.preparation_uniform[2] || patches.uniform[3]
        != retained.preparation_uniform[3] || visibility.uniform[2] != 0 || visibility.uniform[3]
        != 0 {
        return Err(
            LodWebGpuError::payload("in-place WebGPU scene update changed immutable model words"),
        );
    }
    Ok(PatchRenderSceneUpdate::Updated)
}

/// Texture bindings rebuilt for a retained scene must cover exactly its
/// material rows.
pub fn validate_texture_binding_material_count(
    binding_material_count: u32,
    retained_material_count: u32,
) -> (r: Result<(), LodWebGpuError>)
    ensures
        r is Ok <==> binding_material_count == retained_material_count,
        r matches Err(e) ==> e is Payload,
{
    if binding_material_count != retained_material_count {
        return Err(
            LodWebGpuError::payload(
                "PBR texture binding material count does not match retained scene",
            ),
        );
    }
    Ok(())
}

/// The shape a scene's allocations get when its words are uploaded for a
/// model.
pub open spec fn uploaded_shape(
    model_identity: u64,
    patches: PatchPreparationSceneWords,
    visibility: VisibilityCompactionSceneWords,
    material_len: usize,
) -> RetainedSceneShape {
    RetainedSceneShape {
        model_identity,
        patch_count: patches.uniform[0],
        subject_count: patches.subjects@.len() as u32,
        preparation_uniform: patches.uniform,
        batch_count: visibility.uniform[0],
        source_count: visibility.uniform[1],
        material_count: if material_len == 0 {
            1
        } else {
            material_len as u32
        },
    }
}

/// Publishing a scene again into the allocations uploaded for it never asks
/// for a replacement and never trips the model-words check: for scene words
/// that upload validation accepts, the update is in place.
pub proof fn lemma_republishing_updates_in_place(
    model_identity: u64,
    model: PreparedModelShape,
    patches: PatchPreparationSceneWords,
    visibility: VisibilityCompactionSceneWords,
    material_len: usize,
)
    requires
        preparation_scene_valid(patches, model),
        compaction_scene_valid(visibility.uniform, visibility.batches@, visibility.source_eligibility@),
        patches.subjects@.len() <= u32::MAX,
        material_len <= u32::MAX,
    ensures
        same_scene_shape(
            model_identity,
            uploaded_shape(model_identity, patches, visibility, material_len),
            patches,
            visibility,
            material_len,
        ),
        model_words_unchanged(
            uploaded_shape(model_identity, patches, visibility, material_len),
            patches,
            visibility,
        ),
{
}

} // verus!
