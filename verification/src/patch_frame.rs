//! Per-frame decisions of the patch renderer: triangle winding of a batch,
//! the face-visibility bitset, pose publication, and draw counts.

use vstd::prelude::*;
use crate::atlas::{PackedPatchAtlas, RenderGeometry};
use crate::error::LodWebGpuError;
use crate::float_bits::{lemma_pow2_monotone, lemma_pow2_small, pow2};
use crate::overlay::{entry_range, members_before};
use crate::visibility::{index_width, IndexFormat};
use crate::pose::{publishes_dynamic, publishes_preparation, PoseUploadPolicy};
use crate::frame_table::{
    classification_outcome, recorded_counters, FrameTablePublication, LodStateMemoDiagnostics,
    RetainedLodDispatchState,
};

verus! {

/// Front-face winding of a batch's triangles.
#[derive(Clone, Copy, Debug, PartialEq, Eq, Structural)]
pub enum PatchWinding {
    CounterClockwise,
    Clockwise,
}

/// A batch is drawn clockwise exactly when its transform's orientation sign
/// and the sign of its canonical key's vertex permutation (even for parity
/// bucket zero, odd otherwise) have a negative product.
pub open spec fn winding_spec(orientation_sign: i32, parity_bucket: u32) -> PatchWinding {
    let permutation_sign: int = if parity_bucket == 0 {
        1
    } else {
        -1
    };
    if orientation_sign * permutation_sign < 0 {
        PatchWinding::Clockwise
    } else {
        PatchWinding::CounterClockwise
    }
}

/// A batch with positive orientation in the even parity bucket winds
/// counter-clockwise; reversing its orientation, or moving it to the odd
/// bucket, reverses its winding, and a zero orientation never winds
/// clockwise.
pub proof fn lemma_winding_follows_orientation_and_parity(orientation_sign: i32, parity_bucket: u32)
    ensures
        orientation_sign > 0 && parity_bucket == 0 ==> winding_spec(orientation_sign, parity_bucket)
            == PatchWinding::CounterClockwise,
        orientation_sign < 0 && parity_bucket == 0 ==> winding_spec(orientation_sign, parity_bucket)
            == PatchWinding::Clockwise,
        orientation_sign != 0 && orientation_sign != i32::MIN ==> winding_spec(
            -orientation_sign as i32,
            parity_bucket,
        ) != winding_spec(orientation_sign, parity_bucket),
        orientation_sign != 0 && parity_bucket != 0 ==> winding_spec(orientation_sign, 0)
            != winding_spec(orientation_sign, parity_bucket),
        orientation_sign == 0 ==> winding_spec(orientation_sign, parity_bucket)
            == PatchWinding::CounterClockwise,
{
    assert(orientation_sign * 1int == orientation_sign);
    assert(orientation_sign * (-1int) == -orientation_sign);
    if orientation_sign != i32::MIN {
        let flipped = -orientation_sign as i32;
        assert(flipped == -orientation_sign);
        assert(flipped * 1int == -orientation_sign);
        assert(flipped * (-1int) == orientation_sign);
    }
}

/// The winding of one batch.
pub fn patch_winding(orientation_sign: i32, parity_bucket: u32) -> (w: PatchWinding)
    ensures
        w == winding_spec(orientation_sign, parity_bucket),
{
    let negative = if parity_bucket == 0 {
        orientation_sign < 0
    } else {
        orientation_sign > 0
    };
    proof {
        if parity_bucket == 0 {
            assert(orientation_sign * 1int == orientation_sign);
        } else {
            assert(orientation_sign * (-1int) == -orientation_sign);
        }
    }
    if negative {
        PatchWinding::Clockwise
    } else {
        PatchWinding::CounterClockwise
    }
}

/// Shape of the compact face-visibility bitset of a scene.
#[derive(Clone, Copy, Debug, PartialEq, Eq)]
pub struct FaceVisibilityLayout {
    pub face_count: u32,
    /// One bit per face, in 32-bit words.
    pub word_count: u32,
    /// The expansion uniform: patch count, face count, word count, zero.
    pub uniform: [u32; 4],
    /// Bytes of the bitset buffer (at least one word).
    pub bit_bytes: u64,
}

/// Layout of the face-visibility bitset of a scene with `face_count` faces
/// and `patch_count` prepared patches; a face count beyond `u32` is a payload
/// error.
pub fn face_visibility_layout(face_count: usize, patch_count: u32) -> (r: Result<
    FaceVisibilityLayout,
    LodWebGpuError,
>)
    ensures
        r is Ok <==> face_count <= u32::MAX,
        r matches Err(e) ==> e is Payload,
        r matches Ok(layout) ==> {
            let words = (face_count + 31) / 32;
            &&& layout.face_count == face_count
            &&& layout.word_count == words
            &&& layout.uniform@ == seq![patch_count, face_count as u32, words as u32, 0u32]
            &&& layout.bit_bytes == if words == 0 {
                4
            } else {
                words * 4
            }
        },
{
    if face_count > u32::MAX as usize {
        return Err(LodWebGpuError::payload("face visibility count exceeds u32"));
    }
    let faces = face_count as u32;
    let word_count = faces / 32 + if faces % 32 == 0 {
        0
    } else {
        1
    };
    let bytes = word_count as u64 * 4;
    let bit_bytes = if bytes < 4 {
        4
    } else {
        bytes
    };
    let uniform = [patch_count, faces, word_count, 0];
    assert(uniform@ =~= seq![patch_count, face_count as u32, ((face_count + 31) / 32) as u32, 0u32]);
    Ok(FaceVisibilityLayout { face_count: faces, word_count, uniform, bit_bytes })
}

/// A bitset holds exactly `word_count` words and no bit at or above
/// `face_count` is set in its last word.
pub open spec fn face_bits_valid(face_count: u32, word_count: u32, words: Seq<u32>) -> bool {
    &&& words.len() == word_count
    &&& face_count % 32 != 0 && words.len() > 0 ==> words.last() >> (face_count % 32) == 0
}

/// Validate a face-visibility bitset before upload: its length must match the
/// scene and its padding bits must be clear.
pub fn validate_face_visibility_bits(face_count: u32, word_count: u32, words: &[u32]) -> (r: Result<
    (),
    LodWebGpuError,
>)
    ensures
        r is Ok <==> face_bits_valid(face_count, word_count, words@),
        r matches Err(e) ==> e is Payload,
{
    if words.len() != word_count as usize {
        return Err(LodWebGpuError::payload("face visibility bitset has the wrong word count"));
    }
    let tail_bits = face_count % 32;
    if tail_bits != 0 && words.len() > 0 {
        let last = words[words.len() - 1];
        assert(1u32 << tail_bits >= 1) by (bit_vector)
            requires
                0 < tail_bits < 32,
        ;
        let mask: u32 = (1u32 << tail_bits) - 1;
        assert(last & !mask == 0 <==> last >> tail_bits == 0) by (bit_vector)
            requires
                0 < tail_bits < 32,
                mask == ((1u32 << tail_bits) - 1) as u32,
        ;
        if last & !mask != 0 {
            return Err(LodWebGpuError::payload("face visibility bitset has nonzero padding"));
        }
    }
    Ok(())
}

/// Which pose buffers a frame writes: the shared dynamic pose and the
/// preparation-local joint count.
#[derive(Clone, Copy, Debug, PartialEq, Eq, Structural)]
pub struct PoseWrites {
    pub dynamic_pose: bool,
    pub joint_count: bool,
}

/// Decide the pose writes for a scene: the scene must belong to the model,
/// and the policy then selects the buffers.
pub fn patch_render_pose_writes(
    model_identity: u64,
    scene_model_identity: u64,
    policy: PoseUploadPolicy,
) -> (r: Result<PoseWrites, LodWebGpuError>)
    ensures
        r is Ok <==> model_identity == scene_model_identity,
        r matches Err(e) ==> e is Payload,
        r matches Ok(w) ==> w.dynamic_pose == publishes_dynamic(policy) && w.joint_count
            == publishes_preparation(policy),
{
    if model_identity != scene_model_identity {
        return Err(
            LodWebGpuError::payload("patch render scene belongs to a different WebGPU model"),
        );
    }
    Ok(
        PoseWrites {
            dynamic_pose: policy.should_publish_dynamic(),
            joint_count: policy.should_publish_preparation(),
        },
    )
}

/// `a + b`, or `u32::MAX` where it does not fit.
pub open spec fn saturating_sum(a: u32, b: u32) -> u32 {
    if a + b > u32::MAX {
        u32::MAX
    } else {
        (a + b) as u32
    }
}

/// Draws and source instances of one overlay encoding.
#[derive(Clone, Copy, Debug, PartialEq, Eq, Structural)]
pub struct AdaptiveOverlayFrameEncoding {
    pub indirect_draw_calls: u32,
    pub source_patch_count: u32,
}

/// Draws and source faces of the resident-root part of a frame.
#[derive(Clone, Copy, Debug, PartialEq, Eq, Structural)]
pub struct ResidentRootFrameEncoding {
    pub indirect_draw_calls: u32,
    pub source_face_count: u32,
}

/// The two layers of a resident adaptive frame: the retained roots and the
/// sparse overlay, when there is one.
#[derive(Clone, Copy, Debug, PartialEq, Eq, Structural)]
pub struct ResidentAdaptiveFrameEncoding {
    pub roots: ResidentRootFrameEncoding,
    pub overlay: Option<AdaptiveOverlayFrameEncoding>,
}

/// CPU-visible facts about encoding one frame: its indirect draws and the
/// source instances it drew from.
#[derive(Clone, Copy, Debug, PartialEq, Eq, Structural)]
pub struct PatchFrameEncoding {
    pub indirect_draw_calls: u32,
    pub source_instance_count: u32,
}

/// Frame evidence of a resident adaptive frame: root draws and faces plus the
/// overlay's draws and patches (none without an overlay), saturating.
pub fn resident_adaptive_frame_evidence(encoding: ResidentAdaptiveFrameEncoding) -> (r:
    PatchFrameEncoding)
    ensures
        r.indirect_draw_calls == saturating_sum(
            encoding.roots.indirect_draw_calls,
            match encoding.overlay {
                Some(o) => o.indirect_draw_calls,
                None => 0,
            },
        ),
        r.source_instance_count == saturating_sum(
            encoding.roots.source_face_count,
            match encoding.overlay {
                Some(o) => o.source_patch_count,
                None => 0,
            },
        ),
{
    let (draws, patches) = match encoding.overlay {
        Some(o) => (o.indirect_draw_calls, o.source_patch_count),
        None => (0, 0),
    };
    PatchFrameEncoding {
        indirect_draw_calls: encoding.roots.indirect_draw_calls.saturating_add(draws),
        source_instance_count: encoding.roots.source_face_count.saturating_add(patches),
    }
}

/// `a * b`, or `usize::MAX` where it does not fit.
pub open spec fn saturating_product(a: usize, b: usize) -> usize {
    if a * b > usize::MAX {
        usize::MAX
    } else {
        (a * b) as usize
    }
}

/// Number of joint-matrix floats of a dynamic pose written to the device:
/// the pose must hold sixteen floats per dispatched joint (a saturating
/// product) and one weight per morph target; only the joints that fit the
/// model's joint capacity are written.
pub fn dynamic_pose_joint_floats(
    joint_matrix_floats: usize,
    morph_weights: usize,
    num_joints: u32,
    num_morph_targets: usize,
    joint_capacity: usize,
) -> (r: Result<usize, LodWebGpuError>)
    requires
        joint_capacity * 16 <= usize::MAX,
    ensures
        r is Ok <==> joint_matrix_floats == saturating_product(num_joints as usize, 16)
            && morph_weights == num_morph_targets,
        r matches Err(e) ==> e is Payload,
        r matches Ok(n) ==> n == 16 * (if num_joints < joint_capacity {
            num_joints as int
        } else {
            joint_capacity as int
        }),
{
    let joints = num_joints as usize;
    let expected = match joints.checked_mul(16) {
        Some(n) => n,
        None => usize::MAX,
    };
    if joint_matrix_floats != expected {
        return Err(LodWebGpuError::payload("joint pose does not match the dispatch joint count"));
    }
    if morph_weights != num_morph_targets {
        return Err(LodWebGpuError::payload("morph weights do not match immutable targets"));
    }
    let resident = if joints < joint_capacity {
        joints
    } else {
        joint_capacity
    };
    Ok(resident * 16)
}

/// A render pass of a frame's command plan.
#[derive(Clone, Copy, Debug, PartialEq, Eq, Structural)]
pub enum RenderPass {
    PbrOpaque,
    Matcap,
    Wire,
    Normals,
    Lod,
    Stretch,
    PbrTransparent,
}

/// The diagnostic pipelines retained for single-pass style frames.
#[derive(Clone, Copy, Debug, PartialEq, Eq, Structural)]
pub enum DiagnosticPipeline {
    Pbr,
    Matcap,
    Wire,
    Normals,
    Lod,
    Stretch,
}

/// Primitive geometry each retained diagnostic pipeline draws.
#[derive(Clone, Copy, Debug, PartialEq, Eq, Structural)]
pub struct DiagnosticPipelineGeometries {
    pub pbr: crate::atlas::RenderGeometry,
    pub matcap: crate::atlas::RenderGeometry,
    pub wire: crate::atlas::RenderGeometry,
    pub normals: crate::atlas::RenderGeometry,
    pub lod: crate::atlas::RenderGeometry,
    pub stretch: crate::atlas::RenderGeometry,
}

/// The pipeline serving a pass (none for transparent PBR).
pub open spec fn pipeline_for_pass(pass: RenderPass) -> Option<DiagnosticPipeline> {
    match pass {
        RenderPass::PbrOpaque => Some(DiagnosticPipeline::Pbr),
        RenderPass::Matcap => Some(DiagnosticPipeline::Matcap),
        RenderPass::Wire => Some(DiagnosticPipeline::Wire),
        RenderPass::Normals => Some(DiagnosticPipeline::Normals),
        RenderPass::Lod => Some(DiagnosticPipeline::Lod),
        RenderPass::Stretch => Some(DiagnosticPipeline::Stretch),
        RenderPass::PbrTransparent => None,
    }
}

/// The geometry a retained pipeline draws.
pub open spec fn pipeline_geometry(
    geometries: DiagnosticPipelineGeometries,
    pipeline: DiagnosticPipeline,
) -> crate::atlas::RenderGeometry {
    match pipeline {
        DiagnosticPipeline::Pbr => geometries.pbr,
        DiagnosticPipeline::Matcap => geometries.matcap,
        DiagnosticPipeline::Wire => geometries.wire,
        DiagnosticPipeline::Normals => geometries.normals,
        DiagnosticPipeline::Lod => geometries.lod,
        DiagnosticPipeline::Stretch => geometries.stretch,
    }
}

/// A drawn pass and a pipeline of the same style: each opaque style pass is
/// served by the pipeline of that style and by no other.
pub open spec fn pass_served_by_its_style(pass: RenderPass, pipeline: DiagnosticPipeline) -> bool {
    &&& (pass == RenderPass::PbrOpaque <==> pipeline == DiagnosticPipeline::Pbr)
    &&& (pass == RenderPass::Matcap <==> pipeline == DiagnosticPipeline::Matcap)
    &&& (pass == RenderPass::Wire <==> pipeline == DiagnosticPipeline::Wire)
    &&& (pass == RenderPass::Normals <==> pipeline == DiagnosticPipeline::Normals)
    &&& (pass == RenderPass::Lod <==> pipeline == DiagnosticPipeline::Lod)
    &&& (pass == RenderPass::Stretch <==> pipeline == DiagnosticPipeline::Stretch)
}

/// Every pass but transparent PBR is drawn, each by the retained pipeline of
/// its own style (so no two passes share a pipeline), and that pipeline
/// draws the geometry retained for the style.
pub proof fn lemma_each_pass_draws_with_its_own_style(
    pass: RenderPass,
    g: DiagnosticPipelineGeometries,
)
    ensures
        pipeline_for_pass(pass) is None <==> pass == RenderPass::PbrTransparent,
        pipeline_for_pass(pass) matches Some(p) ==> pass_served_by_its_style(pass, p),
        pipeline_for_pass(pass) matches Some(p) ==> pipeline_geometry(g, p) == match pass {
                RenderPass::PbrOpaque => g.pbr,
                RenderPass::Matcap => g.matcap,
                RenderPass::Wire => g.wire,
                RenderPass::Normals => g.normals,
                RenderPass::Lod => g.lod,
                RenderPass::Stretch => g.stretch,
                RenderPass::PbrTransparent => g.pbr,
            },
{
}

/// Select the retained pipeline for one planned draw: transparent PBR has no
/// pipeline, and the pipeline must draw the command's geometry; either
/// failure is a payload error.
pub fn diagnostic_pipeline_for_pass(
    pass: RenderPass,
    geometry: crate::atlas::RenderGeometry,
    geometries: DiagnosticPipelineGeometries,
) -> (r: Result<DiagnosticPipeline, LodWebGpuError>)
    ensures
        r is Ok <==> (pipeline_for_pass(pass) matches Some(p) && pipeline_geometry(geometries, p)
            == geometry),
        r matches Ok(p) ==> pipeline_for_pass(pass) == Some(p),
        r matches Err(e) ==> e is Payload,
        pass == RenderPass::PbrTransparent ==> r is Err,
        r matches Ok(p) ==> pass_served_by_its_style(pass, p),
        r matches Ok(p) ==> geometry == match pass {
            RenderPass::PbrOpaque => geometries.pbr,
            RenderPass::Matcap => geometries.matcap,
            RenderPass::Wire => geometries.wire,
            RenderPass::Normals => geometries.normals,
            RenderPass::Lod => geometries.lod,
            RenderPass::Stretch => geometries.stretch,
            RenderPass::PbrTransparent => geometry,
        },
{
    proof {
        lemma_each_pass_draws_with_its_own_style(pass, geometries);
    }
    let (pipeline, drawn) = match pass {
        RenderPass::PbrOpaque => (DiagnosticPipeline::Pbr, geometries.pbr),
        RenderPass::Matcap => (DiagnosticPipeline::Matcap, geometries.matcap),
        RenderPass::Wire => (DiagnosticPipeline::Wire, geometries.wire),
        RenderPass::Normals => (DiagnosticPipeline::Normals, geometries.normals),
        RenderPass::Lod => (DiagnosticPipeline::Lod, geometries.lod),
        RenderPass::Stretch => (DiagnosticPipeline::Stretch, geometries.stretch),
        RenderPass::PbrTransparent => {
            return Err(
                LodWebGpuError::payload("WebGPU patch renderer does not yet support non-opaque PBR"),
            );
        },
    };
    if drawn != geometry {
        return Err(LodWebGpuError::payload("WebGPU pipeline geometry differs from the command"));
    }
    Ok(pipeline)
}

/// What the retained device resources of a scene hold, to be checked against
/// the scene a frame draws.
#[derive(Clone, Copy, Debug, PartialEq, Eq, Structural)]
pub struct RenderResidency {
    /// Prepared patch records.
    pub patch_count: u32,
    /// Source instances and batches of the visibility compaction scene.
    pub visibility_source_count: u32,
    pub visibility_batch_count: u32,
    /// Rows of the render-domain table.
    pub domain_count: u32,
    /// Rows of the authored material table.
    pub material_count: u32,
    /// Materials of the resident material texture bindings, if any.
    pub material_texture_count: Option<u32>,
}

/// Batches and source instances of a scene a frame draws.
#[derive(Clone, Copy, Debug, PartialEq, Eq, Structural)]
pub struct RenderSceneCounts {
    pub batch_count: u32,
    pub source_instance_count: u32,
}

/// The retained resources serve a scene of `batches` batches and `instances`
/// source instances with `materials` authored materials: one patch record
/// and one visibility source per instance, one visibility batch and one
/// domain row per batch, a material row per material (one default row for
/// none), and for a PBR frame material texture bindings of every row.
pub open spec fn render_residency_matches(
    residency: RenderResidency,
    batches: int,
    instances: int,
    materials: usize,
    pbr_style: bool,
) -> bool {
    &&& residency.patch_count == instances
    &&& residency.visibility_source_count == instances
    &&& residency.visibility_batch_count == batches
    &&& residency.domain_count == batches
    &&& residency.material_count == (if materials == 0 {
        1
    } else {
        materials as int
    })
    &&& pbr_style ==> residency.material_texture_count == Some(residency.material_count)
}

/// Check the retained resources against the scene of a frame: the scene is
/// nonempty, its batch and instance counts fit `u32`, and the resources
/// match it; returns the counts.
pub fn validate_render_residency(
    member_counts: &[usize],
    scene_material_count: usize,
    pbr_style: bool,
    residency: RenderResidency,
) -> (r: Result<RenderSceneCounts, LodWebGpuError>)
    ensures
        r is Ok <==> {
            &&& member_counts@.len() > 0
            &&& member_counts@.len() <= u32::MAX
            &&& members_before(member_counts@, member_counts@.len() as int) <= u32::MAX
            &&& render_residency_matches(
                residency,
                member_counts@.len() as int,
                members_before(member_counts@, member_counts@.len() as int) as int,
                scene_material_count,
                pbr_style,
            )
        },
        r matches Ok(counts) ==> {
            &&& counts.batch_count == member_counts@.len()
            &&& counts.source_instance_count == members_before(
                member_counts@,
                member_counts@.len() as int,
            )
        },
        r matches Err(e) ==> e is Payload,
{
    if member_counts.len() == 0 {
        return Err(LodWebGpuError::payload("WebGPU patch renderer requires a nonempty retained scene"));
    }
    if member_counts.len() > u32::MAX as usize {
        return Err(LodWebGpuError::payload("render scene batch count exceeds u32"));
    }
    let batch_count = member_counts.len() as u32;
    let mut total: u32 = 0;
    let mut i: usize = 0;
    while i < member_counts.len()
        invariant
            i <= member_counts@.len(),
            total == members_before(member_counts@, i as int),
        decreases member_counts@.len() - i,
    {
        let count = member_counts[i];
        if count > u32::MAX as usize {
            proof {
                crate::overlay::lemma_members_before_monotone(
                    member_counts@,
                    i + 1,
                    member_counts@.len() as int,
                );
            }
            return Err(LodWebGpuError::payload("render batch instance count exceeds u32"));
        }
        match total.checked_add(count as u32) {
            Some(next) => {
                total = next;
            },
            None => {
                proof {
                    crate::overlay::lemma_members_before_monotone(
                        member_counts@,
                        i + 1,
                        member_counts@.len() as int,
                    );
                }
                return Err(LodWebGpuError::payload("render scene instance count exceeds u32"));
            },
        }
        i = i + 1;
    }
    let materials: u32 = if scene_material_count == 0 {
        1
    } else if scene_material_count > u32::MAX as usize {
        return Err(LodWebGpuError::payload("WebGPU render residency does not match scene"));
    } else {
        scene_material_count as u32
    };
    let textures_match = match residency.material_texture_count {
        Some(n) => n == residency.material_count,
        None => false,
    };
    if residency.patch_count != total || residency.visibility_source_count != total
        || residency.visibility_batch_count != batch_count || residency.domain_count != batch_count
        || residency.material_count != materials || (pbr_style && !textures_match) {
        return Err(LodWebGpuError::payload("WebGPU render residency does not match scene"));
    }
    Ok(RenderSceneCounts { batch_count, source_instance_count: total })
}

/// A draw command can be encoded from the packed atlas: the pipeline draws
/// the command's geometry, the atlas holds the key with exactly the command's
/// index count, and the packed range lies inside the index buffer.
pub open spec fn draw_command_valid(
    entries: Map<(u32, u32, u32), crate::atlas::PackedPatchAtlasEntry>,
    key: [u32; 3],
    geometry: RenderGeometry,
    pipeline_geometry: RenderGeometry,
    index_count: u32,
    format: IndexFormat,
    index_buffer_bytes: u64,
) -> bool {
    let k = (key[0], key[1], key[2]);
    &&& pipeline_geometry == geometry
    &&& entries.contains_key(k)
    &&& entry_range(entries[k], geometry).1 == index_count
    &&& (entry_range(entries[k], geometry).0 + index_count) * index_width(format)
        <= index_buffer_bytes
}

/// Check one draw command of a frame against its pipeline and the packed
/// atlas, returning the first index and index count it draws.
pub fn validate_draw_command(
    atlas: &PackedPatchAtlas,
    key: [u32; 3],
    geometry: RenderGeometry,
    pipeline_geometry: RenderGeometry,
    index_count: u32,
    format: IndexFormat,
    index_buffer_bytes: u64,
) -> (r: Result<(u32, u32), LodWebGpuError>)
    ensures
        r is Ok <==> draw_command_valid(
            atlas.entries_view(),
            key,
            geometry,
            pipeline_geometry,
            index_count,
            format,
            index_buffer_bytes,
        ),
        r matches Ok(range) ==> range == entry_range(
            atlas.entries_view()[(key[0], key[1], key[2])],
            geometry,
        ),
        r matches Err(e) ==> e is Payload,
{
    if pipeline_geometry != geometry {
        return Err(LodWebGpuError::payload("WebGPU pipeline geometry differs from the frame"));
    }
    let range = match atlas.draw(key, geometry) {
        Some(range) => range,
        None => {
            return Err(LodWebGpuError::payload("packed WebGPU atlas is missing a batch key"));
        },
    };
    if range.1 != index_count {
        return Err(
            LodWebGpuError::payload("WebGPU atlas batch index count differs from the scene"),
        );
    }
    let width: u64 = match format {
        IndexFormat::Uint16 => 2,
        IndexFormat::Uint32 => 4,
    };
    let first_byte = range.0 as u64 * width;
    let required = first_byte + range.1 as u64 * width;
    proof {
        assert((range.0 + range.1) * width == range.0 * width + range.1 * width) by (nonlinear_arith);
    }
    if index_buffer_bytes < required {
        return Err(
            LodWebGpuError::payload("WebGPU atlas batch range ends past its index buffer"),
        );
    }
    Ok(range)
}

/// A multisample count is a power of two that fits `u32`.
pub open spec fn sample_count_valid(sample_count: u32) -> bool {
    exists|k: nat| k < 32 && sample_count == pow2(k)
}

/// Check the multisample count of a patch render pipeline family.
pub fn validate_patch_sample_count(sample_count: u32) -> (r: Result<(), LodWebGpuError>)
    ensures
        r is Ok <==> sample_count_valid(sample_count),
        r matches Err(e) ==> e is Payload,
{
    let mut power: u64 = 1;
    let mut k: u32 = 0;
    while k < 32
        invariant
            k <= 32,
            power == pow2(k as nat),
            forall|j: nat| j < k ==> pow2(j) != sample_count,
        decreases 32 - k,
    {
        if power == sample_count as u64 {
            return Ok(());
        }
        proof {
            lemma_pow2_small();
            lemma_pow2_monotone(k as nat, 32);
        }
        power = power * 2;
        k = k + 1;
    }
    Err(LodWebGpuError::payload("patch render sample count must be a nonzero power of two"))
}

/// Sizes of the pose a classification is dispatched with.
#[derive(Clone, Copy, Debug, PartialEq, Eq, Structural)]
pub struct DispatchPose {
    pub joint_matrix_floats: usize,
    pub morph_weights: usize,
    pub num_joints: u32,
}

/// What one classification state write does: how many joint-matrix floats
/// of the dynamic pose are written (none when the policy does not publish
/// it), and the publications of the dispatch uniform and subject table.
#[derive(Clone, Copy, Debug, PartialEq, Eq, Structural)]
pub struct LodClassificationWrites {
    pub joint_floats: Option<usize>,
    pub uniform: FrameTablePublication,
    pub subjects: FrameTablePublication,
}

/// The counters of a classifier-state memo record.
pub open spec fn lod_memo_counters(d: LodStateMemoDiagnostics) -> (u64, u64, u64) {
    (d.uploads, d.reuses, d.upload_bytes)
}

/// A dynamic pose fits a dispatch: sixteen floats per dispatched joint (a
/// saturating product) and one weight per morph target.
pub open spec fn dispatch_pose_fits(pose: DispatchPose, num_morph_targets: usize) -> bool {
    &&& pose.joint_matrix_floats == saturating_product(pose.num_joints as usize, 16)
    &&& pose.morph_weights == num_morph_targets
}

/// Write one classification's state: when the policy publishes the dynamic
/// pose, its sizes must fit the dispatch (else a payload error before
/// anything is staged or recorded); then the dispatch uniform and subject
/// rows are staged, and both publications recorded in `diagnostics`.
pub fn stage_lod_classification_state(
    state: &mut RetainedLodDispatchState,
    pose_upload: PoseUploadPolicy,
    pose: DispatchPose,
    num_morph_targets: usize,
    joint_capacity: usize,
    uniform_words: [u32; 68],
    subject_rows: Vec<[u32; 40]>,
    expected_rows: usize,
    diagnostics: &mut LodStateMemoDiagnostics,
) -> (r: Result<LodClassificationWrites, LodWebGpuError>)
    requires
        old(state).wf(),
        subject_rows@.len() * 160 <= usize::MAX,
        joint_capacity * 16 <= usize::MAX,
    ensures
        final(state).wf(),
        r is Ok <==> (publishes_dynamic(pose_upload) ==> dispatch_pose_fits(pose, num_morph_targets))
            && subject_rows@.len() == expected_rows,
        r matches Err(e) ==> {
            &&& e is Payload
            &&& *final(diagnostics) == *old(diagnostics)
            &&& final(state).uniform_view() == old(state).uniform_view()
            &&& final(state).subjects_view() == old(state).subjects_view()
            &&& final(state).uniform_published_view() == old(state).uniform_published_view()
            &&& final(state).subjects_published_view() == old(state).subjects_published_view()
        },
        r matches Ok(w) ==> {
            &&& w.joint_floats == if publishes_dynamic(pose_upload) {
                Some(
                    (16 * (if pose.num_joints < joint_capacity {
                        pose.num_joints as int
                    } else {
                        joint_capacity as int
                    })) as usize,
                )
            } else {
                None
            }
            &&& (w.uniform, w.subjects) == classification_outcome(
                *old(state),
                uniform_words@,
                subject_rows@,
            )
            &&& final(state).uniform_view() == uniform_words@
            &&& final(state).subjects_view() == subject_rows@
            &&& final(state).uniform_published_view()
            &&& final(state).subjects_published_view()
            &&& lod_memo_counters(*final(diagnostics)) == recorded_counters(
                recorded_counters(lod_memo_counters(*old(diagnostics)), w.uniform),
                w.subjects,
            )
        },
{
    let joint_floats = if pose_upload.should_publish_dynamic() {
        Some(
            dynamic_pose_joint_floats(
                pose.joint_matrix_floats,
                pose.morph_weights,
                pose.num_joints,
                num_morph_targets,
                joint_capacity,
            )?,
        )
    } else {
        None
    };
    let (uniform, subjects) = state.stage_classification(
        uniform_words,
        subject_rows,
        expected_rows,
        diagnostics,
    )?;
    Ok(LodClassificationWrites { joint_floats, uniform, subjects })
}

} // verus!
