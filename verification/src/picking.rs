//! One-pixel patch picking: request validation, the viewport uniform, and
//! decoding of the two staged readback texels.
//!
//! The pick pass renders one viewport pixel into two 1x1 attachments; both
//! texels are copied into one readback buffer, each at the start of its own
//! row-aligned block. Identity words encode `source_face + 1` and
//! `packed_node + 1`, with zero as the cleared (no-hit) sentinel.

use vstd::prelude::*;
use crate::error::LodWebGpuError;
use crate::float_bits::{f32_bits_of_u32, u32_to_f32_bits};
use crate::layout::{copy_bytes_per_row_alignment, native_u32};
use crate::atlas::PackedPatchAtlas;
use crate::render_words::f32_bits_finite;
use crate::overlay::{overlay_matches_scene, overlay_scene_current, same_words, AdaptiveOverlayEpoch};

verus! {

/// Bytes of the pick viewport uniform.
pub const PICK_UNIFORM_BYTES: u64 = 16;
/// Offset of the surface-and-distance texel in the readback buffer (one
/// row-aligned block after the identity texel).
pub const PICK_SURFACE_OFFSET: u64 = 256;
/// Bytes of the pick readback buffer: two row-aligned blocks.
pub const PICK_READBACK_BYTES: u64 = 512;
/// Bytes of one indexed indirect draw record.
pub const INDEXED_INDIRECT_RECORD_BYTES: u64 = 20;

/// One query against the exact viewport used to populate the current retained
/// frame tables. The epoch is not interpreted by the renderer; it travels with
/// the asynchronous sample so application authority can reject stale joins.
#[derive(Clone, Copy, Debug, PartialEq, Eq)]
pub struct PatchPickRequest {
    pub viewport: [u32; 2],
    pub pixel: [u32; 2],
    pub target_epoch: u32,
}

/// CPU-visible facts about one encoded query.
#[derive(Clone, Copy, Debug, PartialEq, Eq)]
pub struct PatchPickEncoding {
    pub indirect_draw_calls: u32,
    pub request: PatchPickRequest,
}

/// The exact words of one decoded hit. Floating-point payloads stay in their
/// binary32 bit patterns: the first two barycentric coordinates, and the
/// surface position followed by the output distance.
#[derive(Clone, Copy, Debug, PartialEq, Eq)]
pub struct PatchPickHit {
    pub target_epoch: u32,
    pub packed_node: u32,
    pub source_face: u32,
    pub barycentric_bits: [u32; 2],
    pub surface_bits: [u32; 4],
}

/// A request is valid when the viewport is nonempty and the pixel lies
/// inside it.
pub open spec fn pick_request_valid(viewport: [u32; 2], pixel: [u32; 2]) -> bool {
    &&& viewport[0] != 0
    &&& viewport[1] != 0
    &&& pixel[0] < viewport[0]
    &&& pixel[1] < viewport[1]
}

impl PatchPickRequest {
    /// Build a request, rejecting an empty viewport or an outside pixel.
    pub fn new(viewport: [u32; 2], pixel: [u32; 2], target_epoch: u32) -> (r: Result<
        Self,
        LodWebGpuError,
    >)
        ensures
            r is Ok <==> pick_request_valid(viewport, pixel),
            r matches Ok(request) ==> request == (PatchPickRequest {
                viewport,
                pixel,
                target_epoch,
            }),
            r matches Err(e) ==> e is Payload,
    {
        let request = PatchPickRequest { viewport, pixel, target_epoch };
        request.validate()?;
        Ok(request)
    }

    /// Check the request's viewport and pixel.
    pub fn validate(self) -> (r: Result<(), LodWebGpuError>)
        ensures
            r is Ok <==> pick_request_valid(self.viewport, self.pixel),
            r matches Err(e) ==> e is Payload,
    {
        if self.viewport[0] == 0 || self.viewport[1] == 0 {
            return Err(LodWebGpuError::payload("patch pick viewport dimensions must be nonzero"));
        }
        if self.pixel[0] >= self.viewport[0] || self.pixel[1] >= self.viewport[1] {
            return Err(LodWebGpuError::payload("patch pick pixel lies outside the viewport"));
        }
        Ok(())
    }

    /// The viewport uniform: viewport width and height, then pixel x and y,
    /// each as the bit pattern of the value converted to `f32`.
    pub fn uniform_words(self) -> (words: [u32; 4])
        ensures
            words@ == seq![
                f32_bits_of_u32(self.viewport[0]),
                f32_bits_of_u32(self.viewport[1]),
                f32_bits_of_u32(self.pixel[0]),
                f32_bits_of_u32(self.pixel[1]),
            ],
    {
        let words = [
            u32_to_f32_bits(self.viewport[0]),
            u32_to_f32_bits(self.viewport[1]),
            u32_to_f32_bits(self.pixel[0]),
            u32_to_f32_bits(self.pixel[1]),
        ];
        assert(words@ =~= seq![
            f32_bits_of_u32(self.viewport[0]),
            f32_bits_of_u32(self.viewport[1]),
            f32_bits_of_u32(self.pixel[0]),
            f32_bits_of_u32(self.pixel[1]),
        ]);
        words
    }
}

/// The hit a well-formed identity texel names: both identities shifted back
/// by one, stamped with the request's epoch.
pub open spec fn identity_hit(identity: Seq<u32>, surface: Seq<u32>, target_epoch: u32) -> PatchPickHit {
    PatchPickHit {
        target_epoch,
        packed_node: (identity[1] - 1) as u32,
        source_face: (identity[0] - 1) as u32,
        barycentric_bits: [identity[2], identity[3]],
        surface_bits: [surface[0], surface[1], surface[2], surface[3]],
    }
}

/// Outcome of decoding the identity and surface texels of one pick: `None`
/// (an error) for a malformed identity or a hit whose stored values are not
/// finite, whose distance is negative, or whose stored barycentric lies below
/// tolerance; `Some(None)` for the cleared sentinel; otherwise the hit.
pub open spec fn pick_words_outcome(identity: Seq<u32>, surface: Seq<u32>, target_epoch: u32) -> Option<
    Option<PatchPickHit>,
> {
    if identity[0] == 0 {
        if identity[1] != 0 {
            None
        } else {
            Some(None)
        }
    } else if identity[1] == 0 {
        None
    } else if pick_hit_bits_valid(identity_hit(identity, surface, target_epoch)) {
        Some(Some(identity_hit(identity, surface, target_epoch)))
    } else {
        None
    }
}

/// Decode the identity texel (face + 1, node + 1, two barycentric
/// coordinates) and the surface texel (position and distance) of one pick,
/// and check the stored values of a hit.
pub fn decode_patch_pick_words(identity: [u32; 4], surface: [u32; 4], request: PatchPickRequest) -> (r:
    Result<Option<PatchPickHit>, LodWebGpuError>)
    ensures
        match pick_words_outcome(identity@, surface@, request.target_epoch) {
            Some(outcome) => r == Ok::<Option<PatchPickHit>, LodWebGpuError>(outcome),
            None => r matches Err(e) && e is Mapping,
        },
{
    if identity[0] == 0 {
        if identity[1] != 0 {
            return Err(LodWebGpuError::mapping("patch pick no-hit sentinel contains a node"));
        }
        return Ok(None);
    }
    if identity[1] == 0 {
        return Err(LodWebGpuError::mapping("patch pick hit contains no semantic node"));
    }
    let hit = PatchPickHit {
        target_epoch: request.target_epoch,
        packed_node: identity[1] - 1,
        source_face: identity[0] - 1,
        barycentric_bits: [identity[2], identity[3]],
        surface_bits: [surface[0], surface[1], surface[2], surface[3]],
    };
    assert(hit == identity_hit(identity@, surface@, request.target_epoch));
    validate_pick_hit_bits(hit)?;
    Ok(Some(hit))
}

/// The four native-endian words stored in `bytes[offset..offset + 16]`.
pub open spec fn native_words4(bytes: Seq<u8>, offset: int) -> Seq<u32> {
    seq![
        native_u32(bytes.subrange(offset, offset + 4)),
        native_u32(bytes.subrange(offset + 4, offset + 8)),
        native_u32(bytes.subrange(offset + 8, offset + 12)),
        native_u32(bytes.subrange(offset + 12, offset + 16)),
    ]
}

/// Decode a mapped pick readback: too short a mapping is an error; otherwise
/// the identity texel at offset zero and the surface texel one row-aligned
/// block later are decoded as native-endian words.
pub fn decode_patch_pick_bytes(bytes: &[u8], request: PatchPickRequest) -> (r: Result<
    Option<PatchPickHit>,
    LodWebGpuError,
>)
    ensures
        bytes@.len() < PICK_READBACK_BYTES ==> (r matches Err(e) && e is Mapping),
        bytes@.len() >= PICK_READBACK_BYTES ==> match pick_words_outcome(
            native_words4(bytes@, 0),
            native_words4(bytes@, PICK_SURFACE_OFFSET as int),
            request.target_epoch,
        ) {
            Some(outcome) => r == Ok::<Option<PatchPickHit>, LodWebGpuError>(outcome),
            None => r matches Err(e) && e is Mapping,
        },
{
    if bytes.len() < 512 {
        return Err(LodWebGpuError::mapping("patch pick readback is shorter than two texel blocks"));
    }
    let align = copy_bytes_per_row_alignment();
    let surface_offset = align as usize;
    let identity = crate::layout::read_native_words4(&bytes[0..16]);
    let surface = crate::layout::read_native_words4(&bytes[surface_offset..surface_offset + 16]);
    proof {
        assert(bytes@.subrange(0, 16) =~= bytes@.subrange(0, 16));
        assert forall|k: int| 0 <= k < 4 implies identity@[k] == native_words4(bytes@, 0)[k] by {
            assert(bytes@.subrange(0, 16).subrange(4 * k, 4 * k + 4) =~= bytes@.subrange(
                4 * k,
                4 * k + 4,
            ));
        }
        assert forall|k: int| 0 <= k < 4 implies surface@[k] == native_words4(bytes@, 256)[k] by {
            assert(bytes@.subrange(256, 272).subrange(4 * k, 4 * k + 4) =~= bytes@.subrange(
                256 + 4 * k,
                256 + 4 * k + 4,
            ));
        }
        assert(identity@ =~= native_words4(bytes@, 0));
        assert(surface@ =~= native_words4(bytes@, 256));
    }
    decode_patch_pick_words(identity, surface, request)
}

/// Bit pattern of `1.0e-4f32`.
pub const PICK_BARYCENTRIC_TOLERANCE_BITS: u32 = 0x38d1_b717;

/// A binary32 bit pattern denotes a value strictly below zero.
pub open spec fn f32_bits_negative(bits: u32) -> bool {
    bits >= 0x8000_0000 && bits != 0x8000_0000 && f32_bits_finite(bits)
}

/// A finite binary32 bit pattern denotes a value strictly below `-1.0e-4`.
pub open spec fn f32_bits_below_tolerance(bits: u32) -> bool {
    bits >= 0x8000_0000 && (bits - 0x8000_0000) > PICK_BARYCENTRIC_TOLERANCE_BITS
}

/// The stored parts of a hit are finite, its distance is not negative, and
/// neither stored barycentric coordinate lies below `-1.0e-4`. (The third
/// coordinate, `1 - x - y`, is derived in floating point by the caller.)
pub open spec fn pick_hit_bits_valid(hit: PatchPickHit) -> bool {
    &&& f32_bits_finite(hit.barycentric_bits[0])
    &&& f32_bits_finite(hit.barycentric_bits[1])
    &&& forall|i: int| 0 <= i < 4 ==> f32_bits_finite(#[trigger] hit.surface_bits@[i])
    &&& !f32_bits_negative(hit.surface_bits[3])
    &&& !f32_bits_below_tolerance(hit.barycentric_bits[0])
    &&& !f32_bits_below_tolerance(hit.barycentric_bits[1])
}

/// Check the stored parts of a decoded hit; a non-finite value, a negative
/// distance, or a barycentric coordinate below tolerance is a mapping error.
pub fn validate_pick_hit_bits(hit: PatchPickHit) -> (r: Result<(), LodWebGpuError>)
    ensures
        r is Ok <==> pick_hit_bits_valid(hit),
        r matches Err(e) ==> e is Mapping,
{
    let finite = crate::render_words::is_finite_bits(hit.barycentric_bits[0])
        && crate::render_words::is_finite_bits(hit.barycentric_bits[1])
        && crate::render_words::all_finite_bits(hit.surface_bits.as_slice());
    if !finite {
        return Err(LodWebGpuError::mapping("patch pick readback contains non-finite values"));
    }
    let distance = hit.surface_bits[3];
    let x = hit.barycentric_bits[0];
    let y = hit.barycentric_bits[1];
    if (distance >= 0x8000_0000 && distance != 0x8000_0000) || (x >= 0x8000_0000 && x
        - 0x8000_0000 > PICK_BARYCENTRIC_TOLERANCE_BITS) || (y >= 0x8000_0000 && y - 0x8000_0000
        > PICK_BARYCENTRIC_TOLERANCE_BITS) {
        return Err(LodWebGpuError::mapping("patch pick readback lies outside the rendered surface"));
    }
    Ok(())
}

/// One batch of the retained scene as the pick pass sees it.
#[derive(Clone, Copy, Debug, PartialEq, Eq)]
pub struct PickBatch {
    pub enabled: bool,
    pub key: [u32; 3],
    pub triangle_index_count: u32,
    pub member_count: usize,
}

/// One indirect draw of the pick pass.
#[derive(Clone, Copy, Debug, PartialEq, Eq, Structural)]
pub struct PickDraw {
    pub batch_index: u32,
    pub dynamic_offset: u32,
    pub first_index: u32,
    pub indirect_offset: u64,
}

/// The draws of the enabled batches among `batches`, in order, or `None`
/// when an enabled batch's index exceeds `u32`, its key is missing from the
/// atlas, its triangle count differs from the atlas entry, or its dynamic
/// offset exceeds `u32`.
pub open spec fn pick_draws_spec(
    entries: Map<(u32, u32, u32), crate::atlas::PackedPatchAtlasEntry>,
    batches: Seq<PickBatch>,
    stride: u32,
) -> Option<Seq<PickDraw>>
    decreases batches.len(),
{
    if batches.len() == 0 {
        Some(Seq::empty())
    } else {
        match pick_draws_spec(entries, batches.drop_last(), stride) {
            None => None,
            Some(previous) => {
                let b = batches.last();
                let i = batches.len() - 1;
                let key = (b.key[0], b.key[1], b.key[2]);
                if !b.enabled {
                    Some(previous)
                } else if i > u32::MAX || !entries.contains_key(key)
                    || entries[key].triangle_index_count != b.triangle_index_count || i * stride
                    > u32::MAX {
                    None
                } else {
                    Some(
                        previous.push(
                            PickDraw {
                                batch_index: i as u32,
                                dynamic_offset: (i * stride) as u32,
                                first_index: entries[key].triangle_first_index,
                                indirect_offset: (i * 20) as u64,
                            },
                        ),
                    )
                }
            },
        }
    }
}

/// Plan the indirect draws of a pick pass over the scene's batches; a batch
/// that cannot be drawn is a payload error.
pub fn plan_pick_draws(atlas: &PackedPatchAtlas, batches: &[PickBatch], stride: u32) -> (r: Result<
    Vec<PickDraw>,
    LodWebGpuError,
>)
    ensures
        match pick_draws_spec(atlas.entries_view(), batches@, stride) {
            Some(draws) => r matches Ok(v) && v@ == draws,
            None => r matches Err(e) && e is Payload,
        },
{
    let mut draws: Vec<PickDraw> = Vec::new();
    let mut i: usize = 0;
    while i < batches.len()
        invariant
            i <= batches@.len(),
            pick_draws_spec(atlas.entries_view(), batches@.subrange(0, i as int), stride) == Some(
                draws@,
            ),
        decreases batches@.len() - i,
    {
        let ghost prefix = batches@.subrange(0, i as int);
        let ghost next = batches@.subrange(0, i + 1);
        assert(next.drop_last() =~= prefix);
        let batch = batches[i];
        if batch.enabled {
            if i > u32::MAX as usize {
                proof {
                    lemma_pick_draws_none_extends(atlas.entries_view(), batches@, stride, i + 1);
                }
                return Err(LodWebGpuError::payload("patch pick batch index exceeds u32"));
            }
            let batch_index = i as u32;
            let draw = match atlas.triangle_draw(batch.key) {
                Some(d) => d,
                None => {
                    proof {
                        lemma_pick_draws_none_extends(atlas.entries_view(), batches@, stride, i + 1);
                    }
                    return Err(LodWebGpuError::payload("patch pick atlas is missing a batch key"));
                },
            };
            if draw.1 != batch.triangle_index_count {
                proof {
                    lemma_pick_draws_none_extends(atlas.entries_view(), batches@, stride, i + 1);
                }
                return Err(
                    LodWebGpuError::payload("patch pick atlas batch has a different index count"),
                );
            }
            let dynamic_offset = match batch_index.checked_mul(stride) {
                Some(o) => o,
                None => {
                    proof {
                        lemma_pick_draws_none_extends(atlas.entries_view(), batches@, stride, i + 1);
                    }
                    return Err(LodWebGpuError::payload("patch pick batch offset exceeds u32"));
                },
            };
            draws.push(
                PickDraw {
                    batch_index,
                    dynamic_offset,
                    first_index: draw.0,
                    indirect_offset: batch_index as u64 * INDEXED_INDIRECT_RECORD_BYTES,
                },
            );
        }
        i = i + 1;
    }
    assert(batches@.subrange(0, batches@.len() as int) =~= batches@);
    Ok(draws)
}

/// Once the draws of a prefix are rejected, so are the draws of every longer
/// prefix.
proof fn lemma_pick_draws_none_extends(
    entries: Map<(u32, u32, u32), crate::atlas::PackedPatchAtlasEntry>,
    batches: Seq<PickBatch>,
    stride: u32,
    n: int,
)
    requires
        0 <= n <= batches.len(),
        pick_draws_spec(entries, batches.subrange(0, n), stride) is None,
    ensures
        pick_draws_spec(entries, batches, stride) is None,
    decreases batches.len() - n,
{
    if n < batches.len() {
        assert(batches.subrange(0, n + 1).drop_last() =~= batches.subrange(0, n));
        lemma_pick_draws_none_extends(entries, batches, stride, n + 1);
    } else {
        assert(batches.subrange(0, n) =~= batches);
    }
}

/// Sum of the member counts of the first `n` batches.
pub open spec fn pick_member_total(batches: Seq<PickBatch>, n: int) -> int
    decreases n,
{
    if n <= 0 {
        0
    } else {
        pick_member_total(batches, n - 1) + batches[n - 1].member_count
    }
}

proof fn lemma_pick_member_total_monotone(batches: Seq<PickBatch>, a: int, b: int)
    requires
        0 <= a <= b,
    ensures
        pick_member_total(batches, a) <= pick_member_total(batches, b),
    decreases b,
{
    if a < b {
        lemma_pick_member_total_monotone(batches, a, b - 1);
    }
}

/// The pick pass's resources must hold exactly the scene's batches and
/// sources: the compaction scene and frame table one record per batch, the
/// compaction scene and prepared patches one record per source.
pub open spec fn pick_residency_matches(
    batches: Seq<PickBatch>,
    visibility_batch_count: u32,
    visibility_source_count: u32,
    frame_count: u32,
    patch_count: u32,
) -> bool {
    let sources = pick_member_total(batches, batches.len() as int);
    &&& batches.len() <= u32::MAX
    &&& sources <= u32::MAX
    &&& visibility_batch_count == batches.len()
    &&& frame_count == batches.len()
    &&& visibility_source_count == sources
    &&& patch_count == sources
}

/// Check that the retained pick resources belong to the scene's batches; any
/// mismatch or overflowing count is a payload error.
pub fn validate_pick_residency(
    batches: &[PickBatch],
    visibility_batch_count: u32,
    visibility_source_count: u32,
    frame_count: u32,
    patch_count: u32,
) -> (r: Result<(), LodWebGpuError>)
    ensures
        r is Ok <==> pick_residency_matches(
            batches@,
            visibility_batch_count,
            visibility_source_count,
            frame_count,
            patch_count,
        ),
        r matches Err(e) ==> e is Payload,
{
    if batches.len() > u32::MAX as usize {
        return Err(LodWebGpuError::payload("patch pick batch count exceeds u32"));
    }
    let total = match member_total(batches) {
        Some(total) => total,
        None => {
            return Err(LodWebGpuError::payload("patch pick source count overflowed"));
        },
    };
    let batch_count = batches.len() as u32;
    if visibility_batch_count != batch_count || visibility_source_count != total || frame_count
        != batch_count || patch_count != total {
        return Err(
            LodWebGpuError::payload("patch pick residency does not match the retained scene"),
        );
    }
    Ok(())
}

/// A cleared identity texel (all zero) is a miss, whatever the surface texel
/// holds.
pub proof fn lemma_cleared_identity_is_no_hit(surface: Seq<u32>, target_epoch: u32)
    ensures
        pick_words_outcome(seq![0u32, 0u32, 0u32, 0u32], surface, target_epoch) == Some(
            None::<PatchPickHit>,
        ),
{
}

/// A valid hit written as `face + 1`, `node + 1` and two barycentric words
/// decodes to exactly that face, node, barycentric and surface words, stamped
/// with the request's epoch.
pub proof fn lemma_hit_identity_round_trip(
    source_face: u32,
    packed_node: u32,
    barycentric: [u32; 2],
    surface: [u32; 4],
    target_epoch: u32,
)
    requires
        source_face < u32::MAX,
        packed_node < u32::MAX,
        pick_hit_bits_valid(
            PatchPickHit {
                target_epoch,
                packed_node,
                source_face,
                barycentric_bits: barycentric,
                surface_bits: surface,
            },
        ),
    ensures
        pick_words_outcome(
            seq![
                (source_face + 1) as u32,
                (packed_node + 1) as u32,
                barycentric[0],
                barycentric[1],
            ],
            surface@,
            target_epoch,
        ) == Some(
            Some(
                PatchPickHit {
                    target_epoch,
                    packed_node,
                    source_face,
                    barycentric_bits: barycentric,
                    surface_bits: surface,
                },
            ),
        ),
{
    assert([barycentric[0], barycentric[1]] =~= barycentric);
    assert([surface@[0], surface@[1], surface@[2], surface@[3]] =~= surface);
}

/// Identities and counts of the resident resources a resident pick draws
/// with: the geometry buckets, the root topology and prepared patches, the
/// draw domains, and the root render bindings.
#[derive(Clone, Copy, Debug, PartialEq, Eq, Structural)]
pub struct ResidentPickEpochs {
    pub geometry_model_identity: u64,
    pub geometry_domain_identity: u64,
    pub geometry_face_count: u32,
    pub geometry_bucket_count: u32,
    pub geometry_atlas_count: u32,
    pub topology_model_identity: u64,
    pub topology_face_count: u32,
    pub patch_count: u32,
    pub domains_identity: u64,
    pub domains_face_count: u32,
    pub domain_count: u32,
    /// The retained draw domains equal the domains rebuilt from the scene.
    pub domains_match_scene: bool,
    pub bindings_model_identity: u64,
    pub bindings_domain_identity: u64,
    pub bindings_domain_count: u32,
    pub bindings_bucket_count: u32,
}

/// What a resident pick checks of the adaptive overlay it draws over: the
/// scene epoch it was built from and the sizes of its device tables.
#[derive(Clone, Debug)]
pub struct OverlayPickEpochs {
    pub epoch: AdaptiveOverlayEpoch,
    pub visibility_batch_count: u32,
    pub visibility_source_count: u32,
    pub frame_count: u32,
    pub patch_count: u32,
}

/// All resident resources belong to one scene epoch.
pub open spec fn resident_epochs_match(e: ResidentPickEpochs, atlas_entry_count: usize) -> bool {
    &&& e.topology_model_identity == e.geometry_model_identity
    &&& e.bindings_model_identity == e.geometry_model_identity
    &&& e.domains_identity == e.geometry_domain_identity
    &&& e.bindings_domain_identity == e.geometry_domain_identity
    &&& e.topology_face_count == e.geometry_face_count
    &&& e.patch_count == e.geometry_face_count
    &&& e.domains_face_count == e.geometry_face_count
    &&& e.domains_match_scene
    &&& e.bindings_domain_count == e.domain_count
    &&& e.bindings_bucket_count == e.geometry_bucket_count
    &&& e.geometry_atlas_count == atlas_entry_count as u32
}

/// The overlay belongs to the same scene epoch: same model, built from the
/// scene (revision, suppression and batches), one visibility record and
/// frame per batch, and one visibility source and prepared patch per batch
/// member.
pub open spec fn overlay_epochs_match(
    o: OverlayPickEpochs,
    geometry_model_identity: u64,
    scene_revision: u64,
    scene_suppressed_root_faces: Seq<u32>,
    scene_batch_keys: Seq<u64>,
    batches: Seq<PickBatch>,
) -> bool {
    let sources = pick_member_total(batches, batches.len() as int);
    &&& sources <= u32::MAX
    &&& o.epoch.model_identity == geometry_model_identity
    &&& o.epoch.batch_keys@.len() == batches.len()
    &&& overlay_scene_current(o.epoch, scene_revision, scene_suppressed_root_faces, scene_batch_keys)
    &&& o.visibility_batch_count == batches.len() as u32
    &&& o.visibility_source_count == sources
    &&& o.frame_count == batches.len() as u32
    &&& o.patch_count == sources
}

/// Checked sum of the member counts of the batches; `None` when a count or
/// the sum exceeds `u32`.
fn member_total(batches: &[PickBatch]) -> (r: Option<u32>)
    ensures
        r is Some <==> pick_member_total(batches@, batches@.len() as int) <= u32::MAX,
        r matches Some(total) ==> total == pick_member_total(batches@, batches@.len() as int),
{
    let mut total: u32 = 0;
    let mut i: usize = 0;
    while i < batches.len()
        invariant
            i <= batches@.len(),
            total == pick_member_total(batches@, i as int),
        decreases batches@.len() - i,
    {
        let members = batches[i].member_count;
        if members > u32::MAX as usize {
            proof {
                lemma_pick_member_total_monotone(batches@, i + 1, batches@.len() as int);
            }
            return None;
        }
        match total.checked_add(members as u32) {
            Some(t) => {
                total = t;
            },
            None => {
                proof {
                    lemma_pick_member_total_monotone(batches@, i + 1, batches@.len() as int);
                }
                return None;
            },
        }
        i = i + 1;
    }
    Some(total)
}

/// Check that a resident pick can be staged: the request is valid, the
/// scene passed its own validation, an overlay is present exactly when the
/// scene suppresses roots, the suppression published to the resident roots
/// is the scene's, the resident resources belong to one scene epoch, and an
/// overlay was built for this model and scene with tables sized for its
/// batches (`overlay_batches`, the pick view of the overlay's batches, one
/// per retained batch in draw order). Any
/// violation is a payload error.
pub fn validate_resident_pick(
    request: PatchPickRequest,
    scene_valid: bool,
    scene_revision: u64,
    scene_suppressed_root_faces: &[u32],
    scene_batch_keys: &[u64],
    resident_suppression: &[u32],
    epochs: ResidentPickEpochs,
    atlas_entry_count: usize,
    overlay: Option<&OverlayPickEpochs>,
    overlay_batches: &[PickBatch],
) -> (r: Result<(), LodWebGpuError>)
    ensures
        r is Ok <==> {
            &&& pick_request_valid(request.viewport, request.pixel)
            &&& scene_valid
            &&& (scene_suppressed_root_faces@.len() > 0) == (overlay is Some)
            &&& resident_suppression@ == scene_suppressed_root_faces@
            &&& resident_epochs_match(epochs, atlas_entry_count)
            &&& overlay matches Some(o) ==> overlay_epochs_match(
                *o,
                epochs.geometry_model_identity,
                scene_revision,
                scene_suppressed_root_faces@,
                scene_batch_keys@,
                overlay_batches@,
            )
        },
        r matches Err(e) ==> e is Payload,
{
    request.validate()?;
    if !scene_valid {
        return Err(LodWebGpuError::payload("patch pick scene fails its contract"));
    }
    if (scene_suppressed_root_faces.len() > 0) != overlay.is_some() {
        return Err(
            LodWebGpuError::payload(
                "resident pick overlay presence does not match root suppression",
            ),
        );
    }
    if !same_words(resident_suppression, scene_suppressed_root_faces) {
        return Err(
            LodWebGpuError::payload("resident pick suppression does not match the retained scene"),
        );
    }
    let e = epochs;
    if e.topology_model_identity != e.geometry_model_identity || e.bindings_model_identity
        != e.geometry_model_identity || e.domains_identity != e.geometry_domain_identity
        || e.bindings_domain_identity != e.geometry_domain_identity || e.topology_face_count
        != e.geometry_face_count || e.patch_count != e.geometry_face_count || e.domains_face_count
        != e.geometry_face_count || !e.domains_match_scene || e.bindings_domain_count
        != e.domain_count || e.bindings_bucket_count != e.geometry_bucket_count
        || e.geometry_atlas_count != atlas_entry_count as u32 {
        return Err(
            LodWebGpuError::payload("resident pick resources belong to different scene epochs"),
        );
    }
    if let Some(o) = overlay {
        let sources = match member_total(overlay_batches) {
            Some(total) => total,
            None => {
                return Err(
                    LodWebGpuError::payload("resident pick overlay source count overflowed"),
                );
            },
        };
        let batch_count = overlay_batches.len() as u32;
        if o.epoch.model_identity != e.geometry_model_identity || o.epoch.batch_keys.len()
            != overlay_batches.len() || !overlay_matches_scene(
            &o.epoch,
            scene_revision,
            scene_suppressed_root_faces,
            scene_batch_keys,
        ) || o.visibility_batch_count != batch_count || o.visibility_source_count != sources
            || o.frame_count != batch_count || o.patch_count != sources {
            return Err(
                LodWebGpuError::payload("resident pick overlay belongs to a different scene epoch"),
            );
        }
    }
    Ok(())
}

/// The draws of one resident pick: one indirect draw per root geometry
/// bucket (each at its bucket's dynamic offset), then the overlay's draws.
#[derive(Clone, Debug)]
pub struct ResidentPickPlan {
    pub root_dynamic_offsets: Vec<u32>,
    pub overlay_draws: Vec<PickDraw>,
    pub indirect_draw_calls: u32,
}

/// `a + b`, or `u32::MAX` where it does not fit.
pub open spec fn saturating_add_u32(a: int, b: int) -> u32 {
    if a + b > u32::MAX {
        u32::MAX
    } else {
        (a + b) as u32
    }
}

/// Plan a resident pick: bucket `b` binds at `b * bucket_stride`; the
/// overlay's enabled batches are drawn as an ordinary pick; the draw count
/// saturates at `u32::MAX`.
pub fn plan_resident_pick(
    bucket_count: u32,
    bucket_stride: u32,
    atlas: &PackedPatchAtlas,
    overlay_batches: &[PickBatch],
    overlay_stride: u32,
) -> (r: Result<ResidentPickPlan, LodWebGpuError>)
    requires
        bucket_count == 0 || (bucket_count - 1) * bucket_stride <= u32::MAX,
    ensures
        match pick_draws_spec(atlas.entries_view(), overlay_batches@, overlay_stride) {
            Some(draws) => r matches Ok(plan) && {
                &&& plan.overlay_draws@ == draws
                &&& plan.root_dynamic_offsets@.len() == bucket_count
                &&& forall|b: int|
                    0 <= b < bucket_count ==> #[trigger] plan.root_dynamic_offsets@[b] == b
                        * bucket_stride
                &&& plan.indirect_draw_calls == saturating_add_u32(
                    bucket_count as int,
                    draws.len() as int,
                )
            },
            None => r matches Err(e) && e is Payload,
        },
{
    let mut offsets: Vec<u32> = Vec::new();
    let mut b: u32 = 0;
    while b < bucket_count
        invariant
            b <= bucket_count,
            bucket_count == 0 || (bucket_count - 1) * bucket_stride <= u32::MAX,
            offsets@.len() == b,
            forall|k: int| 0 <= k < b ==> #[trigger] offsets@[k] == k * bucket_stride,
        decreases bucket_count - b,
    {
        proof {
            assert(b * bucket_stride <= (bucket_count - 1) * bucket_stride) by (nonlinear_arith)
                requires
                    b < bucket_count,
            ;
        }
        offsets.push(b * bucket_stride);
        b = b + 1;
    }
    let overlay_draws = plan_pick_draws(atlas, overlay_batches, overlay_stride)?;
    let overlay_count: u32 = if overlay_draws.len() > u32::MAX as usize {
        u32::MAX
    } else {
        overlay_draws.len() as u32
    };
    Ok(
        ResidentPickPlan {
            root_dynamic_offsets: offsets,
            overlay_draws,
            indirect_draw_calls: bucket_count.saturating_add(overlay_count),
        },
    )
}

/// Plan a one-pixel pick of a retained scene: the request must be valid, the
/// pick resources must hold the scene's batches and sources, and every
/// enabled batch must be drawable; the plan's draw count saturates at
/// `u32::MAX`.
pub fn plan_patch_pick(
    request: PatchPickRequest,
    batches: &[PickBatch],
    visibility_batch_count: u32,
    visibility_source_count: u32,
    frame_count: u32,
    patch_count: u32,
    atlas: &PackedPatchAtlas,
    batch_index_uniform_stride: u32,
) -> (r: Result<(Vec<PickDraw>, PatchPickEncoding), LodWebGpuError>)
    ensures
        r is Ok <==> {
            &&& pick_request_valid(request.viewport, request.pixel)
            &&& pick_residency_matches(
                batches@,
                visibility_batch_count,
                visibility_source_count,
                frame_count,
                patch_count,
            )
            &&& pick_draws_spec(atlas.entries_view(), batches@, batch_index_uniform_stride) is Some
        },
        r matches Err(e) ==> e is Payload,
        r matches Ok((draws, encoding)) ==> {
            &&& Some(draws@) == pick_draws_spec(
                atlas.entries_view(),
                batches@,
                batch_index_uniform_stride,
            )
            &&& encoding.request == request
            &&& encoding.indirect_draw_calls == draws@.len()
        },
{
    request.validate()?;
    validate_pick_residency(
        batches,
        visibility_batch_count,
        visibility_source_count,
        frame_count,
        patch_count,
    )?;
    let draws = plan_pick_draws(atlas, batches, batch_index_uniform_stride)?;
    proof {
        lemma_pick_draws_len(atlas.entries_view(), batches@, batch_index_uniform_stride);
    }
    let count = draws.len() as u32;
    Ok((draws, PatchPickEncoding { indirect_draw_calls: count, request }))
}

/// A pick plan holds at most one draw per batch.
proof fn lemma_pick_draws_len(
    entries: Map<(u32, u32, u32), crate::atlas::PackedPatchAtlasEntry>,
    batches: Seq<PickBatch>,
    stride: u32,
)
    ensures
        pick_draws_spec(entries, batches, stride) matches Some(draws) ==> draws.len()
            <= batches.len(),
    decreases batches.len(),
{
    if batches.len() > 0 {
        lemma_pick_draws_len(entries, batches.drop_last(), stride);
    }
}

/// Every planned pick draw binds its own batch: it names an enabled batch of
/// the scene, its dynamic offset is that batch's record in the batch-index
/// table, and its indirect offset is that batch's argument record; draws come
/// in increasing batch order.
pub proof fn lemma_pick_draws_address_their_batches(
    entries: Map<(u32, u32, u32), crate::atlas::PackedPatchAtlasEntry>,
    batches: Seq<PickBatch>,
    stride: u32,
)
    requires
        pick_draws_spec(entries, batches, stride) is Some,
    ensures
        ({
            let draws = pick_draws_spec(entries, batches, stride)->0;
            &&& forall|k: int|
                0 <= k < draws.len() ==> {
                    let b = (#[trigger] draws[k]).batch_index as int;
                    &&& b < batches.len()
                    &&& batches[b].enabled
                    &&& draws[k].dynamic_offset == b * stride
                    &&& draws[k].indirect_offset == b * 20
                }
            &&& forall|j: int, k: int|
                0 <= j < k < draws.len() ==> draws[j].batch_index < draws[k].batch_index
        }),
    decreases batches.len(),
{
    if batches.len() > 0 {
        let prefix = batches.drop_last();
        lemma_pick_draws_address_their_batches(entries, prefix, stride);
        let previous = pick_draws_spec(entries, prefix, stride)->0;
        assert forall|k: int| 0 <= k < previous.len() implies (#[trigger] previous[k]).batch_index
            < batches.len() - 1 && batches[previous[k].batch_index as int] == prefix[
            previous[k].batch_index as int] by {}
    }
}

/// The overlay batches a resident pick draws: the overlay's, or none
/// without an overlay.
pub open spec fn picked_overlay_batches(
    overlay: Option<&OverlayPickEpochs>,
    overlay_batches: Seq<PickBatch>,
) -> Seq<PickBatch> {
    if overlay is Some {
        overlay_batches
    } else {
        Seq::empty()
    }
}

/// Stage a resident pick's plan: every check of [`validate_resident_pick`]
/// comes first (a payload error before anything is planned), then the draws
/// of [`plan_resident_pick`] over the root buckets and, with an overlay, its
/// enabled batches. The encoding names the request and counts one indirect
/// draw per root bucket and per enabled overlay batch (saturating).
pub fn stage_resident_pick_plan(
    request: PatchPickRequest,
    scene_valid: bool,
    scene_revision: u64,
    scene_suppressed_root_faces: &[u32],
    scene_batch_keys: &[u64],
    resident_suppression: &[u32],
    epochs: ResidentPickEpochs,
    atlas: &PackedPatchAtlas,
    overlay: Option<&OverlayPickEpochs>,
    overlay_batches: &[PickBatch],
    bucket_stride: u32,
    overlay_stride: u32,
) -> (r: Result<(ResidentPickPlan, PatchPickEncoding), LodWebGpuError>)
    requires
        epochs.geometry_bucket_count == 0 || (epochs.geometry_bucket_count - 1) * bucket_stride
            <= u32::MAX,
    ensures
        r is Ok <==> {
            &&& pick_request_valid(request.viewport, request.pixel)
            &&& scene_valid
            &&& (scene_suppressed_root_faces@.len() > 0) == (overlay is Some)
            &&& resident_suppression@ == scene_suppressed_root_faces@
            &&& resident_epochs_match(epochs, atlas.entries_view().len() as usize)
            &&& overlay matches Some(o) ==> overlay_epochs_match(
                *o,
                epochs.geometry_model_identity,
                scene_revision,
                scene_suppressed_root_faces@,
                scene_batch_keys@,
                overlay_batches@,
            )
            &&& pick_draws_spec(
                atlas.entries_view(),
                picked_overlay_batches(overlay, overlay_batches@),
                overlay_stride,
            ) is Some
        },
        r matches Err(e) ==> e is Payload,
        r matches Ok((plan, encoding)) ==> {
            let draws = pick_draws_spec(
                atlas.entries_view(),
                picked_overlay_batches(overlay, overlay_batches@),
                overlay_stride,
            )->Some_0;
            &&& plan.overlay_draws@ == draws
            &&& plan.root_dynamic_offsets@.len() == epochs.geometry_bucket_count
            &&& forall|b: int|
                0 <= b < epochs.geometry_bucket_count ==> #[trigger] plan.root_dynamic_offsets@[b]
                    == b * bucket_stride
            &&& plan.indirect_draw_calls == saturating_add_u32(
                epochs.geometry_bucket_count as int,
                draws.len() as int,
            )
            &&& encoding.request == request
            &&& encoding.indirect_draw_calls == plan.indirect_draw_calls
        },
{
    validate_resident_pick(
        request,
        scene_valid,
        scene_revision,
        scene_suppressed_root_faces,
        scene_batch_keys,
        resident_suppression,
        epochs,
        atlas.entry_count(),
        overlay,
        overlay_batches,
    )?;
    let none: Vec<PickBatch> = Vec::new();
    let batches: &[PickBatch] = if overlay.is_some() {
        overlay_batches
    } else {
        none.as_slice()
    };
    assert(batches@ == picked_overlay_batches(overlay, overlay_batches@));
    let plan = plan_resident_pick(
        epochs.geometry_bucket_count,
        bucket_stride,
        atlas,
        batches,
        overlay_stride,
    )?;
    let encoding = PatchPickEncoding { indirect_draw_calls: plan.indirect_draw_calls, request };
    Ok((plan, encoding))
}

} // verus!
