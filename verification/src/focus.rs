//! Planning of the retained focus-composition passes.
//!
//! A focus schedule (weight selection, optional jump-flood propagation,
//! firmness, Kawase smoothing, and directional blur) is lowered to an ordered
//! list of full-screen passes. Every pass samples a pair of retained textures
//! for which the target keeps a bind group, and owns one dynamically offset
//! record in the pass uniform table.

use vstd::prelude::*;
use crate::error::LodWebGpuError;

verus! {

/// Bytes of one pass uniform record.
pub const FOCUS_PASS_UNIFORM_BYTES: u64 = 64;
/// Passes the retained uniform table can hold.
pub const FOCUS_PASS_CAPACITY: usize = 64;

/// Retained textures of a focus target.
#[derive(Clone, Copy, Debug, PartialEq, Eq, PartialOrd, Ord, Structural)]
pub enum FocusTextureSlot {
    RawField,
    SelectedWeight,
    JfaPing,
    JfaPong,
    Firmness,
    Kawase,
    Scene,
    BlurPing,
    BlurPong,
}

/// Where one pass writes.
#[derive(Clone, Copy, Debug, PartialEq, Eq, Structural)]
pub enum FocusDestination {
    Texture(FocusTextureSlot),
    Output,
}

/// The retained pipeline a pass runs.
#[derive(Clone, Copy, Debug, PartialEq, Eq, Structural)]
pub enum FocusPipelineKind {
    SelectWeight,
    JfaInit,
    JfaStep,
    Firmness,
    Kawase,
    DirectionalBlur,
}

/// One of the two jump-flood buffers.
#[derive(Clone, Copy, Debug, PartialEq, Eq, Structural)]
pub enum FocusPingPong {
    Ping,
    Pong,
}

/// A surface of the directional-blur chain.
#[derive(Clone, Copy, Debug, PartialEq, Eq, Structural)]
pub enum FocusBlurSurface {
    Scene,
    Ping,
    Pong,
    Output,
}

/// One jump-flood propagation step.
#[derive(Clone, Copy, Debug, PartialEq, Eq, Structural)]
pub struct FocusJfaStep {
    pub step: u32,
    pub source: FocusPingPong,
    pub destination: FocusPingPong,
}

/// The jump-flood part of a schedule: primary steps, then cleanup steps; the
/// propagated field ends in `final_buffer`.
#[derive(Clone, Debug)]
pub struct FocusJfaPlanOutline {
    pub primary_steps: Vec<FocusJfaStep>,
    pub cleanup_steps: Vec<FocusJfaStep>,
    pub final_buffer: FocusPingPong,
}

/// One directional-blur subpass.
#[derive(Clone, Copy, Debug, PartialEq, Eq, Structural)]
pub struct FocusDirectionalBlur {
    pub source: FocusBlurSurface,
    pub destination: FocusBlurSurface,
    pub is_final: bool,
}

/// The pass structure of one focus schedule.
#[derive(Clone, Debug)]
pub struct FocusScheduleOutline {
    pub jfa: Option<FocusJfaPlanOutline>,
    pub kawase_passes: u32,
    pub directional_blurs: Vec<FocusDirectionalBlur>,
}

/// Which values a pass's uniform record carries: the extent it runs at and,
/// for steps, the step's own parameter.
#[derive(Clone, Copy, Debug, PartialEq, Eq, Structural)]
pub enum FocusUniformRole {
    /// Full-resolution extent.
    SelectWeight,
    /// Jump-flood extent.
    JfaInit,
    /// Jump-flood extent and this propagation step.
    JfaStep { step: u32 },
    /// Jump-flood extent, blur radius rescaled when the flood ran.
    Firmness,
    /// Full-resolution extent and the offset of this Kawase pass.
    Kawase { pass: u32 },
    /// Direction of this directional-blur subpass.
    DirectionalBlur { index: usize },
}

/// One planned full-screen pass.
#[derive(Clone, Copy, Debug, PartialEq, Eq, Structural)]
pub struct PlannedFocusPass {
    pub pipeline: FocusPipelineKind,
    pub source_a: FocusTextureSlot,
    pub source_b: FocusTextureSlot,
    pub destination: FocusDestination,
    pub uniform: FocusUniformRole,
    pub uniform_offset: u32,
    pub final_output: bool,
}

/// `value` rounded up to a multiple of `alignment`, an alignment of zero
/// counting as one.
pub open spec fn align_up_spec(value: u64, alignment: u64) -> int {
    let a: int = if alignment == 0 {
        1
    } else {
        alignment as int
    };
    ((value as int + a - 1) / a) * a
}

/// Round `value` up to a multiple of `alignment` (zero counts as one).
pub fn align_up(value: u64, alignment: u64) -> (r: u64)
    requires
        align_up_spec(value, alignment) <= u64::MAX,
    ensures
        r == align_up_spec(value, alignment),
{
    let alignment = if alignment == 0 {
        1
    } else {
        alignment
    };
    proof {
        if value % alignment != 0 {
            assert(value / alignment < u64::MAX) by (nonlinear_arith)
                requires
                    alignment >= 2,
            ;
        }
    }
    let blocks = value / alignment + if value % alignment == 0 {
        0
    } else {
        1
    };
    proof {
        let a = alignment as int;
        assert(blocks == (value as int + a - 1) / a) by (nonlinear_arith)
            requires
                a > 0,
                blocks == (value as int) / a + if (value as int) % a == 0 {
                    0int
                } else {
                    1int
                },
        {
            let q = (value as int) / a;
            let m = (value as int) % a;
            assert(value as int == q * a + m);
            if m == 0 {
                assert((value as int + a - 1) == q * a + (a - 1));
            } else {
                assert((value as int + a - 1) == (q + 1) * a + (m - 1));
            }
        }
    }
    blocks * alignment
}

/// The retained bind-group source pairs of a focus target.
pub open spec fn binding_pairs_spec() -> Seq<(FocusTextureSlot, FocusTextureSlot)> {
    seq![
        (FocusTextureSlot::RawField, FocusTextureSlot::RawField),
        (FocusTextureSlot::SelectedWeight, FocusTextureSlot::SelectedWeight),
        (FocusTextureSlot::JfaPing, FocusTextureSlot::JfaPing),
        (FocusTextureSlot::JfaPong, FocusTextureSlot::JfaPong),
        (FocusTextureSlot::JfaPing, FocusTextureSlot::SelectedWeight),
        (FocusTextureSlot::JfaPong, FocusTextureSlot::SelectedWeight),
        (FocusTextureSlot::Firmness, FocusTextureSlot::Firmness),
        (FocusTextureSlot::Kawase, FocusTextureSlot::Kawase),
        (FocusTextureSlot::Scene, FocusTextureSlot::Firmness),
        (FocusTextureSlot::Scene, FocusTextureSlot::Kawase),
        (FocusTextureSlot::BlurPing, FocusTextureSlot::Firmness),
        (FocusTextureSlot::BlurPing, FocusTextureSlot::Kawase),
        (FocusTextureSlot::BlurPong, FocusTextureSlot::Firmness),
        (FocusTextureSlot::BlurPong, FocusTextureSlot::Kawase),
    ]
}

/// The source pairs for which a focus target retains a bind group.
pub fn focus_binding_pairs() -> (pairs: Vec<(FocusTextureSlot, FocusTextureSlot)>)
    ensures
        pairs@ == binding_pairs_spec(),
{
    let pairs = vec![
        (FocusTextureSlot::RawField, FocusTextureSlot::RawField),
        (FocusTextureSlot::SelectedWeight, FocusTextureSlot::SelectedWeight),
        (FocusTextureSlot::JfaPing, FocusTextureSlot::JfaPing),
        (FocusTextureSlot::JfaPong, FocusTextureSlot::JfaPong),
        (FocusTextureSlot::JfaPing, FocusTextureSlot::SelectedWeight),
        (FocusTextureSlot::JfaPong, FocusTextureSlot::SelectedWeight),
        (FocusTextureSlot::Firmness, FocusTextureSlot::Firmness),
        (FocusTextureSlot::Kawase, FocusTextureSlot::Kawase),
        (FocusTextureSlot::Scene, FocusTextureSlot::Firmness),
        (FocusTextureSlot::Scene, FocusTextureSlot::Kawase),
        (FocusTextureSlot::BlurPing, FocusTextureSlot::Firmness),
        (FocusTextureSlot::BlurPing, FocusTextureSlot::Kawase),
        (FocusTextureSlot::BlurPong, FocusTextureSlot::Firmness),
        (FocusTextureSlot::BlurPong, FocusTextureSlot::Kawase),
    ];
    assert(pairs@ =~= binding_pairs_spec());
    pairs
}

/// The retained texture of a jump-flood buffer.
pub open spec fn jfa_slot_spec(buffer: FocusPingPong) -> FocusTextureSlot {
    match buffer {
        FocusPingPong::Ping => FocusTextureSlot::JfaPing,
        FocusPingPong::Pong => FocusTextureSlot::JfaPong,
    }
}

/// The retained texture of a jump-flood buffer.
pub fn jfa_slot(buffer: FocusPingPong) -> (slot: FocusTextureSlot)
    ensures
        slot == jfa_slot_spec(buffer),
{
    match buffer {
        FocusPingPong::Ping => FocusTextureSlot::JfaPing,
        FocusPingPong::Pong => FocusTextureSlot::JfaPong,
    }
}

/// The retained texture of a sampled blur surface (`Output` is never
/// sampled; it maps to `Scene` here and is rejected by [`blur_slot`]).
pub open spec fn blur_slot_spec(surface: FocusBlurSurface) -> FocusTextureSlot {
    match surface {
        FocusBlurSurface::Scene => FocusTextureSlot::Scene,
        FocusBlurSurface::Ping => FocusTextureSlot::BlurPing,
        FocusBlurSurface::Pong => FocusTextureSlot::BlurPong,
        FocusBlurSurface::Output => FocusTextureSlot::Scene,
    }
}

/// The retained texture of a sampled blur surface; the output surface cannot
/// be sampled.
pub fn blur_slot(surface: FocusBlurSurface) -> (r: Result<FocusTextureSlot, LodWebGpuError>)
    ensures
        surface == FocusBlurSurface::Output ==> (r matches Err(e) && e is Payload),
        surface != FocusBlurSurface::Output ==> r == Ok::<FocusTextureSlot, LodWebGpuError>(
            blur_slot_spec(surface),
        ),
{
    match surface {
        FocusBlurSurface::Scene => Ok(FocusTextureSlot::Scene),
        FocusBlurSurface::Ping => Ok(FocusTextureSlot::BlurPing),
        FocusBlurSurface::Pong => Ok(FocusTextureSlot::BlurPong),
        FocusBlurSurface::Output => Err(
            LodWebGpuError::payload("focus output surface cannot be sampled"),
        ),
    }
}

/// The Kawase mask texture after `passes` ping-ponged Kawase passes.
pub open spec fn kawase_mask(passes: int) -> FocusTextureSlot {
    if passes % 2 == 0 {
        FocusTextureSlot::Firmness
    } else {
        FocusTextureSlot::Kawase
    }
}

/// A planned pass before its uniform offset is assigned.
pub open spec fn pass_skeleton(
    pipeline: FocusPipelineKind,
    source_a: FocusTextureSlot,
    source_b: FocusTextureSlot,
    destination: FocusDestination,
    uniform: FocusUniformRole,
    final_output: bool,
) -> PlannedFocusPass {
    PlannedFocusPass { pipeline, source_a, source_b, destination, uniform, uniform_offset: 0, final_output }
}

/// The jump-flood propagation pass of one step.
pub open spec fn jfa_step_pass(step: FocusJfaStep) -> PlannedFocusPass {
    pass_skeleton(
        FocusPipelineKind::JfaStep,
        jfa_slot_spec(step.source),
        jfa_slot_spec(step.source),
        FocusDestination::Texture(jfa_slot_spec(step.destination)),
        FocusUniformRole::JfaStep { step: step.step },
        false,
    )
}

/// The jump-flood passes of a schedule: initialization, then one pass per
/// primary and cleanup step.
pub open spec fn jfa_passes(jfa: Option<FocusJfaPlanOutline>) -> Seq<PlannedFocusPass> {
    match jfa {
        None => Seq::empty(),
        Some(plan) => seq![
            pass_skeleton(
                FocusPipelineKind::JfaInit,
                FocusTextureSlot::SelectedWeight,
                FocusTextureSlot::SelectedWeight,
                FocusDestination::Texture(FocusTextureSlot::JfaPing),
                FocusUniformRole::JfaInit,
                false,
            ),
        ] + (plan.primary_steps@ + plan.cleanup_steps@).map_values(|s: FocusJfaStep| jfa_step_pass(s)),
    }
}

/// The texture the firmness pass reads its propagated field from.
pub open spec fn firmness_source(jfa: Option<FocusJfaPlanOutline>) -> FocusTextureSlot {
    match jfa {
        None => FocusTextureSlot::SelectedWeight,
        Some(plan) => jfa_slot_spec(plan.final_buffer),
    }
}

/// The `pass`-th Kawase pass: ping-pong between firmness and Kawase scratch.
pub open spec fn kawase_pass(pass: int) -> PlannedFocusPass {
    pass_skeleton(
        FocusPipelineKind::Kawase,
        kawase_mask(pass),
        kawase_mask(pass),
        FocusDestination::Texture(kawase_mask(pass + 1)),
        FocusUniformRole::Kawase { pass: pass as u32 },
        false,
    )
}

/// The `index`-th directional-blur pass, sampling the final Kawase mask.
pub open spec fn blur_pass(blur: FocusDirectionalBlur, index: int, mask: FocusTextureSlot) -> PlannedFocusPass {
    pass_skeleton(
        FocusPipelineKind::DirectionalBlur,
        blur_slot_spec(blur.source),
        mask,
        if blur.destination == FocusBlurSurface::Output {
            FocusDestination::Output
        } else {
            FocusDestination::Texture(blur_slot_spec(blur.destination))
        },
        FocusUniformRole::DirectionalBlur { index: index as usize },
        blur.is_final,
    )
}

/// Every pass of a schedule in execution order, before offsets.
pub open spec fn focus_pass_skeletons(schedule: FocusScheduleOutline) -> Seq<PlannedFocusPass> {
    let k = schedule.kawase_passes as int;
    seq![
        pass_skeleton(
            FocusPipelineKind::SelectWeight,
            FocusTextureSlot::RawField,
            FocusTextureSlot::RawField,
            FocusDestination::Texture(FocusTextureSlot::SelectedWeight),
            FocusUniformRole::SelectWeight,
            false,
        ),
    ] + jfa_passes(schedule.jfa) + seq![
        pass_skeleton(
            FocusPipelineKind::Firmness,
            firmness_source(schedule.jfa),
            FocusTextureSlot::SelectedWeight,
            FocusDestination::Texture(FocusTextureSlot::Firmness),
            FocusUniformRole::Firmness,
            false,
        ),
    ] + Seq::new(k as nat, |p: int| kawase_pass(p)) + schedule.directional_blurs@.map(
        |i: int, b: FocusDirectionalBlur| blur_pass(b, i, kawase_mask(k)),
    )
}

/// A schedule can be planned when no blur samples the output surface.
pub open spec fn blur_sources_sampleable(schedule: FocusScheduleOutline) -> bool {
    forall|i: int|
        0 <= i < schedule.directional_blurs@.len() ==> (#[trigger] schedule.directional_blurs@[i]).source
            != FocusBlurSurface::Output
}

/// A pass with its uniform offset set.
pub open spec fn with_offset(pass: PlannedFocusPass, offset: int) -> PlannedFocusPass {
    PlannedFocusPass { uniform_offset: offset as u32, ..pass }
}

/// Every record offset `index * stride` of `count` passes fits in `u32`
/// (the last offset is the largest).
pub open spec fn offsets_fit(count: int, stride: u64) -> bool {
    count <= 0 || (count - 1) * stride <= u32::MAX
}

} // verus!

verus! {

/// The passes planned so far are the first `out.len()` skeletons, each with
/// its record offset.
pub open spec fn planned_prefix(out: Seq<PlannedFocusPass>, skeletons: Seq<PlannedFocusPass>, stride: u64) -> bool {
    &&& out.len() <= skeletons.len()
    &&& forall|i: int|
        0 <= i < out.len() ==> #[trigger] out[i] == with_offset(skeletons[i], i * stride)
    &&& offsets_fit(out.len() as int, stride)
}

/// Append `pass` with the next record offset, rejecting an offset beyond `u32`.
fn push_planned(
    out: &mut Vec<PlannedFocusPass>,
    pass: PlannedFocusPass,
    stride: u64,
    Ghost(skeletons): Ghost<Seq<PlannedFocusPass>>,
) -> (r: Result<(), LodWebGpuError>)
    requires
        planned_prefix(old(out)@, skeletons, stride),
        old(out)@.len() < skeletons.len(),
        pass == skeletons[old(out)@.len() as int],
    ensures
        r is Ok ==> planned_prefix(final(out)@, skeletons, stride) && final(out)@.len() == old(
            out,
        )@.len() + 1,
        r is Err ==> !offsets_fit(skeletons.len() as int, stride),
        r matches Err(e) ==> e is Payload,
{
    let index = out.len() as u64;
    let offset = index.checked_mul(stride);
    match offset {
        Some(o) => {
            if o > 0xffff_ffff {
                proof {
                    let last = skeletons.len() - 1;
                    assert(last * stride >= index * stride) by (nonlinear_arith)
                        requires
                            last >= index,
                    ;
                }
                return Err(LodWebGpuError::payload("focus uniform offset exceeds u32"));
            }
            let ghost n = old(out)@.len() as int;
            out.push(PlannedFocusPass { uniform_offset: o as u32, ..pass });
            proof {
                assert forall|i: int| 0 <= i < out@.len() implies #[trigger] out@[i] == with_offset(
                    skeletons[i],
                    i * stride,
                ) by {
                    if i < n {
                        assert(out@[i] == old(out)@[i]);
                    }
                }
                assert(n * stride == o);
            }
            Ok(())
        },
        None => {
            proof {
                let last = skeletons.len() - 1;
                assert(last * stride >= index * stride) by (nonlinear_arith)
                    requires
                        last >= index,
                ;
            }
            Err(LodWebGpuError::payload("focus uniform offset exceeds u32"))
        },
    }
}

/// Lower a focus schedule to its ordered full-screen passes. Planning fails
/// when a blur would sample the output surface or a pass's record offset
/// `index * stride` exceeds `u32`.
pub fn build_focus_passes(schedule: &FocusScheduleOutline, uniform_stride_bytes: u64) -> (r: Result<
    Vec<PlannedFocusPass>,
    LodWebGpuError,
>)
    ensures
        r is Ok <==> (blur_sources_sampleable(*schedule) && offsets_fit(
            focus_pass_skeletons(*schedule).len() as int,
            uniform_stride_bytes,
        )),
        r matches Err(e) ==> e is Payload,
        r matches Ok(passes) ==> {
            &&& passes@.len() == focus_pass_skeletons(*schedule).len()
            &&& forall|i: int|
                0 <= i < passes@.len() ==> #[trigger] passes@[i] == with_offset(
                    focus_pass_skeletons(*schedule)[i],
                    i * uniform_stride_bytes,
                )
        },
{
    let ghost skel = focus_pass_skeletons(*schedule);
    let ghost jfa_len = jfa_passes(schedule.jfa).len() as int;
    let k = schedule.kawase_passes;
    let stride = uniform_stride_bytes;
    let mut out: Vec<PlannedFocusPass> = Vec::new();
    proof {
        assert(skel.len() == 1 + jfa_len + 1 + k + schedule.directional_blurs@.len());
    }
    push_planned(
        &mut out,
        PlannedFocusPass {
            pipeline: FocusPipelineKind::SelectWeight,
            source_a: FocusTextureSlot::RawField,
            source_b: FocusTextureSlot::RawField,
            destination: FocusDestination::Texture(FocusTextureSlot::SelectedWeight),
            uniform: FocusUniformRole::SelectWeight,
            uniform_offset: 0,
            final_output: false,
        },
        stride,
        Ghost(skel),
    )?;
    let firmness_slot = match &schedule.jfa {
        Some(plan) => {
            proof {
                assert(skel[1] == jfa_passes(schedule.jfa)[0]);
            }
            push_planned(
                &mut out,
                PlannedFocusPass {
                    pipeline: FocusPipelineKind::JfaInit,
                    source_a: FocusTextureSlot::SelectedWeight,
                    source_b: FocusTextureSlot::SelectedWeight,
                    destination: FocusDestination::Texture(FocusTextureSlot::JfaPing),
                    uniform: FocusUniformRole::JfaInit,
                    uniform_offset: 0,
                    final_output: false,
                },
                stride,
                Ghost(skel),
            )?;
            let ghost steps = plan.primary_steps@ + plan.cleanup_steps@;
            let np = plan.primary_steps.len();
            let mut i: usize = 0;
            while i < np
                invariant
                    i <= np == plan.primary_steps@.len(),
                    steps == plan.primary_steps@ + plan.cleanup_steps@,
                    schedule.jfa == Some(*plan),
                    skel == focus_pass_skeletons(*schedule),
                    stride == uniform_stride_bytes,
                    jfa_len == 1 + steps.len(),
                    skel.len() == 1 + jfa_len + 1 + k + schedule.directional_blurs@.len(),
                    out@.len() == 2 + i,
                    planned_prefix(out@, skel, stride),
                decreases np - i,
            {
                let s = plan.primary_steps[i];
                proof {
                    assert(steps[i as int] == s);
                    assert(skel[2 + i] == jfa_passes(schedule.jfa)[1 + i]);
                }
                push_planned(
                    &mut out,
                    PlannedFocusPass {
                        pipeline: FocusPipelineKind::JfaStep,
                        source_a: jfa_slot(s.source),
                        source_b: jfa_slot(s.source),
                        destination: FocusDestination::Texture(jfa_slot(s.destination)),
                        uniform: FocusUniformRole::JfaStep { step: s.step },
                        uniform_offset: 0,
                        final_output: false,
                    },
                    stride,
                    Ghost(skel),
                )?;
                i = i + 1;
            }
            let nc = plan.cleanup_steps.len();
            let mut j: usize = 0;
            while j < nc
                invariant
                    j <= nc == plan.cleanup_steps@.len(),
                    np == plan.primary_steps@.len(),
                    steps == plan.primary_steps@ + plan.cleanup_steps@,
                    schedule.jfa == Some(*plan),
                    skel == focus_pass_skeletons(*schedule),
                    stride == uniform_stride_bytes,
                    jfa_len == 1 + steps.len(),
                    skel.len() == 1 + jfa_len + 1 + k + schedule.directional_blurs@.len(),
                    out@.len() == 2 + np + j,
                    planned_prefix(out@, skel, stride),
                decreases nc - j,
            {
                let s = plan.cleanup_steps[j];
                proof {
                    assert(steps[np + j] == s);
                    assert(skel[2 + np + j] == jfa_passes(schedule.jfa)[1 + np + j]);
                }
                push_planned(
                    &mut out,
                    PlannedFocusPass {
                        pipeline: FocusPipelineKind::JfaStep,
                        source_a: jfa_slot(s.source),
                        source_b: jfa_slot(s.source),
                        destination: FocusDestination::Texture(jfa_slot(s.destination)),
                        uniform: FocusUniformRole::JfaStep { step: s.step },
                        uniform_offset: 0,
                        final_output: false,
                    },
                    stride,
                    Ghost(skel),
                )?;
                j = j + 1;
            }
            jfa_slot(plan.final_buffer)
        },
        None => FocusTextureSlot::SelectedWeight,
    };
    proof {
        assert(out@.len() == 1 + jfa_len);
        assert(skel[1 + jfa_len] == pass_skeleton(
            FocusPipelineKind::Firmness,
            firmness_source(schedule.jfa),
            FocusTextureSlot::SelectedWeight,
            FocusDestination::Texture(FocusTextureSlot::Firmness),
            FocusUniformRole::Firmness,
            false,
        ));
    }
    push_planned(
        &mut out,
        PlannedFocusPass {
            pipeline: FocusPipelineKind::Firmness,
            source_a: firmness_slot,
            source_b: FocusTextureSlot::SelectedWeight,
            destination: FocusDestination::Texture(FocusTextureSlot::Firmness),
            uniform: FocusUniformRole::Firmness,
            uniform_offset: 0,
            final_output: false,
        },
        stride,
        Ghost(skel),
    )?;
    let mut mask = FocusTextureSlot::Firmness;
    let mut pass: u32 = 0;
    while pass < k
        invariant
            pass <= k == schedule.kawase_passes,
            skel == focus_pass_skeletons(*schedule),
            stride == uniform_stride_bytes,
            skel.len() == 1 + jfa_len + 1 + k + schedule.directional_blurs@.len(),
            out@.len() == 2 + jfa_len + pass,
            planned_prefix(out@, skel, stride),
            mask == kawase_mask(pass as int),
        decreases k - pass,
    {
        let destination = if matches!(mask, FocusTextureSlot::Firmness) {
            FocusTextureSlot::Kawase
        } else {
            FocusTextureSlot::Firmness
        };
        proof {
            assert(skel[2 + jfa_len + pass] == kawase_pass(pass as int));
            assert(destination == kawase_mask(pass + 1));
        }
        push_planned(
            &mut out,
            PlannedFocusPass {
                pipeline: FocusPipelineKind::Kawase,
                source_a: mask,
                source_b: mask,
                destination: FocusDestination::Texture(destination),
                uniform: FocusUniformRole::Kawase { pass },
                uniform_offset: 0,
                final_output: false,
            },
            stride,
            Ghost(skel),
        )?;
        mask = destination;
        pass = pass + 1;
    }
    let nb = schedule.directional_blurs.len();
    let mut b: usize = 0;
    while b < nb
        invariant
            b <= nb == schedule.directional_blurs@.len(),
            k == schedule.kawase_passes,
            skel == focus_pass_skeletons(*schedule),
            stride == uniform_stride_bytes,
            skel.len() == 1 + jfa_len + 1 + k + nb,
            out@.len() == 2 + jfa_len + k + b,
            planned_prefix(out@, skel, stride),
            mask == kawase_mask(k as int),
            forall|i: int| 0 <= i < b ==> (#[trigger] schedule.directional_blurs@[i]).source
                != FocusBlurSurface::Output,
        decreases nb - b,
    {
        let blur = schedule.directional_blurs[b];
        let source_a = blur_slot(blur.source)?;
        let destination = match blur.destination {
            FocusBlurSurface::Output => FocusDestination::Output,
            surface => FocusDestination::Texture(blur_slot(surface)?),
        };
        proof {
            assert(skel[2 + jfa_len + k + b] == blur_pass(blur, b as int, kawase_mask(k as int)));
        }
        push_planned(
            &mut out,
            PlannedFocusPass {
                pipeline: FocusPipelineKind::DirectionalBlur,
                source_a,
                source_b: mask,
                destination,
                uniform: FocusUniformRole::DirectionalBlur { index: b },
                uniform_offset: 0,
                final_output: blur.is_final,
            },
            stride,
            Ghost(skel),
        )?;
        b = b + 1;
    }
    Ok(out)
}

} // verus!

verus! {

/// Every planned pass samples a pair of textures for which the focus target
/// retains a bind group, so encoding never needs a binding that was not
/// created with the target.
pub proof fn lemma_planned_passes_use_retained_pairs(schedule: FocusScheduleOutline, i: int)
    requires
        0 <= i < focus_pass_skeletons(schedule).len(),
    ensures
        binding_pairs_spec().contains(
            (focus_pass_skeletons(schedule)[i].source_a, focus_pass_skeletons(schedule)[i].source_b),
        ),
{
    let skel = focus_pass_skeletons(schedule);
    let pairs = binding_pairs_spec();
    let jfa_len = jfa_passes(schedule.jfa).len() as int;
    let k = schedule.kawase_passes as int;
    let p = skel[i];
    if i == 0 {
        assert(pairs[0] == (p.source_a, p.source_b));
    } else if i < 1 + jfa_len {
        let plan = schedule.jfa->Some_0;
        let steps = plan.primary_steps@ + plan.cleanup_steps@;
        assert(p == jfa_passes(schedule.jfa)[i - 1]);
        if i == 1 {
            assert(pairs[1] == (p.source_a, p.source_b));
        } else {
            assert(p == jfa_step_pass(steps[i - 2]));
            match steps[i - 2].source {
                FocusPingPong::Ping => assert(pairs[2] == (p.source_a, p.source_b)),
                FocusPingPong::Pong => assert(pairs[3] == (p.source_a, p.source_b)),
            }
        }
    } else if i == 1 + jfa_len {
        match schedule.jfa {
            None => assert(pairs[1] == (p.source_a, p.source_b)),
            Some(plan) => match plan.final_buffer {
                FocusPingPong::Ping => assert(pairs[4] == (p.source_a, p.source_b)),
                FocusPingPong::Pong => assert(pairs[5] == (p.source_a, p.source_b)),
            },
        }
    } else if i < 2 + jfa_len + k {
        assert(p == kawase_pass(i - 2 - jfa_len));
        if (i - 2 - jfa_len) % 2 == 0 {
            assert(pairs[6] == (p.source_a, p.source_b));
        } else {
            assert(pairs[7] == (p.source_a, p.source_b));
        }
    } else {
        let b = i - 2 - jfa_len - k;
        let blur = schedule.directional_blurs@[b];
        assert(p == blur_pass(blur, b, kawase_mask(k)));
        let second = if k % 2 == 0 {
            0int
        } else {
            1int
        };
        match blur.source {
            FocusBlurSurface::Ping => assert(pairs[10 + second] == (p.source_a, p.source_b)),
            FocusBlurSurface::Pong => assert(pairs[12 + second] == (p.source_a, p.source_b)),
            _ => assert(pairs[8 + second] == (p.source_a, p.source_b)),
        }
    }
}

/// A schedule without jump flooding plans no jump-flood pass, and one with
/// jump flooding plans exactly one propagation pass per primary and cleanup
/// step: the plan has `3 + steps + kawase + blurs` passes (`2 + kawase +
/// blurs` without flooding).
pub proof fn lemma_focus_pass_count(schedule: FocusScheduleOutline)
    ensures
        focus_pass_skeletons(schedule).len() == 2 + schedule.kawase_passes
            + schedule.directional_blurs@.len() + match schedule.jfa {
            None => 0int,
            Some(plan) => (1 + plan.primary_steps@.len() + plan.cleanup_steps@.len()) as int,
        },
        schedule.jfa is None ==> forall|i: int|
            0 <= i < focus_pass_skeletons(schedule).len() ==> (#[trigger] focus_pass_skeletons(
                schedule,
            )[i]).pipeline != FocusPipelineKind::JfaInit && focus_pass_skeletons(schedule)[i].pipeline
                != FocusPipelineKind::JfaStep,
{
    let skel = focus_pass_skeletons(schedule);
    if schedule.jfa is None {
        assert forall|i: int| 0 <= i < skel.len() implies (#[trigger] skel[i]).pipeline
            != FocusPipelineKind::JfaInit && skel[i].pipeline != FocusPipelineKind::JfaStep by {
            let k = schedule.kawase_passes as int;
            if i >= 2 && i < 2 + k {
                assert(skel[i] == kawase_pass(i - 2));
            } else if i >= 2 + k {
                assert(skel[i] == blur_pass(
                    schedule.directional_blurs@[i - 2 - k],
                    i - 2 - k,
                    kawase_mask(k),
                ));
            }
        }
    }
}

/// The kind of the pass at index `i` of a schedule's plan: the first pass
/// selects weights from the raw field into the selected-weight texture; the
/// only jump-flood initialization is the second pass, and it exists exactly
/// when the schedule has a jump-flood plan; the Kawase passes are the
/// `kawase_passes` consecutive passes after the firmness pass.
pub proof fn lemma_focus_pass_kinds(schedule: FocusScheduleOutline, i: int)
    requires
        0 <= i < focus_pass_skeletons(schedule).len(),
    ensures
        focus_pass_skeletons(schedule)[0] == pass_skeleton(
            FocusPipelineKind::SelectWeight,
            FocusTextureSlot::RawField,
            FocusTextureSlot::RawField,
            FocusDestination::Texture(FocusTextureSlot::SelectedWeight),
            FocusUniformRole::SelectWeight,
            false,
        ),
        (focus_pass_skeletons(schedule)[i].pipeline == FocusPipelineKind::JfaInit) <==> (
        schedule.jfa is Some && i == 1),
        (focus_pass_skeletons(schedule)[i].pipeline == FocusPipelineKind::Kawase) <==> (2
            + jfa_passes(schedule.jfa).len() <= i < 2 + jfa_passes(schedule.jfa).len()
            + schedule.kawase_passes),
{
    let skel = focus_pass_skeletons(schedule);
    let jfa_len = jfa_passes(schedule.jfa).len() as int;
    let k = schedule.kawase_passes as int;
    let p = skel[i];
    if i == 0 {
    } else if i < 1 + jfa_len {
        let plan = schedule.jfa->Some_0;
        let steps = plan.primary_steps@ + plan.cleanup_steps@;
        assert(p == jfa_passes(schedule.jfa)[i - 1]);
        if i > 1 {
            assert(p == jfa_step_pass(steps[i - 2]));
        }
    } else if i == 1 + jfa_len {
    } else if i < 2 + jfa_len + k {
        assert(p == kawase_pass(i - 2 - jfa_len));
    } else {
        let b = i - 2 - jfa_len - k;
        assert(p == blur_pass(schedule.directional_blurs@[b], b, kawase_mask(k)));
    }
}

/// Passes among the first `n` that run `kind`.
pub open spec fn kind_count(passes: Seq<PlannedFocusPass>, kind: FocusPipelineKind, n: int) -> nat
    decreases n,
{
    if n <= 0 {
        0
    } else {
        kind_count(passes, kind, n - 1) + if passes[n - 1].pipeline == kind {
            1nat
        } else {
            0nat
        }
    }
}

proof fn lemma_kind_counts_prefix(
    schedule: FocusScheduleOutline,
    passes: Seq<PlannedFocusPass>,
    n: int,
)
    requires
        0 <= n <= passes.len(),
        forall|i: int|
            0 <= i < passes.len() ==> ((#[trigger] passes[i]).pipeline == FocusPipelineKind::JfaInit
                <==> (schedule.jfa is Some && i == 1)),
        forall|i: int|
            0 <= i < passes.len() ==> ((#[trigger] passes[i]).pipeline == FocusPipelineKind::Kawase
                <==> (2 + jfa_passes(schedule.jfa).len() <= i < 2 + jfa_passes(schedule.jfa).len()
                + schedule.kawase_passes)),
    ensures
        kind_count(passes, FocusPipelineKind::JfaInit, n) == if schedule.jfa is Some && n > 1 {
            1nat
        } else {
            0nat
        },
        ({
            let lo = 2 + jfa_passes(schedule.jfa).len();
            let hi = lo + schedule.kawase_passes;
            kind_count(passes, FocusPipelineKind::Kawase, n) == if n <= lo {
                0
            } else if n <= hi {
                n - lo
            } else {
                hi - lo
            }
        }),
    decreases n,
{
    if n > 0 {
        lemma_kind_counts_prefix(schedule, passes, n - 1);
        assert(passes[n - 1].pipeline == passes[n - 1].pipeline);
    }
}

/// The same holds of the passes a schedule is built into: each built pass is
/// its skeleton with a uniform offset, so the first selects weights from the
/// raw field, there is one jump-flood initialization exactly when the
/// schedule has a plan (and none otherwise), and exactly `kawase_passes`
/// Kawase passes.
pub proof fn lemma_built_focus_pass_kinds(
    schedule: FocusScheduleOutline,
    passes: Seq<PlannedFocusPass>,
    stride: u64,
)
    requires
        passes.len() == focus_pass_skeletons(schedule).len(),
        forall|i: int|
            0 <= i < passes.len() ==> #[trigger] passes[i] == with_offset(
                focus_pass_skeletons(schedule)[i],
                i * stride,
            ),
    ensures
        passes[0].pipeline == FocusPipelineKind::SelectWeight,
        passes[0].source_a == FocusTextureSlot::RawField,
        passes[0].source_b == FocusTextureSlot::RawField,
        passes[0].destination == FocusDestination::Texture(FocusTextureSlot::SelectedWeight),
        forall|i: int|
            0 <= i < passes.len() ==> ((#[trigger] passes[i]).pipeline == FocusPipelineKind::JfaInit
                <==> (schedule.jfa is Some && i == 1)),
        forall|i: int|
            0 <= i < passes.len() ==> ((#[trigger] passes[i]).pipeline == FocusPipelineKind::Kawase
                <==> (2 + jfa_passes(schedule.jfa).len() <= i < 2 + jfa_passes(schedule.jfa).len()
                + schedule.kawase_passes)),
        kind_count(passes, FocusPipelineKind::JfaInit, passes.len() as int) == if schedule.jfa is Some {
            1nat
        } else {
            0nat
        },
        kind_count(passes, FocusPipelineKind::Kawase, passes.len() as int) == schedule.kawase_passes,
{
    lemma_focus_pass_count(schedule);
    assert(passes[0] == with_offset(focus_pass_skeletons(schedule)[0], 0 * stride));
    lemma_focus_pass_kinds(schedule, 0);
    assert forall|i: int| 0 <= i < passes.len() implies ((#[trigger] passes[i]).pipeline
        == FocusPipelineKind::JfaInit <==> (schedule.jfa is Some && i == 1)) && (passes[i].pipeline
        == FocusPipelineKind::Kawase <==> (2 + jfa_passes(schedule.jfa).len() <= i < 2 + jfa_passes(
        schedule.jfa,
    ).len() + schedule.kawase_passes)) by {
        lemma_focus_pass_kinds(schedule, i);
    }
    match schedule.jfa {
        None => assert(jfa_passes(schedule.jfa).len() == 0),
        Some(plan) => assert(jfa_passes(schedule.jfa).len() == 1 + plan.primary_steps@.len()
            + plan.cleanup_steps@.len()),
    }
    lemma_kind_counts_prefix(schedule, passes, passes.len() as int);
}

/// The textures each built pass reads and writes. Every jump-flood step
/// samples the buffer its step names as source and writes the buffer it names
/// as destination (primary steps from the third pass on, then cleanup
/// steps); the firmness pass reads the buffer the flood finished in (the
/// selected weights when there is no flood); Kawase pass `p` reads the
/// firmness texture and writes the Kawase scratch when `p` is even, and the
/// other way round when odd; each directional blur samples its source
/// surface and the last Kawase mask and writes its destination surface, the
/// output only for a blur that names the output.
pub proof fn lemma_built_focus_pass_bindings(
    schedule: FocusScheduleOutline,
    passes: Seq<PlannedFocusPass>,
    stride: u64,
)
    requires
        passes.len() == focus_pass_skeletons(schedule).len(),
        forall|i: int|
            0 <= i < passes.len() ==> #[trigger] passes[i] == with_offset(
                focus_pass_skeletons(schedule)[i],
                i * stride,
            ),
    ensures
        schedule.jfa matches Some(plan) ==> {
            &&& passes[1].source_a == FocusTextureSlot::SelectedWeight
            &&& passes[1].destination == FocusDestination::Texture(FocusTextureSlot::JfaPing)
            &&& forall|p: int|
                0 <= p < plan.primary_steps@.len() ==> {
                    let s = #[trigger] plan.primary_steps@[p];
                    &&& passes[2 + p].pipeline == FocusPipelineKind::JfaStep
                    &&& passes[2 + p].source_a == (if s.source == FocusPingPong::Ping {
                        FocusTextureSlot::JfaPing
                    } else {
                        FocusTextureSlot::JfaPong
                    })
                    &&& passes[2 + p].source_b == passes[2 + p].source_a
                    &&& passes[2 + p].destination == FocusDestination::Texture(
                        if s.destination == FocusPingPong::Ping {
                            FocusTextureSlot::JfaPing
                        } else {
                            FocusTextureSlot::JfaPong
                        },
                    )
                    &&& passes[2 + p].uniform == FocusUniformRole::JfaStep { step: s.step }
                }
            &&& forall|c: int|
                0 <= c < plan.cleanup_steps@.len() ==> {
                    let s = #[trigger] plan.cleanup_steps@[c];
                    let q = passes[2 + plan.primary_steps@.len() + c];
                    &&& q.pipeline == FocusPipelineKind::JfaStep
                    &&& q.source_a == (if s.source == FocusPingPong::Ping {
                        FocusTextureSlot::JfaPing
                    } else {
                        FocusTextureSlot::JfaPong
                    })
                    &&& q.source_b == q.source_a
                    &&& q.destination == FocusDestination::Texture(
                        if s.destination == FocusPingPong::Ping {
                            FocusTextureSlot::JfaPing
                        } else {
                            FocusTextureSlot::JfaPong
                        },
                    )
                    &&& q.uniform == FocusUniformRole::JfaStep { step: s.step }
                }
        },
        ({
            let f = match schedule.jfa {
                None => 1int,
                Some(plan) => (2 + plan.primary_steps@.len() + plan.cleanup_steps@.len()) as int,
            };
            let k = schedule.kawase_passes as int;
            &&& passes[f].pipeline == FocusPipelineKind::Firmness
            &&& passes[f].source_a == match schedule.jfa {
                None => FocusTextureSlot::SelectedWeight,
                Some(plan) => if plan.final_buffer == FocusPingPong::Ping {
                    FocusTextureSlot::JfaPing
                } else {
                    FocusTextureSlot::JfaPong
                },
            }
            &&& passes[f].source_b == FocusTextureSlot::SelectedWeight
            &&& passes[f].destination == FocusDestination::Texture(FocusTextureSlot::Firmness)
            &&& passes[f].uniform == FocusUniformRole::Firmness
            &&& forall|p: int|
                0 <= p < k ==> {
                    let q = #[trigger] passes[f + 1 + p];
                    &&& q.pipeline == FocusPipelineKind::Kawase
                    &&& q.uniform == FocusUniformRole::Kawase { pass: p as u32 }
                    &&& q.source_a == (if p % 2 == 0 {
                        FocusTextureSlot::Firmness
                    } else {
                        FocusTextureSlot::Kawase
                    })
                    &&& q.source_b == q.source_a
                    &&& q.destination == FocusDestination::Texture(
                        if p % 2 == 0 {
                            FocusTextureSlot::Kawase
                        } else {
                            FocusTextureSlot::Firmness
                        },
                    )
                }
            &&& forall|b: int|
                0 <= b < schedule.directional_blurs@.len() ==> {
                    let blur = #[trigger] schedule.directional_blurs@[b];
                    let q = passes[f + 1 + k + b];
                    &&& q.pipeline == FocusPipelineKind::DirectionalBlur
                    &&& q.uniform == FocusUniformRole::DirectionalBlur { index: b as usize }
                    &&& (blur.source == FocusBlurSurface::Scene ==> q.source_a
                        == FocusTextureSlot::Scene)
                    &&& (blur.source == FocusBlurSurface::Ping ==> q.source_a
                        == FocusTextureSlot::BlurPing)
                    &&& (blur.source == FocusBlurSurface::Pong ==> q.source_a
                        == FocusTextureSlot::BlurPong)
                    &&& q.source_b == (if k % 2 == 0 {
                        FocusTextureSlot::Firmness
                    } else {
                        FocusTextureSlot::Kawase
                    })
                    &&& (q.destination == FocusDestination::Output <==> blur.destination
                        == FocusBlurSurface::Output)
                    &&& (blur.destination == FocusBlurSurface::Ping ==> q.destination
                        == FocusDestination::Texture(FocusTextureSlot::BlurPing))
                    &&& (blur.destination == FocusBlurSurface::Pong ==> q.destination
                        == FocusDestination::Texture(FocusTextureSlot::BlurPong))
                    &&& (blur.destination == FocusBlurSurface::Scene ==> q.destination
                        == FocusDestination::Texture(FocusTextureSlot::Scene))
                    &&& q.final_output == blur.is_final
                }
        }),
{
    let skel = focus_pass_skeletons(schedule);
    let jfa_len = jfa_passes(schedule.jfa).len() as int;
    let k = schedule.kawase_passes as int;
    lemma_focus_pass_count(schedule);
    match schedule.jfa {
        None => assert(jfa_len == 0),
        Some(plan) => {
            assert(jfa_len == 1 + plan.primary_steps@.len() + plan.cleanup_steps@.len());
            let steps = plan.primary_steps@ + plan.cleanup_steps@;
            let np = plan.primary_steps@.len() as int;
            assert(passes[1] == with_offset(skel[1], 1 * stride));
            assert(skel[1] == jfa_passes(schedule.jfa)[0]);
            assert forall|p: int| 0 <= p < np implies {
                let s = #[trigger] plan.primary_steps@[p];
                &&& passes[2 + p].pipeline == FocusPipelineKind::JfaStep
                &&& passes[2 + p].source_a == (if s.source == FocusPingPong::Ping {
                    FocusTextureSlot::JfaPing
                } else {
                    FocusTextureSlot::JfaPong
                })
                &&& passes[2 + p].source_b == passes[2 + p].source_a
                &&& passes[2 + p].destination == FocusDestination::Texture(
                    if s.destination == FocusPingPong::Ping {
                        FocusTextureSlot::JfaPing
                    } else {
                        FocusTextureSlot::JfaPong
                    },
                )
                &&& passes[2 + p].uniform == FocusUniformRole::JfaStep { step: s.step }
            } by {
                assert(passes[2 + p] == with_offset(skel[2 + p], (2 + p) * stride));
                assert(skel[2 + p] == jfa_passes(schedule.jfa)[1 + p]);
                assert(steps[p] == plan.primary_steps@[p]);
                assert(jfa_passes(schedule.jfa)[1 + p] == jfa_step_pass(steps[p]));
            }
            assert forall|c: int| 0 <= c < plan.cleanup_steps@.len() implies {
                let s = #[trigger] plan.cleanup_steps@[c];
                let q = passes[2 + plan.primary_steps@.len() + c];
                &&& q.pipeline == FocusPipelineKind::JfaStep
                &&& q.source_a == (if s.source == FocusPingPong::Ping {
                    FocusTextureSlot::JfaPing
                } else {
                    FocusTextureSlot::JfaPong
                })
                &&& q.source_b == q.source_a
                &&& q.destination == FocusDestination::Texture(
                    if s.destination == FocusPingPong::Ping {
                        FocusTextureSlot::JfaPing
                    } else {
                        FocusTextureSlot::JfaPong
                    },
                )
                &&& q.uniform == FocusUniformRole::JfaStep { step: s.step }
            } by {
                let i = 2 + np + c;
                assert(passes[i] == with_offset(skel[i], i * stride));
                assert(skel[i] == jfa_passes(schedule.jfa)[1 + np + c]);
                assert(steps[np + c] == plan.cleanup_steps@[c]);
                assert(jfa_passes(schedule.jfa)[1 + np + c] == jfa_step_pass(steps[np + c]));
            }
        },
    }
    let f = 1 + jfa_len;
    assert(passes[f] == with_offset(skel[f], f * stride));
    assert forall|p: int| 0 <= p < k implies {
        let q = #[trigger] passes[f + 1 + p];
        &&& q.pipeline == FocusPipelineKind::Kawase
        &&& q.uniform == FocusUniformRole::Kawase { pass: p as u32 }
        &&& q.source_a == (if p % 2 == 0 {
            FocusTextureSlot::Firmness
        } else {
            FocusTextureSlot::Kawase
        })
        &&& q.source_b == q.source_a
        &&& q.destination == FocusDestination::Texture(
            if p % 2 == 0 {
                FocusTextureSlot::Kawase
            } else {
                FocusTextureSlot::Firmness
            },
        )
    } by {
        assert(passes[f + 1 + p] == with_offset(skel[f + 1 + p], (f + 1 + p) * stride));
        assert(skel[f + 1 + p] == kawase_pass(p));
        assert((p + 1) % 2 == if p % 2 == 0 { 1int } else { 0int });
    }
    assert forall|b: int| 0 <= b < schedule.directional_blurs@.len() implies {
        let blur = #[trigger] schedule.directional_blurs@[b];
        let q = passes[f + 1 + k + b];
        &&& q.pipeline == FocusPipelineKind::DirectionalBlur
        &&& q.uniform == FocusUniformRole::DirectionalBlur { index: b as usize }
        &&& (blur.source == FocusBlurSurface::Scene ==> q.source_a == FocusTextureSlot::Scene)
        &&& (blur.source == FocusBlurSurface::Ping ==> q.source_a == FocusTextureSlot::BlurPing)
        &&& (blur.source == FocusBlurSurface::Pong ==> q.source_a == FocusTextureSlot::BlurPong)
        &&& q.source_b == (if k % 2 == 0 {
            FocusTextureSlot::Firmness
        } else {
            FocusTextureSlot::Kawase
        })
        &&& (q.destination == FocusDestination::Output <==> blur.destination
            == FocusBlurSurface::Output)
        &&& (blur.destination == FocusBlurSurface::Ping ==> q.destination
            == FocusDestination::Texture(FocusTextureSlot::BlurPing))
        &&& (blur.destination == FocusBlurSurface::Pong ==> q.destination
            == FocusDestination::Texture(FocusTextureSlot::BlurPong))
        &&& (blur.destination == FocusBlurSurface::Scene ==> q.destination
            == FocusDestination::Texture(FocusTextureSlot::Scene))
        &&& q.final_output == blur.is_final
    } by {
        let i = f + 1 + k + b;
        assert(passes[i] == with_offset(skel[i], i * stride));
        assert(skel[i] == blur_pass(schedule.directional_blurs@[b], b, kawase_mask(k)));
    }
}

/// Where the offsets fit `u32`, the `i`-th built pass reads its uniform
/// record at byte `i * stride`.
pub proof fn lemma_built_focus_pass_offsets(
    schedule: FocusScheduleOutline,
    passes: Seq<PlannedFocusPass>,
    stride: u64,
)
    requires
        passes.len() == focus_pass_skeletons(schedule).len(),
        forall|i: int|
            0 <= i < passes.len() ==> #[trigger] passes[i] == with_offset(
                focus_pass_skeletons(schedule)[i],
                i * stride,
            ),
        offsets_fit(passes.len() as int, stride),
    ensures
        forall|i: int| 0 <= i < passes.len() ==> (#[trigger] passes[i]).uniform_offset == i * stride,
{
    assert forall|i: int| 0 <= i < passes.len() implies (#[trigger] passes[i]).uniform_offset == i
        * stride by {
        assert(0 <= i * stride <= (passes.len() - 1) * stride) by (nonlinear_arith)
            requires
                0 <= i <= passes.len() - 1,
                stride >= 0,
        ;
    }
}

/// The last planned pass is the last directional blur: when that blur writes
/// the output surface, the plan finishes in the caller's output view.
pub proof fn lemma_focus_plan_finishes_with_last_blur(schedule: FocusScheduleOutline)
    requires
        schedule.directional_blurs@.len() > 0,
    ensures
        ({
            let skel = focus_pass_skeletons(schedule);
            let last = schedule.directional_blurs@.last();
            &&& skel.last().pipeline == FocusPipelineKind::DirectionalBlur
            &&& skel.last().final_output == last.is_final
            &&& (last.destination == FocusBlurSurface::Output ==> skel.last().destination
                == FocusDestination::Output)
        }),
{
    let skel = focus_pass_skeletons(schedule);
    let n = schedule.directional_blurs@.len() as int;
    let k = schedule.kawase_passes as int;
    assert(skel.last() == blur_pass(schedule.directional_blurs@[n - 1], n - 1, kawase_mask(k)));
}

} // verus!

verus! {

/// Facts about one encoded focus composition.
#[derive(Clone, Copy, Debug, PartialEq, Eq, Structural)]
pub struct FocusPostprocessEncoding {
    pub render_passes: u32,
    pub primary_jfa_passes: u32,
    pub cleanup_jfa_passes: u32,
    pub kawase_passes: u32,
    pub directional_blur_passes: u32,
    pub uniform_upload_bytes: u64,
}

/// The encoding facts of a plan of `pass_count` passes.
pub open spec fn focus_encoding_spec(
    schedule: FocusScheduleOutline,
    pass_count: int,
    stride: u64,
) -> FocusPostprocessEncoding {
    FocusPostprocessEncoding {
        render_passes: pass_count as u32,
        primary_jfa_passes: match schedule.jfa {
            None => 0,
            Some(plan) => plan.primary_steps@.len() as u32,
        },
        cleanup_jfa_passes: match schedule.jfa {
            None => 0,
            Some(plan) => plan.cleanup_steps@.len() as u32,
        },
        kawase_passes: schedule.kawase_passes,
        directional_blur_passes: schedule.directional_blurs@.len() as u32,
        uniform_upload_bytes: (pass_count * stride) as u64,
    }
}

/// `wgpu::TextureFormat`, carried through as an opaque value.
#[verifier::external_type_specification]
#[verifier::external_body]
pub struct ExTextureFormat(wgpu::TextureFormat);

/// `<wgpu::TextureFormat as PartialEq>::eq`, which wgpu-types derives: two
/// formats compare equal exactly when they are the same format.
#[verifier::external_body]
fn same_texture_format(a: wgpu::TextureFormat, b: wgpu::TextureFormat) -> (same: bool)
    ensures
        same == (a == b),
{
    a == b
}

/// Plan one focus composition and summarize it. The focus target and the
/// post-processing pipelines must write the same output format; beyond
/// planning failures, a plan with more passes than the retained uniform
/// table holds is rejected. Nothing is planned when either check fails.
pub fn plan_focus_encoding(
    target_output_format: wgpu::TextureFormat,
    pipeline_output_format: wgpu::TextureFormat,
    schedule: &FocusScheduleOutline,
    uniform_stride_bytes: u64,
) -> (r: Result<(Vec<PlannedFocusPass>, FocusPostprocessEncoding), LodWebGpuError>)
    requires
        uniform_stride_bytes <= 0xffff_ffff,
    ensures
        r is Ok <==> (target_output_format == pipeline_output_format && blur_sources_sampleable(
            *schedule,
        ) && offsets_fit(
            focus_pass_skeletons(*schedule).len() as int,
            uniform_stride_bytes,
        ) && focus_pass_skeletons(*schedule).len() <= FOCUS_PASS_CAPACITY),
        r matches Err(e) ==> e is Payload,
        r matches Ok((passes, encoding)) ==> {
            &&& passes@.len() == focus_pass_skeletons(*schedule).len()
            &&& forall|i: int|
                0 <= i < passes@.len() ==> #[trigger] passes@[i] == with_offset(
                    focus_pass_skeletons(*schedule)[i],
                    i * uniform_stride_bytes,
                )
            &&& encoding == focus_encoding_spec(
                *schedule,
                passes@.len() as int,
                uniform_stride_bytes,
            )
        },
{
    if !same_texture_format(target_output_format, pipeline_output_format) {
        return Err(LodWebGpuError::payload("focus target and pipeline output formats differ"));
    }
    let passes = build_focus_passes(schedule, uniform_stride_bytes)?;
    if passes.len() > FOCUS_PASS_CAPACITY {
        return Err(LodWebGpuError::payload("focus schedule exceeds the retained pass capacity"));
    }
    let count = passes.len();
    let (primary, cleanup) = match &schedule.jfa {
        None => (0u32, 0u32),
        Some(plan) => (plan.primary_steps.len() as u32, plan.cleanup_steps.len() as u32),
    };
    proof {
        assert(count * uniform_stride_bytes <= 64 * 0xffff_ffff) by (nonlinear_arith)
            requires
                count <= 64,
                uniform_stride_bytes <= 0xffff_ffff,
        ;
    }
    let encoding = FocusPostprocessEncoding {
        render_passes: count as u32,
        primary_jfa_passes: primary,
        cleanup_jfa_passes: cleanup,
        kawase_passes: schedule.kawase_passes,
        directional_blur_passes: schedule.directional_blurs.len() as u32,
        uniform_upload_bytes: count as u64 * uniform_stride_bytes,
    };
    Ok((passes, encoding))
}

/// The pass uniform table: one zero-padded record of `stride / 4` words per
/// pass, each beginning with that pass's sixteen words.
pub open spec fn focus_uniform_table(records: Seq<[u32; 16]>, stride_words: int) -> Seq<u32> {
    Seq::new(
        (records.len() * stride_words) as nat,
        |w: int|
            if w % stride_words < 16 {
                records[w / stride_words]@[w % stride_words]
            } else {
                0u32
            },
    )
}

/// Lay out per-pass uniform records at the device-aligned stride.
pub fn pack_focus_uniform_words(records: &[[u32; 16]], uniform_stride_bytes: u64) -> (words: Vec<u32>)
    requires
        uniform_stride_bytes / 4 >= 16,
        uniform_stride_bytes / 4 <= usize::MAX,
        records@.len() * (uniform_stride_bytes / 4) <= usize::MAX,
    ensures
        words@ == focus_uniform_table(records@, (uniform_stride_bytes / 4) as int),
{
    let ghost sw = (uniform_stride_bytes / 4) as int;
    let stride_words = (uniform_stride_bytes / 4) as usize;
    let count = records.len() * stride_words;
    let mut words: Vec<u32> = Vec::new();
    let mut w: usize = 0;
    while w < count
        invariant
            w <= count,
            count == records@.len() * sw,
            stride_words == sw,
            sw >= 16,
            words@ == focus_uniform_table(records@, sw).subrange(0, w as int),
        decreases count - w,
    {
        let row = w / stride_words;
        let col = w % stride_words;
        proof {
            assert(row < records@.len()) by (nonlinear_arith)
                requires
                    w < count,
                    count == records@.len() * sw,
                    row == w / stride_words,
                    stride_words == sw,
                    sw >= 16,
            ;
        }
        let value = if col < 16 {
            records[row][col]
        } else {
            0
        };
        words.push(value);
        w = w + 1;
        assert(words@ =~= focus_uniform_table(records@, sw).subrange(0, w as int));
    }
    words
}

/// Bytes of one pass record at the device's uniform offset alignment.
pub fn focus_uniform_stride(min_uniform_buffer_offset_alignment: u32) -> (stride: u64)
    ensures
        stride == align_up_spec(FOCUS_PASS_UNIFORM_BYTES, min_uniform_buffer_offset_alignment as u64),
        stride >= FOCUS_PASS_UNIFORM_BYTES,
{
    let a = min_uniform_buffer_offset_alignment as u64;
    proof {
        let al: int = if a == 0 {
            1
        } else {
            a as int
        };
        assert(align_up_spec(64, a) <= 0x1_0000_0040) by (nonlinear_arith)
            requires
                al >= 1,
                al <= 0xffff_ffff,
                align_up_spec(64, a) == ((64 + al - 1) / al) * al,
        {
            assert((64 + al - 1) / al <= 64);
        }
        assert(align_up_spec(64, a) >= 64) by (nonlinear_arith)
            requires
                al >= 1,
                align_up_spec(64, a) == ((64 + al - 1) / al) * al,
        ;
    }
    align_up(FOCUS_PASS_UNIFORM_BYTES, a)
}

/// A focus target's extent must be nonempty and within the device's 2D
/// texture limit.
pub fn validate_focus_target_size(size: [u32; 2], max_texture_dimension_2d: u32) -> (r: Result<
    (),
    LodWebGpuError,
>)
    ensures
        r is Ok <==> (size[0] != 0 && size[1] != 0 && size[0] <= max_texture_dimension_2d
            && size[1] <= max_texture_dimension_2d),
        r matches Err(e) ==> e is Payload,
{
    if size[0] == 0 || size[1] == 0 {
        return Err(LodWebGpuError::payload("focus postprocess target dimensions must be nonzero"));
    }
    if size[0] > max_texture_dimension_2d || size[1] > max_texture_dimension_2d {
        return Err(LodWebGpuError::payload("focus postprocess target exceeds the device limit"));
    }
    Ok(())
}

} // verus!

verus! {

/// Bytes of one RGBA16F texel of the raw focus field.
pub const FOCUS_RAW_FIELD_BYTES_PER_TEXEL: u32 = 8;

/// The raw focus field of one readback as binary16 bit patterns, row-major.
#[derive(Clone, Debug, PartialEq, Eq)]
pub struct FocusRawFieldBits {
    pub size: [u32; 2],
    pub texels: Vec<[u16; 4]>,
}

/// The four little-endian binary16 channels of the texel at byte `start`.
pub open spec fn raw_texel_bits(bytes: Seq<u8>, start: int) -> Seq<u16> {
    seq![
        crate::layout::le_u16(bytes[start], bytes[start + 1]),
        crate::layout::le_u16(bytes[start + 2], bytes[start + 3]),
        crate::layout::le_u16(bytes[start + 4], bytes[start + 5]),
        crate::layout::le_u16(bytes[start + 6], bytes[start + 7]),
    ]
}

/// A mapping of `height` rows at pitch `bytes_per_row` holds whole payload
/// rows of `width` texels.
pub open spec fn raw_field_mapping_valid(len: int, size: [u32; 2], bytes_per_row: int) -> bool {
    &&& size[0] * 8 <= usize::MAX
    &&& bytes_per_row * size[1] <= usize::MAX
    &&& bytes_per_row >= size[0] * 8
    &&& len >= bytes_per_row * size[1]
}

/// Decode a mapped raw-field readback, discarding row padding. A mapping
/// whose pitch or length cannot hold the payload is a mapping error.
pub fn decode_focus_raw_field_bits(bytes: &[u8], size: [u32; 2], bytes_per_row: usize) -> (r: Result<
    FocusRawFieldBits,
    LodWebGpuError,
>)
    requires
        bytes_per_row > 0 || size[0] > 0,
    ensures
        r is Ok <==> raw_field_mapping_valid(bytes@.len() as int, size, bytes_per_row as int),
        r matches Err(e) ==> e is Mapping,
        r matches Ok(image) ==> {
            &&& image.size == size
            &&& image.texels@.len() == size[0] * size[1]
            &&& forall|row: int, col: int|
                0 <= row < size[1] && 0 <= col < size[0] ==> (#[trigger] image.texels@[row * size[0]
                    + col])@ == raw_texel_bits(bytes@, row * bytes_per_row + col * 8)
        },
{
    let width = size[0] as usize;
    let height = size[1] as usize;
    let row_bytes = match width.checked_mul(8) {
        Some(v) => v,
        None => {
            return Err(LodWebGpuError::mapping("focus raw-field row length overflowed"));
        },
    };
    let required = match bytes_per_row.checked_mul(height) {
        Some(v) => v,
        None => {
            return Err(LodWebGpuError::mapping("focus raw-field mapped length overflowed"));
        },
    };
    let len = bytes.len();
    if bytes_per_row < row_bytes || len < required {
        return Err(LodWebGpuError::mapping("focus raw-field mapping is malformed"));
    }
    let mut texels: Vec<[u16; 4]> = Vec::new();
    let mut row: usize = 0;
    while row < height
        invariant
            row <= height == size[1],
            width == size[0],
            row_bytes == width * 8,
            bytes_per_row >= row_bytes,
            bytes@.len() >= bytes_per_row * height,
            len == bytes@.len(),
            texels@.len() == row * width,
            forall|r: int, c: int|
                0 <= r < row && 0 <= c < width ==> (#[trigger] texels@[r * width + c])@
                    == raw_texel_bits(bytes@, r * bytes_per_row + c * 8),
        decreases height - row,
    {
        proof {
            assert(row * bytes_per_row + bytes_per_row <= bytes_per_row * height) by (nonlinear_arith)
                requires
                    row < height,
            ;
        }
        let base = row * bytes_per_row;
        let mut col: usize = 0;
        while col < width
            invariant
                col <= width == size[0],
                row < height == size[1],
                row_bytes == width * 8,
                bytes_per_row >= row_bytes,
                base == row * bytes_per_row,
                base + bytes_per_row <= bytes@.len(),
                len == bytes@.len(),
                texels@.len() == row * width + col,
                forall|r: int, c: int|
                    (0 <= r < row && 0 <= c < width) || (r == row && 0 <= c < col) ==> (
                    #[trigger] texels@[r * width + c])@ == raw_texel_bits(
                        bytes@,
                        r * bytes_per_row + c * 8,
                    ),
            decreases width - col,
        {
            proof {
                assert(col * 8 + 8 <= width * 8) by (nonlinear_arith)
                    requires
                        col < width,
                ;
            }
            let start = base + col * 8;
            let texel: [u16; 4] = [
                bytes[start] as u16 + (bytes[start + 1] as u16) * 256,
                bytes[start + 2] as u16 + (bytes[start + 3] as u16) * 256,
                bytes[start + 4] as u16 + (bytes[start + 5] as u16) * 256,
                bytes[start + 6] as u16 + (bytes[start + 7] as u16) * 256,
            ];
            proof {
                assert(texel@ =~= raw_texel_bits(bytes@, row * bytes_per_row + col * 8));
                assert(row * width + col == texels@.len());
            }
            let ghost before = texels@;
            texels.push(texel);
            proof {
                assert forall|r: int, c: int|
                    (0 <= r < row && 0 <= c < width) || (r == row && 0 <= c < col + 1) implies (
                    #[trigger] texels@[r * width + c])@ == raw_texel_bits(
                        bytes@,
                        r * bytes_per_row + c * 8,
                    ) by {
                    if r < row {
                        assert(r * width + c < row * width) by (nonlinear_arith)
                            requires
                                r < row,
                                c < width,
                        ;
                        assert(texels@[r * width + c] == before[r * width + c]);
                    } else if c < col {
                        assert(texels@[r * width + c] == before[r * width + c]);
                    }
                }
            }
            col = col + 1;
        }
        row = row + 1;
        proof {
            assert((row - 1) * width + width == row * width) by (nonlinear_arith);
        }
    }
    proof {
        assert(texels@.len() == size[0] * size[1]) by (nonlinear_arith)
            requires
                texels@.len() == height * width,
                height == size[1],
                width == size[0],
        ;
    }
    Ok(FocusRawFieldBits { size, texels })
}


/// Coverage of a raw-field texel: its binary16 alpha exceeds one half (NaN
/// never does).
pub open spec fn texel_covered(texel: [u16; 4]) -> bool {
    0x3800 < texel[3] <= 0x7c00
}

/// Number of covered texels among the first `n`.
pub open spec fn covered_count(texels: Seq<[u16; 4]>, n: int) -> nat
    decreases n,
{
    if n <= 0 {
        0
    } else {
        covered_count(texels, n - 1) + if texel_covered(texels[n - 1]) {
            1nat
        } else {
            0nat
        }
    }
}

impl FocusRawFieldBits {
    /// Texels whose alpha exceeds one half.
    pub fn covered_texels(&self) -> (n: usize)
        ensures
            n == covered_count(self.texels@, self.texels@.len() as int),
    {
        let mut n: usize = 0;
        let mut i: usize = 0;
        while i < self.texels.len()
            invariant
                i <= self.texels@.len(),
                n == covered_count(self.texels@, i as int),
                n <= i,
            decreases self.texels@.len() - i,
        {
            let alpha = self.texels[i][3];
            if 0x3800 < alpha && alpha <= 0x7c00 {
                n = n + 1;
            }
            i = i + 1;
        }
        n
    }

    /// Smallest and largest finite value of `channel` over the covered
    /// texels, as binary16 bit patterns; `None` for a channel beyond the
    /// fourth or when no covered texel holds a finite value there. (Where the
    /// extreme is a zero, either sign may be reported.)
    pub fn covered_channel_range(&self, channel: usize) -> (r: Option<[u16; 2]>)
        ensures
            channel >= 4 ==> r is None,
            channel < 4 ==> (r is None <==> !exists|i: int|
                0 <= i < self.texels@.len() && #[trigger] channel_sample(
                    self.texels@[i],
                    channel as int,
                )),
            r matches Some(range) ==> {
                &&& exists|i: int|
                    0 <= i < self.texels@.len() && #[trigger] channel_sample(
                        self.texels@[i],
                        channel as int,
                    ) && self.texels@[i][channel as int] == range[0]
                &&& exists|i: int|
                    0 <= i < self.texels@.len() && #[trigger] channel_sample(
                        self.texels@[i],
                        channel as int,
                    ) && self.texels@[i][channel as int] == range[1]
                &&& forall|i: int|
                    0 <= i < self.texels@.len() && #[trigger] channel_sample(
                        self.texels@[i],
                        channel as int,
                    ) ==> half_order(range[0]) <= half_order(self.texels@[i][channel as int])
                        <= half_order(range[1])
            },
    {
        if channel >= 4 {
            return None;
        }
        let mut range: Option<[u16; 2]> = None;
        let mut i: usize = 0;
        while i < self.texels.len()
            invariant
                channel < 4,
                i <= self.texels@.len(),
                range is None <==> !exists|k: int|
                    0 <= k < i && #[trigger] channel_sample(self.texels@[k], channel as int),
                range matches Some(rg) ==> {
                    &&& exists|k: int|
                        0 <= k < i && #[trigger] channel_sample(self.texels@[k], channel as int)
                            && self.texels@[k][channel as int] == rg[0]
                    &&& exists|k: int|
                        0 <= k < i && #[trigger] channel_sample(self.texels@[k], channel as int)
                            && self.texels@[k][channel as int] == rg[1]
                    &&& forall|k: int|
                        0 <= k < i && #[trigger] channel_sample(self.texels@[k], channel as int)
                            ==> half_order(rg[0]) <= half_order(self.texels@[k][channel as int])
                            <= half_order(rg[1])
                },
            decreases self.texels@.len() - i,
        {
            let texel = self.texels[i];
            let value = texel[channel];
            let alpha = texel[3];
            if 0x3800 < alpha && alpha <= 0x7c00 && value & 0x7c00 != 0x7c00 {
                assert(channel_sample(self.texels@[i as int], channel as int));
                let key = half_order_key(value);
                range = match range {
                    None => Some([value, value]),
                    Some(rg) => {
                        let lo = if key < half_order_key(rg[0]) {
                            value
                        } else {
                            rg[0]
                        };
                        let hi = if key > half_order_key(rg[1]) {
                            value
                        } else {
                            rg[1]
                        };
                        Some([lo, hi])
                    },
                };
            } else {
                assert(!channel_sample(self.texels@[i as int], channel as int));
            }
            i = i + 1;
        }
        range
    }
}

/// A covered texel's `channel` holds a finite value.
pub open spec fn channel_sample(texel: [u16; 4], channel: int) -> bool {
    &&& texel_covered(texel)
    &&& texel[channel] & 0x7c00 != 0x7c00
}

/// The numeric order of finite binary16 values, read off their bits: the
/// magnitude for a positive value, its negation for a negative one (both
/// zeros at zero).
pub open spec fn half_order(bits: u16) -> int {
    if bits & 0x8000 == 0 {
        bits as int
    } else {
        -((bits & 0x7fff) as int)
    }
}

fn half_order_key(bits: u16) -> (key: i32)
    ensures
        key == half_order(bits),
{
    if bits & 0x8000 == 0 {
        bits as i32
    } else {
        -((bits & 0x7fff) as i32)
    }
}

/// The extent of the focus target a render resource set retains, if any.
#[derive(Clone, Copy, Debug)]
pub struct FocusTargetSlot {
    size: Option<[u32; 2]>,
}

impl FocusTargetSlot {
    /// The retained target's extent.
    pub closed spec fn size_view(&self) -> Option<[u32; 2]> {
        self.size
    }

    /// No target retained yet.
    pub fn new() -> (slot: Self)
        ensures
            slot.size_view() is None,
    {
        FocusTargetSlot { size: None }
    }

    /// The retained target's extent.
    pub fn size(&self) -> (size: Option<[u32; 2]>)
        ensures
            size == self.size_view(),
    {
        self.size
    }

    /// Keep one target for the current viewport: a target of this extent is
    /// kept (`Ok(false)`); otherwise a new one is created and replaces it
    /// (`Ok(true)`). Creation is refused for an empty extent or one beyond
    /// the device's 2D limit, and then the previous target stays retained.
    pub fn ensure(&mut self, size: [u32; 2], max_texture_dimension_2d: u32) -> (r: Result<
        bool,
        LodWebGpuError,
    >)
        ensures
            old(self).size_view() == Some(size) ==> r == Ok::<bool, LodWebGpuError>(false)
                && final(self).size_view() == old(self).size_view(),
            old(self).size_view() != Some(size) ==> {
                &&& r is Ok <==> (size[0] != 0 && size[1] != 0 && size[0] <= max_texture_dimension_2d
                    && size[1] <= max_texture_dimension_2d)
                &&& r is Ok ==> r == Ok::<bool, LodWebGpuError>(true) && final(self).size_view()
                    == Some(size)
                &&& r is Err ==> final(self).size_view() == old(self).size_view()
            },
            r matches Err(e) ==> e is Payload,
    {
        if let Some(current) = self.size {
            if current[0] == size[0] && current[1] == size[1] {
                assert(current =~= size);
                return Ok(false);
            }
        }
        validate_focus_target_size(size, max_texture_dimension_2d)?;
        self.size = Some(size);
        Ok(true)
    }
}

} // verus!
