use quilting_webgpu::focus::FocusTargetSlot;
use quilting_webgpu::atlas::{
    triangle_draws_for_scene, upload_packed_patch_atlas, PackedPatchAtlasEntry, RenderGeometry,
};
use quilting_webgpu::environment::{
    environment_face_readback, environment_face_size, irradiance_face_uploads,
    pbr_environment_uniform_words, prefiltered_face_uploads, rgba_face_component_len,
    validate_environment_face_sizes, CubeFaceUpload, EnvironmentMapDescriptor,
};
use quilting_webgpu::error::LodWebGpuError;
use quilting_webgpu::float_bits::u32_to_f32_bits;
use quilting_webgpu::focus::{
    align_up, build_focus_passes, focus_binding_pairs, focus_uniform_stride,
    pack_focus_uniform_words, plan_focus_encoding, validate_focus_target_size, FocusBlurSurface,
    FocusDestination, FocusDirectionalBlur, FocusJfaPlanOutline, FocusJfaStep, FocusPingPong,
    FocusPipelineKind, FocusScheduleOutline, FocusTextureSlot, FocusUniformRole,
    FOCUS_PASS_CAPACITY,
};
use quilting_webgpu::frame_table::{
    FrameTableMemoDiagnostics, FrameTablePublication, LodStateMemoDiagnostics,
    RetainedFrameTable, RetainedLodDispatchState, DISPATCH_UNIFORM_BYTES,
};
use quilting_webgpu::layout::{le_u16_pairs, padded_readback_layout, strip_row_padding};
use quilting_webgpu::patch_frame::{
    diagnostic_pipeline_for_pass, DiagnosticPipeline, DiagnosticPipelineGeometries, RenderPass,
    dynamic_pose_joint_floats, face_visibility_layout, patch_render_pose_writes, patch_winding,
    resident_adaptive_frame_evidence, validate_face_visibility_bits, AdaptiveOverlayFrameEncoding,
    PatchFrameEncoding, ResidentAdaptiveFrameEncoding, ResidentRootFrameEncoding,
    PatchWinding,
};
use quilting_webgpu::pbr::{
    supports_resident_pbr_frame, supports_resident_untextured_pbr,
    material_residency_table, material_texture_residency, pbr_texture_reference_mask,
    portable_atlas_records, portable_material_texture_records, portable_wrap_mode,
    texture_mip_descriptor, texture_mip_level_count, texture_table_occupancy,
    texture_table_update_kind, first_texture_slot_fault, TextureSlotCheck, TextureSlotFault,
    TextureSlotFaultKind, portable_atlas_region, PortableAtlasRegion, AtlasPlacement, PbrTextureReferences, PbrTextureTableUpdate,
    TextureAssetDescriptor, TextureWrapMode, PBR_BASE_COLOR_TEXTURE_BIT, PBR_NORMAL_TEXTURE_BIT,
};
use quilting_webgpu::overlay::AdaptiveOverlayEpoch;
use quilting_webgpu::picking::{
    plan_patch_pick, plan_pick_draws, plan_resident_pick, validate_pick_hit_bits,
    stage_resident_pick_plan, validate_pick_residency, validate_resident_pick, OverlayPickEpochs,
    PatchPickHit,
    PatchPickRequest, PickBatch, PickDraw, ResidentPickEpochs, PICK_BARYCENTRIC_TOLERANCE_BITS,
};
use quilting_webgpu::pose::PoseUploadPolicy;
use quilting_webgpu::records::{words_to_five_records, words_to_patch_records, words_to_twelve_records};
use quilting_webgpu::render_words::{
    stage_patch_render_frames, FocusFieldPacket, PatchRenderDomain, PatchRenderFrame,
    PatchRenderGlobal,
};
use quilting_webgpu::lod_epochs::{
    classification_workgroups, joint_capacity, resident_reconciliation_plan, FaceLodGrading, LodModelEpochs,
    ModelIdentityAllocator, ReconcileDispatch,
};
use quilting_webgpu::preparation::{
    nonnegative_integer, patch_preparation_sizes, validate_patch_preparation_scene, with_joint_count, PatchPreparationSceneWords,
    PreparedModelShape,
};
use quilting_webgpu::visibility::{
    batch_index_uniform_stride, batch_index_uniform_table, draw_batch_offsets,
    validate_visibility_compaction_scene, visibility_buffer_sizes, DrawBatchResidency,
    IndexFormat, VisibilityCompactionSceneWords,
};

const RGBA8: wgpu::TextureFormat = wgpu::TextureFormat::Rgba8Unorm;

fn is_payload<T>(r: &Result<T, LodWebGpuError>) -> bool {
    matches!(r, Err(LodWebGpuError::Payload(_)))
}

fn is_mapping<T>(r: &Result<T, LodWebGpuError>) -> bool {
    matches!(r, Err(LodWebGpuError::Mapping(_)))
}

#[test]
fn integer_to_binary32_matches_the_hardware_conversion() {
    let mut values = vec![
        0u32, 1, 2, 3, 7, 255, 256, 1600, 900, 812, 417,
        (1 << 24) - 1,
        1 << 24,
        (1 << 24) + 1,
        (1 << 24) + 2,
        (1 << 24) + 3,
        (1 << 25) + 2,
        (1 << 25) + 6,
        0x7fff_ffff,
        0x8000_0000,
        0xffff_ff7f,
        0xffff_ff80,
        u32::MAX,
    ];
    let mut x: u32 = 12345;
    for _ in 0..2000 {
        x = x.wrapping_mul(1_664_525).wrapping_add(1_013_904_223);
        values.push(x);
        values.push(x >> 7);
    }
    for value in values {
        assert_eq!(u32_to_f32_bits(value), (value as f32).to_bits(), "{value}");
    }
}

#[test]
fn readback_layout_pads_rows_to_the_copy_alignment() {
    let layout = padded_readback_layout(3, 8, 5).unwrap();
    assert_eq!(layout.unpadded_bytes_per_row, 24);
    assert_eq!(layout.bytes_per_row, 256);
    assert_eq!(layout.byte_len, 1280);
    let exact = padded_readback_layout(64, 4, 2).unwrap();
    assert_eq!(exact.bytes_per_row, 256);
    let wide = padded_readback_layout(65, 4, 1).unwrap();
    assert_eq!(wide.bytes_per_row, 512);
    assert!(is_payload(&padded_readback_layout(u32::MAX, 8, 1)));
    assert!(is_payload(&padded_readback_layout(0xffff_ff80, 1, 1)));
}

#[test]
fn row_padding_is_removed_and_pairs_decode_little_endian() {
    let mapped: Vec<u8> = (0u8..20).collect();
    assert_eq!(strip_row_padding(&mapped, 8, 3), vec![0, 1, 2, 8, 9, 10]);
    assert_eq!(le_u16_pairs(&[0x34, 0x12, 0xff, 0x00, 0x07]), vec![0x1234, 0x00ff]);
}

#[test]
fn readback_words_split_into_whole_records() {
    let words: Vec<u32> = (0..104).collect();
    let records = words_to_patch_records(words.clone()).unwrap();
    assert_eq!(records.len(), 2);
    assert_eq!(records[1][0], 52);
    assert_eq!(records[1][51], 103);
    assert!(is_mapping(&words_to_patch_records((0..53).collect())));
    let five = words_to_five_records((0..10).collect(), "compacted ranges").unwrap();
    assert_eq!(five, vec![[0, 1, 2, 3, 4], [5, 6, 7, 8, 9]]);
    match words_to_five_records((0..7).collect(), "compacted ranges") {
        Err(LodWebGpuError::Mapping(label)) => assert_eq!(label, "compacted ranges"),
        other => panic!("unexpected {other:?}"),
    }
    assert_eq!(words_to_twelve_records(Vec::new()).unwrap().len(), 0);
    assert!(is_mapping(&words_to_twelve_records((0..13).collect())));
    let twelve = words_to_twelve_records((0..24).collect()).unwrap();
    assert_eq!(twelve[1][11], 23);
}

#[test]
fn frame_table_stage_uploads_then_reuses_then_uploads_changed_rows() {
    let mut table = RetainedFrameTable::new(40, 20, 160);
    let rows = vec![vec![1u32; 20], vec![2u32; 20]];
    assert_eq!(table.stage_rows(&rows), FrameTablePublication::Upload { bytes: 160 });
    assert_eq!(table.stage_rows(&rows), FrameTablePublication::Reuse);
    assert_eq!(table.words()[20], 2);
    let mut changed = rows.clone();
    changed[1][19] = 3;
    assert_eq!(table.stage_rows(&changed), FrameTablePublication::Upload { bytes: 160 });
    table.invalidate();
    assert_eq!(table.stage_rows(&changed), FrameTablePublication::Upload { bytes: 160 });
}

#[test]
fn memo_diagnostics_count_uploads_reuses_and_bytes() {
    let mut frame = FrameTableMemoDiagnostics::default();
    frame.record(FrameTablePublication::Upload { bytes: 80 });
    frame.record(FrameTablePublication::Reuse);
    frame.record(FrameTablePublication::Upload { bytes: 176 });
    assert_eq!((frame.uploads, frame.reuses, frame.upload_bytes), (2, 1, 256));
    let mut lod = LodStateMemoDiagnostics::default();
    let mut state = RetainedLodDispatchState::new(1);
    let first = state
        .stage_classification([5; 68], vec![[1; 40]], 1, &mut lod)
        .unwrap();
    assert_eq!(
        first,
        (
            FrameTablePublication::Upload { bytes: DISPATCH_UNIFORM_BYTES },
            FrameTablePublication::Upload { bytes: 160 },
        )
    );
    let second = state
        .stage_classification([5; 68], vec![[1; 40]], 1, &mut lod)
        .unwrap();
    assert_eq!(second, (FrameTablePublication::Reuse, FrameTablePublication::Reuse));
    assert_eq!((lod.uploads, lod.reuses, lod.upload_bytes), (2, 2, 432));
    assert!(is_payload(&state.stage_classification([5; 68], vec![[1; 40]; 2], 1, &mut lod)));
    assert_eq!((lod.uploads, lod.reuses), (2, 2));
    assert_eq!(state.uniform_word(0), 5);
}

fn finite_global(radius: f32) -> PatchRenderGlobal {
    PatchRenderGlobal {
        mvp: [1.0f32.to_bits(); 16],
        mv: [0; 16],
        use_qb: false,
        matcap_style: 0,
        selected_node: None,
        selected_face: None,
        camera_position: [0; 3],
        focus: FocusFieldPacket {
            sphere: [0, 0, 0, radius.to_bits()],
            enabled: false,
        },
    }
}

#[test]
fn global_words_reject_non_finite_values_and_non_positive_radius() {
    let words = finite_global(1.0).to_words().unwrap();
    assert_eq!(words[34], u32::MAX);
    assert_eq!(words[35], u32::MAX);
    assert_eq!(words[39], 0);
    assert!(is_payload(&finite_global(0.0).to_words()));
    assert!(is_payload(&finite_global(-0.0).to_words()));
    assert!(is_payload(&finite_global(-2.0).to_words()));
    assert!(is_payload(&finite_global(f32::INFINITY).to_words()));
    assert!(is_payload(&finite_global(f32::NAN).to_words()));
    assert!(finite_global(f32::from_bits(1)).to_words().is_ok());
    let mut nan_matrix = finite_global(1.0);
    nan_matrix.mv[3] = f32::NAN.to_bits();
    assert!(is_payload(&nan_matrix.to_words()));
    let domain = PatchRenderDomain { mobius: [f32::INFINITY.to_bits(); 16], material_slot: 0 };
    assert!(is_payload(&domain.to_words()));
}

#[test]
fn frame_tables_stage_once_and_reject_inconsistent_frames() {
    let mut global_table = RetainedFrameTable::new(44, 44, 176);
    let mut domain_table = RetainedFrameTable::new(40, 20, 160);
    let mut memo = FrameTableMemoDiagnostics::default();
    let global = finite_global(1.0);
    let domain = |slot: u32| PatchRenderDomain { mobius: [0; 16], material_slot: slot };
    let frames = [
        PatchRenderFrame { global, domain: domain(1) },
        PatchRenderFrame { global, domain: domain(2) },
    ];
    assert_eq!(
        stage_patch_render_frames(&mut global_table, &mut domain_table, &frames, 2, &mut memo).unwrap(),
        (
            FrameTablePublication::Upload { bytes: 176 },
            FrameTablePublication::Upload { bytes: 160 },
        )
    );
    assert_eq!(domain_table.words()[36], 2);
    assert_eq!((memo.uploads, memo.reuses, memo.upload_bytes), (2, 0, 336));
    assert_eq!(
        stage_patch_render_frames(&mut global_table, &mut domain_table, &frames, 2, &mut memo).unwrap(),
        (FrameTablePublication::Reuse, FrameTablePublication::Reuse)
    );
    assert_eq!((memo.uploads, memo.reuses, memo.upload_bytes), (2, 2, 336));
    let mut signed_zero = global;
    signed_zero.mv[0] = (-0.0f32).to_bits();
    let agreeing = [
        PatchRenderFrame { global, domain: domain(1) },
        PatchRenderFrame { global: signed_zero, domain: domain(2) },
    ];
    assert!(stage_patch_render_frames(&mut global_table, &mut domain_table, &agreeing, 2, &mut memo).is_ok());
    let mut other = global;
    other.selected_face = Some(1);
    let disagreeing = [
        PatchRenderFrame { global, domain: domain(1) },
        PatchRenderFrame { global: other, domain: domain(2) },
    ];
    assert!(is_payload(&stage_patch_render_frames(&mut global_table, &mut domain_table, &disagreeing, 2, &mut memo)));
    assert!(is_payload(&stage_patch_render_frames(&mut global_table, &mut domain_table, &[], 2, &mut memo)));
    assert!(is_payload(&stage_patch_render_frames(&mut global_table, &mut domain_table, &frames[..1], 2, &mut memo)));
    let bad = [
        PatchRenderFrame { global, domain: domain(7) },
        PatchRenderFrame {
            global,
            domain: PatchRenderDomain { mobius: [f32::NAN.to_bits(); 16], material_slot: 8 },
        },
    ];
    let before_rejected = (memo.uploads, memo.reuses, memo.upload_bytes);
    assert!(is_payload(&stage_patch_render_frames(&mut global_table, &mut domain_table, &[], 2, &mut memo)));
    assert_eq!((memo.uploads, memo.reuses, memo.upload_bytes), before_rejected);
    assert!(is_payload(&stage_patch_render_frames(&mut global_table, &mut domain_table, &bad, 2, &mut memo)));
    assert_eq!((memo.uploads, memo.reuses, memo.upload_bytes), (before_rejected.0, before_rejected.1 + 1, before_rejected.2));
    assert_eq!(domain_table.words()[16], 7);
    assert_eq!(
        stage_patch_render_frames(&mut global_table, &mut domain_table, &frames, 2, &mut memo).unwrap(),
        (FrameTablePublication::Reuse, FrameTablePublication::Upload { bytes: 160 })
    );
}

#[test]
fn environment_layouts_tile_the_payload() {
    assert_eq!(rgba_face_component_len(4).unwrap(), 64);
    assert_eq!(environment_face_size(16, 2), 4);
    assert_eq!(environment_face_size(16, 6), 1);
    let descriptor = EnvironmentMapDescriptor {
        prefiltered_face_size: 4,
        prefiltered_mip_count: 3,
        irradiance_face_size: 2,
    };
    assert_eq!(pbr_environment_uniform_words(Some(descriptor)), [1, 3, 0, 0]);
    assert_eq!(pbr_environment_uniform_words(None), [0, 1, 0, 0]);
    let uploads = prefiltered_face_uploads(descriptor).unwrap();
    assert_eq!(uploads.len(), 18);
    assert_eq!(
        uploads[0],
        CubeFaceUpload { mip: 0, face: 0, face_size: 4, start: 0, end: 64 }
    );
    assert_eq!(
        uploads[6],
        CubeFaceUpload { mip: 1, face: 0, face_size: 2, start: 384, end: 400 }
    );
    assert_eq!(uploads[17].end, 384 + 96 + 24);
    for pair in uploads.windows(2) {
        assert_eq!(pair[0].end, pair[1].start);
    }
    let irradiance = irradiance_face_uploads(descriptor).unwrap();
    assert_eq!(irradiance[5], CubeFaceUpload { mip: 0, face: 5, face_size: 2, start: 80, end: 96 });
    assert!(validate_environment_face_sizes(descriptor, 4).is_ok());
    assert!(is_payload(&validate_environment_face_sizes(descriptor, 3)));
    let (size, layout) = environment_face_readback(descriptor, true, 1, 5).unwrap();
    assert_eq!((size, layout.unpadded_bytes_per_row, layout.bytes_per_row, layout.byte_len), (2, 16, 256, 512));
    assert!(is_payload(&environment_face_readback(descriptor, true, 0, 6)));
    assert!(is_payload(&environment_face_readback(descriptor, true, 3, 0)));
    assert!(is_payload(&environment_face_readback(descriptor, false, 1, 0)));
}

#[test]
fn visibility_scene_validation_accepts_exact_partitions_only() {
    let valid = VisibilityCompactionSceneWords {
        uniform: [2, 5, 0, 0],
        batches: vec![[0, 2, 3, 2], [2, 3, 6, 0]],
        source_eligibility: vec![1, 0, 1, 1, 0],
    };
    let shape = validate_visibility_compaction_scene(&valid).unwrap();
    assert_eq!((shape.batch_count, shape.source_count), (2, 5));
    let mut gap = valid.clone();
    gap.batches[1][0] = 3;
    assert!(is_payload(&validate_visibility_compaction_scene(&gap)));
    let mut short = valid.clone();
    short.uniform[1] = 4;
    short.source_eligibility.pop();
    assert!(is_payload(&validate_visibility_compaction_scene(&short)));
    let mut flag = valid.clone();
    flag.source_eligibility[2] = 2;
    assert!(is_payload(&validate_visibility_compaction_scene(&flag)));
    let mut lines = valid.clone();
    lines.batches[0][3] = 3;
    assert!(is_payload(&validate_visibility_compaction_scene(&lines)));
    let mut padding = valid;
    padding.uniform[3] = 1;
    assert!(is_payload(&validate_visibility_compaction_scene(&padding)));
    let sizes = visibility_buffer_sizes(3, 10);
    assert_eq!(
        (sizes.source_bytes, sizes.batch_count_bytes, sizes.range_bytes, sizes.indirect_bytes),
        (40, 12, 60, 60)
    );
}

#[test]
fn batch_index_table_and_draw_offsets_follow_the_stride() {
    assert_eq!(batch_index_uniform_stride(256).unwrap(), 256);
    assert_eq!(batch_index_uniform_stride(0).unwrap(), 16);
    assert_eq!(batch_index_uniform_stride(12).unwrap(), 24);
    let table = batch_index_uniform_table(3, 16).unwrap();
    assert_eq!(table.len(), 48);
    assert_eq!(&table[16..20], &1u32.to_le_bytes());
    assert_eq!(&table[32..36], &2u32.to_le_bytes());
    assert!(table[36..48].iter().all(|&b| b == 0));
    let table = batch_index_uniform_table(300, 4).unwrap();
    assert_eq!(&table[4 * 299..], &299u32.to_le_bytes());
    let plain = DrawBatchResidency {
        uses_pbr_bindings: false,
        material_texture_slots: None,
        environment_resident: false,
    };
    let offsets = draw_batch_offsets(4, 256, 3, 0, plain, 10, IndexFormat::Uint32).unwrap();
    assert_eq!((offsets.dynamic_offset, offsets.index_byte_offset, offsets.indirect_offset), (768, 40, 60));
    let half = draw_batch_offsets(4, 256, 1, 0, plain, 10, IndexFormat::Uint16).unwrap();
    assert_eq!(half.index_byte_offset, 20);
    assert!(is_payload(&draw_batch_offsets(4, 256, 4, 0, plain, 0, IndexFormat::Uint32)));
    assert!(is_payload(&draw_batch_offsets(u32::MAX, 1 << 31, 2, 0, plain, 0, IndexFormat::Uint32)));
    let pbr = DrawBatchResidency {
        uses_pbr_bindings: true,
        material_texture_slots: Some(2),
        environment_resident: true,
    };
    assert!(draw_batch_offsets(4, 256, 0, 1, pbr, 0, IndexFormat::Uint32).is_ok());
    assert!(is_payload(&draw_batch_offsets(4, 256, 0, 2, pbr, 0, IndexFormat::Uint32)));
    let no_environment = DrawBatchResidency { environment_resident: false, ..pbr };
    assert!(is_payload(&draw_batch_offsets(4, 256, 0, 0, no_environment, 0, IndexFormat::Uint32)));
}

fn atlas_inputs() -> (Vec<u32>, Vec<u32>, Vec<u32>, Vec<u32>) {
    let patches = vec![1, 2, 3, 0, 3, 0, 2, 4, 5, 6, 3, 3, 2, 2];
    let barycentrics = [1.0f32, 0.0, 0.0, 0.0, 1.0, 0.0, 0.0, 0.0, 1.0]
        .map(f32::to_bits)
        .to_vec();
    let triangles = vec![0, 1, 2, 2, 1, 0];
    let lines = vec![0, 1, 1, 2];
    (patches, barycentrics, triangles, lines)
}

#[test]
fn packed_atlas_retains_each_key_range() {
    let (patches, barycentrics, triangles, lines) = atlas_inputs();
    let atlas = upload_packed_patch_atlas(&patches, &barycentrics, &triangles, &lines).unwrap();
    assert_eq!(atlas.entry_count(), 2);
    assert_eq!((atlas.vertex_count(), atlas.triangle_index_count(), atlas.line_index_count()), (3, 6, 4));
    assert_eq!(
        atlas.entry([4, 5, 6]),
        Some(PackedPatchAtlasEntry {
            triangle_first_index: 3,
            triangle_index_count: 3,
            line_first_index: 2,
            line_index_count: 2,
        })
    );
    assert_eq!(atlas.entry([6, 5, 4]), None);
    assert_eq!(atlas.draw([1, 2, 3], RenderGeometry::Lines), Some((0, 2)));
    assert_eq!(atlas.triangle_draw([1, 2, 3]), Some((0, 3)));
    assert_eq!(atlas.line_draw([4, 5, 6]), Some((2, 2)));
    assert_eq!(
        triangle_draws_for_scene(&atlas, &[([4, 5, 6], 3), ([1, 2, 3], 3)]).unwrap(),
        vec![(3, 3), (0, 3)]
    );
    assert!(is_payload(&triangle_draws_for_scene(&atlas, &[([4, 5, 6], 2)])));
    assert!(is_payload(&triangle_draws_for_scene(&atlas, &[([9, 9, 9], 3)])));
}

#[test]
fn packed_atlas_rejects_inconsistent_inputs() {
    let (patches, barycentrics, triangles, lines) = atlas_inputs();
    let mut repeated = patches.clone();
    repeated[7..10].copy_from_slice(&[1, 2, 3]);
    assert!(is_payload(&upload_packed_patch_atlas(&repeated, &barycentrics, &triangles, &lines)));
    assert!(is_payload(&upload_packed_patch_atlas(&patches[..13], &barycentrics, &triangles, &lines)));
    assert!(is_payload(&upload_packed_patch_atlas(&[], &barycentrics, &triangles, &lines)));
    let mut infinite = barycentrics.clone();
    infinite[4] = f32::INFINITY.to_bits();
    assert!(is_payload(&upload_packed_patch_atlas(&patches, &infinite, &triangles, &lines)));
    assert!(is_payload(&upload_packed_patch_atlas(&patches, &barycentrics[..8], &triangles, &lines)));
    assert!(is_payload(&upload_packed_patch_atlas(&patches, &barycentrics, &[0, 1, 3], &lines)));
    let mut long_range = patches.clone();
    long_range[11] = 4;
    assert!(is_payload(&upload_packed_patch_atlas(&long_range, &barycentrics, &triangles, &lines)));
    let mut overflow = patches;
    overflow[3] = u32::MAX;
    assert!(is_payload(&upload_packed_patch_atlas(&overflow, &barycentrics, &triangles, &lines)));
}

#[test]
fn pick_draws_cover_enabled_batches_and_residency_must_match() {
    let (patches, barycentrics, triangles, lines) = atlas_inputs();
    let atlas = upload_packed_patch_atlas(&patches, &barycentrics, &triangles, &lines).unwrap();
    let batches = [
        PickBatch { enabled: true, key: [1, 2, 3], triangle_index_count: 3, member_count: 2 },
        PickBatch { enabled: false, key: [9, 9, 9], triangle_index_count: 1, member_count: 1 },
        PickBatch { enabled: true, key: [4, 5, 6], triangle_index_count: 3, member_count: 4 },
    ];
    assert_eq!(
        plan_pick_draws(&atlas, &batches, 256).unwrap(),
        vec![
            PickDraw { batch_index: 0, dynamic_offset: 0, first_index: 0, indirect_offset: 0 },
            PickDraw { batch_index: 2, dynamic_offset: 512, first_index: 3, indirect_offset: 40 },
        ]
    );
    let mut missing = batches;
    missing[1].enabled = true;
    assert!(is_payload(&plan_pick_draws(&atlas, &missing, 256)));
    assert!(validate_pick_residency(&batches, 3, 7, 3, 7).is_ok());
    assert!(is_payload(&validate_pick_residency(&batches, 3, 6, 3, 7)));
    assert!(is_payload(&validate_pick_residency(&batches, 2, 7, 3, 7)));
}

#[test]
fn pick_hit_validation_follows_float_comparisons() {
    let tolerance = 1.0e-4f32;
    assert_eq!(PICK_BARYCENTRIC_TOLERANCE_BITS, tolerance.to_bits());
    let hit = |x: f32, distance: f32| PatchPickHit {
        target_epoch: 0,
        packed_node: 0,
        source_face: 0,
        barycentric_bits: [x.to_bits(), 0.5f32.to_bits()],
        surface_bits: [0.0f32.to_bits(), 0, 0, distance.to_bits()],
    };
    assert!(validate_pick_hit_bits(hit(0.25, 1.0)).is_ok());
    assert!(validate_pick_hit_bits(hit(-1.0e-4, -0.0)).is_ok());
    assert!(is_mapping(&validate_pick_hit_bits(hit(-1.1e-4, 1.0))));
    assert!(is_mapping(&validate_pick_hit_bits(hit(0.25, -1.0))));
    assert!(is_mapping(&validate_pick_hit_bits(hit(f32::NAN, 1.0))));
    assert!(is_mapping(&validate_pick_hit_bits(hit(0.25, f32::INFINITY))));
}

#[test]
fn residency_masks_separate_references_from_resident_textures() {
    let refs = PbrTextureReferences {
        base_color: Some(0),
        normal: Some(2),
        emissive: Some(9),
        ..Default::default()
    };
    assert_eq!(pbr_texture_reference_mask(refs), 0b1101);
    let occupancy = [true, false, true];
    let residency = material_texture_residency(refs, Some(&occupancy));
    assert_eq!(residency.referenced_mask(), 0b1101);
    assert_eq!(residency.resident_mask(), PBR_BASE_COLOR_TEXTURE_BIT | PBR_NORMAL_TEXTURE_BIT);
    assert_eq!(residency.unresolved_mask(), 0b1000);
    assert_eq!(material_texture_residency(refs, None).resident_mask(), 0);
    let table = material_residency_table(&[], refs, Some(&occupancy));
    assert_eq!(table.len(), 1);
    assert_eq!(table[0], residency);
    let records = portable_material_texture_records(&[refs], PbrTextureReferences::default());
    assert_eq!(records, vec![[0, u32::MAX, 2, 9, u32::MAX, u32::MAX, u32::MAX, u32::MAX]]);
}

fn descriptor(width: u32, height: u32) -> TextureAssetDescriptor {
    TextureAssetDescriptor {
        width,
        height,
        wrap_s: TextureWrapMode::Repeat,
        wrap_t: TextureWrapMode::ClampToEdge,
    }
}

#[test]
fn mip_chains_end_in_one_texel() {
    assert_eq!(texture_mip_level_count(8, 4), 4);
    assert_eq!(texture_mip_level_count(1, 1), 1);
    assert_eq!(texture_mip_level_count(0, 0), 1);
    assert_eq!(texture_mip_level_count(1000, 3), 10);
    assert_eq!(texture_mip_level_count(u32::MAX, 1), 32);
    let last = texture_mip_descriptor(descriptor(1000, 3), 9).unwrap();
    assert_eq!((last.width, last.height), (1, 1));
    let middle = texture_mip_descriptor(descriptor(8, 4), 2).unwrap();
    assert_eq!((middle.width, middle.height, middle.wrap_s), (2, 1, TextureWrapMode::Repeat));
    assert!(is_payload(&texture_mip_descriptor(descriptor(8, 4), 4)));
    assert_eq!(portable_wrap_mode(TextureWrapMode::MirroredRepeat), 1);
}

#[test]
fn texture_tables_report_occupancy_and_in_place_updates() {
    assert_eq!(texture_table_occupancy(&[Some(4), None, Some(2), Some(7)]), (3, 2, 7));
    assert_eq!(texture_table_occupancy(&[None, None]), (0, 0, 0));
    let table = [Some(descriptor(8, 4)), None];
    assert_eq!(
        texture_table_update_kind(&[descriptor(8, 4)], &[Some(descriptor(8, 4))]),
        PbrTextureTableUpdate::Updated
    );
    assert_eq!(
        texture_table_update_kind(&[descriptor(8, 4), descriptor(1, 1)], &table),
        PbrTextureTableUpdate::ShapeChanged
    );
    assert_eq!(
        texture_table_update_kind(&[descriptor(4, 8)], &[Some(descriptor(8, 4))]),
        PbrTextureTableUpdate::ShapeChanged
    );
}

#[test]
fn portable_atlas_records_place_every_mip() {
    let placement = |x: u32| AtlasPlacement { origin: [x, 0], layer: 0 };
    let placements = vec![
        vec![Some(placement(0)), None],
        vec![Some(placement(8)), None],
        vec![Some(placement(12)), None],
        vec![Some(placement(14)), None],
    ];
    let (records, mips) =
        portable_atlas_records(&[Some(descriptor(8, 4)), None], 4, &placements).unwrap();
    assert_eq!(records, vec![[8, 4, 2, 0, 4, 0, 1, 0], [0; 8]]);
    assert_eq!(mips.len(), 8);
    assert_eq!(mips[3], [14, 0, 0, 1]);
    assert!(mips[4..].iter().all(|record| *record == [0; 4]));
    let mut missing = placements;
    missing[2][0] = None;
    assert!(is_payload(&portable_atlas_records(&[Some(descriptor(8, 4)), None], 4, &missing)));
    let (empty, empty_mips) = portable_atlas_records(&[], 0, &[]).unwrap();
    assert_eq!((empty, empty_mips), (vec![[0; 8]], vec![[0; 4]]));
}

fn blur(source: FocusBlurSurface, destination: FocusBlurSurface, is_final: bool) -> FocusDirectionalBlur {
    FocusDirectionalBlur { source, destination, is_final }
}

#[test]
fn spheroidal_outline_bypasses_jfa_and_finishes_in_output() {
    let schedule = FocusScheduleOutline {
        jfa: None,
        kawase_passes: 3,
        directional_blurs: vec![
            blur(FocusBlurSurface::Scene, FocusBlurSurface::Ping, false),
            blur(FocusBlurSurface::Ping, FocusBlurSurface::Pong, false),
            blur(FocusBlurSurface::Pong, FocusBlurSurface::Output, true),
        ],
    };
    let passes = build_focus_passes(&schedule, 256).unwrap();
    assert_eq!(passes.len(), 8);
    assert_eq!(passes[0].pipeline, FocusPipelineKind::SelectWeight);
    assert!(!passes
        .iter()
        .any(|pass| matches!(pass.pipeline, FocusPipelineKind::JfaInit | FocusPipelineKind::JfaStep)));
    assert_eq!(passes[1].pipeline, FocusPipelineKind::Firmness);
    assert_eq!(passes.iter().filter(|pass| pass.pipeline == FocusPipelineKind::Kawase).count(), 3);
    assert_eq!((passes[0].source_a, passes[0].source_b), (FocusTextureSlot::RawField, FocusTextureSlot::RawField));
    assert_eq!(passes[0].destination, FocusDestination::Texture(FocusTextureSlot::SelectedWeight));
    assert_eq!(passes[4].source_a, FocusTextureSlot::Firmness);
    assert_eq!(passes[4].destination, FocusDestination::Texture(FocusTextureSlot::Kawase));
    assert_eq!(passes[5].source_b, FocusTextureSlot::Kawase);
    assert_eq!(passes.last().unwrap().destination, FocusDestination::Output);
    assert_eq!(passes.last().unwrap().uniform_offset, 7 * 256);
    assert!(passes.last().unwrap().final_output);
}

#[test]
fn conformal_outline_uses_jfa_parity_and_retained_binding_pairs() {
    let step = |step: u32, source: FocusPingPong, destination: FocusPingPong| FocusJfaStep {
        step,
        source,
        destination,
    };
    let schedule = FocusScheduleOutline {
        jfa: Some(FocusJfaPlanOutline {
            primary_steps: vec![
                step(4, FocusPingPong::Ping, FocusPingPong::Pong),
                step(2, FocusPingPong::Pong, FocusPingPong::Ping),
                step(1, FocusPingPong::Ping, FocusPingPong::Pong),
            ],
            cleanup_steps: vec![
                step(2, FocusPingPong::Pong, FocusPingPong::Ping),
                step(1, FocusPingPong::Ping, FocusPingPong::Pong),
            ],
            final_buffer: FocusPingPong::Pong,
        }),
        kawase_passes: 2,
        directional_blurs: vec![
            blur(FocusBlurSurface::Scene, FocusBlurSurface::Ping, false),
            blur(FocusBlurSurface::Ping, FocusBlurSurface::Output, true),
        ],
    };
    let (passes, encoding) = plan_focus_encoding(RGBA8, RGBA8, &schedule, 256).unwrap();
    assert!(is_payload(&plan_focus_encoding(RGBA8, wgpu::TextureFormat::Bgra8Unorm, &schedule, 256)));
    assert_eq!(
        passes.iter().filter(|pass| pass.pipeline == FocusPipelineKind::JfaStep).count(),
        3 + 2
    );
    assert_eq!(passes[1].pipeline, FocusPipelineKind::JfaInit);
    assert_eq!(passes.iter().filter(|pass| pass.pipeline == FocusPipelineKind::JfaInit).count(), 1);
    assert_eq!(passes.iter().filter(|pass| pass.pipeline == FocusPipelineKind::Kawase).count(), 2);
    assert_eq!(passes[2].uniform, FocusUniformRole::JfaStep { step: 4 });
    assert_eq!(passes[7].source_a, FocusTextureSlot::JfaPong);
    let pairs = focus_binding_pairs();
    assert!(passes.iter().all(|pass| pairs.contains(&(pass.source_a, pass.source_b))));
    assert_eq!(passes.last().unwrap().destination, FocusDestination::Output);
    assert!(passes.len() <= FOCUS_PASS_CAPACITY);
    assert_eq!(encoding.render_passes, 12);
    assert_eq!((encoding.primary_jfa_passes, encoding.cleanup_jfa_passes), (3, 2));
    assert_eq!(encoding.uniform_upload_bytes, 12 * 256);
}

#[test]
fn focus_plans_reject_unsampleable_or_oversized_schedules() {
    let sampling_output = FocusScheduleOutline {
        jfa: None,
        kawase_passes: 0,
        directional_blurs: vec![blur(FocusBlurSurface::Output, FocusBlurSurface::Ping, false)],
    };
    assert!(is_payload(&build_focus_passes(&sampling_output, 256)));
    let oversized = FocusScheduleOutline {
        jfa: None,
        kawase_passes: 80,
        directional_blurs: Vec::new(),
    };
    assert!(build_focus_passes(&oversized, 256).is_ok());
    assert!(is_payload(&plan_focus_encoding(RGBA8, RGBA8, &oversized, 256)));
    assert!(is_payload(&build_focus_passes(&oversized, 1 << 28)));
    assert_eq!(align_up(64, 0), 64);
    assert_eq!(align_up(65, 64), 128);
    assert_eq!(focus_uniform_stride(256), 256);
    assert_eq!(focus_uniform_stride(0), 64);
    let words = pack_focus_uniform_words(&[[7; 16], [9; 16]], 128);
    assert_eq!(words.len(), 64);
    assert_eq!((words[15], words[16], words[32], words[63]), (7, 0, 9, 0));
    assert!(validate_focus_target_size([1280, 720], 8192).is_ok());
    assert!(is_payload(&validate_focus_target_size([0, 720], 8192)));
    assert!(is_payload(&validate_focus_target_size([9000, 720], 8192)));
}

#[test]
fn per_frame_decisions_follow_orientation_bits_and_policy() {
    assert_eq!(patch_winding(1, 0), PatchWinding::CounterClockwise);
    assert_eq!(patch_winding(-1, 0), PatchWinding::Clockwise);
    assert_eq!(patch_winding(1, 3), PatchWinding::Clockwise);
    assert_eq!(patch_winding(-1, 1), PatchWinding::CounterClockwise);
    assert_eq!(patch_winding(0, 1), PatchWinding::CounterClockwise);
    let layout = face_visibility_layout(33, 7).unwrap();
    assert_eq!((layout.word_count, layout.uniform, layout.bit_bytes), (2, [7, 33, 2, 0], 8));
    assert_eq!(face_visibility_layout(0, 0).unwrap().bit_bytes, 4);
    assert!(validate_face_visibility_bits(33, 2, &[u32::MAX, 1]).is_ok());
    assert!(is_payload(&validate_face_visibility_bits(33, 2, &[u32::MAX, 2])));
    assert!(is_payload(&validate_face_visibility_bits(33, 2, &[u32::MAX])));
    assert!(validate_face_visibility_bits(64, 2, &[u32::MAX, u32::MAX]).is_ok());
    let writes = patch_render_pose_writes(3, 3, PoseUploadPolicy::PublishPreparation).unwrap();
    assert_eq!((writes.dynamic_pose, writes.joint_count), (false, true));
    assert!(is_payload(&patch_render_pose_writes(3, 4, PoseUploadPolicy::Publish)));
    assert_eq!(dynamic_pose_joint_floats(32, 1, 2, 1, 1).unwrap(), 16);
    assert!(is_payload(&dynamic_pose_joint_floats(31, 1, 2, 1, 4)));
    assert!(is_payload(&dynamic_pose_joint_floats(32, 0, 2, 1, 4)));
    let overlay = AdaptiveOverlayFrameEncoding { indirect_draw_calls: 4, source_patch_count: u32::MAX };
    let roots = ResidentRootFrameEncoding { indirect_draw_calls: 3, source_face_count: 9 };
    assert_eq!(
        resident_adaptive_frame_evidence(ResidentAdaptiveFrameEncoding { roots, overlay: Some(overlay) }),
        PatchFrameEncoding { indirect_draw_calls: 7, source_instance_count: u32::MAX }
    );
    assert_eq!(
        resident_adaptive_frame_evidence(ResidentAdaptiveFrameEncoding { roots, overlay: None }),
        PatchFrameEncoding { indirect_draw_calls: 3, source_instance_count: 9 }
    );
}

#[test]
fn integral_bit_patterns_match_float_semantics() {
    let reference = |bits: u32| {
        let value = f32::from_bits(bits);
        if value.is_finite() && value >= 0.0 && value.fract() == 0.0 {
            Some(value as u64)
        } else {
            None
        }
    };
    let mut samples = vec![
        0u32,
        0x8000_0000,
        1.0f32.to_bits(),
        5.0f32.to_bits(),
        12.0f32.to_bits(),
        0.5f32.to_bits(),
        1.5f32.to_bits(),
        (-1.0f32).to_bits(),
        16_777_216.0f32.to_bits(),
        16_777_217.0f32.to_bits(),
        1.0e19f32.to_bits(),
        1.0e30f32.to_bits(),
        f32::MAX.to_bits(),
        f32::INFINITY.to_bits(),
        f32::NAN.to_bits(),
        1,
    ];
    let mut x: u32 = 7;
    for _ in 0..20_000 {
        x = x.wrapping_mul(1_103_515_245).wrapping_add(12_345);
        samples.push(x);
        samples.push(x & 0x4fff_f000);
    }
    for k in 0..(1u32 << 16) {
        samples.push((k as f32).to_bits());
    }
    for bits in samples {
        assert_eq!(nonnegative_integer(bits), reference(bits), "{bits:#x}");
    }
}

fn preparation_fixture() -> (PatchPreparationSceneWords, PreparedModelShape) {
    let f = |value: f32| value.to_bits();
    let mut source = [0u32; 52];
    source[0] = f(0.0);
    source[4] = f(1.0);
    source[8] = f(2.0);
    let topology = [
        f(0.0), f(1.0), f(2.0), f(3.0), f(0.0), f(0.0), f(0.0), f(0.0), f(2.0), f(15.0), 0, 0,
    ];
    (
        PatchPreparationSceneWords {
            uniform: [1, 3, 0, 0],
            topology: vec![topology],
            source_faces: vec![source],
            subjects: vec![[f(1.0); 32]],
        },
        PreparedModelShape {
            num_vertices: 3,
            num_faces: 1,
            num_morph_targets: 0,
            faces: vec![vec![0, 1, 2]],
        },
    )
}

#[test]
fn preparation_scenes_must_hold_exact_integer_topology() {
    let (words, model) = preparation_fixture();
    assert!(validate_patch_preparation_scene(&words, &model).is_ok());
    let mut fractional = words.clone();
    fractional.topology[0][1] = 1.5f32.to_bits();
    assert!(is_payload(&validate_patch_preparation_scene(&fractional, &model)));
    let mut many_corners = words.clone();
    many_corners.topology[0][3] = 6.0f32.to_bits();
    assert!(is_payload(&validate_patch_preparation_scene(&many_corners, &model)));
    let mut far_face = words.clone();
    far_face.topology[0][4] = 1.0f32.to_bits();
    assert!(is_payload(&validate_patch_preparation_scene(&far_face, &model)));
    let mut long_path = words.clone();
    long_path.topology[0][9] = 16.0f32.to_bits();
    assert!(is_payload(&validate_patch_preparation_scene(&long_path, &model)));
    let mut deep = words.clone();
    deep.topology[0][8] = 13.0f32.to_bits();
    deep.topology[0][9] = 0;
    assert!(is_payload(&validate_patch_preparation_scene(&deep, &model)));
    let mut subject = words.clone();
    subject.topology[0][10] = 1;
    assert!(is_payload(&validate_patch_preparation_scene(&subject, &model)));
    let mut negative_zero = words.clone();
    negative_zero.topology[0][0] = (-0.0f32).to_bits();
    assert!(validate_patch_preparation_scene(&negative_zero, &model).is_ok());
    let mut wrong_vertex = words.clone();
    wrong_vertex.source_faces[0][8] = 3.0f32.to_bits();
    assert!(is_payload(&validate_patch_preparation_scene(&wrong_vertex, &model)));
    let mut nan_subject = words.clone();
    nan_subject.subjects[0][31] = f32::NAN.to_bits();
    assert!(is_payload(&validate_patch_preparation_scene(&nan_subject, &model)));
    let mut shape = words;
    shape.uniform[2] = 4;
    assert!(is_payload(&validate_patch_preparation_scene(&shape, &model)));
}

#[test]
fn model_identities_and_epochs_advance_and_retire_resident_views() {
    let mut allocator = ModelIdentityAllocator::new();
    assert_eq!(allocator.allocate().unwrap(), 1);
    assert_eq!(allocator.allocate().unwrap(), 2);
    let mut epochs = LodModelEpochs::new(2);
    assert_eq!(epochs.latest_resident(), None);
    let epoch = epochs.begin_classification().unwrap();
    assert_eq!(epoch, 1);
    epochs.publish_resident(epoch, FaceLodGrading::TwoToOne);
    assert_eq!(epochs.latest_resident(), Some((1, FaceLodGrading::TwoToOne)));
    assert_eq!(epochs.begin_classification().unwrap(), 2);
    assert_eq!(epochs.latest_resident(), None);
    epochs.publish_resident(2, FaceLodGrading::FourToOne);
    epochs.invalidate_resident();
    assert_eq!(epochs.latest_resident(), None);
    assert_eq!(epochs.classification_epoch(), 2);
    assert_eq!(classification_workgroups(0), 0);
    assert_eq!(classification_workgroups(64), 1);
    assert_eq!(classification_workgroups(65), 2);
    assert!(resident_reconciliation_plan(0).is_empty());
    let plan = resident_reconciliation_plan(100);
    assert_eq!(plan.len(), 12);
    assert_eq!(plan[0], ReconcileDispatch::Seed);
    assert_eq!(plan[1], ReconcileDispatch::Forward);
    assert_eq!(plan[2], ReconcileDispatch::Backward);
    assert_eq!(plan[10], ReconcileDispatch::Backward);
    assert_eq!(plan[11], ReconcileDispatch::Pack);
}

#[test]
fn resident_pbr_frames_need_every_channel_resolved() {
    let textured = PbrTextureReferences { base_color: Some(0), ..Default::default() };
    let resolved = material_texture_residency(textured, Some(&[true]));
    let unresolved = material_texture_residency(textured, Some(&[false]));
    let untextured = material_texture_residency(PbrTextureReferences::default(), None);
    assert!(supports_resident_pbr_frame(true, Some(&[resolved, untextured]), Some(true)));
    assert!(!supports_resident_pbr_frame(true, Some(&[resolved, unresolved]), Some(true)));
    assert!(!supports_resident_pbr_frame(true, Some(&[resolved]), Some(false)));
    assert!(!supports_resident_pbr_frame(true, None, Some(true)));
    assert!(!supports_resident_pbr_frame(false, Some(&[resolved]), Some(true)));
    assert!(supports_resident_untextured_pbr(true, Some(&[untextured]), Some(true)));
    assert!(!supports_resident_untextured_pbr(true, Some(&[resolved]), Some(true)));
    assert!(!supports_resident_untextured_pbr(true, Some(&[untextured]), None));
}

#[test]
fn diagnostic_passes_select_matching_pipelines() {
    let geometries = DiagnosticPipelineGeometries {
        pbr: RenderGeometry::Triangles,
        matcap: RenderGeometry::Triangles,
        wire: RenderGeometry::Lines,
        normals: RenderGeometry::Triangles,
        lod: RenderGeometry::Triangles,
        stretch: RenderGeometry::Triangles,
    };
    assert_eq!(
        diagnostic_pipeline_for_pass(RenderPass::Wire, RenderGeometry::Lines, geometries).unwrap(),
        DiagnosticPipeline::Wire
    );
    assert!(is_payload(&diagnostic_pipeline_for_pass(
        RenderPass::Wire,
        RenderGeometry::Triangles,
        geometries
    )));
    assert!(is_payload(&diagnostic_pipeline_for_pass(
        RenderPass::PbrTransparent,
        RenderGeometry::Triangles,
        geometries
    )));
}

fn consistent_epochs() -> ResidentPickEpochs {
    ResidentPickEpochs {
        geometry_model_identity: 4,
        geometry_domain_identity: 9,
        geometry_face_count: 12,
        geometry_bucket_count: 3,
        geometry_atlas_count: 2,
        topology_model_identity: 4,
        topology_face_count: 12,
        patch_count: 12,
        domains_identity: 9,
        domains_face_count: 12,
        domain_count: 5,
        domains_match_scene: true,
        bindings_model_identity: 4,
        bindings_domain_identity: 9,
        bindings_domain_count: 5,
        bindings_bucket_count: 3,
    }
}

#[test]
fn resident_picks_require_one_scene_epoch() {
    let request = PatchPickRequest::new([8, 8], [1, 1], 0).unwrap();
    let batches = [PickBatch { enabled: true, key: [1, 2, 3], triangle_index_count: 3, member_count: 6 }];
    let scene_keys = [10u64, 20];
    let suppressed = [0b0110u32];
    let overlay = OverlayPickEpochs {
        epoch: AdaptiveOverlayEpoch {
            model_identity: 4,
            scene_revision: 3,
            suppressed_root_faces: vec![0b0110],
            source_batch_indices: vec![1],
            batch_keys: vec![20],
        },
        visibility_batch_count: 1,
        visibility_source_count: 6,
        frame_count: 1,
        patch_count: 6,
    };
    let epochs = consistent_epochs();
    let pick = |valid: bool, scene: &[u32], resident: &[u32], epochs, atlas, overlay: Option<&OverlayPickEpochs>, batches: &[PickBatch]| {
        validate_resident_pick(request, valid, 3, scene, &scene_keys, resident, epochs, atlas, overlay, batches)
    };
    assert!(pick(true, &[], &[], epochs, 2, None, &[]).is_ok());
    assert!(pick(true, &suppressed, &suppressed, epochs, 2, Some(&overlay), &batches).is_ok());
    assert!(is_payload(&pick(false, &[], &[], epochs, 2, None, &[])));
    assert!(is_payload(&pick(true, &suppressed, &suppressed, epochs, 2, None, &[])));
    assert!(is_payload(&pick(true, &[], &[], epochs, 2, Some(&overlay), &batches)));
    assert!(is_payload(&pick(true, &suppressed, &[0b0100], epochs, 2, Some(&overlay), &batches)));
    assert!(is_payload(&pick(true, &[], &[], epochs, 3, None, &[])));
    let stale = ResidentPickEpochs { bindings_domain_identity: 8, ..epochs };
    assert!(is_payload(&pick(true, &[], &[], stale, 2, None, &[])));
    let mut other_model = overlay.clone();
    other_model.epoch.model_identity = 5;
    assert!(is_payload(&pick(true, &suppressed, &suppressed, epochs, 2, Some(&other_model), &batches)));
    let short = OverlayPickEpochs { patch_count: 5, ..overlay.clone() };
    assert!(is_payload(&pick(true, &suppressed, &suppressed, epochs, 2, Some(&short), &batches)));
    let mut moved = overlay.clone();
    moved.epoch.source_batch_indices = vec![0];
    assert!(is_payload(&pick(true, &suppressed, &suppressed, epochs, 2, Some(&moved), &batches)));
    let mut old = overlay.clone();
    old.epoch.scene_revision = 2;
    assert!(is_payload(&pick(true, &suppressed, &suppressed, epochs, 2, Some(&old), &batches)));
    let crowded = [PickBatch { member_count: usize::MAX, ..batches[0] }];
    assert!(is_payload(&pick(true, &suppressed, &suppressed, epochs, 2, Some(&overlay), &crowded)));
    let bad_request = PatchPickRequest { viewport: [0, 8], pixel: [0, 0], target_epoch: 0 };
    assert!(is_payload(&validate_resident_pick(
        bad_request, true, 3, &[], &scene_keys, &[], epochs, 2, None, &[]
    )));
}

#[test]
fn resident_and_scene_pick_plans_count_their_draws() {
    let (patches, barycentrics, triangles, lines) = atlas_inputs();
    let atlas = upload_packed_patch_atlas(&patches, &barycentrics, &triangles, &lines).unwrap();
    let batches = [
        PickBatch { enabled: true, key: [4, 5, 6], triangle_index_count: 3, member_count: 1 },
        PickBatch { enabled: false, key: [1, 2, 3], triangle_index_count: 3, member_count: 2 },
    ];
    let plan = plan_resident_pick(3, 256, &atlas, &batches, 512).unwrap();
    assert_eq!(plan.root_dynamic_offsets, vec![0, 256, 512]);
    assert_eq!(
        plan.overlay_draws,
        vec![PickDraw { batch_index: 0, dynamic_offset: 0, first_index: 3, indirect_offset: 0 }]
    );
    assert_eq!(plan.indirect_draw_calls, 4);
    let request = PatchPickRequest::new([4, 4], [3, 3], 11).unwrap();
    let (draws, encoding) = plan_patch_pick(request, &batches, 2, 3, 2, 3, &atlas, 256).unwrap();
    assert_eq!(draws.len(), 1);
    assert_eq!((encoding.indirect_draw_calls, encoding.request), (1, request));
    assert!(is_payload(&plan_patch_pick(request, &batches, 2, 3, 1, 3, &atlas, 256)));
    let missing = [PickBatch { enabled: true, key: [7, 7, 7], triangle_index_count: 3, member_count: 1 }];
    assert!(is_payload(&plan_patch_pick(request, &missing, 1, 1, 1, 1, &atlas, 256)));
}

#[test]
fn staged_resident_pick_checks_the_epoch_then_plans_the_draws() {
    let (patches, barycentrics, triangles, lines) = atlas_inputs();
    let atlas = upload_packed_patch_atlas(&patches, &barycentrics, &triangles, &lines).unwrap();
    let request = PatchPickRequest::new([8, 8], [1, 1], 7).unwrap();
    let batches = [PickBatch { enabled: true, key: [1, 2, 3], triangle_index_count: 3, member_count: 6 }];
    let scene_keys = [10u64, 20];
    let suppressed = [0b0110u32];
    let overlay = OverlayPickEpochs {
        epoch: AdaptiveOverlayEpoch {
            model_identity: 4,
            scene_revision: 3,
            suppressed_root_faces: vec![0b0110],
            source_batch_indices: vec![1],
            batch_keys: vec![20],
        },
        visibility_batch_count: 1,
        visibility_source_count: 6,
        frame_count: 1,
        patch_count: 6,
    };
    let epochs = consistent_epochs();
    let stage = |scene: &[u32], overlay: Option<&OverlayPickEpochs>, batches: &[PickBatch]| {
        stage_resident_pick_plan(
            request, true, 3, scene, &scene_keys, scene, epochs, &atlas, overlay, batches, 256, 512,
        )
    };
    let (plan, encoding) = stage(&suppressed, Some(&overlay), &batches).unwrap();
    assert_eq!(plan.root_dynamic_offsets, vec![0, 256, 512]);
    assert_eq!(
        plan.overlay_draws,
        vec![PickDraw { batch_index: 0, dynamic_offset: 0, first_index: 0, indirect_offset: 0 }]
    );
    assert_eq!(plan.indirect_draw_calls, 4);
    assert_eq!((encoding.indirect_draw_calls, encoding.request), (4, request));
    let (plain, plain_encoding) = stage(&[], None, &batches).unwrap();
    assert!(plain.overlay_draws.is_empty());
    assert_eq!((plain.indirect_draw_calls, plain_encoding.indirect_draw_calls), (3, 3));
    assert!(is_payload(&stage(&suppressed, None, &batches)));
    assert!(is_payload(&stage(&[], Some(&overlay), &batches)));
    let missing = [PickBatch { key: [7, 7, 7], ..batches[0] }];
    assert!(is_payload(&stage(&suppressed, Some(&overlay), &missing)));
    let stale = ResidentPickEpochs { geometry_atlas_count: 3, ..epochs };
    assert!(is_payload(&stage_resident_pick_plan(
        request, true, 3, &[], &scene_keys, &[], stale, &atlas, None, &[], 256, 512,
    )));
}

#[test]
fn first_texture_slot_fault_reports_the_earliest_refusal() {
    let ok = TextureSlotCheck { width: 64, height: 32, asset_valid: true, source_extent: None };
    let bitmap = TextureSlotCheck { source_extent: Some([64, 32]), ..ok };
    assert_eq!(first_texture_slot_fault(&[Some(ok), None, Some(bitmap)], 64), None);
    let too_wide = TextureSlotCheck { width: 128, ..ok };
    let invalid = TextureSlotCheck { asset_valid: false, ..too_wide };
    let mismatched = TextureSlotCheck { source_extent: Some([32, 32]), ..too_wide };
    assert_eq!(
        first_texture_slot_fault(&[Some(ok), Some(too_wide), Some(invalid)], 64),
        Some(TextureSlotFault { index: 1, kind: TextureSlotFaultKind::ExceedsDeviceLimit })
    );
    assert_eq!(
        first_texture_slot_fault(&[None, Some(invalid)], 64),
        Some(TextureSlotFault { index: 1, kind: TextureSlotFaultKind::InvalidAsset })
    );
    assert_eq!(
        first_texture_slot_fault(&[Some(mismatched)], 64),
        Some(TextureSlotFault { index: 0, kind: TextureSlotFaultKind::ExtentMismatch })
    );
    assert_eq!(first_texture_slot_fault(&[Some(too_wide)], 128), None);
}

#[test]
fn portable_atlas_region_locates_placed_mips() {
    let d = TextureAssetDescriptor {
        width: 8,
        height: 4,
        wrap_s: TextureWrapMode::Repeat,
        wrap_t: TextureWrapMode::ClampToEdge,
    };
    let descriptors = [Some(d), None];
    let placements = vec![
        vec![Some(AtlasPlacement { origin: [16, 0], layer: 1 }), None],
        vec![Some(AtlasPlacement { origin: [24, 8], layer: 1 }), None],
        vec![None, None],
    ];
    assert_eq!(
        portable_atlas_region(&descriptors, &placements, 0, 1).unwrap(),
        PortableAtlasRegion {
            origin: [24, 8, 1],
            descriptor: TextureAssetDescriptor { width: 4, height: 2, ..d },
        }
    );
    assert!(is_payload(&portable_atlas_region(&descriptors, &placements, 1, 0)));
    assert!(is_payload(&portable_atlas_region(&descriptors, &placements, 2, 0)));
    assert!(is_payload(&portable_atlas_region(&descriptors, &placements, 0, 2)));
    assert!(is_payload(&portable_atlas_region(&descriptors, &placements, 0, 4)));
}

#[test]
fn joint_capacity_counts_joints_with_significant_weight() {
    let joints = vec![vec![0u16, 3, 7], vec![2, 9], vec![12]];
    let weights = vec![
        vec![0.5f32.to_bits(), 0.5f32.to_bits(), 0.0f32.to_bits()],
        vec![1.0f32.to_bits(), 9.0e-7f32.to_bits()],
    ];
    assert_eq!(joint_capacity(&joints, &weights), 4);
    assert_eq!(joint_capacity(&vec![], &vec![]), 1);
    assert_eq!(joint_capacity(&vec![vec![5]], &vec![vec![f32::NAN.to_bits()]]), 1);
    assert_eq!(joint_capacity(&vec![vec![5]], &vec![vec![f32::INFINITY.to_bits()]]), 6);
    assert_eq!(joint_capacity(&vec![vec![5]], &vec![vec![(-1.0f32).to_bits()]]), 1);
    for weight in [0.0f32, 1.0e-7, 9.99e-7, 1.0e-6, 1.01e-6, 0.25, f32::MAX, -0.0, f32::NEG_INFINITY] {
        let expected = if weight >= 1e-6 { 8 } else { 1 };
        assert_eq!(joint_capacity(&vec![vec![7]], &vec![vec![weight.to_bits()]]), expected);
    }
}

#[test]
fn preparation_sizes_and_joint_count_word() {
    let sizes = patch_preparation_sizes(3, 2).unwrap();
    assert_eq!((sizes.subject_count, sizes.prepared_bytes), (2, 624));
    assert_eq!(patch_preparation_sizes(0, 0).unwrap().prepared_bytes, 208);
    assert_eq!(with_joint_count([5, 40, 0, 2], 17), [5, 40, 17, 2]);
}

#[test]
fn focus_target_is_replaced_only_for_a_new_valid_extent() {
    let mut slot = FocusTargetSlot::new();
    assert_eq!(slot.size(), None);
    assert_eq!(slot.ensure([640, 480], 8192).unwrap(), true);
    assert_eq!(slot.ensure([640, 480], 8192).unwrap(), false);
    assert!(is_payload(&slot.ensure([0, 480], 8192)));
    assert!(is_payload(&slot.ensure([9000, 480], 8192)));
    assert_eq!(slot.size(), Some([640, 480]));
    assert_eq!(slot.ensure([800, 600], 8192).unwrap(), true);
    assert_eq!(slot.size(), Some([800, 600]));
}
