use quilting_webgpu::pbr::{
    supports_basic_pbr_frame, supports_focus_pbr_frame, validate_pbr_material_subset,
    PbrSubsetBatch,
};
use quilting_webgpu::frame_table::{
    FrameTablePublication, RetainedFrameTable, RetainedLodDispatchState, DISPATCH_UNIFORM_BYTES,
    SUBJECT_RECORD_BYTES,
};
use quilting_webgpu::focus::decode_focus_raw_field_bits;
use quilting_webgpu::pbr::{
    pbr_texture_table_diagnostics, texture_mip_level_count, PbrTextureReferences,
    PortableAtlasPlanSummary,
};
use quilting_webgpu::picking::{
    decode_patch_pick_bytes, validate_pick_hit_bits, PatchPickHit, PatchPickRequest,
    PICK_READBACK_BYTES, PICK_SURFACE_OFFSET,
};
use quilting_webgpu::pose::PoseUploadPolicy;
use quilting_webgpu::render_words::{
    patch_pbr_material_table_words, patch_pbr_material_words, FocusFieldPacket, PatchRenderDomain,
    PatchRenderFrame, PatchRenderGlobal, PbrMaterial, PATCH_PBR_MATERIAL_BYTES,
    PATCH_PBR_MATERIAL_WORDS, PATCH_RENDER_DOMAIN_BYTES, PATCH_RENDER_DOMAIN_WORDS,
    PATCH_RENDER_GLOBAL_BYTES, PATCH_RENDER_GLOBAL_WORDS,
};

fn identity_matrix() -> [f32; 16] {
    [
        1.0, 0.0, 0.0, 0.0, 0.0, 1.0, 0.0, 0.0, 0.0, 0.0, 1.0, 0.0, 0.0, 0.0, 0.0, 1.0,
    ]
}

fn identity_mobius() -> [f32; 16] {
    [
        1.0, 0.0, 0.0, 0.0, 0.0, 0.0, 0.0, 0.0, 0.0, 0.0, 0.0, 0.0, 1.0, 0.0, 0.0, 0.0,
    ]
}

fn offset_matrix(x: f32, y: f32, z: f32) -> [f32; 16] {
    [
        1.0, 0.0, 0.0, 0.0, 0.0, 1.0, 0.0, 0.0, 0.0, 0.0, 1.0, 0.0, x, y, z, 1.0,
    ]
}

fn bits<const N: usize>(values: [f32; N]) -> [u32; N] {
    values.map(f32::to_bits)
}

#[test]
fn pose_upload_policy_separates_dynamic_and_preparation_publication() {
    assert!(PoseUploadPolicy::Publish.should_publish_dynamic());
    assert!(PoseUploadPolicy::Publish.should_publish_preparation());
    assert!(!PoseUploadPolicy::PublishPreparation.should_publish_dynamic());
    assert!(PoseUploadPolicy::PublishPreparation.should_publish_preparation());
    assert!(!PoseUploadPolicy::Reuse.should_publish_dynamic());
    assert!(!PoseUploadPolicy::Reuse.should_publish_preparation());
}

#[test]
fn retained_frame_table_publishes_once_and_reuses_exact_words() {
    let mut table = RetainedFrameTable::new(
        PATCH_RENDER_DOMAIN_WORDS,
        PATCH_RENDER_DOMAIN_WORDS,
        PATCH_RENDER_DOMAIN_BYTES,
    );
    let mut row = [0u32; PATCH_RENDER_DOMAIN_WORDS];

    let mut changed = table.begin_update();
    changed |= table.replace_row(0, &row);
    assert_eq!(
        table.commit(changed),
        FrameTablePublication::Upload {
            bytes: PATCH_RENDER_DOMAIN_BYTES,
        },
    );

    let mut changed = table.begin_update();
    changed |= table.replace_row(0, &row);
    assert_eq!(table.commit(changed), FrameTablePublication::Reuse);

    row[17] = 9;
    let mut changed = table.begin_update();
    changed |= table.replace_row(0, &row);
    assert_eq!(
        table.commit(changed),
        FrameTablePublication::Upload {
            bytes: PATCH_RENDER_DOMAIN_BYTES,
        },
    );

    table.invalidate();
    let mut changed = table.begin_update();
    changed |= table.replace_row(0, &row);
    assert_eq!(
        table.commit(changed),
        FrameTablePublication::Upload {
            bytes: PATCH_RENDER_DOMAIN_BYTES,
        },
    );
}

#[test]
fn retained_lod_state_memos_global_and_subject_words_independently() {
    let mut state = RetainedLodDispatchState::new(2);
    assert_eq!(
        state.commit_uniform([0; 68]),
        FrameTablePublication::Upload {
            bytes: DISPATCH_UNIFORM_BYTES,
        },
    );
    assert_eq!(
        state.commit_subject_scratch(),
        FrameTablePublication::Upload {
            bytes: 2 * SUBJECT_RECORD_BYTES,
        },
    );
    assert_eq!(state.commit_uniform([0; 68]), FrameTablePublication::Reuse);
    assert_eq!(state.commit_subject_scratch(), FrameTablePublication::Reuse);

    let mut changed_uniform = [0; 68];
    changed_uniform[40] = 1.0f32.to_bits();
    state.set_subject_scratch_word(1, 36, 2.0f32.to_bits());
    assert_eq!(
        state.commit_uniform(changed_uniform),
        FrameTablePublication::Upload {
            bytes: DISPATCH_UNIFORM_BYTES,
        },
    );
    assert_eq!(
        state.commit_subject_scratch(),
        FrameTablePublication::Upload {
            bytes: 2 * SUBJECT_RECORD_BYTES,
        },
    );
    assert_eq!(state.subject_word(1, 36), 2.0f32.to_bits());
}

#[test]
fn patch_frame_keeps_source_face_selection_separate_from_node_and_material() {
    let mut mobius = identity_mobius();
    mobius[5] = 0.625;
    let frame = PatchRenderFrame {
        global: PatchRenderGlobal {
            mvp: bits(identity_matrix()),
            mv: bits(offset_matrix(1.0, 2.0, 3.0)),
            use_qb: true,
            matcap_style: 2,
            selected_node: Some(23),
            selected_face: Some(29),
            camera_position: bits([4.0, 5.0, 6.0]),
            focus: FocusFieldPacket {
                sphere: bits([7.0, 8.0, 9.0, 10.0]),
                enabled: true,
            },
        },
        domain: PatchRenderDomain {
            mobius: bits(mobius),
            material_slot: 17,
        },
    };
    let global = frame.global.to_words().unwrap();
    let domain = frame.domain.to_words().unwrap();
    assert_eq!(global.len(), PATCH_RENDER_GLOBAL_WORDS);
    assert_eq!(domain.len(), PATCH_RENDER_DOMAIN_WORDS);
    assert_eq!(global[32..36], [1, 2, 23, 29]);
    assert_eq!(global[36..39], [4.0, 5.0, 6.0].map(f32::to_bits));
    assert_eq!(global[39], 1.0f32.to_bits());
    assert_eq!(global[40..44], [7.0, 8.0, 9.0, 10.0].map(f32::to_bits));
    assert_eq!(domain[..16], mobius.map(f32::to_bits));
    assert_eq!(domain[16..20], [17, 0, 0, 0]);
    assert_eq!(PATCH_RENDER_GLOBAL_BYTES + PATCH_RENDER_DOMAIN_BYTES, 256);
}

fn authored_material() -> PbrMaterial {
    PbrMaterial {
        base_color: bits([0.1, 0.2, 0.3, 0.4]),
        emissive_factor: bits([0.5, 0.6, 0.7]),
        metallic: 0.8f32.to_bits(),
        roughness: 0.9f32.to_bits(),
        alpha_cutoff: 0.25f32.to_bits(),
        alpha_mode: 1.0f32.to_bits(),
        ior: 1.33f32.to_bits(),
        unlit: true,
        double_sided: true,
        has_specular: true,
        has_sheen: true,
        specular_color: bits([0.11, 0.22, 0.33]),
        normal_scale: 0.45f32.to_bits(),
        sheen_color: bits([0.44, 0.55, 0.66]),
        sheen_roughness: 0.77f32.to_bits(),
        normal_uv_scale: bits([1.2, 1.3]),
        normal_uv_offset: bits([0.14, 0.15]),
        normal_uv_rotation: 0.16f32.to_bits(),
        occlusion_strength: 0.67f32.to_bits(),
        base_uv_scale: bits([1.7, 1.8]),
        base_uv_rotation: 0.19f32.to_bits(),
        transmission_factor: 0.21f32.to_bits(),
        thickness_factor: 0.22f32.to_bits(),
        attenuation_distance: Some(2.3f32.to_bits()),
        attenuation_color: bits([0.24, 0.25, 0.26]),
        textures: PbrTextureReferences {
            base_color: Some(3),
            normal: Some(4),
            occlusion: Some(5),
            ..Default::default()
        },
    }
}

#[test]
fn authored_material_words_match_the_shader_record() {
    let material = authored_material();
    let words = patch_pbr_material_words(&material);
    assert_eq!(
        words.len() * std::mem::size_of::<u32>(),
        PATCH_PBR_MATERIAL_BYTES as usize,
    );
    assert_eq!(words[0..4], material.base_color);
    assert_eq!(words[4..7], material.emissive_factor);
    assert_eq!(words[7], material.metallic);
    assert_eq!(words[8], material.roughness);
    assert_eq!(words[9], material.alpha_cutoff);
    assert_eq!(words[10], 1.0f32.to_bits());
    assert_eq!(words[11], material.ior);
    assert_eq!(words[12..15], [1, 1, 1]);
    assert_eq!(words[15], 1 | (0b01_0101 << 1));
    assert_eq!(words[16..19], material.specular_color);
    assert_eq!(words[19], material.normal_scale);
    assert_eq!(words[20..23], material.sheen_color);
    assert_eq!(words[23], material.sheen_roughness);
    assert_eq!(words[24..26], material.normal_uv_scale);
    assert_eq!(words[26..28], material.normal_uv_offset);
    assert_eq!(words[28], material.normal_uv_rotation);
    assert_eq!(words[29], material.occlusion_strength);
    assert_eq!(words[30..32], material.base_uv_scale);
    assert_eq!(words[32], material.base_uv_rotation);
    assert_eq!(words[33], material.transmission_factor);
    assert_eq!(words[34], material.thickness_factor);
    assert_eq!(words[35], 2.3f32.to_bits());
    assert_eq!(words[36..39], material.attenuation_color);
}

#[test]
fn empty_material_table_uploads_one_default_record() {
    let default_material = authored_material();
    let words = patch_pbr_material_table_words(&[], &[], &default_material).unwrap();
    assert_eq!(words.len(), PATCH_PBR_MATERIAL_WORDS);
    assert_eq!(words, patch_pbr_material_words(&default_material));
}

#[test]
fn material_table_places_each_record_in_its_own_slice() {
    let first = authored_material();
    let second = PbrMaterial { metallic: 0.1f32.to_bits(), unlit: false, ..authored_material() };
    let third = PbrMaterial { roughness: 0.3f32.to_bits(), textures: PbrTextureReferences::default(), ..first };
    let materials = [first, second, third];
    let words = patch_pbr_material_table_words(&materials, &[true; 3], &second).unwrap();
    assert_eq!(words.len(), 3 * PATCH_PBR_MATERIAL_WORDS);
    for (i, material) in materials.iter().enumerate() {
        let slice = &words[i * PATCH_PBR_MATERIAL_WORDS..(i + 1) * PATCH_PBR_MATERIAL_WORDS];
        assert_eq!(slice, patch_pbr_material_words(material).as_slice());
    }
    assert_ne!(words[..PATCH_PBR_MATERIAL_WORDS], words[PATCH_PBR_MATERIAL_WORDS..2 * PATCH_PBR_MATERIAL_WORDS]);
}

#[test]
fn diagnostics_report_the_created_complete_mip_atlas_contract() {
    assert_eq!(texture_mip_level_count(8, 4), 4);
    let plan = PortableAtlasPlanSummary {
        extent: [8, 8],
        layer_count: 1,
        source_texels: 32,
        allocated_texels: 64,
        utilization_millionths: 500_000,
        source_mip_texels: 43,
        allocated_mip_texels: 85,
        mip_utilization_millionths: 505_882,
    };
    let diagnostics = pbr_texture_table_diagnostics(2, 1, 4, 4, &plan, 4);

    assert_eq!(diagnostics.texture_slots, 2);
    assert_eq!(diagnostics.occupied_images, 1);
    assert_eq!(diagnostics.individual_min_mip_level_count, 4);
    assert_eq!(diagnostics.individual_max_mip_level_count, 4);
    assert_eq!(diagnostics.individual_allocated_mip_texels, 43);
    assert_eq!(diagnostics.portable_atlas_extent, [8, 8]);
    assert_eq!(diagnostics.portable_atlas_layers, 1);
    assert_eq!(diagnostics.portable_atlas_source_texels, 32);
    assert_eq!(diagnostics.portable_atlas_allocated_texels, 64);
    assert_eq!(diagnostics.portable_atlas_utilization_millionths, 500_000);
    assert_eq!(diagnostics.portable_atlas_source_mip_texels, 43);
    assert_eq!(diagnostics.portable_atlas_allocated_mip_texels, 85);
    assert_eq!(
        diagnostics.portable_atlas_mip_utilization_millionths,
        505_882
    );
    assert_eq!(diagnostics.portable_atlas_mip_level_count, 4);
    assert!(diagnostics.portable_atlas_uses_manual_bilinear_filtering);
    assert!(diagnostics.portable_atlas_uses_manual_trilinear_filtering);
    assert_eq!(diagnostics.total_allocated_mip_texels, 128);
    assert_eq!(diagnostics.total_allocated_bytes, 512);
}

#[test]
fn request_rejects_empty_or_out_of_bounds_pixels() {
    assert!(PatchPickRequest::new([0, 1], [0, 0], 3).is_err());
    assert!(PatchPickRequest::new([8, 4], [8, 0], 3).is_err());
    assert!(PatchPickRequest::new([8, 4], [0, 4], 3).is_err());
    assert_eq!(
        PatchPickRequest::new([8, 4], [7, 3], 3)
            .unwrap()
            .uniform_words(),
        [8.0, 4.0, 7.0, 3.0].map(f32::to_bits),
    );
}

#[test]
fn readback_packet_preserves_epoch_identity_surface_and_distance() {
    let request = PatchPickRequest::new([1600, 900], [812, 417], 29).unwrap();
    let mut bytes = vec![0u8; PICK_READBACK_BYTES as usize];
    let identity = [43, 8, 0.125f32.to_bits(), 0.25f32.to_bits()];
    bytes[..16].copy_from_slice(bytemuck::cast_slice(&identity));
    let surface = [1.5f32, -2.0, 0.75, 4.25];
    let offset = PICK_SURFACE_OFFSET as usize;
    bytes[offset..offset + 16].copy_from_slice(bytemuck::cast_slice(&surface));
    let hit = decode_patch_pick_bytes(&bytes, request).unwrap();
    assert_eq!(
        hit,
        Some(PatchPickHit {
            target_epoch: 29,
            packed_node: 7,
            source_face: 42,
            barycentric_bits: [0.125f32.to_bits(), 0.25f32.to_bits()],
            surface_bits: surface.map(f32::to_bits),
        }),
    );
    let hit = hit.unwrap();
    assert!(validate_pick_hit_bits(hit).is_ok());
    let x = f32::from_bits(hit.barycentric_bits[0]);
    let y = f32::from_bits(hit.barycentric_bits[1]);
    assert_eq!([x, y, 1.0 - x - y], [0.125, 0.25, 0.625]);
    assert_eq!(
        hit.surface_bits.map(f32::from_bits),
        [1.5, -2.0, 0.75, 4.25]
    );
}

#[test]
fn cleared_readback_is_no_hit_and_malformed_packets_fail() {
    let request = PatchPickRequest::new([1, 1], [0, 0], 5).unwrap();
    let mut bytes = vec![0u8; PICK_READBACK_BYTES as usize];
    assert_eq!(decode_patch_pick_bytes(&bytes, request).unwrap(), None);
    bytes[4..8].copy_from_slice(&1u32.to_ne_bytes());
    assert!(decode_patch_pick_bytes(&bytes, request).is_err());
    bytes[..8].copy_from_slice(bytemuck::cast_slice(&[1u32, 0]));
    assert!(decode_patch_pick_bytes(&bytes, request).is_err());
}

#[test]
fn raw_field_decoder_discards_padding_and_reports_covered_ranges() {
    let encode = |texel: [f32; 4]| {
        texel
            .into_iter()
            .flat_map(|value| half::f16::from_f32(value).to_bits().to_le_bytes())
            .collect::<Vec<_>>()
    };
    let mut bytes = vec![0; 32];
    bytes[..8].copy_from_slice(&encode([0.25, 0.5, 0.75, 1.0]));
    bytes[8..16].copy_from_slice(&encode([0.0, 0.0, 0.0, 0.0]));
    let image = decode_focus_raw_field_bits(&bytes, [2, 1], 32).unwrap();
    assert_eq!(image.size, [2, 1]);
    assert_eq!(image.covered_texels(), 1);
    let covered_channel_range = |channel: usize| -> Option<[f32; 2]> {
        image
            .covered_channel_range(channel)
            .map(|range| range.map(|value| half::f16::from_bits(value).to_f32()))
    };
    assert_eq!(covered_channel_range(0), Some([0.25, 0.25]));
    assert_eq!(covered_channel_range(2), Some([0.75, 0.75]));
    assert_eq!(covered_channel_range(4), None);
}

#[test]
fn readback_with_invalid_surface_values_is_a_mapping_error() {
    let request = PatchPickRequest::new([4, 4], [1, 1], 3).unwrap();
    let decode = |identity: [u32; 4], surface: [u32; 4]| {
        let mut bytes = vec![0u8; PICK_READBACK_BYTES as usize];
        bytes[..16].copy_from_slice(bytemuck::cast_slice(&identity));
        let offset = PICK_SURFACE_OFFSET as usize;
        bytes[offset..offset + 16].copy_from_slice(bytemuck::cast_slice(&surface));
        decode_patch_pick_bytes(&bytes, request)
    };
    let good = [1.0f32, 2.0, 3.0, 4.0].map(f32::to_bits);
    let bary = [2, 2, 0.5f32.to_bits(), 0.25f32.to_bits()];
    assert!(decode(bary, good).unwrap().is_some());
    let mapping = |r: Result<Option<PatchPickHit>, quilting_webgpu::error::LodWebGpuError>| {
        matches!(r, Err(quilting_webgpu::error::LodWebGpuError::Mapping(_)))
    };
    assert!(mapping(decode(bary, [good[0], good[1], good[2], 0x7fc0_0000])));
    assert!(mapping(decode(bary, [good[0], f32::INFINITY.to_bits(), good[2], good[3]])));
    assert!(mapping(decode(bary, [good[0], good[1], good[2], (-1.0f32).to_bits()])));
    assert!(mapping(decode([2, 2, (-0.01f32).to_bits(), 0.25f32.to_bits()], good)));
    assert!(decode([2, 2, (-0.0f32).to_bits(), 0.25f32.to_bits()], [good[0], good[1], good[2], (-0.0f32).to_bits()]).unwrap().is_some());
}

#[test]
fn material_table_rejects_a_material_that_fails_validation() {
    let material = authored_material();
    let default_material = authored_material();
    let words = patch_pbr_material_table_words(&[material, material], &[true, true], &default_material)
        .unwrap();
    assert_eq!(words.len(), 2 * PATCH_PBR_MATERIAL_WORDS);
    assert_eq!(words[..PATCH_PBR_MATERIAL_WORDS], patch_pbr_material_words(&material));
    assert!(matches!(
        patch_pbr_material_table_words(&[material, material], &[true, false], &default_material),
        Err(quilting_webgpu::error::LodWebGpuError::Payload(_))
    ));
    assert!(patch_pbr_material_table_words(&[material], &[], &default_material).is_err());
}

#[test]
fn pbr_subset_admits_opaque_plain_materials_only() {
    let plain = PbrMaterial { has_sheen: false, transmission_factor: 0, ..authored_material() };
    let batch = PbrSubsetBatch { opaque_class: true, alpha_blend: false, material: plain };
    assert!(supports_basic_pbr_frame(true, &[batch, batch], false));
    assert!(!supports_basic_pbr_frame(true, &[batch], true));
    assert!(supports_focus_pbr_frame(true, &[batch], true));
    assert!(!supports_focus_pbr_frame(true, &[batch], false));
    assert!(!supports_basic_pbr_frame(false, &[batch], false));
    assert!(!supports_basic_pbr_frame(true, &[], false));
    let transparent = PbrSubsetBatch { opaque_class: false, ..batch };
    let blended = PbrSubsetBatch { alpha_blend: true, ..batch };
    let sheen = PbrSubsetBatch { material: PbrMaterial { has_sheen: true, ..plain }, ..batch };
    for bad in [transparent, blended, sheen] {
        assert!(validate_pbr_material_subset(true, &[batch, bad]).is_err());
    }
    for (transmission, admitted) in [
        (0.0f32, true), (-0.0, true), (0.25, false), (f32::INFINITY, false), (f32::NAN, true),
        (-1.0, true), (1.0e-40, false),
    ] {
        let material = PbrMaterial { transmission_factor: transmission.to_bits(), ..plain };
        let b = PbrSubsetBatch { material, ..batch };
        assert_eq!(validate_pbr_material_subset(true, &[b]).is_ok(), !(transmission > 0.0), "{transmission}");
        assert_eq!(validate_pbr_material_subset(true, &[b]).is_ok(), admitted);
    }
}

#[test]
fn covered_channel_range_matches_float_minimum_and_maximum() {
    let texels: Vec<[u16; 4]> = [
        [-2.5f32, 1.0, 0.0, 1.0],
        [7.0, 2.0, 0.0, 0.25],
        [0.5, f32::INFINITY, 0.0, 0.75],
        [-0.0, -3.0, 0.0, 1.0],
        [f32::NAN, 4.0, 0.0, 0.6],
    ]
    .iter()
    .map(|texel| texel.map(|value| half::f16::from_f32(value).to_bits()))
    .collect();
    let field = quilting_webgpu::focus::FocusRawFieldBits { size: [5, 1], texels };
    let real = |channel: usize| {
        field
            .covered_channel_range(channel)
            .map(|range| range.map(|value| half::f16::from_bits(value).to_f32()))
    };
    assert_eq!(real(0), Some([-2.5, 0.5]));
    assert_eq!(real(1), Some([-3.0, 4.0]));
    assert_eq!(real(2), Some([0.0, 0.0]));
    assert_eq!(real(4), None);
    let uncovered = quilting_webgpu::focus::FocusRawFieldBits {
        size: [1, 1],
        texels: vec![[0x3c00, 0x3c00, 0x3c00, 0x3800]],
    };
    assert_eq!(uncovered.covered_channel_range(0), None);
}
