use quilting_webgpu::atlas::{upload_packed_patch_atlas, RenderGeometry};
use quilting_webgpu::error::LodWebGpuError;
use quilting_webgpu::patch_frame::{
    validate_draw_command, validate_patch_sample_count, validate_render_residency, RenderResidency, RenderSceneCounts,
};
use quilting_webgpu::preparation::PatchPreparationSceneWords;
use quilting_webgpu::scene::{
    patch_render_scene_update, validate_texture_binding_material_count, PatchRenderSceneUpdate,
    RetainedSceneShape,
};
use quilting_webgpu::render_words::{patch_render_binding_sizes, PatchRenderBindingSizes};
use quilting_webgpu::visibility::{
    visibility_compaction_output, IndexFormat, VisibilityCompactionSceneWords,
};

fn is_payload<T>(r: &Result<T, LodWebGpuError>) -> bool {
    matches!(r, Err(LodWebGpuError::Payload(_)))
}

fn residency() -> RenderResidency {
    RenderResidency {
        patch_count: 5,
        visibility_source_count: 5,
        visibility_batch_count: 2,
        domain_count: 2,
        material_count: 1,
        material_texture_count: None,
    }
}

#[test]
fn render_residency_counts_batches_and_instances() {
    assert_eq!(
        validate_render_residency(&[2, 3], 0, false, residency()).unwrap(),
        RenderSceneCounts { batch_count: 2, source_instance_count: 5 }
    );
    assert!(is_payload(&validate_render_residency(&[], 0, false, residency())));
    assert!(is_payload(&validate_render_residency(&[2, 2], 0, false, residency())));
    assert!(is_payload(&validate_render_residency(&[5], 0, false, residency())));
    assert!(is_payload(&validate_render_residency(&[2, 3], 2, false, residency())));
    assert!(is_payload(&validate_render_residency(&[2, usize::MAX], 0, false, residency())));
    assert!(is_payload(&validate_render_residency(&[2, 3], 0, true, residency())));
    let textured = RenderResidency { material_texture_count: Some(1), ..residency() };
    assert!(validate_render_residency(&[2, 3], 1, true, textured).is_ok());
    let wide = RenderResidency { material_count: 3, material_texture_count: Some(2), ..residency() };
    assert!(is_payload(&validate_render_residency(&[2, 3], 3, true, wide)));
}

#[test]
fn draw_command_must_fit_pipeline_atlas_and_buffer() {
    let patches = vec![1, 2, 3, 0, 3, 0, 2, 4, 5, 6, 3, 3, 2, 2];
    let barycentrics = [1.0f32, 0.0, 0.0, 0.0, 1.0, 0.0, 0.0, 0.0, 1.0]
        .map(f32::to_bits)
        .to_vec();
    let atlas =
        upload_packed_patch_atlas(&patches, &barycentrics, &[0, 1, 2, 2, 1, 0], &[0, 1, 1, 2]).unwrap();
    let tri = RenderGeometry::Triangles;
    let lines = RenderGeometry::Lines;
    assert_eq!(validate_draw_command(&atlas, [4, 5, 6], tri, tri, 3, IndexFormat::Uint32, 24).unwrap(), (3, 3));
    assert_eq!(validate_draw_command(&atlas, [4, 5, 6], lines, lines, 2, IndexFormat::Uint16, 8).unwrap(), (2, 2));
    assert!(is_payload(&validate_draw_command(&atlas, [4, 5, 6], tri, tri, 3, IndexFormat::Uint32, 23)));
    assert!(is_payload(&validate_draw_command(&atlas, [4, 5, 6], tri, lines, 3, IndexFormat::Uint32, 24)));
    assert!(is_payload(&validate_draw_command(&atlas, [4, 5, 6], tri, tri, 2, IndexFormat::Uint32, 24)));
    assert!(is_payload(&validate_draw_command(&atlas, [6, 5, 4], tri, tri, 3, IndexFormat::Uint32, 24)));
}

#[test]
fn patch_render_bindings_share_one_instance_domain() {
    assert_eq!(
        patch_render_binding_sizes(6, 6, 3, 0).unwrap(),
        PatchRenderBindingSizes { domain_bytes: 240, domain_words: 60, material_count: 1 }
    );
    assert_eq!(patch_render_binding_sizes(6, 6, 3, 4).unwrap().material_count, 4);
    assert!(is_payload(&patch_render_binding_sizes(0, 0, 3, 0)));
    assert!(is_payload(&patch_render_binding_sizes(6, 5, 3, 0)));
    assert!(is_payload(&patch_render_binding_sizes(6, 6, 0, 0)));
}

#[test]
fn sample_count_must_be_a_power_of_two() {
    for n in [1u32, 2, 4, 8, 16, 1 << 31] {
        assert!(validate_patch_sample_count(n).is_ok());
    }
    for n in [0u32, 3, 6, 12, u32::MAX] {
        assert!(is_payload(&validate_patch_sample_count(n)));
    }
    for n in 0u32..1100 {
        assert_eq!(validate_patch_sample_count(n).is_ok(), n.is_power_of_two());
    }
}


#[test]
fn compaction_output_cuts_sources_to_reported_survivors() {
    let ranges = vec![0, 3, 0, 0, 2, 1, 2, 3, 2, 1];
    let triangles = vec![6, 1, 0, 0, 0, 3, 1, 3, 0, 1];
    let lines = vec![4, 1, 0, 0, 0, 2, 1, 2, 0, 1];
    let out = visibility_compaction_output(
        2,
        5,
        ranges.clone(),
        triangles.clone(),
        lines.clone(),
        vec![0, 2, 4, 9, 9],
    )
    .unwrap();
    assert_eq!(out.compacted_source_instances, vec![0, 2, 4]);
    assert_eq!(out.compacted_ranges, vec![[0, 3, 0, 0, 2], [1, 2, 3, 2, 1]]);
    assert_eq!(out.triangle_indirect_arguments[1], [3, 1, 3, 0, 1]);
    assert_eq!(out.line_indirect_arguments[0], [4, 1, 0, 0, 0]);
    assert!(matches!(
        visibility_compaction_output(2, 2, ranges, triangles, lines, vec![0, 2]),
        Err(LodWebGpuError::Conformance(_))
    ));
    let empty = visibility_compaction_output(0, 4, vec![], vec![], vec![], vec![]).unwrap();
    assert!(empty.compacted_source_instances.is_empty());
    assert!(empty.compacted_ranges.is_empty());
}

fn scene_words() -> (PatchPreparationSceneWords, VisibilityCompactionSceneWords) {
    let patches = PatchPreparationSceneWords {
        uniform: [2, 40, 0, 1],
        topology: vec![[0; 12]; 2],
        source_faces: vec![],
        subjects: vec![[0; 32]; 3],
    };
    let visibility = VisibilityCompactionSceneWords {
        uniform: [1, 2, 0, 0],
        batches: vec![[0, 2, 3, 2]],
        source_eligibility: vec![1, 0],
    };
    (patches, visibility)
}

fn retained() -> RetainedSceneShape {
    RetainedSceneShape {
        model_identity: 9,
        patch_count: 2,
        subject_count: 3,
        preparation_uniform: [2, 40, 0, 1],
        batch_count: 1,
        source_count: 2,
        material_count: 1,
    }
}

#[test]
fn scene_update_is_in_place_only_for_an_unchanged_shape() {
    let (patches, visibility) = scene_words();
    assert_eq!(
        patch_render_scene_update(9, retained(), &patches, &visibility, 0).unwrap(),
        PatchRenderSceneUpdate::Updated
    );
    assert_eq!(
        patch_render_scene_update(8, retained(), &patches, &visibility, 0).unwrap(),
        PatchRenderSceneUpdate::ShapeChanged
    );
    assert_eq!(
        patch_render_scene_update(9, retained(), &patches, &visibility, 2).unwrap(),
        PatchRenderSceneUpdate::ShapeChanged
    );
    let mut more_subjects = patches.clone();
    more_subjects.subjects.push([0; 32]);
    assert_eq!(
        patch_render_scene_update(9, retained(), &more_subjects, &visibility, 1).unwrap(),
        PatchRenderSceneUpdate::ShapeChanged
    );
    let mut other_model = patches.clone();
    other_model.uniform[1] = 41;
    assert!(is_payload(&patch_render_scene_update(9, retained(), &other_model, &visibility, 1)));
    let mut padded = visibility.clone();
    padded.uniform[3] = 1;
    assert!(is_payload(&patch_render_scene_update(9, retained(), &patches, &padded, 1)));
    assert!(validate_texture_binding_material_count(2, 2).is_ok());
    assert!(is_payload(&validate_texture_binding_material_count(1, 2)));
}
