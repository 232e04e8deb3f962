use quilting_webgpu::atlas::{upload_packed_patch_atlas, PackedPatchAtlas, RenderGeometry};
use quilting_webgpu::error::LodWebGpuError;
use quilting_webgpu::overlay::{
    adaptive_overlay_epoch, adaptive_overlay_required, adaptive_overlay_suppression, adaptive_patch_frame_rows,
    plan_adaptive_overlay_draws, validate_adaptive_overlay_epoch,
    validate_overlay_preparation_shape, validate_resident_adaptive_suppression,
    AdaptiveOverlayEpoch, OverlayBatchDraw, OverlayDraw,
};
use quilting_webgpu::patch_frame::{
    DiagnosticPipeline, DiagnosticPipelineGeometries, PatchWinding, RenderPass,
};

fn is_payload<T>(r: &Result<T, LodWebGpuError>) -> bool {
    matches!(r, Err(LodWebGpuError::Payload(_)))
}

fn atlas() -> PackedPatchAtlas {
    let patches = vec![1, 2, 3, 0, 3, 0, 2, 4, 5, 6, 3, 3, 2, 2];
    let barycentrics = [1.0f32, 0.0, 0.0, 0.0, 1.0, 0.0, 0.0, 0.0, 1.0]
        .map(f32::to_bits)
        .to_vec();
    upload_packed_patch_atlas(&patches, &barycentrics, &[0, 1, 2, 2, 1, 0], &[0, 1, 1, 2]).unwrap()
}

fn geometries() -> DiagnosticPipelineGeometries {
    DiagnosticPipelineGeometries {
        pbr: RenderGeometry::Triangles,
        matcap: RenderGeometry::Triangles,
        wire: RenderGeometry::Lines,
        normals: RenderGeometry::Triangles,
        lod: RenderGeometry::Triangles,
        stretch: RenderGeometry::Triangles,
    }
}

fn epoch() -> AdaptiveOverlayEpoch {
    AdaptiveOverlayEpoch {
        model_identity: 7,
        scene_revision: 3,
        suppressed_root_faces: vec![0b1010],
        source_batch_indices: vec![2, 0],
        batch_keys: vec![30, 10],
    }
}

#[test]
fn frame_rows_repeat_each_batch_index_per_member() {
    assert_eq!(adaptive_patch_frame_rows(&[2, 0, 3], 5).unwrap(), vec![0, 0, 2, 2, 2]);
    assert_eq!(adaptive_patch_frame_rows(&[], 0).unwrap(), Vec::<u32>::new());
    assert!(is_payload(&adaptive_patch_frame_rows(&[2, 0, 3], 4)));
    assert!(is_payload(&adaptive_patch_frame_rows(&[2, 0, 3], 6)));
}

#[test]
fn overlay_preparation_shape_matches_roots_and_model() {
    let ok = validate_overlay_preparation_shape(7, 12, 7, 12, 40, 2, [5, 40, 0, 2], 5, 1);
    assert_eq!(ok.unwrap(), 5);
    assert!(is_payload(&validate_overlay_preparation_shape(8, 12, 7, 12, 40, 2, [5, 40, 0, 2], 5, 1)));
    assert!(is_payload(&validate_overlay_preparation_shape(7, 11, 7, 12, 40, 2, [5, 40, 0, 2], 5, 1)));
    assert!(is_payload(&validate_overlay_preparation_shape(7, 12, 7, 12, 40, 2, [0, 40, 0, 2], 0, 1)));
    assert!(is_payload(&validate_overlay_preparation_shape(7, 12, 7, 12, 40, 2, [5, 40, 1, 2], 5, 1)));
    assert!(is_payload(&validate_overlay_preparation_shape(7, 12, 7, 12, 40, 2, [5, 40, 0, 2], 4, 1)));
    assert!(is_payload(&validate_overlay_preparation_shape(7, 12, 7, 12, 40, 2, [5, 40, 0, 2], 5, 0)));
}

#[test]
fn overlay_is_required_only_for_replacement_batches() {
    assert_eq!(adaptive_overlay_required(4, 4, 3, 1).unwrap(), true);
    assert_eq!(adaptive_overlay_required(4, 4, 0, 0).unwrap(), false);
    assert!(is_payload(&adaptive_overlay_required(4, 4, 0, 2)));
    assert!(is_payload(&adaptive_overlay_required(5, 4, 3, 1)));
}

#[test]
fn overlay_epoch_must_match_model_scene_and_batches() {
    let overlay = epoch();
    let keys = [10, 20, 30];
    assert!(validate_adaptive_overlay_epoch(&overlay, 7, 7, 12, 12, 3, &[0b1010], &keys).is_ok());
    assert!(is_payload(&validate_adaptive_overlay_epoch(&overlay, 8, 7, 12, 12, 3, &[0b1010], &keys)));
    assert!(is_payload(&validate_adaptive_overlay_epoch(&overlay, 7, 7, 11, 12, 3, &[0b1010], &keys)));
    assert!(is_payload(&validate_adaptive_overlay_epoch(&overlay, 7, 7, 12, 12, 4, &[0b1010], &keys)));
    assert!(is_payload(&validate_adaptive_overlay_epoch(&overlay, 7, 7, 12, 12, 3, &[0b1000], &keys)));
    assert!(is_payload(&validate_adaptive_overlay_epoch(&overlay, 7, 7, 12, 12, 3, &[0b1010], &[10, 20, 31])));
    assert!(is_payload(&validate_adaptive_overlay_epoch(&overlay, 7, 7, 12, 12, 3, &[0b1010], &[10, 20])));
}

#[test]
fn published_suppression_is_accepted_by_the_next_frame() {
    let overlay = epoch();
    let published = adaptive_overlay_suppression(7, Some(&overlay)).unwrap();
    assert_eq!(published, vec![0b1010]);
    assert!(validate_resident_adaptive_suppression(&[0b1010], true, &published).is_ok());
    assert!(is_payload(&adaptive_overlay_suppression(8, Some(&overlay))));
    let none = adaptive_overlay_suppression(7, None).unwrap();
    assert!(none.is_empty());
    assert!(validate_resident_adaptive_suppression(&[], false, &none).is_ok());
    assert!(is_payload(&validate_resident_adaptive_suppression(&[0b1010], false, &published)));
    assert!(is_payload(&validate_resident_adaptive_suppression(&[], true, &none)));
    assert!(is_payload(&validate_resident_adaptive_suppression(&[0b1010], true, &[0b0010])));
}

#[test]
fn overlay_draws_follow_passes_then_batches() {
    let atlas = atlas();
    let batches = [
        OverlayBatchDraw {
            key: [4, 5, 6],
            triangle_index_count: 3,
            line_index_count: 2,
            orientation_sign: 1,
            parity_bucket: 1,
        },
        OverlayBatchDraw {
            key: [1, 2, 3],
            triangle_index_count: 3,
            line_index_count: 2,
            orientation_sign: 1,
            parity_bucket: 0,
        },
    ];
    let passes = [
        (RenderPass::Matcap, RenderGeometry::Triangles),
        (RenderPass::PbrTransparent, RenderGeometry::Triangles),
        (RenderPass::Wire, RenderGeometry::Lines),
    ];
    let draws = plan_adaptive_overlay_draws(&atlas, &passes, geometries(), &batches).unwrap();
    assert_eq!(
        draws,
        vec![
            OverlayDraw {
                pipeline: DiagnosticPipeline::Matcap,
                geometry: RenderGeometry::Triangles,
                batch_index: 0,
                first_index: 3,
                index_count: 3,
                winding: PatchWinding::Clockwise,
            },
            OverlayDraw {
                pipeline: DiagnosticPipeline::Matcap,
                geometry: RenderGeometry::Triangles,
                batch_index: 1,
                first_index: 0,
                index_count: 3,
                winding: PatchWinding::CounterClockwise,
            },
            OverlayDraw {
                pipeline: DiagnosticPipeline::Wire,
                geometry: RenderGeometry::Lines,
                batch_index: 0,
                first_index: 2,
                index_count: 2,
                winding: PatchWinding::Clockwise,
            },
            OverlayDraw {
                pipeline: DiagnosticPipeline::Wire,
                geometry: RenderGeometry::Lines,
                batch_index: 1,
                first_index: 0,
                index_count: 2,
                winding: PatchWinding::CounterClockwise,
            },
        ]
    );
    let mut wrong_count = batches;
    wrong_count[1].line_index_count = 3;
    assert!(is_payload(&plan_adaptive_overlay_draws(&atlas, &passes, geometries(), &wrong_count)));
    let mut missing = batches;
    missing[0].key = [9, 9, 9];
    assert!(is_payload(&plan_adaptive_overlay_draws(&atlas, &passes, geometries(), &missing)));
    let mismatched = [(RenderPass::Wire, RenderGeometry::Triangles)];
    assert!(is_payload(&plan_adaptive_overlay_draws(&atlas, &mismatched, geometries(), &batches)));
    let transparent_only = [(RenderPass::PbrTransparent, RenderGeometry::Lines)];
    assert!(plan_adaptive_overlay_draws(&atlas, &transparent_only, geometries(), &missing)
        .unwrap()
        .is_empty());
}

#[test]
fn built_overlay_remembers_its_scene_and_is_current_for_it() {
    let keys = [10u64, 20, 30];
    let overlay = adaptive_overlay_epoch(7, 7, 3, &[0b1010], &keys, vec![2, 0]).unwrap().unwrap();
    assert_eq!(overlay.model_identity, 7);
    assert_eq!(overlay.scene_revision, 3);
    assert_eq!(overlay.suppressed_root_faces, vec![0b1010]);
    assert_eq!(overlay.source_batch_indices, vec![2, 0]);
    assert_eq!(overlay.batch_keys, vec![30, 10]);
    assert!(validate_adaptive_overlay_epoch(&overlay, 7, 7, 12, 12, 3, &[0b1010], &keys).is_ok());
    assert!(adaptive_overlay_epoch(7, 7, 3, &[], &keys, vec![]).unwrap().is_none());
    assert!(is_payload(&adaptive_overlay_epoch(7, 7, 3, &[1], &keys, vec![])));
    assert!(is_payload(&adaptive_overlay_epoch(6, 7, 3, &[1], &keys, vec![0])));
}
