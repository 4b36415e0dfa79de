use gaussian_splatting::cloud::{GpuGaussianCloud, UploadIds};
use gaussian_splatting::defines::ShaderDefines;
use gaussian_splatting::pipeline::{BindingSizes, GaussianCloudPipeline, GaussianCloudPipelineKey, SpecializedPipelines};
use gaussian_splatting::render::{
    draw_gaussians, extract_gaussians, queue_gaussian_bind_group, queue_gaussian_view_bind_groups,
    queue_gaussians, BufferBinding, CloudSlot, DrawError, GaussianCloudBindGroup, GaussianUniformBindGroups,
    GaussianViewBindGroup, LoadState, QueuedDraw, RenderOp, SplatEntity, Visibility,
};

const AABB: GaussianCloudPipelineKey = GaussianCloudPipelineKey { aabb: true, visualize_bounding_box: false };
const OBB: GaussianCloudPipelineKey = GaussianCloudPipelineKey { aabb: false, visualize_bounding_box: false };

fn uploaded(count: usize, id: u64) -> GpuGaussianCloud {
    let ids = UploadIds { gaussian_buffer: id, draw_indirect_buffer: id + 100, sort_buffer_a: id + 200, sort_buffer_b: id + 300 };
    GpuGaussianCloud::prepare(count, 32, &ShaderDefines::default(), ids)
}

fn arena() -> Vec<CloudSlot> {
    vec![
        CloudSlot { load_state: LoadState::Loaded, gpu: Some(uploaded(10, 1)) },
        CloudSlot { load_state: LoadState::Loading, gpu: None },
        CloudSlot { load_state: LoadState::Loading, gpu: Some(uploaded(5, 2)) },
    ]
}

fn entity(cloud: usize, key: GaussianCloudPipelineKey) -> SplatEntity {
    SplatEntity { cloud, key, visibility: Visibility::Inherited }
}

fn pipeline() -> GaussianCloudPipeline {
    GaussianCloudPipeline::new(BindingSizes { view_uniform: 400, globals_uniform: 16, cloud_uniform: 80, gaussian: 32 })
}

#[test]
fn extract_skips_hidden_entities() {
    let mut entities = vec![entity(0, AABB), entity(1, AABB), entity(2, OBB)];
    entities[1].visibility = Visibility::Hidden;
    entities[2].visibility = Visibility::Visible;
    assert_eq!(extract_gaussians(&entities), vec![0, 2]);
}

#[test]
fn loading_cloud_gets_no_bind_group_and_no_draw() {
    let clouds = arena();
    let entities = vec![entity(1, AABB), entity(2, OBB)];
    let mut uniforms = GaussianUniformBindGroups { base_bind_group: None };
    let mut groups = vec![None, None];
    let rebuilt = queue_gaussian_bind_group(Some(9), 80, &clouds, &entities, &mut uniforms, &mut groups);
    assert_eq!(rebuilt, vec![false, false]);
    assert_eq!(groups, vec![None, None]);
    let mut cache = SpecializedPipelines::new(ShaderDefines::default(), 48);
    let phases = queue_gaussians(true, 1, &clouds, &entities, &pipeline(), &mut cache);
    assert_eq!(phases, vec![vec![]]);
    assert_eq!(cache.len(), 0);
}

#[test]
fn bind_groups_rebuilt_only_when_buffers_change() {
    let mut clouds = arena();
    let entities = vec![entity(0, AABB), entity(1, AABB)];
    let mut uniforms = GaussianUniformBindGroups { base_bind_group: None };
    let mut groups = vec![None, None];
    let first = queue_gaussian_bind_group(Some(9), 80, &clouds, &entities, &mut uniforms, &mut groups);
    assert_eq!(first, vec![true, false]);
    assert_eq!(uniforms.base_bind_group, Some(BufferBinding { buffer: 9, offset: 0, size: 80 }));
    assert_eq!(
        groups[0],
        Some(GaussianCloudBindGroup {
            cloud_bind_group: BufferBinding { buffer: 1, offset: 0, size: 320 },
            sorted_bind_group: BufferBinding { buffer: 201, offset: 0, size: 80 },
        })
    );
    let second = queue_gaussian_bind_group(Some(9), 80, &clouds, &entities, &mut uniforms, &mut groups);
    assert_eq!(second, vec![false, false]);
    clouds[0].gpu = Some(uploaded(12, 7));
    let third = queue_gaussian_bind_group(Some(9), 80, &clouds, &entities, &mut uniforms, &mut groups);
    assert_eq!(third, vec![true, false]);
    assert_eq!(groups[0].unwrap().sorted_bind_group.size, 96);
}

#[test]
fn no_uniform_buffer_means_no_bind_groups() {
    let clouds = arena();
    let entities = vec![entity(0, AABB)];
    let mut uniforms = GaussianUniformBindGroups { base_bind_group: None };
    let mut groups = vec![None];
    let rebuilt = queue_gaussian_bind_group(None, 80, &clouds, &entities, &mut uniforms, &mut groups);
    assert_eq!(rebuilt, vec![false]);
    assert_eq!(groups, vec![None]);
    assert_eq!(uniforms.base_bind_group, None);
}

#[test]
fn view_bind_groups_need_both_buffers() {
    assert!(queue_gaussian_view_bind_groups(Some(1), None, 2).is_empty());
    assert!(queue_gaussian_view_bind_groups(None, Some(2), 2).is_empty());
    assert_eq!(
        queue_gaussian_view_bind_groups(Some(1), Some(2), 2),
        vec![
            GaussianViewBindGroup { view: 0, view_uniforms: 1, globals: 2 },
            GaussianViewBindGroup { view: 1, view_uniforms: 1, globals: 2 },
        ]
    );
}

#[test]
fn queue_draws_ready_entities_in_every_view() {
    let clouds = arena();
    let entities = vec![entity(0, AABB), entity(2, AABB), entity(0, OBB)];
    let mut cache = SpecializedPipelines::new(ShaderDefines::default(), 48);
    let phases = queue_gaussians(true, 2, &clouds, &entities, &pipeline(), &mut cache);
    let expected = vec![QueuedDraw { entity: 0, pipeline: 0 }, QueuedDraw { entity: 2, pipeline: 1 }];
    assert_eq!(phases, vec![expected.clone(), expected]);
    assert_eq!(cache.len(), 2);
    assert!(queue_gaussians(false, 2, &clouds, &entities, &pipeline(), &mut cache).is_empty());
}

#[test]
fn draw_issues_fixed_command_order() {
    let clouds = arena();
    let entities = vec![entity(0, AABB)];
    let mut uniforms = GaussianUniformBindGroups { base_bind_group: None };
    let mut groups = vec![None];
    queue_gaussian_bind_group(Some(9), 80, &clouds, &entities, &mut uniforms, &mut groups);
    let view = GaussianViewBindGroup { view: 0, view_uniforms: 1, globals: 2 };
    let item = QueuedDraw { entity: 0, pipeline: 3 };
    let ops = draw_gaussians(item, Some(view), 256, &uniforms, 5, &clouds, &entities, &groups).unwrap();
    let g = groups[0].unwrap();
    assert_eq!(
        ops,
        vec![
            RenderOp::SetPipeline { pipeline: 3 },
            RenderOp::SetViewBindGroup { index: 0, group: view, dynamic_offset: 256 },
            RenderOp::SetUniformBindGroup {
                index: 1,
                binding: BufferBinding { buffer: 9, offset: 0, size: 80 },
                dynamic_offset: 5,
            },
            RenderOp::SetCloudBindGroup { index: 2, binding: g.cloud_bind_group },
            RenderOp::SetSortedBindGroup { index: 3, binding: g.sorted_bind_group },
            RenderOp::DrawIndirect { buffer: 101, indirect_offset: 0 },
        ]
    );
}

#[test]
fn draw_reports_each_missing_resource() {
    let clouds = arena();
    let entities = vec![entity(0, AABB), entity(1, AABB)];
    let view = GaussianViewBindGroup { view: 0, view_uniforms: 1, globals: 2 };
    let empty = GaussianUniformBindGroups { base_bind_group: None };
    let bound = GaussianUniformBindGroups { base_bind_group: Some(BufferBinding { buffer: 9, offset: 0, size: 80 }) };
    let none_groups = vec![None, None];
    let item = QueuedDraw { entity: 0, pipeline: 0 };
    assert_eq!(
        draw_gaussians(item, None, 0, &bound, 0, &clouds, &entities, &none_groups),
        Err(DrawError::MissingViewBindGroup)
    );
    assert_eq!(
        draw_gaussians(item, Some(view), 0, &empty, 0, &clouds, &entities, &none_groups),
        Err(DrawError::MissingUniformBindGroup)
    );
    assert_eq!(
        draw_gaussians(item, Some(view), 0, &bound, 0, &clouds, &entities, &none_groups),
        Err(DrawError::MissingCloudBindGroup)
    );
    let other = QueuedDraw { entity: 1, pipeline: 0 };
    assert_eq!(
        draw_gaussians(other, Some(view), 0, &bound, 0, &clouds, &entities, &none_groups),
        Err(DrawError::MissingCloud)
    );
}

#[test]
fn bind_group_follows_current_sorted_buffer() {
    let mut clouds = arena();
    let entities = vec![entity(0, AABB)];
    let mut uniforms = GaussianUniformBindGroups { base_bind_group: None };
    let mut groups = vec![None];
    queue_gaussian_bind_group(Some(9), 80, &clouds, &entities, &mut uniforms, &mut groups);
    assert_eq!(groups[0].unwrap().sorted_bind_group.buffer, 201);
    if let Some(gpu) = clouds[0].gpu.as_mut() {
        gpu.radix_sort_buffers.run_pass(1, 1024);
        assert_eq!(gpu.sorted_buffer(), 301);
    }
    let rebuilt = queue_gaussian_bind_group(Some(9), 80, &clouds, &entities, &mut uniforms, &mut groups);
    assert_eq!(rebuilt, vec![true]);
    assert_eq!(groups[0].unwrap().sorted_bind_group.buffer, 301);
}
