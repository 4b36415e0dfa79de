use gaussian_splatting::defines::ShaderDefines;
use gaussian_splatting::pipeline::{
    shader_defs, BindingSizes, BlendFactor, BufferBindingKind, CompareFunction, GaussianCloudPipeline,
    GaussianCloudPipelineKey, LayoutRole, ShaderDef, ShaderVisibility, SpecializedPipelines,
};

fn sizes() -> BindingSizes {
    BindingSizes { view_uniform: 400, globals_uniform: 16, cloud_uniform: 80, gaussian: 256 }
}

#[test]
fn default_defines() {
    let d = ShaderDefines::default();
    assert_eq!(d.radix_bits_per_digit, 8);
    assert_eq!(d.radix_digit_places, 4);
    assert_eq!(d.radix_base, 256);
    assert_eq!(d.entries_per_invocation_a, 4);
    assert_eq!(d.entries_per_invocation_c, 4);
    assert_eq!(d.workgroup_invocations_a, 1024);
    assert_eq!(d.workgroup_invocations_c, 256);
    assert_eq!(d.workgroup_entries_a, 4096);
    assert_eq!(d.workgroup_entries_c, 1024);
    assert_eq!(d.sorting_buffer_size, 4116);
    assert_eq!(d.temporal_sort_window_size, 16);
}

#[test]
fn tile_count_and_counter_sizes() {
    let d = ShaderDefines::default();
    let cases: [(usize, u32); 5] = [(0, 0), (1, 1), (1023, 1), (1024, 1), (10_000_000, 9766)];
    for (count, tiles) in cases {
        assert_eq!(d.max_tile_count(count), tiles);
        assert_eq!(d.sorting_status_counters_buffer_size(count), 256 * tiles as usize * 4);
    }
    assert_eq!(d.max_tile_count(1025), 2);
    assert_eq!(d.sorting_status_counters_buffer_size(10_000_000), 10_000_384);
}

#[test]
fn shader_defs_per_variant() {
    let d = ShaderDefines::default();
    let defs = shader_defs(&d, 48, true, false);
    assert_eq!(defs.len(), 11);
    assert!(matches!(defs[0], ShaderDef::UInt("MAX_SH_COEFF_COUNT", 48)));
    assert!(matches!(defs[1], ShaderDef::UInt("RADIX_BASE", 256)));
    assert!(matches!(defs[8], ShaderDef::UInt("WORKGROUP_ENTRIES_C", 1024)));
    assert!(matches!(defs[9], ShaderDef::UInt("TEMPORAL_SORT_WINDOW_SIZE", 16)));
    assert!(matches!(defs[10], ShaderDef::Flag("USE_AABB")));
    let obb = shader_defs(&d, 48, false, true);
    assert_eq!(obb.len(), 12);
    assert!(matches!(obb[10], ShaderDef::Flag("USE_OBB")));
    assert!(matches!(obb[11], ShaderDef::Flag("VISUALIZE_BOUNDING_BOX")));
}

#[test]
fn layouts_bind_expected_buffers() {
    let p = GaussianCloudPipeline::new(sizes());
    assert_eq!(p.view_layout.entries.len(), 2);
    assert!(p.view_layout.entries[0].has_dynamic_offset);
    assert_eq!(p.view_layout.entries[0].min_binding_size, 400);
    assert_eq!(p.view_layout.entries[1].binding, 1);
    assert!(!p.view_layout.entries[1].has_dynamic_offset);
    assert_eq!(p.gaussian_uniform_layout.entries[0].min_binding_size, 80);
    assert_eq!(p.gaussian_cloud_layout.entries[0].kind, BufferBindingKind::Storage { read_only: false });
    assert_eq!(p.gaussian_cloud_layout.entries[0].min_binding_size, 256);
    assert_eq!(p.sorted_layout.entries[0].visibility, ShaderVisibility::VertexFragment);
    assert_eq!(p.sorted_layout.entries[0].kind, BufferBindingKind::Storage { read_only: true });
    assert_eq!(p.sorted_layout.entries[0].min_binding_size, 8);
}

#[test]
fn descriptor_fixes_blend_depth_and_sampling() {
    let p = GaussianCloudPipeline::new(sizes());
    let d = ShaderDefines::default();
    let desc = p.specialize(&d, 48, GaussianCloudPipelineKey { aabb: false, visualize_bounding_box: false });
    assert_eq!(
        desc.layout,
        vec![LayoutRole::View, LayoutRole::CloudUniform, LayoutRole::CloudStorage, LayoutRole::SortedStorage]
    );
    assert_eq!(desc.vertex_entry_point, "vs_points");
    assert_eq!(desc.fragment_entry_point, "fs_main");
    assert_eq!(desc.color_blend.src_factor, BlendFactor::DstAlpha);
    assert_eq!(desc.color_blend.dst_factor, BlendFactor::One);
    assert_eq!(desc.alpha_blend.src_factor, BlendFactor::Zero);
    assert_eq!(desc.alpha_blend.dst_factor, BlendFactor::OneMinusSrcAlpha);
    assert!(!desc.depth_write_enabled);
    assert_eq!(desc.depth_compare, CompareFunction::GreaterEqual);
    assert_eq!(desc.sample_count, 4);
    assert_eq!(desc.shader_defs.len(), 11);
}

#[test]
fn variant_cache_compiles_each_key_once() {
    let p = GaussianCloudPipeline::new(sizes());
    let mut cache = SpecializedPipelines::new(ShaderDefines::default(), 48);
    let k1 = GaussianCloudPipelineKey { aabb: true, visualize_bounding_box: false };
    let k2 = GaussianCloudPipelineKey { aabb: true, visualize_bounding_box: true };
    let k3 = GaussianCloudPipelineKey { aabb: false, visualize_bounding_box: false };
    let a = cache.specialize(&p, k1);
    let b = cache.specialize(&p, k2);
    let c = cache.specialize(&p, k3);
    let again = cache.specialize(&p, k1);
    assert_eq!(cache.len(), 3);
    assert_eq!((a, b, c), (0, 1, 2));
    assert_eq!(again, a);
}
