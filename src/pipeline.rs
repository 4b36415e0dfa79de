use crate::defines::ShaderDefines;
use vstd::prelude::*;

verus! {

/// A compile-time definition handed to the shaders.
#[derive(Clone, Copy, Debug)]
pub enum ShaderDef {
    /// A definition without a value.
    Flag(&'static str),
    /// A definition with an unsigned value.
    UInt(&'static str, u32),
}

/// The definitions every variant is compiled with, then the shape and
/// debug flags of the variant.
pub open spec fn shader_defs_spec(defines: ShaderDefines, max_sh_coeff_count: u32, aabb: bool, visualize_bounding_box: bool) -> Seq<ShaderDef> {
    let base = seq![
        ShaderDef::UInt("MAX_SH_COEFF_COUNT", max_sh_coeff_count),
        ShaderDef::UInt("RADIX_BASE", defines.radix_base),
        ShaderDef::UInt("RADIX_BITS_PER_DIGIT", defines.radix_bits_per_digit),
        ShaderDef::UInt("RADIX_DIGIT_PLACES", defines.radix_digit_places),
        ShaderDef::UInt("ENTRIES_PER_INVOCATION_A", defines.entries_per_invocation_a),
        ShaderDef::UInt("ENTRIES_PER_INVOCATION_C", defines.entries_per_invocation_c),
        ShaderDef::UInt("WORKGROUP_INVOCATIONS_A", defines.workgroup_invocations_a),
        ShaderDef::UInt("WORKGROUP_INVOCATIONS_C", defines.workgroup_invocations_c),
        ShaderDef::UInt("WORKGROUP_ENTRIES_C", defines.workgroup_entries_c),
        ShaderDef::UInt("TEMPORAL_SORT_WINDOW_SIZE", defines.temporal_sort_window_size),
    ];
    let shape = if aabb {
        ShaderDef::Flag("USE_AABB")
    } else {
        ShaderDef::Flag("USE_OBB")
    };
    let with_shape = base.push(shape);
    if visualize_bounding_box {
        with_shape.push(ShaderDef::Flag("VISUALIZE_BOUNDING_BOX"))
    } else {
        with_shape
    }
}

/// The shader definitions of one pipeline variant under the sort
/// configuration `defines`.
pub fn shader_defs(defines: &ShaderDefines, max_sh_coeff_count: u32, aabb: bool, visualize_bounding_box: bool) -> (r: Vec<ShaderDef>)
    ensures
        r@ == shader_defs_spec(*defines, max_sh_coeff_count, aabb, visualize_bounding_box),
{
    let mut defs: Vec<ShaderDef> = Vec::new();
    defs.push(ShaderDef::UInt("MAX_SH_COEFF_COUNT", max_sh_coeff_count));
    defs.push(ShaderDef::UInt("RADIX_BASE", defines.radix_base));
    defs.push(ShaderDef::UInt("RADIX_BITS_PER_DIGIT", defines.radix_bits_per_digit));
    defs.push(ShaderDef::UInt("RADIX_DIGIT_PLACES", defines.radix_digit_places));
    defs.push(ShaderDef::UInt("ENTRIES_PER_INVOCATION_A", defines.entries_per_invocation_a));
    defs.push(ShaderDef::UInt("ENTRIES_PER_INVOCATION_C", defines.entries_per_invocation_c));
    defs.push(ShaderDef::UInt("WORKGROUP_INVOCATIONS_A", defines.workgroup_invocations_a));
    defs.push(ShaderDef::UInt("WORKGROUP_INVOCATIONS_C", defines.workgroup_invocations_c));
    defs.push(ShaderDef::UInt("WORKGROUP_ENTRIES_C", defines.workgroup_entries_c));
    defs.push(ShaderDef::UInt("TEMPORAL_SORT_WINDOW_SIZE", defines.temporal_sort_window_size));
    if aabb {
        defs.push(ShaderDef::Flag("USE_AABB"));
    }
    if !aabb {
        defs.push(ShaderDef::Flag("USE_OBB"));
    }
    if visualize_bounding_box {
        defs.push(ShaderDef::Flag("VISUALIZE_BOUNDING_BOX"));
    }
    assert(defs@ =~= shader_defs_spec(*defines, max_sh_coeff_count, aabb, visualize_bounding_box));
    defs
}

/// Shader stages a binding is visible to.
#[derive(Clone, Copy, Debug, PartialEq, Eq, Structural)]
pub enum ShaderVisibility {
    All,
    VertexFragment,
}

/// What kind of buffer a binding holds.
#[derive(Clone, Copy, Debug, PartialEq, Eq, Structural)]
pub enum BufferBindingKind {
    Uniform,
    Storage { read_only: bool },
}

/// One buffer binding of a bind group layout.
#[derive(Clone, Copy, Debug, PartialEq, Eq, Structural)]
pub struct LayoutEntry {
    pub binding: u32,
    pub visibility: ShaderVisibility,
    pub kind: BufferBindingKind,
    pub has_dynamic_offset: bool,
    pub min_binding_size: u64,
}

/// A bind group layout: a label and its buffer bindings.
#[derive(Debug)]
pub struct BindGroupLayout {
    pub label: &'static str,
    pub entries: Vec<LayoutEntry>,
}

/// Minimum sizes, in bytes, of the buffers the layouts bind.
#[derive(Clone, Copy, Debug, PartialEq, Eq, Structural)]
pub struct BindingSizes {
    /// One view uniform.
    pub view_uniform: u64,
    /// The globals uniform.
    pub globals_uniform: u64,
    /// One per-cloud uniform.
    pub cloud_uniform: u64,
    /// One splat record.
    pub gaussian: u64,
}

/// Bytes of one sorted-order entry: a key and an index.
pub const SORTED_ENTRY_BYTES: u64 = 8;

/// The four bind group layouts of the splat pipeline.
#[derive(Debug)]
pub struct GaussianCloudPipeline {
    pub view_layout: BindGroupLayout,
    pub gaussian_uniform_layout: BindGroupLayout,
    pub gaussian_cloud_layout: BindGroupLayout,
    pub sorted_layout: BindGroupLayout,
}

/// A buffer binding visible to every stage.
pub open spec fn all_stages(binding: u32, kind: BufferBindingKind, has_dynamic_offset: bool, min_binding_size: u64) -> LayoutEntry {
    LayoutEntry { binding, visibility: ShaderVisibility::All, kind, has_dynamic_offset, min_binding_size }
}

impl GaussianCloudPipeline {
    /// The layouts for buffers of the given sizes: view and globals
    /// uniforms (the view one dynamically offset), the per-cloud uniform
    /// (dynamically offset), the writable splat storage, and the read-only
    /// sorted-order storage seen by the vertex and fragment stages.
    pub open spec fn layouts_for(&self, sizes: BindingSizes) -> bool {
        &&& self.view_layout.label == "gaussian_view_layout"
        &&& self.view_layout.entries@ == seq![
            all_stages(0, BufferBindingKind::Uniform, true, sizes.view_uniform),
            all_stages(1, BufferBindingKind::Uniform, false, sizes.globals_uniform),
        ]
        &&& self.gaussian_uniform_layout.label == "gaussian_uniform_layout"
        &&& self.gaussian_uniform_layout.entries@ == seq![
            all_stages(0, BufferBindingKind::Uniform, true, sizes.cloud_uniform),
        ]
        &&& self.gaussian_cloud_layout.label == "gaussian_cloud_layout"
        &&& self.gaussian_cloud_layout.entries@ == seq![
            all_stages(0, BufferBindingKind::Storage { read_only: false }, false, sizes.gaussian),
        ]
        &&& self.sorted_layout.label == "sorted_layout"
        &&& self.sorted_layout.entries@ == seq![
            LayoutEntry {
                binding: 0,
                visibility: ShaderVisibility::VertexFragment,
                kind: BufferBindingKind::Storage { read_only: true },
                has_dynamic_offset: false,
                min_binding_size: SORTED_ENTRY_BYTES,
            },
        ]
    }

    /// Builds the four layouts.
    pub fn new(sizes: BindingSizes) -> (r: GaussianCloudPipeline)
        ensures
            r.layouts_for(sizes),
    {
        let mut view_entries: Vec<LayoutEntry> = Vec::new();
        view_entries.push(LayoutEntry {
            binding: 0,
            visibility: ShaderVisibility::All,
            kind: BufferBindingKind::Uniform,
            has_dynamic_offset: true,
            min_binding_size: sizes.view_uniform,
        });
        view_entries.push(LayoutEntry {
            binding: 1,
            visibility: ShaderVisibility::All,
            kind: BufferBindingKind::Uniform,
            has_dynamic_offset: false,
            min_binding_size: sizes.globals_uniform,
        });
        let mut uniform_entries: Vec<LayoutEntry> = Vec::new();
        uniform_entries.push(LayoutEntry {
            binding: 0,
            visibility: ShaderVisibility::All,
            kind: BufferBindingKind::Uniform,
            has_dynamic_offset: true,
            min_binding_size: sizes.cloud_uniform,
        });
        let mut cloud_entries: Vec<LayoutEntry> = Vec::new();
        cloud_entries.push(LayoutEntry {
            binding: 0,
            visibility: ShaderVisibility::All,
            kind: BufferBindingKind::Storage { read_only: false },
            has_dynamic_offset: false,
            min_binding_size: sizes.gaussian,
        });
        let mut sorted_entries: Vec<LayoutEntry> = Vec::new();
        sorted_entries.push(LayoutEntry {
            binding: 0,
            visibility: ShaderVisibility::VertexFragment,
            kind: BufferBindingKind::Storage { read_only: true },
            has_dynamic_offset: false,
            min_binding_size: SORTED_ENTRY_BYTES,
        });
        let r = GaussianCloudPipeline {
            view_layout: BindGroupLayout { label: "gaussian_view_layout", entries: view_entries },
            gaussian_uniform_layout: BindGroupLayout {
                label: "gaussian_uniform_layout",
                entries: uniform_entries,
            },
            gaussian_cloud_layout: BindGroupLayout {
                label: "gaussian_cloud_layout",
                entries: cloud_entries,
            },
            sorted_layout: BindGroupLayout { label: "sorted_layout", entries: sorted_entries },
        };
        assert(r.view_layout.entries@ =~= seq![
            all_stages(0, BufferBindingKind::Uniform, true, sizes.view_uniform),
            all_stages(1, BufferBindingKind::Uniform, false, sizes.globals_uniform),
        ]);
        assert(r.gaussian_uniform_layout.entries@ =~= seq![
            all_stages(0, BufferBindingKind::Uniform, true, sizes.cloud_uniform),
        ]);
        assert(r.gaussian_cloud_layout.entries@ =~= seq![
            all_stages(0, BufferBindingKind::Storage { read_only: false }, false, sizes.gaussian),
        ]);
        assert(r.sorted_layout.entries@ =~= seq![
            LayoutEntry {
                binding: 0,
                visibility: ShaderVisibility::VertexFragment,
                kind: BufferBindingKind::Storage { read_only: true },
                has_dynamic_offset: false,
                min_binding_size: SORTED_ENTRY_BYTES,
            },
        ]);
        r
    }
}

/// Selects a pipeline variant: the bounding shape (axis-aligned when `aabb`,
/// oriented otherwise) and whether bounds are drawn for debugging.
#[derive(Clone, Copy, Debug, PartialEq, Eq, Structural, Hash)]
pub struct GaussianCloudPipelineKey {
    pub aabb: bool,
    pub visualize_bounding_box: bool,
}

/// The bind group sets of the pipeline, in binding order.
#[derive(Clone, Copy, Debug, PartialEq, Eq, Structural)]
pub enum LayoutRole {
    View,
    CloudUniform,
    CloudStorage,
    SortedStorage,
}

#[derive(Clone, Copy, Debug, PartialEq, Eq, Structural)]
pub enum BlendFactor {
    Zero,
    One,
    DstAlpha,
    OneMinusSrcAlpha,
}

#[derive(Clone, Copy, Debug, PartialEq, Eq, Structural)]
pub enum BlendOperation {
    Add,
}

/// How source and destination of one channel group are combined.
#[derive(Clone, Copy, Debug, PartialEq, Eq, Structural)]
pub struct BlendComponent {
    pub src_factor: BlendFactor,
    pub dst_factor: BlendFactor,
    pub operation: BlendOperation,
}

#[derive(Clone, Copy, Debug, PartialEq, Eq, Structural)]
pub enum TextureFormat {
    Rgba8UnormSrgb,
    Depth32Float,
}

#[derive(Clone, Copy, Debug, PartialEq, Eq, Structural)]
pub enum PrimitiveTopology {
    TriangleStrip,
}

#[derive(Clone, Copy, Debug, PartialEq, Eq, Structural)]
pub enum CompareFunction {
    GreaterEqual,
}

/// Everything needed to compile one pipeline variant.
#[derive(Debug)]
pub struct RenderPipelineDescriptor {
    pub label: &'static str,
    pub layout: Vec<LayoutRole>,
    pub shader_defs: Vec<ShaderDef>,
    pub vertex_entry_point: &'static str,
    pub fragment_entry_point: &'static str,
    pub color_format: TextureFormat,
    pub color_blend: BlendComponent,
    pub alpha_blend: BlendComponent,
    pub topology: PrimitiveTopology,
    pub counter_clockwise_front: bool,
    pub cull_back_faces: bool,
    pub depth_format: TextureFormat,
    pub depth_write_enabled: bool,
    pub depth_compare: CompareFunction,
    pub sample_count: u32,
    pub alpha_to_coverage: bool,
}

/// Bound sets in the order the draw binds them.
pub open spec fn layout_order() -> Seq<LayoutRole> {
    seq![LayoutRole::View, LayoutRole::CloudUniform, LayoutRole::CloudStorage, LayoutRole::SortedStorage]
}

/// The descriptor of the variant `key`: a screen-aligned quad strip per
/// splat, colour accumulated weighted by destination alpha, alpha
/// accumulated weighted by `1 - source alpha`, 4x multisampling, and a
/// greater-or-equal depth test that does not write depth.
pub open spec fn describes(d: RenderPipelineDescriptor, defines: ShaderDefines, max_sh_coeff_count: u32, key: GaussianCloudPipelineKey) -> bool {
    &&& d.label == "gaussian cloud render pipeline"
    &&& d.layout@ == layout_order()
    &&& d.shader_defs@ == shader_defs_spec(defines, max_sh_coeff_count, key.aabb, key.visualize_bounding_box)
    &&& d.vertex_entry_point == "vs_points"
    &&& d.fragment_entry_point == "fs_main"
    &&& d.color_format == TextureFormat::Rgba8UnormSrgb
    &&& d.color_blend == (BlendComponent { src_factor: BlendFactor::DstAlpha, dst_factor: BlendFactor::One, operation: BlendOperation::Add })
    &&& d.alpha_blend == (BlendComponent { src_factor: BlendFactor::Zero, dst_factor: BlendFactor::OneMinusSrcAlpha, operation: BlendOperation::Add })
    &&& d.topology == PrimitiveTopology::TriangleStrip
    &&& d.counter_clockwise_front
    &&& !d.cull_back_faces
    &&& d.depth_format == TextureFormat::Depth32Float
    &&& !d.depth_write_enabled
    &&& d.depth_compare == CompareFunction::GreaterEqual
    &&& d.sample_count == 4
    &&& !d.alpha_to_coverage
}

impl GaussianCloudPipeline {
    /// The descriptor of one pipeline variant.
    pub fn specialize(&self, defines: &ShaderDefines, max_sh_coeff_count: u32, key: GaussianCloudPipelineKey) -> (r: RenderPipelineDescriptor)
        ensures
            describes(r, *defines, max_sh_coeff_count, key),
    {
        let mut layout: Vec<LayoutRole> = Vec::new();
        layout.push(LayoutRole::View);
        layout.push(LayoutRole::CloudUniform);
        layout.push(LayoutRole::CloudStorage);
        layout.push(LayoutRole::SortedStorage);
        assert(layout@ =~= layout_order());
        RenderPipelineDescriptor {
            label: "gaussian cloud render pipeline",
            layout,
            shader_defs: shader_defs(defines, max_sh_coeff_count, key.aabb, key.visualize_bounding_box),
            vertex_entry_point: "vs_points",
            fragment_entry_point: "fs_main",
            color_format: TextureFormat::Rgba8UnormSrgb,
            color_blend: BlendComponent {
                src_factor: BlendFactor::DstAlpha,
                dst_factor: BlendFactor::One,
                operation: BlendOperation::Add,
            },
            alpha_blend: BlendComponent {
                src_factor: BlendFactor::Zero,
                dst_factor: BlendFactor::OneMinusSrcAlpha,
                operation: BlendOperation::Add,
            },
            topology: PrimitiveTopology::TriangleStrip,
            counter_clockwise_front: true,
            cull_back_faces: false,
            depth_format: TextureFormat::Depth32Float,
            depth_write_enabled: false,
            depth_compare: CompareFunction::GreaterEqual,
            sample_count: 4,
            alpha_to_coverage: false,
        }
    }
}

/// The compiled pipeline variants, one per key ever requested, in the order
/// of first request; a variant's id is its position.
pub struct SpecializedPipelines {
    pub keys: Vec<GaussianCloudPipelineKey>,
    pub descriptors: Vec<RenderPipelineDescriptor>,
    pub defines: ShaderDefines,
    pub max_sh_coeff_count: u32,
}

impl SpecializedPipelines {
    /// No key twice, and each variant compiled from its own key.
    pub open spec fn wf(&self) -> bool {
        &&& self.keys@.len() == self.descriptors@.len()
        &&& forall|i: int, j: int| 0 <= i < j < self.keys@.len() ==> self.keys@[i] != self.keys@[j]
        &&& forall|i: int|
            0 <= i < self.keys@.len() ==> describes(
                #[trigger] self.descriptors@[i],
                self.defines,
                self.max_sh_coeff_count,
                self.keys@[i],
            )
    }

    /// An empty cache for the given configuration.
    pub fn new(defines: ShaderDefines, max_sh_coeff_count: u32) -> (r: SpecializedPipelines)
        ensures
            r.wf(),
            r.keys@.len() == 0,
            r.defines == defines,
            r.max_sh_coeff_count == max_sh_coeff_count,
    {
        SpecializedPipelines { keys: Vec::new(), descriptors: Vec::new(), defines, max_sh_coeff_count }
    }

    /// Number of compiled variants.
    pub fn len(&self) -> (r: usize)
        ensures
            r == self.keys@.len(),
    {
        self.keys.len()
    }

    /// Id of the variant for `key`: the cached one if `key` was seen, else a
    /// newly compiled one appended to the cache.
    pub fn specialize(&mut self, pipeline: &GaussianCloudPipeline, key: GaussianCloudPipelineKey) -> (id: usize)
        requires
            old(self).wf(),
        ensures
            final(self).wf(),
            final(self).defines == old(self).defines,
            final(self).max_sh_coeff_count == old(self).max_sh_coeff_count,
            id < final(self).keys@.len(),
            final(self).keys@[id as int] == key,
            old(self).keys@.contains(key) ==> final(self).keys@ == old(self).keys@
                && final(self).descriptors@ == old(self).descriptors@,
            !old(self).keys@.contains(key) ==> final(self).keys@ == old(self).keys@.push(key)
                && id == old(self).keys@.len(),
    {
        let mut i: usize = 0;
        while i < self.keys.len()
            invariant
                *self == *old(self),
                self.wf(),
                i <= self.keys@.len(),
                forall|j: int| 0 <= j < i ==> self.keys@[j] != key,
            decreases self.keys@.len() - i,
        {
            if self.keys[i] == key {
                return i;
            }
            i += 1;
        }
        assert(!self.keys@.contains(key));
        let descriptor = pipeline.specialize(&self.defines, self.max_sh_coeff_count, key);
        self.keys.push(key);
        self.descriptors.push(descriptor);
        i
    }
}

} // verus!
