use crate::cloud::GpuGaussianCloud;
use crate::pipeline::{
    GaussianCloudPipeline, GaussianCloudPipelineKey, SpecializedPipelines, SORTED_ENTRY_BYTES,
};
use vstd::prelude::*;

verus! {

/// Load progress of a cloud asset.
#[derive(Clone, Copy, Debug, PartialEq, Eq, Structural)]
pub enum LoadState {
    NotLoaded,
    Loading,
    Loaded,
    Failed,
}

/// Visibility of an entity.
#[derive(Clone, Copy, Debug, PartialEq, Eq, Structural)]
pub enum Visibility {
    Inherited,
    Hidden,
    Visible,
}

/// One cloud of the arena: its load progress and, once uploaded, its
/// device record.
pub struct CloudSlot {
    pub load_state: LoadState,
    pub gpu: Option<GpuGaussianCloud>,
}

/// An entity drawing a cloud: which cloud of the arena, with which
/// pipeline variant, and whether it is hidden.
#[derive(Clone, Copy, Debug, PartialEq, Eq, Structural)]
pub struct SplatEntity {
    pub cloud: usize,
    pub key: GaussianCloudPipelineKey,
    pub visibility: Visibility,
}

/// Every uploaded cloud has a splat count whose byte sizes fit.
pub open spec fn arena_wf(clouds: Seq<CloudSlot>) -> bool {
    forall|i: int|
        0 <= i < clouds.len() && (#[trigger] clouds[i]).gpu is Some ==> clouds[i].gpu->0.count
            <= u32::MAX
}

/// The cloud is uploaded and not being (re)loaded: work for it may be issued.
pub open spec fn cloud_ready(clouds: Seq<CloudSlot>, cloud: usize) -> bool {
    &&& cloud < clouds.len()
    &&& clouds[cloud as int].load_state != LoadState::Loading
    &&& clouds[cloud as int].gpu is Some
}

/// A cloud that is loading is never ready, so no bind group is built and no
/// draw is queued for an entity that refers to it.
pub proof fn lemma_loading_is_skipped(clouds: Seq<CloudSlot>, cloud: usize)
    requires
        cloud < clouds.len(),
        clouds[cloud as int].load_state == LoadState::Loading,
    ensures
        !cloud_ready(clouds, cloud),
{
}

/// Positions, among the first `k` entities, of those that are not hidden.
pub open spec fn shown_entities(entities: Seq<SplatEntity>, k: int) -> Seq<usize>
    decreases k,
{
    if k <= 0 {
        seq![]
    } else {
        let prev = shown_entities(entities, k - 1);
        if entities[k - 1].visibility != Visibility::Hidden {
            prev.push((k - 1) as usize)
        } else {
            prev
        }
    }
}

/// Positions, among the first `k` entities, of those whose cloud is ready.
pub open spec fn ready_entities(clouds: Seq<CloudSlot>, entities: Seq<SplatEntity>, k: int) -> Seq<usize>
    decreases k,
{
    if k <= 0 {
        seq![]
    } else {
        let prev = ready_entities(clouds, entities, k - 1);
        if cloud_ready(clouds, entities[k - 1].cloud) {
            prev.push((k - 1) as usize)
        } else {
            prev
        }
    }
}

proof fn lemma_ready_entities_valid(clouds: Seq<CloudSlot>, entities: Seq<SplatEntity>, k: int)
    requires
        0 <= k <= entities.len(),
        entities.len() <= usize::MAX,
    ensures
        forall|j: int|
            0 <= j < ready_entities(clouds, entities, k).len() ==> #[trigger] ready_entities(
                clouds,
                entities,
                k,
            )[j] < k && cloud_ready(clouds, entities[ready_entities(clouds, entities, k)[j] as int].cloud),
    decreases k,
{
    if k > 0 {
        lemma_ready_entities_valid(clouds, entities, k - 1);
        let prev = ready_entities(clouds, entities, k - 1);
        let cur = ready_entities(clouds, entities, k);
        assert forall|j: int| 0 <= j < cur.len() implies #[trigger] cur[j] < k && cloud_ready(
            clouds,
            entities[cur[j] as int].cloud,
        ) by {
            if j < prev.len() {
                assert(cur[j] == prev[j]);
            }
        }
    }
}

/// The entities to hand to the render world this frame: every one that is
/// not hidden, in order.
pub fn extract_gaussians(entities: &Vec<SplatEntity>) -> (r: Vec<usize>)
    ensures
        r@ == shown_entities(entities@, entities@.len() as int),
{
    let mut r: Vec<usize> = Vec::new();
    let mut k: usize = 0;
    while k < entities.len()
        invariant
            k <= entities@.len(),
            r@ == shown_entities(entities@, k as int),
        decreases entities@.len() - k,
    {
        if entities[k].visibility != Visibility::Hidden {
            r.push(k);
        }
        k += 1;
    }
    r
}

/// A buffer range bound to a shader binding.
#[derive(Clone, Copy, Debug, PartialEq, Eq, Structural)]
pub struct BufferBinding {
    pub buffer: u64,
    pub offset: u64,
    pub size: u64,
}

/// The per-entity bindings of a cloud: its splat storage and its sorted order.
#[derive(Clone, Copy, Debug, PartialEq, Eq, Structural)]
pub struct GaussianCloudBindGroup {
    pub cloud_bind_group: BufferBinding,
    pub sorted_bind_group: BufferBinding,
}

/// The bindings of an uploaded cloud: the whole splat buffer, and the
/// sorted entries, eight bytes per splat, in whichever buffer of the pair
/// holds the latest order.
pub open spec fn cloud_bind_group_for(gpu: GpuGaussianCloud) -> GaussianCloudBindGroup {
    GaussianCloudBindGroup {
        cloud_bind_group: BufferBinding { buffer: gpu.gaussian_buffer.id, offset: 0, size: gpu.gaussian_buffer.size },
        sorted_bind_group: BufferBinding {
            buffer: gpu.sorted_buffer_id(),
            offset: 0,
            size: (gpu.count * SORTED_ENTRY_BYTES) as u64,
        },
    }
}

/// The binding of the per-cloud uniforms, shared by all entities and
/// dynamically offset per entity.
pub struct GaussianUniformBindGroups {
    pub base_bind_group: Option<BufferBinding>,
}

/// Binds the per-cloud uniform buffer, if there is one, and brings the
/// bind groups of each entity with a ready cloud up to date: rebuilt where
/// missing or where the cloud's buffers changed, kept otherwise. Entities
/// whose cloud is loading or not uploaded are left alone. Returns, per
/// entity, whether its bind group was rebuilt.
pub fn queue_gaussian_bind_group(
    uniform_buffer: Option<u64>,
    uniform_size: u64,
    clouds: &Vec<CloudSlot>,
    entities: &Vec<SplatEntity>,
    groups: &mut GaussianUniformBindGroups,
    cloud_groups: &mut Vec<Option<GaussianCloudBindGroup>>,
) -> (rebuilt: Vec<bool>)
    requires
        arena_wf(clouds@),
        old(cloud_groups)@.len() == entities@.len(),
    ensures
        final(groups).base_bind_group == match uniform_buffer {
            Some(id) => Some(BufferBinding { buffer: id, offset: 0, size: uniform_size }),
            None => old(groups).base_bind_group,
        },
        final(cloud_groups)@.len() == entities@.len(),
        rebuilt@.len() == entities@.len(),
        forall|k: int|
            0 <= k < entities@.len() ==> {
                let work = uniform_buffer is Some && cloud_ready(clouds@, #[trigger] entities@[k].cloud);
                let fresh = cloud_bind_group_for(clouds@[entities@[k].cloud as int].gpu->0);
                &&& work ==> final(cloud_groups)@[k] == Some(fresh)
                &&& !work ==> final(cloud_groups)@[k] == old(cloud_groups)@[k]
                &&& rebuilt@[k] == (work && old(cloud_groups)@[k] != Some(fresh))
            },
{
    let n = entities.len();
    let mut rebuilt: Vec<bool> = Vec::new();
    let model = match uniform_buffer {
        Some(id) => id,
        None => {
            let mut k: usize = 0;
            while k < n
                invariant
                    n == entities@.len(),
                    k <= n,
                    rebuilt@.len() == k,
                    forall|j: int| 0 <= j < k ==> !rebuilt@[j],
                decreases n - k,
            {
                rebuilt.push(false);
                k += 1;
            }
            return rebuilt;
        },
    };
    groups.base_bind_group = Some(BufferBinding { buffer: model, offset: 0, size: uniform_size });
    let mut k: usize = 0;
    while k < n
        invariant
            n == entities@.len(),
            k <= n,
            arena_wf(clouds@),
            uniform_buffer == Some(model),
            cloud_groups@.len() == n,
            rebuilt@.len() == k,
            forall|j: int| k <= j < n ==> cloud_groups@[j] == old(cloud_groups)@[j],
            forall|j: int|
                0 <= j < k ==> {
                    let work = cloud_ready(clouds@, #[trigger] entities@[j].cloud);
                    let fresh = cloud_bind_group_for(clouds@[entities@[j].cloud as int].gpu->0);
                    &&& work ==> cloud_groups@[j] == Some(fresh)
                    &&& !work ==> cloud_groups@[j] == old(cloud_groups)@[j]
                    &&& rebuilt@[j] == (work && old(cloud_groups)@[j] != Some(fresh))
                },
        decreases n - k,
    {
        let cloud = entities[k].cloud;
        let mut did = false;
        if cloud < clouds.len() {
            let slot = &clouds[cloud];
            if slot.load_state != LoadState::Loading {
                match &slot.gpu {
                    Some(gpu) => {
                        assert(clouds@[cloud as int].gpu->0.count <= u32::MAX);
                        let fresh = GaussianCloudBindGroup {
                            cloud_bind_group: BufferBinding {
                                buffer: gpu.gaussian_buffer.id,
                                offset: 0,
                                size: gpu.gaussian_buffer.size,
                            },
                            sorted_bind_group: BufferBinding {
                                buffer: gpu.sorted_buffer(),
                                offset: 0,
                                size: gpu.count as u64 * SORTED_ENTRY_BYTES,
                            },
                        };
                        let same = match &cloud_groups[k] {
                            Some(g) => *g == fresh,
                            None => false,
                        };
                        if !same {
                            cloud_groups.set(k, Some(fresh));
                            did = true;
                        }
                    },
                    None => {},
                }
            }
        }
        rebuilt.push(did);
        k += 1;
    }
    rebuilt
}

/// The bindings of one view: its view uniform and the globals.
#[derive(Clone, Copy, Debug, PartialEq, Eq, Structural)]
pub struct GaussianViewBindGroup {
    pub view: usize,
    pub view_uniforms: u64,
    pub globals: u64,
}

/// One view bind group per view, once both the view uniforms and the
/// globals have a buffer; none before.
pub fn queue_gaussian_view_bind_groups(view_uniforms: Option<u64>, globals: Option<u64>, view_count: usize) -> (r: Vec<GaussianViewBindGroup>)
    ensures
        (view_uniforms is None || globals is None) ==> r@.len() == 0,
        (view_uniforms is Some && globals is Some) ==> r@.len() == view_count && forall|v: int|
            0 <= v < view_count ==> #[trigger] r@[v] == (GaussianViewBindGroup {
                view: v as usize,
                view_uniforms: view_uniforms->0,
                globals: globals->0,
            }),
{
    let mut r: Vec<GaussianViewBindGroup> = Vec::new();
    match (view_uniforms, globals) {
        (Some(view_binding), Some(globals_binding)) => {
            let mut v: usize = 0;
            while v < view_count
                invariant
                    v <= view_count,
                    view_uniforms == Some(view_binding),
                    globals == Some(globals_binding),
                    r@.len() == v,
                    forall|w: int|
                        0 <= w < v ==> #[trigger] r@[w] == (GaussianViewBindGroup {
                            view: w as usize,
                            view_uniforms: view_binding,
                            globals: globals_binding,
                        }),
                decreases view_count - v,
            {
                r.push(GaussianViewBindGroup { view: v, view_uniforms: view_binding, globals: globals_binding });
                v += 1;
            }
        },
        _ => {},
    }
    r
}

/// One draw queued in a view's transparent phase: the entity and the
/// pipeline variant it is drawn with.
#[derive(Clone, Copy, Debug, PartialEq, Eq, Structural)]
pub struct QueuedDraw {
    pub entity: usize,
    pub pipeline: usize,
}

/// Queues, in every view, one draw per entity whose cloud is ready, with
/// the pipeline variant of its key (compiled on first request). Nothing is
/// queued before the per-cloud uniforms have a buffer.
pub fn queue_gaussians(
    uniforms_ready: bool,
    view_count: usize,
    clouds: &Vec<CloudSlot>,
    entities: &Vec<SplatEntity>,
    pipeline: &GaussianCloudPipeline,
    pipelines: &mut SpecializedPipelines,
) -> (r: Vec<Vec<QueuedDraw>>)
    requires
        old(pipelines).wf(),
    ensures
        final(pipelines).wf(),
        final(pipelines).defines == old(pipelines).defines,
        final(pipelines).max_sh_coeff_count == old(pipelines).max_sh_coeff_count,
        old(pipelines).keys@.len() <= final(pipelines).keys@.len(),
        forall|i: int|
            0 <= i < old(pipelines).keys@.len() ==> #[trigger] final(pipelines).keys@[i] == old(
                pipelines,
            ).keys@[i],
        !uniforms_ready ==> r@.len() == 0 && final(pipelines).keys@ == old(pipelines).keys@,
        uniforms_ready ==> r@.len() == view_count,
        forall|v: int|
            0 <= v < r@.len() ==> (#[trigger] r@[v])@.len() == ready_entities(
                clouds@,
                entities@,
                entities@.len() as int,
            ).len(),
        forall|v: int, j: int|
            0 <= v < r@.len() && 0 <= j < r@[v]@.len() ==> {
                let d = #[trigger] r@[v]@[j];
                &&& d.entity == ready_entities(clouds@, entities@, entities@.len() as int)[j]
                &&& cloud_ready(clouds@, entities@[d.entity as int].cloud)
                &&& clouds@[entities@[d.entity as int].cloud as int].load_state != LoadState::Loading
                &&& d.pipeline < final(pipelines).keys@.len()
                &&& final(pipelines).keys@[d.pipeline as int] == entities@[d.entity as int].key
            },
{
    let mut r: Vec<Vec<QueuedDraw>> = Vec::new();
    if !uniforms_ready {
        return r;
    }
    let n = entities.len();
    let ghost ready = ready_entities(clouds@, entities@, entities@.len() as int);
    proof {
        lemma_ready_entities_valid(clouds@, entities@, entities@.len() as int);
    }
    let mut v: usize = 0;
    while v < view_count
        invariant
            n == entities@.len(),
            ready == ready_entities(clouds@, entities@, n as int),
            v <= view_count,
            r@.len() == v,
            pipelines.wf(),
            pipelines.defines == old(pipelines).defines,
            pipelines.max_sh_coeff_count == old(pipelines).max_sh_coeff_count,
            old(pipelines).keys@.len() <= pipelines.keys@.len(),
            forall|i: int|
                0 <= i < old(pipelines).keys@.len() ==> #[trigger] pipelines.keys@[i] == old(
                    pipelines,
                ).keys@[i],
            forall|w: int| 0 <= w < v ==> (#[trigger] r@[w])@.len() == ready.len(),
            forall|w: int, j: int|
                0 <= w < v && 0 <= j < r@[w]@.len() ==> {
                    let d = #[trigger] r@[w]@[j];
                    &&& d.entity == ready[j]
                    &&& d.pipeline < pipelines.keys@.len()
                    &&& pipelines.keys@[d.pipeline as int] == entities@[d.entity as int].key
                },
        decreases view_count - v,
    {
        let mut phase: Vec<QueuedDraw> = Vec::new();
        let mut k: usize = 0;
        while k < n
            invariant
                n == entities@.len(),
                ready == ready_entities(clouds@, entities@, n as int),
                k <= n,
                r@.len() == v,
                phase@.len() == ready_entities(clouds@, entities@, k as int).len(),
                pipelines.wf(),
                pipelines.defines == old(pipelines).defines,
                pipelines.max_sh_coeff_count == old(pipelines).max_sh_coeff_count,
                old(pipelines).keys@.len() <= pipelines.keys@.len(),
                forall|i: int|
                    0 <= i < old(pipelines).keys@.len() ==> #[trigger] pipelines.keys@[i] == old(
                        pipelines,
                    ).keys@[i],
                forall|j: int|
                    0 <= j < phase@.len() ==> {
                        let d = #[trigger] phase@[j];
                        &&& d.entity == ready_entities(clouds@, entities@, k as int)[j]
                        &&& d.pipeline < pipelines.keys@.len()
                        &&& pipelines.keys@[d.pipeline as int] == entities@[d.entity as int].key
                    },
                forall|w: int| 0 <= w < v ==> (#[trigger] r@[w])@.len() == ready.len(),
                forall|w: int, j: int|
                    0 <= w < v && 0 <= j < r@[w]@.len() ==> {
                        let d = #[trigger] r@[w]@[j];
                        &&& d.entity == ready[j]
                        &&& d.pipeline < pipelines.keys@.len()
                        &&& pipelines.keys@[d.pipeline as int] == entities@[d.entity as int].key
                    },
            decreases n - k,
        {
            let entity = entities[k];
            let ready_now = entity.cloud < clouds.len() && clouds[entity.cloud].load_state
                != LoadState::Loading && clouds[entity.cloud].gpu.is_some();
            if ready_now {
                let id = pipelines.specialize(pipeline, entity.key);
                phase.push(QueuedDraw { entity: k, pipeline: id });
            }
            k += 1;
        }
        r.push(phase);
        v += 1;
    }
    r
}

/// Why one entity's draw was dropped this frame.
#[derive(Clone, Copy, Debug, PartialEq, Eq, Structural)]
pub enum DrawError {
    /// The view has no bind group yet.
    MissingViewBindGroup,
    /// The per-cloud uniforms have no bind group yet.
    MissingUniformBindGroup,
    /// The entity's cloud has no bind group yet.
    MissingCloudBindGroup,
    /// The entity's cloud is not uploaded.
    MissingCloud,
}

/// One step of drawing an entity, executed in order.
#[derive(Clone, Copy, Debug, PartialEq, Eq, Structural)]
pub enum RenderOp {
    SetPipeline { pipeline: usize },
    SetViewBindGroup { index: u32, group: GaussianViewBindGroup, dynamic_offset: u32 },
    SetUniformBindGroup { index: u32, binding: BufferBinding, dynamic_offset: u32 },
    SetCloudBindGroup { index: u32, binding: BufferBinding },
    SetSortedBindGroup { index: u32, binding: BufferBinding },
    DrawIndirect { buffer: u64, indirect_offset: u64 },
}

/// Binds the view's bind group at set 0 with its dynamic offset.
pub struct SetGaussianViewBindGroup;

/// Binds the per-cloud uniforms at set 1, offset to the entity's uniform.
pub struct SetGaussianUniformBindGroup;

/// Binds the cloud's storage at set 2 and its sorted order at set 3, then
/// draws indirectly from the cloud's draw record.
pub struct DrawGaussianInstanced;

impl SetGaussianViewBindGroup {
    pub fn render(group: Option<GaussianViewBindGroup>, view_offset: u32) -> (r: Result<RenderOp, DrawError>)
        ensures
            group is None ==> r == Err::<RenderOp, DrawError>(DrawError::MissingViewBindGroup),
            group is Some ==> r == Ok::<RenderOp, DrawError>(
                RenderOp::SetViewBindGroup { index: 0, group: group->0, dynamic_offset: view_offset },
            ),
    {
        match group {
            Some(g) => Ok(RenderOp::SetViewBindGroup { index: 0, group: g, dynamic_offset: view_offset }),
            None => Err(DrawError::MissingViewBindGroup),
        }
    }
}

impl SetGaussianUniformBindGroup {
    pub fn render(groups: &GaussianUniformBindGroups, uniform_index: u32) -> (r: Result<RenderOp, DrawError>)
        ensures
            groups.base_bind_group is None ==> r == Err::<RenderOp, DrawError>(
                DrawError::MissingUniformBindGroup,
            ),
            groups.base_bind_group is Some ==> r == Ok::<RenderOp, DrawError>(
                RenderOp::SetUniformBindGroup {
                    index: 1,
                    binding: groups.base_bind_group->0,
                    dynamic_offset: uniform_index,
                },
            ),
    {
        match groups.base_bind_group {
            Some(b) => Ok(RenderOp::SetUniformBindGroup { index: 1, binding: b, dynamic_offset: uniform_index }),
            None => Err(DrawError::MissingUniformBindGroup),
        }
    }
}

/// The last three steps of drawing an entity whose cloud is `gpu`.
pub open spec fn cloud_draw_ops(gpu: GpuGaussianCloud, group: GaussianCloudBindGroup) -> Seq<RenderOp> {
    seq![
        RenderOp::SetCloudBindGroup { index: 2, binding: group.cloud_bind_group },
        RenderOp::SetSortedBindGroup { index: 3, binding: group.sorted_bind_group },
        RenderOp::DrawIndirect { buffer: gpu.draw_indirect_buffer.id, indirect_offset: 0 },
    ]
}

impl DrawGaussianInstanced {
    pub fn render(cloud: Option<&GpuGaussianCloud>, group: Option<GaussianCloudBindGroup>) -> (r: Result<Vec<RenderOp>, DrawError>)
        ensures
            cloud is None ==> r is Err && r->Err_0 == DrawError::MissingCloud,
            cloud is Some && group is None ==> r is Err && r->Err_0 == DrawError::MissingCloudBindGroup,
            cloud is Some && group is Some ==> r is Ok && r->Ok_0@ == cloud_draw_ops(*cloud->0, group->0),
    {
        let gpu = match cloud {
            Some(gpu) => gpu,
            None => return Err(DrawError::MissingCloud),
        };
        let g = match group {
            Some(g) => g,
            None => return Err(DrawError::MissingCloudBindGroup),
        };
        let mut ops: Vec<RenderOp> = Vec::new();
        ops.push(RenderOp::SetCloudBindGroup { index: 2, binding: g.cloud_bind_group });
        ops.push(RenderOp::SetSortedBindGroup { index: 3, binding: g.sorted_bind_group });
        ops.push(RenderOp::DrawIndirect { buffer: gpu.draw_indirect_buffer.id, indirect_offset: 0 });
        assert(ops@ =~= cloud_draw_ops(*gpu, g));
        Ok(ops)
    }
}

/// The cloud an entity refers to, if it is uploaded.
pub open spec fn uploaded_cloud(clouds: Seq<CloudSlot>, entity: SplatEntity) -> Option<GpuGaussianCloud> {
    if entity.cloud < clouds.len() {
        clouds[entity.cloud as int].gpu
    } else {
        None
    }
}

/// The steps that draw one queued entity, in their fixed order: pipeline,
/// view bindings, per-cloud uniform, splat storage, sorted order, indirect
/// draw. The first missing resource drops the entity's draw with its error.
pub fn draw_gaussians(
    item: QueuedDraw,
    view_group: Option<GaussianViewBindGroup>,
    view_offset: u32,
    uniforms: &GaussianUniformBindGroups,
    uniform_index: u32,
    clouds: &Vec<CloudSlot>,
    entities: &Vec<SplatEntity>,
    cloud_groups: &Vec<Option<GaussianCloudBindGroup>>,
) -> (r: Result<Vec<RenderOp>, DrawError>)
    requires
        item.entity < entities@.len(),
        cloud_groups@.len() == entities@.len(),
    ensures
        ({
            let cloud = uploaded_cloud(clouds@, entities@[item.entity as int]);
            let group = cloud_groups@[item.entity as int];
            if view_group is None {
                r is Err && r->Err_0 == DrawError::MissingViewBindGroup
            } else if uniforms.base_bind_group is None {
                r is Err && r->Err_0 == DrawError::MissingUniformBindGroup
            } else if cloud is None {
                r is Err && r->Err_0 == DrawError::MissingCloud
            } else if group is None {
                r is Err && r->Err_0 == DrawError::MissingCloudBindGroup
            } else {
                r is Ok && r->Ok_0@ == seq![
                    RenderOp::SetPipeline { pipeline: item.pipeline },
                    RenderOp::SetViewBindGroup { index: 0, group: view_group->0, dynamic_offset: view_offset },
                    RenderOp::SetUniformBindGroup {
                        index: 1,
                        binding: uniforms.base_bind_group->0,
                        dynamic_offset: uniform_index,
                    },
                ] + cloud_draw_ops(cloud->0, group->0)
            }
        }),
{
    let set_view = match SetGaussianViewBindGroup::render(view_group, view_offset) {
        Ok(op) => op,
        Err(e) => return Err(e),
    };
    let set_uniform = match SetGaussianUniformBindGroup::render(uniforms, uniform_index) {
        Ok(op) => op,
        Err(e) => return Err(e),
    };
    let cloud_index = entities[item.entity].cloud;
    let cloud: Option<&GpuGaussianCloud> = if cloud_index < clouds.len() {
        match &clouds[cloud_index].gpu {
            Some(gpu) => Some(gpu),
            None => None,
        }
    } else {
        None
    };
    let tail = match DrawGaussianInstanced::render(cloud, cloud_groups[item.entity]) {
        Ok(ops) => ops,
        Err(e) => return Err(e),
    };
    let mut ops: Vec<RenderOp> = Vec::new();
    ops.push(RenderOp::SetPipeline { pipeline: item.pipeline });
    ops.push(set_view);
    ops.push(set_uniform);
    let mut i: usize = 0;
    while i < tail.len()
        invariant
            i <= tail@.len(),
            ops@.len() == 3 + i,
            forall|j: int| 0 <= j < 3 ==> ops@[j] == head_ops(item, set_view, set_uniform)[j],
            forall|j: int| 0 <= j < i ==> ops@[3 + j] == tail@[j],
        decreases tail@.len() - i,
    {
        ops.push(tail[i]);
        i += 1;
    }
    assert(ops@ =~= head_ops(item, set_view, set_uniform) + tail@);
    Ok(ops)
}

spec fn head_ops(item: QueuedDraw, set_view: RenderOp, set_uniform: RenderOp) -> Seq<RenderOp> {
    seq![RenderOp::SetPipeline { pipeline: item.pipeline }, set_view, set_uniform]
}

} // verus!
