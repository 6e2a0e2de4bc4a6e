use vstd::prelude::*;
use crate::buffer_pool::{last_match, total_bytes, trim, BufferMap, BufferRequest, LayerBuffer};
use crate::scene::{find_layer, find_stacking_context_with_layer_id};
use crate::tile::{refresh_layer_buffer, refreshed};
use crate::geometry::{Au, AuPoint};
use crate::layer_tree::{build_layer_properties, build_layers, layer_views, LayerProperties, LayerSpec};
use crate::scene::StackingContext;
use crate::types::{Epoch, LayerId, LayerKind, PipelineExitType};

verus! {

/// Byte budget of the buffer pool.
pub const BUFFER_MAP_BUDGET: usize = 10000000;

/// A request to paint some tiles of one layer.
pub struct PaintRequest {
    pub buffer_requests: Vec<BufferRequest>,
    /// Scale to paint at (bit pattern of a 32-bit float).
    pub scale: u32,
    pub layer_id: LayerId,
    pub epoch: Epoch,
    pub layer_kind: LayerKind,
}

/// The painted buffers of one layer, in tile order.
pub struct LayerReply {
    pub layer_id: LayerId,
    pub buffers: Vec<LayerBuffer>,
}

/// Number of buffers in a list of replies.
pub open spec fn reply_count(replies: Seq<LayerReply>) -> nat
    decreases replies.len(),
{
    if replies.len() == 0 {
        0
    } else {
        reply_count(replies.drop_last()) + replies.last().buffers@.len()
    }
}

/// The pool after returned buffers are inserted, the last one first.
pub open spec fn insert_reversed(pool: Seq<LayerBuffer>, returned: Seq<LayerBuffer>, budget: int) -> Seq<
    LayerBuffer,
>
    decreases returned.len(),
{
    if returned.len() == 0 {
        pool
    } else {
        trim(insert_reversed(pool, returned.drop_first(), budget).push(returned[0]), budget)
    }
}

/// Where the buffer for one tile comes from.
#[derive(Clone, Copy, Debug, PartialEq, Eq, Structural)]
pub enum TileBuffer {
    /// GPU painting: the worker makes the surface.
    Gpu,
    /// A pooled buffer, already describing the tile.
    Pooled(LayerBuffer),
    /// No pooled buffer fits: a surface of the tile's size must be allocated.
    Fresh,
}

/// One tile handed to a worker.
#[derive(Clone, Copy, Debug, PartialEq, Eq, Structural)]
pub struct TileJob {
    pub worker: usize,
    pub tile: BufferRequest,
    pub buffer: TileBuffer,
}

/// The tiles of one layer to paint, in request order.
pub struct LayerJob {
    pub layer_id: LayerId,
    pub scale: u32,
    pub layer_kind: LayerKind,
    /// `node_id` of the stacking context that holds the layer.
    pub node_id: usize,
    /// Origin of that stacking context's overflow rectangle.
    pub overflow_origin: AuPoint,
    pub tiles: Vec<TileJob>,
}

/// Mathematical value of a `LayerJob`.
pub ghost struct LayerJobSpec {
    pub layer_id: LayerId,
    pub scale: u32,
    pub layer_kind: LayerKind,
    pub node_id: usize,
    pub overflow_origin: AuPoint,
    pub tiles: Seq<TileJob>,
}

impl View for LayerJob {
    type V = LayerJobSpec;

    open spec fn view(&self) -> LayerJobSpec {
        LayerJobSpec {
            layer_id: self.layer_id,
            scale: self.scale,
            layer_kind: self.layer_kind,
            node_id: self.node_id,
            overflow_origin: self.overflow_origin,
            tiles: self.tiles@,
        }
    }
}

/// The values of a sequence of layer jobs.
pub open spec fn job_views(s: Seq<LayerJob>) -> Seq<LayerJobSpec> {
    s.map_values(|j: LayerJob| j@)
}

/// What to do with a batch of paint requests.
pub enum PaintAction {
    /// Painting is not permitted: tell the supervisor the painter is ready.
    NotifyPainterReady,
    /// An exit is pending: drop the batch.
    Ignore,
    /// Paint these layers, then ship the result.
    Dispatch(Vec<LayerJob>),
}

/// The buffer for one tile, and the pool after it was taken.
pub open spec fn tile_step(pool: Seq<LayerBuffer>, tile: BufferRequest, scale: u32, gpu: bool) -> (
    TileBuffer,
    Seq<LayerBuffer>,
) {
    if gpu {
        (TileBuffer::Gpu, pool)
    } else {
        let i = last_match(pool, tile.screen_rect.width, tile.screen_rect.height);
        if i == -1 {
            (TileBuffer::Fresh, pool)
        } else {
            (TileBuffer::Pooled(refreshed(pool[i], tile, scale)), pool.remove(i))
        }
    }
}

/// The buffers for a run of tiles taken in order, and the pool after.
pub open spec fn take_tile_buffers(pool: Seq<LayerBuffer>, tiles: Seq<BufferRequest>, scale: u32, gpu: bool) -> (
    Seq<TileBuffer>,
    Seq<LayerBuffer>,
)
    decreases tiles.len(),
{
    if tiles.len() == 0 {
        (Seq::empty(), pool)
    } else {
        let prev = take_tile_buffers(pool, tiles.drop_last(), scale, gpu);
        let step = tile_step(prev.1, tiles.last(), scale, gpu);
        (prev.0.push(step.0), step.1)
    }
}

/// Tile `i` goes to worker `i % workers` with buffer `buffers[i]`.
pub open spec fn tile_jobs(tiles: Seq<BufferRequest>, buffers: Seq<TileBuffer>, workers: nat) -> Seq<TileJob> {
    Seq::new(
        tiles.len(),
        |i: int| TileJob { worker: (i % workers as int) as usize, tile: tiles[i], buffer: buffers[i] },
    )
}

/// Whether a request is painted: its epoch is the current one and its layer
/// is in the scene.
pub open spec fn request_selected(r: PaintRequest, epoch: Option<Epoch>, scene: Option<StackingContext>) -> bool {
    &&& epoch == Some(r.epoch)
    &&& scene is Some
    &&& find_layer(scene->0, r.layer_id) is Some
}

/// The layer jobs for a batch of requests, and the pool after.
pub open spec fn plan_paint(
    pool: Seq<LayerBuffer>,
    requests: Seq<PaintRequest>,
    epoch: Option<Epoch>,
    scene: Option<StackingContext>,
    gpu: bool,
    workers: nat,
) -> (Seq<LayerJobSpec>, Seq<LayerBuffer>)
    decreases requests.len(),
{
    if requests.len() == 0 {
        (Seq::empty(), pool)
    } else {
        let prev = plan_paint(pool, requests.drop_last(), epoch, scene, gpu, workers);
        let r = requests.last();
        if request_selected(r, epoch, scene) {
            let ctx = find_layer(scene->0, r.layer_id)->0;
            let taken = take_tile_buffers(prev.1, r.buffer_requests@, r.scale, gpu);
            let job = LayerJobSpec {
                layer_id: r.layer_id,
                scale: r.scale,
                layer_kind: r.layer_kind,
                node_id: ctx.node_id,
                overflow_origin: ctx.overflow.origin,
                tiles: tile_jobs(r.buffer_requests@, taken.0, workers),
            };
            (prev.0.push(job), taken.1)
        } else {
            prev
        }
    }
}

/// What the coordinator's state is, as far as its contracts speak of it.
pub ghost struct PaintTaskState {
    pub current_epoch: Option<Epoch>,
    pub scene: Option<StackingContext>,
    pub paint_permission: bool,
    /// Set once an exit waits for loaned buffers to come back.
    pub draining: bool,
    /// Buffers currently owned by the compositor.
    pub loans: nat,
    /// Buffers shipped to the compositor over the task's life.
    pub shipped: nat,
    /// Buffers the compositor gave back over the task's life.
    pub returned: nat,
    /// Buffers in the pool, oldest first.
    pub pool: Seq<LayerBuffer>,
    pub budget: nat,
    pub worker_count: nat,
    pub gpu_painting: bool,
}

/// Layer descriptors to publish, and the epoch to publish them under.
pub struct LayerInit {
    pub properties: Vec<LayerProperties>,
    pub epoch: Epoch,
}

/// What to do after a new scene arrived.
pub enum InitAction {
    /// Tell the supervisor that the painter is ready; publish nothing.
    NotifyPainterReady,
    /// An exit is pending; publish nothing.
    Ignore,
    /// Publish these layer descriptors under this epoch.
    InitializeLayers(Vec<LayerProperties>, Epoch),
}

/// Whether `r` is what a new scene leads to in state `s`: a ready notice
/// without paint permission, nothing during an exit, else the scene's layer
/// descriptors under the new epoch.
pub open spec fn init_action_ok(r: InitAction, s: PaintTaskState, epoch: Epoch, scene: StackingContext) -> bool {
    if !s.paint_permission {
        r is NotifyPainterReady
    } else if s.draining {
        r is Ignore
    } else {
        match r {
            InitAction::InitializeLayers(props, e) => e == epoch && layer_views(props@) == scene_layers(
                scene,
            ),
            _ => false,
        }
    }
}

/// The layer descriptors of a whole scene.
pub open spec fn scene_layers(scene: StackingContext) -> Seq<LayerSpec> {
    build_layers(scene, AuPoint { x: Au(0), y: Au(0) }, Seq::empty(), None)
}

/// The state after the compositor gives `returned` back.
pub open spec fn after_return(s: PaintTaskState, returned: Seq<LayerBuffer>) -> PaintTaskState
    recommends
        returned.len() <= s.loans,
{
    PaintTaskState {
        loans: (s.loans - returned.len()) as nat,
        returned: s.returned + returned.len(),
        pool: insert_reversed(s.pool, returned, s.budget as int),
        ..s
    }
}

/// Whether the coordinator stops after `returned` came back.
pub open spec fn finishes_drain(s: PaintTaskState, returned: Seq<LayerBuffer>) -> bool {
    s.draining && s.loans == returned.len()
}

/// The paint coordinator of one pipeline: owns the current scene, the
/// buffer pool and the count of buffers loaned to the compositor, and
/// decides what each incoming message leads to.
pub struct PaintTask {
    root_stacking_context: Option<StackingContext>,
    paint_permission: bool,
    current_epoch: Option<Epoch>,
    buffer_map: BufferMap,
    worker_count: usize,
    gpu_painting: bool,
    used_buffer_count: usize,
    waiting_for_compositor_buffers_to_exit: bool,
    shipped: Ghost<nat>,
    returned: Ghost<nat>,
}

impl PaintTask {
    pub closed spec fn view(&self) -> PaintTaskState {
        PaintTaskState {
            current_epoch: self.current_epoch,
            scene: self.root_stacking_context,
            paint_permission: self.paint_permission,
            draining: self.waiting_for_compositor_buffers_to_exit,
            loans: self.used_buffer_count as nat,
            shipped: self.shipped@,
            returned: self.returned@,
            pool: self.buffer_map@,
            budget: self.buffer_map.budget(),
            worker_count: self.worker_count as nat,
            gpu_painting: self.gpu_painting,
        }
    }

    /// The coordinator's invariant.
    pub closed spec fn wf(&self) -> bool {
        &&& self.buffer_map.wf()
        &&& self.worker_count >= 1
        &&& self.gpu_painting ==> self.worker_count == 1
        &&& self.used_buffer_count as int == self.shipped@ - self.returned@
        &&& self.root_stacking_context is Some ==> self.current_epoch is Some
    }

    /// A coordinator with no scene, no paint permission and an empty pool of
    /// `buffer_budget` bytes. It paints with one worker in GPU mode and with
    /// `paint_threads` workers otherwise.
    pub fn new(buffer_budget: usize, paint_threads: usize, gpu_painting: bool) -> (r: PaintTask)
        requires
            paint_threads >= 1,
        ensures
            r.wf(),
            r@ == (PaintTaskState {
                current_epoch: None,
                scene: None,
                paint_permission: false,
                draining: false,
                loans: 0,
                shipped: 0,
                returned: 0,
                pool: Seq::empty(),
                budget: buffer_budget as nat,
                worker_count: if gpu_painting { 1 } else { paint_threads as nat },
                gpu_painting,
            }),
    {
        PaintTask {
            root_stacking_context: None,
            paint_permission: false,
            current_epoch: None,
            buffer_map: BufferMap::new(buffer_budget),
            worker_count: if gpu_painting { 1 } else { paint_threads },
            gpu_painting,
            used_buffer_count: 0,
            waiting_for_compositor_buffers_to_exit: false,
            shipped: Ghost(0),
            returned: Ghost(0),
        }
    }

    /// Number of workers tiles are dealt to.
    pub fn worker_count(&self) -> (r: usize)
        requires
            self.wf(),
        ensures
            r == self@.worker_count,
            r >= 1,
    {
        self.worker_count
    }

    /// Whether workers paint on the GPU.
    pub fn gpu_painting(&self) -> (r: bool)
        ensures
            r == self@.gpu_painting,
    {
        self.gpu_painting
    }

    /// Number of buffers the compositor currently holds.
    pub fn used_buffer_count(&self) -> (r: usize)
        ensures
            r == self@.loans,
    {
        self.used_buffer_count
    }

    /// Bytes held by the buffer pool, for memory reports.
    pub fn buffer_map_mem(&self) -> (r: usize)
        requires
            self.wf(),
        ensures
            r == total_bytes(self@.pool),
    {
        self.buffer_map.mem()
    }

    /// Number of buffers in the pool.
    pub fn pooled_buffer_count(&self) -> (r: usize)
        ensures
            r == self@.pool.len(),
    {
        self.buffer_map.len()
    }

    /// A new scene arrives: it replaces the current scene and epoch, then
    /// its layers are published unless painting is not yet permitted or an
    /// exit is pending.
    pub fn paint_init(&mut self, epoch: Epoch, scene: StackingContext) -> (r: InitAction)
        requires
            old(self).wf(),
        ensures
            final(self).wf(),
            final(self)@ == (PaintTaskState { current_epoch: Some(epoch), scene: Some(scene), ..old(self)@ }),
            init_action_ok(r, old(self)@, epoch, scene),
    {
        self.current_epoch = Some(epoch);
        self.root_stacking_context = Some(scene);
        if !self.paint_permission {
            return InitAction::NotifyPainterReady;
        }
        if self.waiting_for_compositor_buffers_to_exit {
            return InitAction::Ignore;
        }
        match &self.root_stacking_context {
            Some(root) => InitAction::InitializeLayers(build_layer_properties(root), epoch),
            None => InitAction::Ignore,
        }
    }

    /// Painting becomes permitted; the current scene's layers, if there is a
    /// scene, are to be published under the current epoch.
    pub fn paint_permission_granted(&mut self) -> (r: Option<LayerInit>)
        requires
            old(self).wf(),
        ensures
            final(self).wf(),
            final(self)@ == (PaintTaskState { paint_permission: true, ..old(self)@ }),
            match old(self)@.scene {
                None => r is None,
                Some(scene) => r is Some && layer_views(r->0.properties@) == scene_layers(scene) && Some(
                    r->0.epoch,
                ) == old(self)@.current_epoch,
            },
    {
        self.paint_permission = true;
        match &self.root_stacking_context {
            Some(root) => {
                let props = build_layer_properties(root);
                match self.current_epoch {
                    Some(epoch) => Some(LayerInit { properties: props, epoch }),
                    None => None,
                }
            },
            None => None,
        }
    }

    /// Painting is no longer permitted.
    pub fn paint_permission_revoked(&mut self)
        requires
            old(self).wf(),
        ensures
            final(self).wf(),
            final(self)@ == (PaintTaskState { paint_permission: false, ..old(self)@ }),
    {
        self.paint_permission = false;
    }

    /// Counts a batch of painted buffers as loaned to the compositor and
    /// returns the epoch to ship them under; `None`, with nothing counted,
    /// when there is no scene epoch yet.
    pub fn assign_painted_buffers(&mut self, replies: &Vec<LayerReply>) -> (r: Option<Epoch>)
        requires
            old(self).wf(),
            old(self)@.loans + reply_count(replies@) <= usize::MAX,
        ensures
            final(self).wf(),
            r == old(self)@.current_epoch,
            r is None ==> final(self)@ == old(self)@,
            r is Some ==> final(self)@ == (PaintTaskState {
                loans: old(self)@.loans + reply_count(replies@),
                shipped: old(self)@.shipped + reply_count(replies@),
                ..old(self)@
            }),
    {
        if self.current_epoch.is_none() {
            return None;
        }
        let mut total: usize = 0;
        let mut i: usize = 0;
        assert forall|k: int| 0 <= k <= replies@.len() implies #[trigger] reply_count(replies@.subrange(0, k))
            <= reply_count(replies@) by {
            lemma_reply_count_prefix(replies@, k);
        }
        assert(replies@.subrange(0, 0) =~= Seq::<LayerReply>::empty());
        while i < replies.len()
            invariant
                i <= replies@.len(),
                total == reply_count(replies@.subrange(0, i as int)),
                old(self)@.loans + reply_count(replies@) <= usize::MAX,
                forall|k: int| 0 <= k <= replies@.len() ==> #[trigger] reply_count(replies@.subrange(0, k)) <= reply_count(replies@),
            decreases replies@.len() - i,
        {
            assert(replies@.subrange(0, i + 1).drop_last() =~= replies@.subrange(0, i as int));
            assert(reply_count(replies@.subrange(0, i + 1)) <= reply_count(replies@));
            total = total + replies[i].buffers.len();
            i = i + 1;
        }
        assert(replies@.subrange(0, i as int) =~= replies@);
        self.used_buffer_count = self.used_buffer_count + total;
        self.shipped = Ghost((self.shipped@ + total) as nat);
        self.current_epoch
    }

    /// The buffer a tile will be painted into: none in GPU mode; otherwise
    /// the most recently pooled buffer of the tile's size, or a request for
    /// a fresh surface when the pool has none.
    fn find_or_create_layer_buffer_for_tile(&mut self, tile: &BufferRequest, scale: u32) -> (r: TileBuffer)
        requires
            old(self).wf(),
        ensures
            final(self).wf(),
            r == tile_step(old(self)@.pool, *tile, scale, old(self)@.gpu_painting).0,
            final(self)@ == (PaintTaskState {
                pool: tile_step(old(self)@.pool, *tile, scale, old(self)@.gpu_painting).1,
                ..old(self)@
            }),
    {
        if self.gpu_painting {
            return TileBuffer::Gpu;
        }
        match self.buffer_map.find(tile.screen_rect.width, tile.screen_rect.height) {
            Some(buffer) => TileBuffer::Pooled(refresh_layer_buffer(buffer, tile, scale)),
            None => TileBuffer::Fresh,
        }
    }

    /// Deals the tiles of one request to the workers round-robin.
    fn paint_layer(&mut self, request: &PaintRequest, node_id: usize, overflow_origin: AuPoint) -> (r: LayerJob)
        requires
            old(self).wf(),
        ensures
            final(self).wf(),
            ({
                let taken = take_tile_buffers(
                    old(self)@.pool,
                    request.buffer_requests@,
                    request.scale,
                    old(self)@.gpu_painting,
                );
                &&& r@ == (LayerJobSpec {
                    layer_id: request.layer_id,
                    scale: request.scale,
                    layer_kind: request.layer_kind,
                    node_id,
                    overflow_origin,
                    tiles: tile_jobs(request.buffer_requests@, taken.0, old(self)@.worker_count),
                })
                &&& final(self)@ == (PaintTaskState { pool: taken.1, ..old(self)@ })
            }),
    {
        let ghost tiles_all = request.buffer_requests@;
        let ghost s0 = self@;
        let mut tiles: Vec<TileJob> = Vec::new();
        let mut k: usize = 0;
        while k < request.buffer_requests.len()
            invariant
                self.wf(),
                s0 == old(self)@,
                tiles_all == request.buffer_requests@,
                k <= tiles_all.len(),
                ({
                    let taken = take_tile_buffers(s0.pool, tiles_all.subrange(0, k as int), request.scale, s0.gpu_painting);
                    &&& tiles@ == tile_jobs(tiles_all.subrange(0, k as int), taken.0, s0.worker_count)
                    &&& self@ == (PaintTaskState { pool: taken.1, ..s0 })
                }),
            decreases tiles_all.len() - k,
        {
            let ghost before = tiles@;
            let tile = request.buffer_requests[k];
            let buffer = self.find_or_create_layer_buffer_for_tile(&tile, request.scale);
            let worker = k % self.worker_count;
            tiles.push(TileJob { worker, tile, buffer });
            proof {
                let pre = tiles_all.subrange(0, k as int);
                let post = tiles_all.subrange(0, k + 1);
                assert(post.drop_last() =~= pre);
                assert(post.last() == tile);
                let taken = take_tile_buffers(s0.pool, post, request.scale, s0.gpu_painting);
                assert(taken.0.len() == post.len()) by {
                    lemma_take_len(s0.pool, post, request.scale, s0.gpu_painting);
                }
                assert(tiles@ =~= tile_jobs(post, taken.0, s0.worker_count));
            }
            k = k + 1;
        }
        proof {
            assert(tiles_all.subrange(0, k as int) =~= tiles_all);
        }
        LayerJob {
            layer_id: request.layer_id,
            scale: request.scale,
            layer_kind: request.layer_kind,
            node_id,
            overflow_origin,
            tiles,
        }
    }

    /// A batch of paint requests arrives. Unless painting is not permitted
    /// or an exit is pending, every request of the current epoch whose layer
    /// is in the scene becomes a layer job, in request order; the others are
    /// dropped. Tile `i` of a job goes to worker `i % worker_count`.
    pub fn paint(&mut self, requests: Vec<PaintRequest>) -> (r: PaintAction)
        requires
            old(self).wf(),
        ensures
            final(self).wf(),
            !old(self)@.paint_permission ==> r is NotifyPainterReady && final(self)@ == old(self)@,
            old(self)@.paint_permission && old(self)@.draining ==> r is Ignore && final(self)@ == old(self)@,
            old(self)@.paint_permission && !old(self)@.draining ==> {
                let plan = plan_paint(
                    old(self)@.pool,
                    requests@,
                    old(self)@.current_epoch,
                    old(self)@.scene,
                    old(self)@.gpu_painting,
                    old(self)@.worker_count,
                );
                &&& r is Dispatch
                &&& job_views(r->0@) == plan.0
                &&& final(self)@ == (PaintTaskState { pool: plan.1, ..old(self)@ })
            },
    {
        if !self.paint_permission {
            return PaintAction::NotifyPainterReady;
        }
        if self.waiting_for_compositor_buffers_to_exit {
            return PaintAction::Ignore;
        }
        let ghost reqs = requests@;
        let ghost s0 = self@;
        let mut jobs: Vec<LayerJob> = Vec::new();
        let mut i: usize = 0;
        while i < requests.len()
            invariant
                self.wf(),
                s0 == old(self)@,
                reqs == requests@,
                i <= reqs.len(),
                ({
                    let plan = plan_paint(s0.pool, reqs.subrange(0, i as int), s0.current_epoch, s0.scene, s0.gpu_painting, s0.worker_count);
                    &&& job_views(jobs@) == plan.0
                    &&& self@ == (PaintTaskState { pool: plan.1, ..s0 })
                }),
            decreases reqs.len() - i,
        {
            let request = &requests[i];
            let epoch_matches = match self.current_epoch {
                Some(e) => e == request.epoch,
                None => false,
            };
            let target = if epoch_matches {
                match &self.root_stacking_context {
                    Some(root) => match find_stacking_context_with_layer_id(root, request.layer_id) {
                        Some(ctx) => Some((ctx.node_id, ctx.overflow.origin)),
                        None => None,
                    },
                    None => None,
                }
            } else {
                None
            };
            let ghost before = job_views(jobs@);
            proof {
                let pre = reqs.subrange(0, i as int);
                let post = reqs.subrange(0, i + 1);
                assert(post.drop_last() =~= pre);
                assert(post.last() == reqs[i as int]);
            }
            match target {
                Some((node_id, overflow_origin)) => {
                    let job = self.paint_layer(request, node_id, overflow_origin);
                    jobs.push(job);
                    assert(job_views(jobs@) =~= before.push(job@));
                },
                None => {},
            }
            i = i + 1;
        }
        proof {
            assert(reqs.subrange(0, i as int) =~= reqs);
        }
        PaintAction::Dispatch(jobs)
    }

    /// The compositor gives buffers back. They go into the pool, the last
    /// one first so that the first is reused first; whatever the pool evicts
    /// is handed back to be destroyed. `finished` is set when a pending exit
    /// has now received every loaned buffer.
    pub fn unused_buffers(&mut self, buffers: Vec<LayerBuffer>) -> (r: UnusedOutcome)
        requires
            old(self).wf(),
            buffers@.len() <= old(self)@.loans,
        ensures
            final(self).wf(),
            final(self)@ == after_return(old(self)@, buffers@),
            r.evicted@ + final(self)@.pool == old(self)@.pool + buffers@.reverse(),
            r.finished == finishes_drain(old(self)@, buffers@),
    {
        let ghost s = buffers@;
        let ghost pool0 = self.buffer_map@;
        let ghost budget = self.buffer_map.budget() as int;
        let n = buffers.len();
        self.used_buffer_count = self.used_buffer_count - n;
        self.returned = Ghost((self.returned@ + n) as nat);
        let mut buffers = buffers;
        let mut evicted: Vec<LayerBuffer> = Vec::new();
        proof {
            assert(s.subrange(n as int, n as int) =~= Seq::<LayerBuffer>::empty());
            assert(s.subrange(n as int, n as int).reverse() =~= Seq::<LayerBuffer>::empty());
            assert(evicted@ + self.buffer_map@ =~= pool0 + s.subrange(n as int, n as int).reverse());
        }
        while buffers.len() > 0
            invariant
                self.buffer_map.wf(),
                self.buffer_map.budget() == budget,
                budget == old(self).buffer_map.budget(),
                pool0 == old(self).buffer_map@,
                self.used_buffer_count == old(self).used_buffer_count - s.len(),
                self.returned@ == old(self).returned@ + s.len(),
                self.shipped == old(self).shipped,
                self.root_stacking_context == old(self).root_stacking_context,
                self.paint_permission == old(self).paint_permission,
                self.current_epoch == old(self).current_epoch,
                self.worker_count == old(self).worker_count,
                self.gpu_painting == old(self).gpu_painting,
                self.waiting_for_compositor_buffers_to_exit == old(self).waiting_for_compositor_buffers_to_exit,
                buffers@.len() <= s.len(),
                buffers@ == s.subrange(0, buffers@.len() as int),
                self.buffer_map@ == insert_reversed(pool0, s.subrange(buffers@.len() as int, s.len() as int), budget),
                evicted@ + self.buffer_map@ == pool0 + s.subrange(buffers@.len() as int, s.len() as int).reverse(),
            decreases buffers@.len(),
        {
            let ghost k = buffers@.len() as int;
            let ghost pool_before = self.buffer_map@;
            let b = buffers.pop().unwrap();
            let more = self.buffer_map.insert(b);
            let ghost evicted_before = evicted@;
            let mut more = more;
            evicted.append(&mut more);
            proof {
                let tail = s.subrange(k - 1, s.len() as int);
                assert(tail.drop_first() =~= s.subrange(k, s.len() as int));
                assert(tail[0] == b);
                assert(buffers@ =~= s.subrange(0, k - 1));
                assert(tail.reverse() =~= s.subrange(k, s.len() as int).reverse().push(b));
                assert(evicted@ + self.buffer_map@ =~= (evicted_before + pool_before).push(b));
            }
        }
        let finished = self.waiting_for_compositor_buffers_to_exit && self.used_buffer_count == 0;
        proof {
            assert(s.subrange(0, s.len() as int) =~= s);
        }
        UnusedOutcome { evicted, finished }
    }

    /// An exit is requested. Returns whether the coordinator stops now: on a
    /// complete exit, or when no buffer is on loan. Otherwise it waits for
    /// the compositor to give every loaned buffer back, and ignores new
    /// scenes and paint requests meanwhile.
    pub fn exit(&mut self, exit_type: PipelineExitType) -> (r: bool)
        requires
            old(self).wf(),
        ensures
            final(self).wf(),
            r == (exit_type == PipelineExitType::Complete || old(self)@.loans == 0),
            r ==> final(self)@ == old(self)@,
            !r ==> final(self)@ == (PaintTaskState { draining: true, ..old(self)@ }),
    {
        let should_wait_for_compositor_buffers = match exit_type {
            PipelineExitType::Complete => false,
            PipelineExitType::PipelineOnly => self.used_buffer_count != 0,
        };
        if !should_wait_for_compositor_buffers {
            return true;
        }
        self.waiting_for_compositor_buffers_to_exit = true;
        false
    }

    /// Empties the pool on the way out; the returned buffers must be
    /// destroyed with the graphics context.
    pub fn release_buffers(&mut self) -> (r: Vec<LayerBuffer>)
        requires
            old(self).wf(),
        ensures
            final(self).wf(),
            r@ == old(self)@.pool,
            final(self)@ == (PaintTaskState { pool: Seq::empty(), ..old(self)@ }),
    {
        self.buffer_map.clear()
    }
}

/// Result of the compositor giving buffers back.
pub struct UnusedOutcome {
    /// Buffers the pool let go of, oldest first; to be destroyed.
    pub evicted: Vec<LayerBuffer>,
    /// Set when a pending exit has now received every loaned buffer.
    pub finished: bool,
}

pub proof fn lemma_take_len(pool: Seq<LayerBuffer>, tiles: Seq<BufferRequest>, scale: u32, gpu: bool)
    ensures
        take_tile_buffers(pool, tiles, scale, gpu).0.len() == tiles.len(),
    decreases tiles.len(),
{
    if tiles.len() > 0 {
        lemma_take_len(pool, tiles.drop_last(), scale, gpu);
    }
}

/// Counting the replies of a prefix never gives more than counting all.
pub proof fn lemma_reply_count_prefix(replies: Seq<LayerReply>, k: int)
    requires
        0 <= k <= replies.len(),
    ensures
        reply_count(replies.subrange(0, k)) <= reply_count(replies),
    decreases replies.len() - k,
{
    if k < replies.len() {
        lemma_reply_count_prefix(replies, k + 1);
        assert(replies.subrange(0, k + 1).drop_last() =~= replies.subrange(0, k));
    } else {
        assert(replies.subrange(0, k) =~= replies);
    }
}

/// The test that picks the requests of a batch that are painted.
pub open spec fn selected_pred(epoch: Option<Epoch>, scene: Option<StackingContext>) -> spec_fn(PaintRequest) -> bool {
    |r: PaintRequest| request_selected(r, epoch, scene)
}

/// A batch yields one layer job for each request whose epoch is the current
/// one and whose layer is in the scene, in request order, and none for any
/// other request; each job has exactly one tile per buffer request, tile `i`
/// being buffer request `i`, dealt to worker `i % workers`.
pub proof fn lemma_epoch_filter(
    pool: Seq<LayerBuffer>,
    requests: Seq<PaintRequest>,
    epoch: Option<Epoch>,
    scene: Option<StackingContext>,
    gpu: bool,
    workers: nat,
)
    ensures
        ({
            let jobs = plan_paint(pool, requests, epoch, scene, gpu, workers).0;
            let sel = requests.filter(selected_pred(epoch, scene));
            &&& jobs.len() == sel.len()
            &&& forall|j: int|
                0 <= j < jobs.len() ==> {
                    &&& (#[trigger] jobs[j]).layer_id == sel[j].layer_id
                    &&& jobs[j].tiles.len() == sel[j].buffer_requests@.len()
                    &&& forall|i: int|
                        0 <= i < jobs[j].tiles.len() ==> (#[trigger] jobs[j].tiles[i]).tile
                            == sel[j].buffer_requests@[i] && jobs[j].tiles[i].worker == (i
                            % workers as int) as usize
                }
        }),
    decreases requests.len(),
{
    if requests.len() > 0 {
        lemma_epoch_filter(pool, requests.drop_last(), epoch, scene, gpu, workers);
        let prev = plan_paint(pool, requests.drop_last(), epoch, scene, gpu, workers);
        let r = requests.last();
        let pred = selected_pred(epoch, scene);
        let sel0 = requests.drop_last().filter(pred);
        reveal(Seq::filter);
        assert(requests.filter(pred) == if pred(r) {
            sel0.push(r)
        } else {
            sel0
        });
        assert(pred(r) == request_selected(r, epoch, scene));
        if request_selected(r, epoch, scene) {
            lemma_take_len(prev.1, r.buffer_requests@, r.scale, gpu);
            let jobs = plan_paint(pool, requests, epoch, scene, gpu, workers).0;
            let sel = requests.filter(pred);
            assert forall|j: int| 0 <= j < jobs.len() implies {
                &&& (#[trigger] jobs[j]).layer_id == sel[j].layer_id
                &&& jobs[j].tiles.len() == sel[j].buffer_requests@.len()
                &&& forall|i: int|
                    0 <= i < jobs[j].tiles.len() ==> (#[trigger] jobs[j].tiles[i]).tile
                        == sel[j].buffer_requests@[i] && jobs[j].tiles[i].worker == (i
                        % workers as int) as usize
            } by {
                if j < jobs.len() - 1 {
                    assert(jobs[j] == prev.0[j]);
                    assert(sel[j] == sel0[j]);
                } else {
                    assert(sel[j] == r);
                }
            }
        }
    }
}

/// The coordinator's count of loaned buffers is always the number of
/// buffers it shipped less the number it got back, and never negative.
pub proof fn lemma_loan_conservation(task: PaintTask)
    requires
        task.wf(),
    ensures
        task@.loans == task@.shipped - task@.returned,
        task@.returned <= task@.shipped,
{
}

/// The state after the compositor gives back each batch of `batches` in turn.
pub open spec fn after_returns(s: PaintTaskState, batches: Seq<Seq<LayerBuffer>>) -> PaintTaskState
    decreases batches.len(),
{
    if batches.len() == 0 {
        s
    } else {
        after_return(after_returns(s, batches.drop_last()), batches.last())
    }
}

/// Number of buffers in all the batches.
pub open spec fn batches_len(batches: Seq<Seq<LayerBuffer>>) -> nat
    decreases batches.len(),
{
    if batches.len() == 0 {
        0
    } else {
        batches_len(batches.drop_last()) + batches.last().len()
    }
}

/// Once an exit waits for loaned buffers, it keeps waiting while batches of
/// buffers come back, and the last batch finishes the drain exactly when the
/// buffers given back add up to what was on loan.
pub proof fn lemma_drain(s: PaintTaskState, batches: Seq<Seq<LayerBuffer>>)
    requires
        s.draining,
        batches_len(batches) <= s.loans,
    ensures
        after_returns(s, batches).draining,
        after_returns(s, batches).loans == s.loans - batches_len(batches),
        batches.len() > 0 ==> (finishes_drain(after_returns(s, batches.drop_last()), batches.last())
            <==> batches_len(batches) == s.loans),
    decreases batches.len(),
{
    if batches.len() > 0 {
        lemma_drain(s, batches.drop_last());
    }
}

} // verus!
