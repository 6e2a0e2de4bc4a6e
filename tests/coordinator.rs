use gfx_paint::buffer_pool::{BufferRequest, LayerBuffer};
use gfx_paint::dispatch::gather_in_tile_order;
use gfx_paint::geometry::{Au, AuPoint, AuRect, PageRect, ScreenRect};
use gfx_paint::paint_task::{
    InitAction, LayerJob, LayerReply, PaintAction, PaintRequest, PaintTask, TileBuffer, BUFFER_MAP_BUDGET,
};
use gfx_paint::scene::StackingContext;
use gfx_paint::tile::new_layer_buffer;
use gfx_paint::types::{Color, Epoch, LayerId, LayerKind, PaintLayer, PipelineExitType, ScrollPolicy};

fn px(n: i32) -> Au {
    Au(n * 60)
}

fn rect(x: i32, y: i32, w: i32, h: i32) -> AuRect {
    AuRect { origin: AuPoint { x: px(x), y: px(y) }, width: px(w), height: px(h) }
}

fn white() -> Color {
    Color { r: 1.0f32.to_bits(), g: 1.0f32.to_bits(), b: 1.0f32.to_bits(), a: 1.0f32.to_bits() }
}

fn one_layer_scene() -> StackingContext {
    StackingContext {
        node_id: 0,
        bounds: rect(0, 0, 200, 200),
        overflow: rect(0, 0, 200, 200),
        establishes_3d_context: false,
        layer: Some(PaintLayer::new(LayerId(1, 0), white(), ScrollPolicy::Scrollable)),
        children: Vec::new(),
    }
}

fn four_tiles() -> Vec<BufferRequest> {
    let mut tiles = Vec::new();
    for (x, y) in [(0usize, 0usize), (100, 0), (0, 100), (100, 100)] {
        tiles.push(BufferRequest {
            page_rect: PageRect {
                x: (x as f32).to_bits(),
                y: (y as f32).to_bits(),
                width: 100.0f32.to_bits(),
                height: 100.0f32.to_bits(),
            },
            screen_rect: ScreenRect { x, y, width: 100, height: 100 },
            content_age: 0,
        });
    }
    tiles
}

fn request(layer: usize, epoch: u32) -> PaintRequest {
    PaintRequest {
        buffer_requests: four_tiles(),
        scale: 1.0f32.to_bits(),
        layer_id: LayerId(layer, 0),
        epoch: Epoch(epoch),
        layer_kind: LayerKind::Layer2D,
    }
}

fn ready_task(workers: usize, epoch: u32) -> PaintTask {
    let mut task = PaintTask::new(BUFFER_MAP_BUDGET, workers, false);
    assert!(task.paint_permission_granted().is_none());
    match task.paint_init(Epoch(epoch), one_layer_scene()) {
        InitAction::InitializeLayers(props, e) => {
            assert_eq!(e, Epoch(epoch));
            assert_eq!(props.len(), 1);
        }
        _ => panic!("layers were not published"),
    }
    task
}

fn jobs_of(action: PaintAction) -> Vec<LayerJob> {
    match action {
        PaintAction::Dispatch(jobs) => jobs,
        _ => panic!("the batch was not dispatched"),
    }
}

/// Paints the tiles of each job the way the workers would and returns the
/// replies, counting the fresh surfaces it had to make.
fn run_workers(jobs: &[LayerJob], workers: usize, fresh: &mut usize) -> Vec<LayerReply> {
    let mut replies = Vec::new();
    for job in jobs {
        let mut per_worker: Vec<Vec<LayerBuffer>> = vec![Vec::new(); workers];
        for tile_job in &job.tiles {
            let buffer = match tile_job.buffer {
                TileBuffer::Pooled(b) => b,
                TileBuffer::Fresh => {
                    *fresh += 1;
                    new_layer_buffer(100 + *fresh as u64, &tile_job.tile, job.scale, true)
                }
                TileBuffer::Gpu => new_layer_buffer(0, &tile_job.tile, job.scale, false),
            };
            per_worker[tile_job.worker].push(buffer);
        }
        let buffers = gather_in_tile_order(&per_worker, job.tiles.len());
        replies.push(LayerReply { layer_id: job.layer_id, buffers });
    }
    replies
}

#[test]
fn single_layer_four_tiles_two_workers() {
    let mut task = ready_task(2, 1);
    let jobs = jobs_of(task.paint(vec![request(1, 1)]));
    assert_eq!(jobs.len(), 1);
    assert_eq!(jobs[0].layer_id, LayerId(1, 0));
    let workers: Vec<usize> = jobs[0].tiles.iter().map(|t| t.worker).collect();
    assert_eq!(workers, vec![0, 1, 0, 1]);
    let mut fresh = 0;
    let replies = run_workers(&jobs, 2, &mut fresh);
    assert_eq!(fresh, 4);
    let buffers = &replies[0].buffers;
    assert_eq!(buffers.len(), 4);
    let tiles = four_tiles();
    for (i, b) in buffers.iter().enumerate() {
        assert_eq!(b.stride, 400);
        assert!(b.painted_with_cpu);
        assert_eq!(b.content_age, 0);
        assert_eq!(b.screen_pos, tiles[i].screen_rect);
    }
    assert_eq!(task.assign_painted_buffers(&replies), Some(Epoch(1)));
    assert_eq!(task.used_buffer_count(), 4);
}

fn after_first_batch() -> (PaintTask, Vec<LayerReply>) {
    let mut task = ready_task(2, 1);
    let jobs = jobs_of(task.paint(vec![request(1, 1)]));
    let mut fresh = 0;
    let replies = run_workers(&jobs, 2, &mut fresh);
    task.assign_painted_buffers(&replies);
    (task, replies)
}

#[test]
fn stale_request_is_dropped() {
    let (mut task, _) = after_first_batch();
    let jobs = jobs_of(task.paint(vec![request(1, 0)]));
    assert!(jobs.is_empty());
    let replies = run_workers(&jobs, 2, &mut 0);
    assert_eq!(task.assign_painted_buffers(&replies), Some(Epoch(1)));
    assert_eq!(task.used_buffer_count(), 4);
}

#[test]
fn unused_buffers_return_to_pool() {
    let (mut task, mut replies) = after_first_batch();
    let buffers = replies.remove(0).buffers;
    let outcome = task.unused_buffers(buffers);
    assert!(outcome.evicted.is_empty());
    assert!(!outcome.finished);
    assert_eq!(task.used_buffer_count(), 0);
    assert_eq!(task.pooled_buffer_count(), 4);
    assert_eq!(task.buffer_map_mem(), 4 * 400 * 100);
}

#[test]
fn next_epoch_reuses_pooled_buffers() {
    let (mut task, mut replies) = after_first_batch();
    task.unused_buffers(replies.remove(0).buffers);
    match task.paint_init(Epoch(2), one_layer_scene()) {
        InitAction::InitializeLayers(_, e) => assert_eq!(e, Epoch(2)),
        _ => panic!("layers were not published"),
    }
    let jobs = jobs_of(task.paint(vec![request(1, 2)]));
    let mut fresh = 0;
    let replies = run_workers(&jobs, 2, &mut fresh);
    assert_eq!(fresh, 0);
    assert_eq!(replies[0].buffers.len(), 4);
    assert_eq!(task.pooled_buffer_count(), 0);
    // The buffer given back first is reused first.
    assert_eq!(replies[0].buffers[0].native_surface, 101);
}

#[test]
fn pipeline_only_exit_drains() {
    let (mut task, mut replies) = after_first_batch();
    let mut buffers = replies.remove(0).buffers;
    let first = vec![buffers.remove(0)];
    assert!(!task.unused_buffers(first).finished);
    assert_eq!(task.used_buffer_count(), 3);
    assert!(!task.exit(PipelineExitType::PipelineOnly));
    assert!(matches!(task.paint(vec![request(1, 1)]), PaintAction::Ignore));
    assert!(matches!(task.paint_init(Epoch(3), one_layer_scene()), InitAction::Ignore));
    let outcome = task.unused_buffers(buffers);
    assert!(outcome.finished);
    assert_eq!(task.used_buffer_count(), 0);
}

#[test]
fn complete_exit_stops_at_once() {
    let (mut task, _) = after_first_batch();
    assert!(task.exit(PipelineExitType::Complete));
}

#[test]
fn exit_without_loans_stops_at_once() {
    let mut task = ready_task(2, 1);
    assert!(task.exit(PipelineExitType::PipelineOnly));
}

#[test]
fn missing_layer_yields_no_tiles() {
    let mut task = ready_task(2, 1);
    let jobs = jobs_of(task.paint(vec![request(99, 1), request(1, 1)]));
    assert_eq!(jobs.len(), 1);
    assert_eq!(jobs[0].layer_id, LayerId(1, 0));
    assert_eq!(jobs[0].tiles.len(), 4);
    let replies = run_workers(&jobs, 2, &mut 0);
    task.assign_painted_buffers(&replies);
    assert_eq!(task.used_buffer_count(), 4);
}

#[test]
fn paint_without_permission_asks_for_ready() {
    let mut task = PaintTask::new(BUFFER_MAP_BUDGET, 2, false);
    assert!(matches!(task.paint_init(Epoch(1), one_layer_scene()), InitAction::NotifyPainterReady));
    assert!(matches!(task.paint(vec![request(1, 1)]), PaintAction::NotifyPainterReady));
    let init = task.paint_permission_granted().unwrap();
    assert_eq!(init.epoch, Epoch(1));
    assert_eq!(init.properties.len(), 1);
    task.paint_permission_revoked();
    assert!(matches!(task.paint(vec![request(1, 1)]), PaintAction::NotifyPainterReady));
}

#[test]
fn gpu_mode_uses_one_worker_and_no_pool() {
    let mut task = PaintTask::new(BUFFER_MAP_BUDGET, 4, true);
    assert_eq!(task.worker_count(), 1);
    assert!(task.gpu_painting());
    task.paint_permission_granted();
    task.paint_init(Epoch(1), one_layer_scene());
    let jobs = jobs_of(task.paint(vec![request(1, 1)]));
    assert!(jobs[0].tiles.iter().all(|t| t.worker == 0 && t.buffer == TileBuffer::Gpu));
    let replies = run_workers(&jobs, 1, &mut 0);
    assert!(replies[0].buffers.iter().all(|b| !b.painted_with_cpu && b.stride == 400));
}

#[test]
fn no_scene_ships_nothing() {
    let mut task = PaintTask::new(BUFFER_MAP_BUDGET, 2, false);
    task.paint_permission_granted();
    let jobs = jobs_of(task.paint(vec![request(1, 1)]));
    assert!(jobs.is_empty());
    assert_eq!(task.assign_painted_buffers(&Vec::new()), None);
    assert_eq!(task.used_buffer_count(), 0);
}

#[test]
fn release_buffers_empties_pool() {
    let (mut task, mut replies) = after_first_batch();
    task.unused_buffers(replies.remove(0).buffers);
    let released = task.release_buffers();
    assert_eq!(released.len(), 4);
    assert_eq!(task.pooled_buffer_count(), 0);
    assert_eq!(task.buffer_map_mem(), 0);
}
