use gfx_paint::buffer_pool::{BufferMap, LayerBuffer};
use gfx_paint::canvas::CanvasLayers;
use gfx_paint::dispatch::{gather_in_tile_order, tiles_for_worker, worker_for_tile};
use gfx_paint::geometry::{Au, AuPoint, AuRect, PageRect, PxRect, ScreenRect};
use gfx_paint::layer_tree::build_layer_properties;
use gfx_paint::scene::{find_stacking_context_with_layer_id, StackingContext};
use gfx_paint::tile::{
    new_layer_buffer, overlay_colors, refresh_layer_buffer, thread_tint_color, tile_overlays, tint_color, TintColor,
};
use gfx_paint::buffer_pool::BufferRequest;
use gfx_paint::types::{Color, LayerId, PaintLayer, ScrollPolicy};

fn buffer(surface: u64, width: usize, height: usize) -> LayerBuffer {
    LayerBuffer {
        native_surface: surface,
        rect: PageRect { x: 0, y: 0, width: 0, height: 0 },
        screen_pos: ScreenRect { x: 0, y: 0, width, height },
        resolution: 1.0f32.to_bits(),
        stride: width * 4,
        painted_with_cpu: true,
        content_age: 0,
    }
}

#[test]
fn pool_lifo_reuse() {
    let mut pool = BufferMap::new(1_000_000);
    pool.insert(buffer(1, 10, 10));
    pool.insert(buffer(2, 10, 10));
    assert_eq!(pool.find(10, 10).unwrap().native_surface, 2);
    assert_eq!(pool.find(10, 10).unwrap().native_surface, 1);
    assert!(pool.find(10, 10).is_none());
    assert_eq!(pool.mem(), 0);
}

#[test]
fn pool_find_needs_exact_size() {
    let mut pool = BufferMap::new(1_000_000);
    pool.insert(buffer(1, 10, 20));
    assert!(pool.find(20, 10).is_none());
    assert!(pool.find(10, 10).is_none());
    assert_eq!(pool.len(), 1);
    assert_eq!(pool.find(10, 20).unwrap().native_surface, 1);
}

#[test]
fn pool_evicts_oldest_over_budget() {
    // Each 10x10 buffer holds 400 bytes.
    let mut pool = BufferMap::new(1000);
    assert!(pool.insert(buffer(1, 10, 10)).is_empty());
    assert!(pool.insert(buffer(2, 10, 10)).is_empty());
    let evicted = pool.insert(buffer(3, 10, 10));
    assert_eq!(evicted.len(), 1);
    assert_eq!(evicted[0].native_surface, 1);
    assert_eq!(pool.mem(), 800);
    assert!(pool.mem() <= 1000);
}

#[test]
fn pool_drops_buffer_larger_than_budget() {
    let mut pool = BufferMap::new(1000);
    pool.insert(buffer(1, 10, 10));
    let evicted = pool.insert(buffer(2, 100, 100));
    let surfaces: Vec<u64> = evicted.iter().map(|b| b.native_surface).collect();
    assert_eq!(surfaces, vec![1, 2]);
    assert_eq!(pool.len(), 0);
    assert_eq!(pool.mem(), 0);
}

#[test]
fn pool_with_zero_budget_holds_nothing_but_empty_buffers() {
    let mut pool = BufferMap::new(0);
    assert_eq!(pool.insert(buffer(1, 1, 1)).len(), 1);
    assert_eq!(pool.len(), 0);
    assert!(pool.insert(buffer(2, 0, 0)).is_empty());
    assert_eq!(pool.len(), 1);
}

#[test]
fn pool_clear_returns_everything() {
    let mut pool = BufferMap::new(10_000);
    pool.insert(buffer(1, 10, 10));
    pool.insert(buffer(2, 5, 5));
    let all: Vec<u64> = pool.clear().iter().map(|b| b.native_surface).collect();
    assert_eq!(all, vec![1, 2]);
    assert_eq!(pool.mem(), 0);
    assert_eq!(pool.len(), 0);
}

#[test]
fn nearest_px_rounds_halves_away_from_zero() {
    assert_eq!(Au(90).to_nearest_px(), 2);
    assert_eq!(Au(89).to_nearest_px(), 1);
    assert_eq!(Au(30).to_nearest_px(), 1);
    assert_eq!(Au(29).to_nearest_px(), 0);
    assert_eq!(Au(-90).to_nearest_px(), -2);
    assert_eq!(Au(-29).to_nearest_px(), 0);
    assert_eq!(Au(i32::MAX).to_nearest_px(), 35791394);
    assert_eq!(Au(i32::MIN).to_nearest_px(), -35791394);
}

#[test]
fn point_add_wraps() {
    let p = AuPoint { x: Au(i32::MAX), y: Au(1) };
    let q = AuPoint { x: Au(1), y: Au(2) };
    assert_eq!(p.add(q), AuPoint { x: Au(i32::MIN), y: Au(3) });
    assert_eq!(AuPoint::zero(), AuPoint { x: Au(0), y: Au(0) });
}

fn au_rect(x: i32, y: i32, w: i32, h: i32) -> AuRect {
    AuRect { origin: AuPoint { x: Au(x), y: Au(y) }, width: Au(w), height: Au(h) }
}

fn node(node_id: usize, bounds: AuRect, overflow: AuRect, layer: Option<usize>, children: Vec<StackingContext>) -> StackingContext {
    StackingContext {
        node_id,
        bounds,
        overflow,
        establishes_3d_context: node_id == 3,
        layer: layer.map(|id| PaintLayer::new(LayerId(id, 0), Color { r: 0, g: 0, b: 0, a: 0 }, ScrollPolicy::FixedPosition)),
        children,
    }
}

/// root (no layer) -> a (layer 1) -> b (no layer) -> c (layer 2); root -> d (layer 3)
fn nested_scene() -> StackingContext {
    let c = node(3, au_rect(60, 0, 0, 0), au_rect(30, 30, 600, 90), Some(2), Vec::new());
    let b = node(2, au_rect(120, 120, 0, 0), au_rect(0, 0, 0, 0), None, vec![c]);
    let a = node(1, au_rect(600, 0, 0, 0), au_rect(-60, 0, 1200, 1200), Some(1), vec![b]);
    let d = node(4, au_rect(0, 0, 0, 0), au_rect(0, 0, 60, 60), Some(3), Vec::new());
    node(0, au_rect(60, 60, 0, 0), au_rect(0, 0, 0, 0), None, vec![a, d])
}

#[test]
fn layer_tree_is_flattened_in_preorder() {
    let props = build_layer_properties(&nested_scene());
    let ids: Vec<usize> = props.iter().map(|p| p.id.0).collect();
    assert_eq!(ids, vec![1, 2, 3]);
    assert_eq!(props[0].parent_id, None);
    assert_eq!(props[1].parent_id, Some(LayerId(1, 0)));
    assert_eq!(props[2].parent_id, None);
    // a: root bounds (60,60) + a's bounds (600,0) + a's overflow (-60,0), in pixels.
    assert_eq!(props[0].rect, PxRect { x: 10, y: 1, width: 20, height: 20 });
    // c: b's bounds (120,120) + c's bounds (60,0) + c's overflow (30,30); 90 Au rounds to 2 px.
    assert_eq!(props[1].rect, PxRect { x: 4, y: 3, width: 10, height: 2 });
    assert_eq!(props[0].transform_chain, vec![0, 1]);
    assert_eq!(props[1].transform_chain, vec![2, 3]);
    assert_eq!(props[2].transform_chain, vec![0, 4]);
    assert!(props[1].establishes_3d_context);
    assert_eq!(props[0].scroll_policy, ScrollPolicy::FixedPosition);
}

#[test]
fn layer_tree_of_scene_without_layers_is_empty() {
    let scene = node(0, au_rect(0, 0, 0, 0), au_rect(0, 0, 0, 0), None, Vec::new());
    assert!(build_layer_properties(&scene).is_empty());
}

#[test]
fn find_layer_by_id() {
    let scene = nested_scene();
    assert_eq!(find_stacking_context_with_layer_id(&scene, LayerId(2, 0)).unwrap().node_id, 3);
    assert_eq!(find_stacking_context_with_layer_id(&scene, LayerId(3, 0)).unwrap().node_id, 4);
    assert!(find_stacking_context_with_layer_id(&scene, LayerId(99, 0)).is_none());
    assert!(find_stacking_context_with_layer_id(&scene, LayerId(1, 1)).is_none());
}

#[test]
fn round_robin_mapping() {
    assert_eq!(worker_for_tile(7, 3), 1);
    assert_eq!(tiles_for_worker(7, 0, 3), 3);
    assert_eq!(tiles_for_worker(7, 1, 3), 2);
    assert_eq!(tiles_for_worker(7, 2, 3), 2);
    assert_eq!(tiles_for_worker(0, 0, 1), 0);
    let per_worker = vec![vec![0, 3, 6], vec![1, 4], vec![2, 5]];
    assert_eq!(gather_in_tile_order(&per_worker, 7), vec![0, 1, 2, 3, 4, 5, 6]);
}

#[test]
fn tint_palette() {
    assert_eq!(tint_color(0), TintColor { r: 6, g: 153, b: 198 });
    assert_eq!(tint_color(7), TintColor { r: 137, g: 196, b: 78 });
    assert_eq!(thread_tint_color(9), TintColor { r: 255, g: 212, b: 83 });
    assert!(overlay_colors(3, false, false, 0).is_empty());
    assert_eq!(overlay_colors(3, true, true, 4), vec![tint_color(3), tint_color(4)]);
}

#[test]
fn flashing_tint_comes_from_palette() {
    let palette: Vec<TintColor> = (0..8).map(tint_color).collect();
    let mut seen = std::collections::HashSet::new();
    for _ in 0..200 {
        let colors = tile_overlays(2, false, true);
        assert_eq!(colors.len(), 1);
        assert!(palette.contains(&colors[0]));
        seen.insert((colors[0].r, colors[0].g, colors[0].b));
    }
    assert!(seen.len() > 1);
    assert_eq!(tile_overlays(2, true, false), vec![tint_color(2)]);
}

#[test]
fn fresh_and_refreshed_buffers() {
    let tile = BufferRequest {
        page_rect: PageRect { x: 1, y: 2, width: 3, height: 4 },
        screen_rect: ScreenRect { x: 5, y: 6, width: 64, height: 32 },
        content_age: 9,
    };
    let b = new_layer_buffer(7, &tile, 42, false);
    assert_eq!(b.stride, 256);
    assert_eq!(b.native_surface, 7);
    assert!(!b.painted_with_cpu);
    assert_eq!(b.content_age, 9);
    let old = buffer(11, 64, 32);
    let r = refresh_layer_buffer(old, &tile, 42);
    assert_eq!(r.native_surface, 11);
    assert_eq!(r.rect, tile.page_rect);
    assert_eq!(r.screen_pos, tile.screen_rect);
    assert_eq!(r.resolution, 42);
    assert_eq!(r.content_age, 9);
    assert!(r.painted_with_cpu);
}

#[test]
fn canvas_sinks_are_replaced() {
    let mut canvases: CanvasLayers<&str> = CanvasLayers::new();
    assert!(canvases.get(LayerId(1, 0)).is_none());
    canvases.insert(LayerId(1, 0), "first");
    canvases.insert(LayerId(2, 0), "other");
    canvases.insert(LayerId(1, 0), "second");
    assert_eq!(canvases.get(LayerId(1, 0)), Some(&"second"));
    assert_eq!(canvases.get(LayerId(2, 0)), Some(&"other"));
}
