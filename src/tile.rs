use vstd::prelude::*;
use crate::buffer_pool::{BufferRequest, LayerBuffer};
use rand::Rng;

verus! {

/// Number of colors in the tint palette.
pub const TINT_COLOR_COUNT: usize = 8;

/// A tint overlaid on a painted tile, as 8-bit channels. Every tint is drawn
/// at 70% opacity.
#[derive(Clone, Copy, Debug, PartialEq, Eq, Structural)]
pub struct TintColor {
    pub r: u8,
    pub g: u8,
    pub b: u8,
}

/// The fixed tint palette.
pub open spec fn palette(i: int) -> TintColor {
    if i == 0 {
        TintColor { r: 6, g: 153, b: 198 }
    } else if i == 1 {
        TintColor { r: 255, g: 212, b: 83 }
    } else if i == 2 {
        TintColor { r: 116, g: 29, b: 109 }
    } else if i == 3 {
        TintColor { r: 204, g: 158, b: 199 }
    } else if i == 4 {
        TintColor { r: 242, g: 46, b: 121 }
    } else if i == 5 {
        TintColor { r: 116, g: 203, b: 196 }
    } else if i == 6 {
        TintColor { r: 255, g: 249, b: 201 }
    } else {
        TintColor { r: 137, g: 196, b: 78 }
    }
}

/// Entry `index` of the tint palette.
pub fn tint_color(index: usize) -> (r: TintColor)
    requires
        index < TINT_COLOR_COUNT,
    ensures
        r == palette(index as int),
{
    match index {
        0 => TintColor { r: 6, g: 153, b: 198 },
        1 => TintColor { r: 255, g: 212, b: 83 },
        2 => TintColor { r: 116, g: 29, b: 109 },
        3 => TintColor { r: 204, g: 158, b: 199 },
        4 => TintColor { r: 242, g: 46, b: 121 },
        5 => TintColor { r: 116, g: 203, b: 196 },
        6 => TintColor { r: 255, g: 249, b: 201 },
        _ => TintColor { r: 137, g: 196, b: 78 },
    }
}

/// The tint that identifies the worker that painted a tile.
pub fn thread_tint_color(thread_id: usize) -> (r: TintColor)
    ensures
        r == palette((thread_id % TINT_COLOR_COUNT) as int),
{
    tint_color(thread_id % TINT_COLOR_COUNT)
}

/// Relies on rand's `thread_rng` and `Rng::gen_range`, which returns a value
/// inside the given non-empty range.
#[verifier::external_body]
fn random_index(len: usize) -> (r: usize)
    requires
        len > 0,
    ensures
        r < len,
{
    rand::thread_rng().gen_range(0..len)
}

/// Tints overlaid on a tile painted by worker `thread_id`, in drawing order,
/// where `flash_index` picks the flashing tint.
pub open spec fn overlays(
    thread_id: usize,
    show_debug_parallel_paint: bool,
    paint_flashing: bool,
    flash_index: int,
) -> Seq<TintColor> {
    (if show_debug_parallel_paint {
        seq![palette((thread_id % TINT_COLOR_COUNT) as int)]
    } else {
        Seq::<TintColor>::empty()
    }) + (if paint_flashing {
        seq![palette(flash_index)]
    } else {
        Seq::<TintColor>::empty()
    })
}

/// Tints to overlay on a tile painted by worker `thread_id`, in drawing
/// order: the worker's own tint when `show_debug_parallel_paint` is set,
/// then palette entry `flash_index` when `paint_flashing` is set.
pub fn overlay_colors(
    thread_id: usize,
    show_debug_parallel_paint: bool,
    paint_flashing: bool,
    flash_index: usize,
) -> (r: Vec<TintColor>)
    requires
        flash_index < TINT_COLOR_COUNT,
    ensures
        r@ == overlays(thread_id, show_debug_parallel_paint, paint_flashing, flash_index as int),
{
    let mut r: Vec<TintColor> = Vec::new();
    if show_debug_parallel_paint {
        r.push(thread_tint_color(thread_id));
    }
    if paint_flashing {
        r.push(tint_color(flash_index));
    }
    assert(r@ =~= overlays(thread_id, show_debug_parallel_paint, paint_flashing, flash_index as int));
    r
}

/// Tints to overlay on a tile painted by worker `thread_id`; the flashing
/// tint is drawn at random from the palette.
pub fn tile_overlays(thread_id: usize, show_debug_parallel_paint: bool, paint_flashing: bool) -> (r: Vec<
    TintColor,
>)
    ensures
        exists|k: int|
            0 <= k < TINT_COLOR_COUNT && r@ == #[trigger] overlays(
                thread_id,
                show_debug_parallel_paint,
                paint_flashing,
                k,
            ),
{
    let k = random_index(TINT_COLOR_COUNT);
    overlay_colors(thread_id, show_debug_parallel_paint, paint_flashing, k)
}

/// A buffer for a freshly painted or freshly allocated surface.
pub open spec fn new_buffer_spec(
    native_surface: u64,
    tile: BufferRequest,
    scale: u32,
    painted_with_cpu: bool,
) -> LayerBuffer {
    LayerBuffer {
        native_surface,
        rect: tile.page_rect,
        screen_pos: tile.screen_rect,
        resolution: scale,
        stride: (tile.screen_rect.width * 4) as usize,
        painted_with_cpu,
        content_age: tile.content_age,
    }
}

/// A pooled buffer made ready to hold a CPU-painted tile.
pub open spec fn refreshed(buffer: LayerBuffer, tile: BufferRequest, scale: u32) -> LayerBuffer {
    LayerBuffer {
        rect: tile.page_rect,
        screen_pos: tile.screen_rect,
        resolution: scale,
        painted_with_cpu: true,
        content_age: tile.content_age,
        ..buffer
    }
}

/// Describes a surface that will hold the given tile: four bytes per pixel,
/// no padding.
pub fn new_layer_buffer(native_surface: u64, tile: &BufferRequest, scale: u32, painted_with_cpu: bool) -> (r:
    LayerBuffer)
    requires
        tile.screen_rect.width * 4 <= usize::MAX,
    ensures
        r == new_buffer_spec(native_surface, *tile, scale, painted_with_cpu),
{
    LayerBuffer {
        native_surface,
        rect: tile.page_rect,
        screen_pos: tile.screen_rect,
        resolution: scale,
        stride: tile.screen_rect.width * 4,
        painted_with_cpu,
        content_age: tile.content_age,
    }
}

/// Readies a buffer taken from the pool to hold the given tile.
pub fn refresh_layer_buffer(buffer: LayerBuffer, tile: &BufferRequest, scale: u32) -> (r: LayerBuffer)
    ensures
        r == refreshed(buffer, *tile, scale),
{
    LayerBuffer {
        rect: tile.page_rect,
        screen_pos: tile.screen_rect,
        resolution: scale,
        painted_with_cpu: true,
        content_age: tile.content_age,
        ..buffer
    }
}

} // verus!
