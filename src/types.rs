use vstd::prelude::*;

verus! {

/// A per-pipeline layer identifier, stable across reflows.
#[derive(Clone, Copy, Debug, PartialEq, Eq, Structural)]
pub struct LayerId(pub usize, pub u32);

/// Version number of a scene.
#[derive(Clone, Copy, Debug, PartialEq, Eq, Structural)]
pub struct Epoch(pub u32);

/// Identifier of a frame tree, passed through to the compositor unchanged.
#[derive(Clone, Copy, Debug, PartialEq, Eq, Structural)]
pub struct FrameTreeId(pub u32);

/// How a layer moves when its container scrolls.
#[derive(Clone, Copy, Debug, PartialEq, Eq, Structural)]
pub enum ScrollPolicy {
    Scrollable,
    FixedPosition,
}

/// Whether a layer is painted as a 2D or a 3D layer.
#[derive(Clone, Copy, Debug, PartialEq, Eq, Structural)]
pub enum LayerKind {
    Layer2D,
    Layer3D,
}

/// How much of the pipeline is going away on exit.
#[derive(Clone, Copy, Debug, PartialEq, Eq, Structural)]
pub enum PipelineExitType {
    /// The compositor is tearing down too; loaned buffers may be dropped.
    Complete,
    /// Only this pipeline exits; every loaned buffer must come back first.
    PipelineOnly,
}

/// An RGBA color, each channel held as the bit pattern of a 32-bit float.
/// The library never computes with a color; it only carries it.
#[derive(Clone, Copy, Debug, PartialEq, Eq, Structural)]
pub struct Color {
    pub r: u32,
    pub g: u32,
    pub b: u32,
    pub a: u32,
}

/// Information about a hardware graphics layer that layout sends to the painter.
#[derive(Clone, Copy, Debug, PartialEq, Eq, Structural)]
pub struct PaintLayer {
    /// A per-pipeline ID describing this layer that should be stable across reflows.
    pub id: LayerId,
    /// The color of the background in this layer. Used for unpainted content.
    pub background_color: Color,
    /// The scrolling policy of this layer.
    pub scroll_policy: ScrollPolicy,
}

impl PaintLayer {
    /// Creates a new `PaintLayer`.
    pub fn new(id: LayerId, background_color: Color, scroll_policy: ScrollPolicy) -> (r: PaintLayer)
        ensures
            r.id == id,
            r.background_color == background_color,
            r.scroll_policy == scroll_policy,
    {
        PaintLayer { id, background_color, scroll_policy }
    }
}

} // verus!
