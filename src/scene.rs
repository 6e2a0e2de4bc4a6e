use vstd::prelude::*;
use crate::geometry::AuRect;
use crate::types::{LayerId, PaintLayer};

verus! {

/// The navigable shape of one node of a scene. What the node draws, and its
/// transform and perspective matrices, are kept by the caller under `node_id`.
pub struct StackingContext {
    /// Identifies this node's drawing, transform and perspective.
    pub node_id: usize,
    /// Position and size of the node relative to its parent.
    pub bounds: AuRect,
    /// Region the node's content may draw into, relative to `bounds`.
    pub overflow: AuRect,
    /// Whether the node starts a 3D rendering context.
    pub establishes_3d_context: bool,
    /// Set when this node is a compositor layer.
    pub layer: Option<PaintLayer>,
    /// Child stacking contexts, in document order.
    pub children: Vec<StackingContext>,
}

/// Whether a node is the compositor layer with the given id.
pub open spec fn has_layer_id(node: StackingContext, id: LayerId) -> bool {
    node.layer is Some && node.layer->0.id == id
}

/// First node in pre-order whose layer has the given id.
pub open spec fn find_layer(node: StackingContext, id: LayerId) -> Option<StackingContext>
    decreases node, 1nat, 0nat,
{
    if has_layer_id(node, id) {
        Some(node)
    } else {
        find_layer_in_children(node, 0, id)
    }
}

/// First node in pre-order, among the children from `i` on and their
/// descendants, whose layer has the given id.
pub open spec fn find_layer_in_children(node: StackingContext, i: nat, id: LayerId) -> Option<StackingContext>
    decreases node, 0nat, node.children@.len() - i,
{
    if i >= node.children@.len() {
        None
    } else {
        match find_layer(node.children@[i as int], id) {
            Some(found) => Some(found),
            None => find_layer_in_children(node, i + 1, id),
        }
    }
}

/// Depth-first, pre-order search for the node whose layer has the given id.
pub fn find_stacking_context_with_layer_id(node: &StackingContext, id: LayerId) -> (r: Option<&StackingContext>)
    ensures
        match r {
            Some(found) => find_layer(*node, id) == Some(*found),
            None => find_layer(*node, id) is None,
        },
    decreases node,
{
    if let Some(layer) = &node.layer {
        if layer.id == id {
            return Some(node);
        }
    }
    let mut i: usize = 0;
    while i < node.children.len()
        invariant
            i <= node.children@.len(),
            find_layer(*node, id) == find_layer_in_children(*node, i as nat, id),
        decreases node.children@.len() - i,
    {
        let found = find_stacking_context_with_layer_id(&node.children[i], id);
        if found.is_some() {
            return found;
        }
        i = i + 1;
    }
    None
}

} // verus!
