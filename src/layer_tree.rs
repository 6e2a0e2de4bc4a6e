use vstd::prelude::*;
use crate::geometry::{nearest_px, point_add, AuPoint, PxRect};
use crate::scene::StackingContext;
use crate::types::{Color, LayerId, ScrollPolicy};

verus! {

/// Flattened compositor view of one layer.
pub struct LayerProperties {
    pub id: LayerId,
    pub parent_id: Option<LayerId>,
    /// Position and size in device pixels, relative to the parent layer.
    pub rect: PxRect,
    pub background_color: Color,
    pub scroll_policy: ScrollPolicy,
    /// The `node_id`s whose transforms, multiplied in this order onto the
    /// identity, give the layer's transform; likewise its perspective.
    pub transform_chain: Vec<usize>,
    pub establishes_3d_context: bool,
}

/// Mathematical value of a `LayerProperties`.
pub ghost struct LayerSpec {
    pub id: LayerId,
    pub parent_id: Option<LayerId>,
    pub rect: PxRect,
    pub background_color: Color,
    pub scroll_policy: ScrollPolicy,
    pub transform_chain: Seq<usize>,
    pub establishes_3d_context: bool,
}

impl View for LayerProperties {
    type V = LayerSpec;

    open spec fn view(&self) -> LayerSpec {
        LayerSpec {
            id: self.id,
            parent_id: self.parent_id,
            rect: self.rect,
            background_color: self.background_color,
            scroll_policy: self.scroll_policy,
            transform_chain: self.transform_chain@,
            establishes_3d_context: self.establishes_3d_context,
        }
    }
}

/// The values of a sequence of layer descriptors.
pub open spec fn layer_views(s: Seq<LayerProperties>) -> Seq<LayerSpec> {
    s.map_values(|p: LayerProperties| p@)
}

/// Device-pixel rectangle of a layer node reached at `page_position`: the
/// overflow rectangle, placed relative to the page position and the bounds,
/// each edge rounded to the nearest pixel.
pub open spec fn layer_rect(node: StackingContext, page_position: AuPoint) -> PxRect {
    let o = point_add(point_add(page_position, node.bounds.origin), node.overflow.origin);
    PxRect {
        x: nearest_px(o.x.0 as int) as i32,
        y: nearest_px(o.y.0 as int) as i32,
        width: nearest_px(node.overflow.width.0 as int) as i32,
        height: nearest_px(node.overflow.height.0 as int) as i32,
    }
}

/// Layer descriptors of a subtree, in pre-order, given the accumulated page
/// position, transform chain and parent layer.
pub open spec fn build_layers(
    node: StackingContext,
    page_position: AuPoint,
    chain: Seq<usize>,
    parent_id: Option<LayerId>,
) -> Seq<LayerSpec>
    decreases node, 1nat, 0nat,
{
    let chain = chain.push(node.node_id);
    match node.layer {
        Some(layer) => {
            let props = LayerSpec {
                id: layer.id,
                parent_id,
                rect: layer_rect(node, page_position),
                background_color: layer.background_color,
                scroll_policy: layer.scroll_policy,
                transform_chain: chain,
                establishes_3d_context: node.establishes_3d_context,
            };
            seq![props] + build_children(
                node,
                0,
                AuPoint { x: crate::geometry::Au(0), y: crate::geometry::Au(0) },
                Seq::empty(),
                Some(layer.id),
            )
        },
        None => build_children(node, 0, point_add(node.bounds.origin, page_position), chain, parent_id),
    }
}

/// Layer descriptors of the children from `i` on, in order.
pub open spec fn build_children(
    node: StackingContext,
    i: nat,
    page_position: AuPoint,
    chain: Seq<usize>,
    parent_id: Option<LayerId>,
) -> Seq<LayerSpec>
    decreases node, 0nat, node.children@.len() - i,
{
    if i >= node.children@.len() {
        Seq::empty()
    } else {
        build_layers(node.children@[i as int], page_position, chain, parent_id) + build_children(
            node,
            i + 1,
            page_position,
            chain,
            parent_id,
        )
    }
}

fn extend_chain(chain: &Vec<usize>, node_id: usize) -> (r: Vec<usize>)
    ensures
        r@ == chain@.push(node_id),
{
    let mut r: Vec<usize> = Vec::new();
    let mut i: usize = 0;
    while i < chain.len()
        invariant
            i <= chain@.len(),
            r@ == chain@.subrange(0, i as int),
        decreases chain@.len() - i,
    {
        r.push(chain[i]);
        i = i + 1;
        assert(r@ =~= chain@.subrange(0, i as int));
    }
    assert(chain@.subrange(0, i as int) =~= chain@);
    r.push(node_id);
    r
}

fn build(
    properties: &mut Vec<LayerProperties>,
    node: &StackingContext,
    page_position: AuPoint,
    chain: &Vec<usize>,
    parent_id: Option<LayerId>,
)
    ensures
        layer_views(final(properties)@) == layer_views(old(properties)@) + build_layers(
            *node,
            page_position,
            chain@,
            parent_id,
        ),
    decreases node, 1nat,
{
    let ghost start = layer_views(properties@);
    let chain = extend_chain(chain, node.node_id);
    let (next_parent_id, next_position, next_chain) = match &node.layer {
        Some(layer) => {
            let origin = page_position.add(node.bounds.origin).add(node.overflow.origin);
            let rect = PxRect {
                x: origin.x.to_nearest_px(),
                y: origin.y.to_nearest_px(),
                width: node.overflow.width.to_nearest_px(),
                height: node.overflow.height.to_nearest_px(),
            };
            let props = LayerProperties {
                id: layer.id,
                parent_id,
                rect,
                background_color: layer.background_color,
                scroll_policy: layer.scroll_policy,
                transform_chain: chain,
                establishes_3d_context: node.establishes_3d_context,
            };
            properties.push(props);
            (Some(layer.id), AuPoint::zero(), Vec::new())
        },
        None => (parent_id, node.bounds.origin.add(page_position), chain),
    };
    let ghost head = layer_views(properties@);
    proof {
        assert(layer_views(properties@) =~= start + (layer_views(properties@).subrange(
            start.len() as int,
            layer_views(properties@).len() as int,
        )));
    }
    let mut i: usize = 0;
    while i < node.children.len()
        invariant
            i <= node.children@.len(),
            layer_views(properties@) + build_children(*node, i as nat, next_position, next_chain@, next_parent_id)
                == head + build_children(*node, 0, next_position, next_chain@, next_parent_id),
        decreases node.children@.len() - i,
    {
        let ghost before = layer_views(properties@);
        build(properties, &node.children[i], next_position, &next_chain, next_parent_id);
        proof {
            let rest = build_children(*node, (i + 1) as nat, next_position, next_chain@, next_parent_id);
            let this = build_layers(node.children@[i as int], next_position, next_chain@, next_parent_id);
            assert(layer_views(properties@) + rest =~= before + (this + rest));
        }
        i = i + 1;
    }
    proof {
        assert(layer_views(properties@) + build_children(*node, i as nat, next_position, next_chain@, next_parent_id)
            =~= layer_views(properties@));
    }
}

/// Flattens a scene into compositor layer descriptors, in pre-order.
pub fn build_layer_properties(root: &StackingContext) -> (r: Vec<LayerProperties>)
    ensures
        layer_views(r@) == build_layers(
            *root,
            AuPoint { x: crate::geometry::Au(0), y: crate::geometry::Au(0) },
            Seq::empty(),
            None,
        ),
{
    let mut properties: Vec<LayerProperties> = Vec::new();
    let chain: Vec<usize> = Vec::new();
    build(&mut properties, root, AuPoint::zero(), &chain, None);
    assert(layer_views(Seq::<LayerProperties>::empty()) =~= Seq::<LayerSpec>::empty());
    assert(Seq::<LayerSpec>::empty() + layer_views(properties@) =~= layer_views(properties@));
    properties
}

/// Whether one of the first `k` descriptors has the given id.
pub open spec fn id_before(s: Seq<LayerSpec>, id: LayerId, k: int) -> bool {
    exists|j: int| 0 <= j < k && (#[trigger] s[j]).id == id
}

/// Whether descriptor `k` has no parent or a parent listed before it.
pub open spec fn parent_precedes(s: Seq<LayerSpec>, k: int) -> bool {
    s[k].parent_id is None || id_before(s, s[k].parent_id->0, k)
}

/// Whether every descriptor from `from` on has its parent listed before it.
pub open spec fn parents_precede(s: Seq<LayerSpec>, from: int) -> bool {
    forall|k: int| from <= k < s.len() ==> #[trigger] parent_precedes(s, k)
}

/// Ids of the layer nodes of a subtree, in pre-order.
pub open spec fn layer_ids(node: StackingContext) -> Seq<LayerId>
    decreases node, 1nat, 0nat,
{
    match node.layer {
        Some(layer) => seq![layer.id] + children_layer_ids(node, 0),
        None => children_layer_ids(node, 0),
    }
}

/// Ids of the layer nodes under the children from `i` on, in pre-order.
pub open spec fn children_layer_ids(node: StackingContext, i: nat) -> Seq<LayerId>
    decreases node, 0nat, node.children@.len() - i,
{
    if i >= node.children@.len() {
        Seq::empty()
    } else {
        layer_ids(node.children@[i as int]) + children_layer_ids(node, i + 1)
    }
}

/// The ids of a sequence of descriptors.
pub open spec fn ids(s: Seq<LayerSpec>) -> Seq<LayerId> {
    s.map_values(|l: LayerSpec| l.id)
}

proof fn lemma_ids_concat(a: Seq<LayerSpec>, b: Seq<LayerSpec>)
    ensures
        ids(a + b) == ids(a) + ids(b),
{
    assert(ids(a + b) =~= ids(a) + ids(b));
}

proof fn lemma_extend(s: Seq<LayerSpec>, s2: Seq<LayerSpec>, from: int)
    requires
        s.len() <= s2.len(),
        s2.subrange(0, s.len() as int) == s,
        parents_precede(s, from),
        0 <= from,
    ensures
        forall|k: int| from <= k < s.len() ==> #[trigger] parent_precedes(s2, k),
{
    assert forall|k: int| from <= k < s.len() implies #[trigger] parent_precedes(s2, k) by {
        assert(parent_precedes(s, k));
        assert(s2.subrange(0, s.len() as int)[k] == s2[k]);
        if s[k].parent_id is Some {
            let j = choose|j: int| 0 <= j < k && (#[trigger] s[j]).id == s[k].parent_id->0;
            assert(s2.subrange(0, s.len() as int)[j] == s2[j]);
        }
    }
}

proof fn lemma_known_extends(s: Seq<LayerSpec>, s2: Seq<LayerSpec>, parent_id: Option<LayerId>)
    requires
        s.len() <= s2.len(),
        s2.subrange(0, s.len() as int) == s,
        parent_id is None || id_before(s, parent_id->0, s.len() as int),
    ensures
        parent_id is None || id_before(s2, parent_id->0, s.len() as int),
        parent_id is None || id_before(s2, parent_id->0, s2.len() as int),
{
    if parent_id is Some {
        let j = choose|j: int| 0 <= j < s.len() && (#[trigger] s[j]).id == parent_id->0;
        assert(s2.subrange(0, s.len() as int)[j] == s2[j]);
    }
}

proof fn lemma_build_layers(
    node: StackingContext,
    page_position: AuPoint,
    chain: Seq<usize>,
    parent_id: Option<LayerId>,
    prefix: Seq<LayerSpec>,
)
    requires
        parent_id is None || id_before(prefix, parent_id->0, prefix.len() as int),
    ensures
        parents_precede(prefix + build_layers(node, page_position, chain, parent_id), prefix.len() as int),
        ids(build_layers(node, page_position, chain, parent_id)) == layer_ids(node),
    decreases node, 1nat, 0nat,
{
    let out = build_layers(node, page_position, chain, parent_id);
    let chain2 = chain.push(node.node_id);
    match node.layer {
        Some(layer) => {
            let zero = AuPoint { x: crate::geometry::Au(0), y: crate::geometry::Au(0) };
            let props = out[0];
            let kids = build_children(node, 0, zero, Seq::empty(), Some(layer.id));
            assert(out == seq![props] + kids);
            let with_props = prefix.push(props);
            assert(with_props[prefix.len() as int].id == layer.id);
            lemma_build_children(node, 0, zero, Seq::empty(), Some(layer.id), with_props);
            let all = prefix + out;
            assert(all =~= with_props + kids);
            assert(all.subrange(0, prefix.len() as int) =~= prefix);
            lemma_known_extends(prefix, all, parent_id);
            assert(parent_precedes(all, prefix.len() as int));
            lemma_ids_concat(seq![props], kids);
            assert(ids(seq![props]) =~= seq![layer.id]);
        },
        None => {
            lemma_build_children(node, 0, point_add(node.bounds.origin, page_position), chain2, parent_id, prefix);
        },
    }
}

proof fn lemma_build_children(
    node: StackingContext,
    i: nat,
    page_position: AuPoint,
    chain: Seq<usize>,
    parent_id: Option<LayerId>,
    prefix: Seq<LayerSpec>,
)
    requires
        parent_id is None || id_before(prefix, parent_id->0, prefix.len() as int),
    ensures
        parents_precede(prefix + build_children(node, i, page_position, chain, parent_id), prefix.len() as int),
        ids(build_children(node, i, page_position, chain, parent_id)) == children_layer_ids(node, i),
    decreases node, 0nat, node.children@.len() - i,
{
    if i >= node.children@.len() {
        assert(prefix + Seq::<LayerSpec>::empty() =~= prefix);
        assert(ids(Seq::<LayerSpec>::empty()) =~= Seq::<LayerId>::empty());
    } else {
        let child = node.children@[i as int];
        let first = build_layers(child, page_position, chain, parent_id);
        let rest = build_children(node, i + 1, page_position, chain, parent_id);
        lemma_build_layers(child, page_position, chain, parent_id, prefix);
        let q = prefix + first;
        assert(q.subrange(0, prefix.len() as int) =~= prefix);
        lemma_known_extends(prefix, q, parent_id);
        lemma_build_children(node, i + 1, page_position, chain, parent_id, q);
        let all = prefix + (first + rest);
        assert(all =~= q + rest);
        assert(all.subrange(0, q.len() as int) =~= q);
        lemma_extend(q, all, prefix.len() as int);
        lemma_ids_concat(first, rest);
    }
}

/// The flattened layer tree lists exactly the scene's layer nodes, in
/// pre-order, and each descriptor's parent is either absent or a layer
/// listed before it.
pub proof fn lemma_layer_tree_projection(root: StackingContext)
    ensures
        ({
            let out = build_layers(
                root,
                AuPoint { x: crate::geometry::Au(0), y: crate::geometry::Au(0) },
                Seq::empty(),
                None,
            );
            &&& parents_precede(out, 0)
            &&& ids(out) == layer_ids(root)
        }),
{
    let out = build_layers(
        root,
        AuPoint { x: crate::geometry::Au(0), y: crate::geometry::Au(0) },
        Seq::empty(),
        None,
    );
    lemma_build_layers(
        root,
        AuPoint { x: crate::geometry::Au(0), y: crate::geometry::Au(0) },
        Seq::empty(),
        None,
        Seq::empty(),
    );
    assert(Seq::<LayerSpec>::empty() + out =~= out);
}

} // verus!
