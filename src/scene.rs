//! The scene: an optional root layer, the viewport and the scale from layer
//! pixels to device pixels. It walks the tree to find the tiles that a dirty
//! region makes stale and the buffers that fell out of use.
use crate::geometry::{Color, Rect, Size, Point, Transform};
use crate::layers::{ids_separate, lemma_wf_from_children, marked, screen_rects_dropped, subtree_ids, transform_state_updated, Clip, Layer, LayerId};
use crate::tiling::{region_in_layer, spec_requests_in_rect, BufferRequest, LayerBuffer};
use vstd::prelude::*;

verus! {

pub struct Scene<T> {
    pub root: Option<Layer<T>>,
    /// The viewport, in device pixels.
    pub viewport: Rect,
    /// Device pixels per layer pixel.
    pub scale: i32,
    pub background_color: Color,
}

/// The requests of one layer, as handed to the painter.
pub type LayerRequests = (LayerId, Vec<BufferRequest>);

/// The buffers one layer no longer uses.
pub type LayerUnusedBuffers = (LayerId, Vec<LayerBuffer>);

pub open spec fn requests_view(s: Seq<LayerRequests>) -> Seq<(LayerId, Seq<BufferRequest>)> {
    s.map_values(|e: LayerRequests| (e.0, e.1@))
}

pub open spec fn unused_view(s: Seq<LayerUnusedBuffers>) -> Seq<(LayerId, Seq<LayerBuffer>)> {
    s.map_values(|e: LayerUnusedBuffers| (e.0, e.1@))
}

/// A rectangle moved so that `origin` becomes the origin.
pub open spec fn relative_to(r: Rect, origin: Point) -> Rect {
    Rect::from_edges(r.left() - origin.x, r.top() - origin.y, r.right() - origin.x, r.bottom() - origin.y)
}

/// The requests for a layer's own tiles under the part of a dirty
/// rectangle within the viewport, both given in the space of its bounds.
pub open spec fn own_requests<T>(l: Layer<T>, dirty: Rect, viewport: Rect) -> Seq<BufferRequest> {
    match dirty.spec_intersection(viewport) {
        None => Seq::empty(),
        Some(v) => match v.spec_intersection(l.bounds) {
            None => Seq::empty(),
            Some(r) => spec_requests_in_rect(l.tiles.tiles@, relative_to(r, l.bounds.origin), l.bounds.size, l.content_age),
        },
    }
}

/// The dirty rectangle a layer's children see: the same one, or its part
/// within the layer's screen rectangle when the layer masks to its bounds;
/// `None` when the children are pruned.
pub open spec fn child_dirty<T>(l: Layer<T>, dirty: Rect) -> Option<Rect> {
    if l.masks_to_bounds {
        match l.screen_rect {
            Some(s) => dirty.spec_intersection(s),
            None => None,
        }
    } else {
        Some(dirty)
    }
}

pub open spec fn own_request_entry<T>(l: Layer<T>, dirty: Rect, viewport: Rect) -> Seq<(LayerId, Seq<BufferRequest>)> {
    if own_requests(l, dirty, viewport).len() > 0 {
        seq![(l.id, own_requests(l, dirty, viewport))]
    } else {
        Seq::empty()
    }
}

pub open spec fn own_unused_entry<T>(l: Layer<T>) -> Seq<(LayerId, Seq<LayerBuffer>)> {
    if l.tiles.unused_buffers@.len() > 0 {
        seq![(l.id, l.tiles.unused_buffers@)]
    } else {
        Seq::empty()
    }
}

/// The request entries of a traversal, in pre-order.
pub open spec fn request_entries<T>(l: Layer<T>, dirty: Rect, viewport: Rect) -> Seq<(LayerId, Seq<BufferRequest>)>
    decreases l,
{
    own_request_entry(l, dirty, viewport) + match child_dirty(l, dirty) {
        None => Seq::empty(),
        Some(d) => request_entries_all(l.children@, d, viewport),
    }
}

pub open spec fn request_entries_all<T>(s: Seq<Layer<T>>, dirty: Rect, viewport: Rect) -> Seq<(LayerId, Seq<BufferRequest>)>
    decreases s,
{
    if s.len() == 0 {
        Seq::empty()
    } else {
        request_entries_all(s.drop_last(), dirty, viewport) + request_entries(s.last(), dirty, viewport)
    }
}

/// The unused-buffer entries of a traversal, in pre-order. A layer gives its
/// own before its children are pruned.
pub open spec fn unused_entries<T>(l: Layer<T>, dirty: Rect) -> Seq<(LayerId, Seq<LayerBuffer>)>
    decreases l,
{
    own_unused_entry(l) + match child_dirty(l, dirty) {
        None => Seq::empty(),
        Some(d) => unused_entries_all(l.children@, d),
    }
}

pub open spec fn unused_entries_all<T>(s: Seq<Layer<T>>, dirty: Rect) -> Seq<(LayerId, Seq<LayerBuffer>)>
    decreases s,
{
    if s.len() == 0 {
        Seq::empty()
    } else {
        unused_entries_all(s.drop_last(), dirty) + unused_entries(s.last(), dirty)
    }
}

/// `new` is `old` after a traversal: every visited layer has handed out its
/// unused buffers; pruned subtrees are untouched.
pub open spec fn collected<T>(old: Layer<T>, new: Layer<T>, dirty: Rect) -> bool
    decreases old,
{
    &&& crate::layers::same_node(old, new)
    &&& new.content_age == old.content_age
    &&& new.screen_rect == old.screen_rect
    &&& new.tiles.tiles == old.tiles.tiles
    &&& new.tiles.unused_buffers@.len() == 0
    &&& match child_dirty(old, dirty) {
        None => new.children == old.children,
        Some(d) => {
            &&& new.children@.len() == old.children@.len()
            &&& forall|i: int| 0 <= i < old.children@.len() ==> collected(#[trigger] old.children@[i], new.children@[i], d)
        },
    }
}

/// A traversal gives at most one request entry and at most one
/// unused-buffer entry for each layer of the subtree.
pub proof fn lemma_at_most_one_entry_per_layer<T>(l: Layer<T>, dirty: Rect, viewport: Rect)
    ensures
        request_entries(l, dirty, viewport).len() <= l.count(),
        unused_entries(l, dirty).len() <= l.count(),
    decreases l,
{
    match child_dirty(l, dirty) {
        None => {},
        Some(d) => lemma_at_most_one_entry_per_layer_all(l.children@, d, viewport),
    }
}

/// The same bound for a sequence of subtrees.
pub proof fn lemma_at_most_one_entry_per_layer_all<T>(s: Seq<Layer<T>>, dirty: Rect, viewport: Rect)
    ensures
        request_entries_all(s, dirty, viewport).len() <= crate::layers::count_all(s),
        unused_entries_all(s, dirty).len() <= crate::layers::count_all(s),
    decreases s,
{
    if s.len() > 0 {
        lemma_at_most_one_entry_per_layer_all(s.drop_last(), dirty, viewport);
        lemma_at_most_one_entry_per_layer(s.last(), dirty, viewport);
    }
}

/// A layer that masks to its bounds and whose screen rectangle misses the
/// dirty rectangle (or is not known) prunes its whole subtree: the traversal
/// gives nothing for any layer below it, yet the layer's own unused buffers
/// are still handed out.
pub proof fn lemma_masked_layer_prunes_subtree<T>(l: Layer<T>, dirty: Rect, viewport: Rect)
    requires
        l.masks_to_bounds,
        match l.screen_rect {
            Some(s) => dirty.spec_intersection(s) is None,
            None => true,
        },
    ensures
        request_entries(l, dirty, viewport) == own_request_entry(l, dirty, viewport),
        unused_entries(l, dirty) == own_unused_entry(l),
        l.tiles.unused_buffers@.len() > 0 ==> unused_entries(l, dirty) == seq![(l.id, l.tiles.unused_buffers@)],
{
    assert(request_entries(l, dirty, viewport) =~= own_request_entry(l, dirty, viewport));
    assert(unused_entries(l, dirty) =~= own_unused_entry(l));
}

impl<T> Scene<T> {
    pub open spec fn wf(&self) -> bool {
        &&& self.scale >= 1
        &&& self.root matches Some(r) ==> r.wf()
    }

    pub fn new(viewport: Rect) -> (r: Scene<T>)
        ensures
            r.wf(),
            r.root is None,
            r.viewport == viewport,
            r.scale == 1,
            r.background_color == (Color { r: 97, g: 92, b: 92, a: 255 }),
    {
        Scene { root: None, viewport, scale: 1, background_color: Color { r: 97, g: 92, b: 92, a: 255 } }
    }

    /// Requests the stale tiles of the whole tree, with the root's bounds as
    /// both the dirty rectangle and the viewport; nothing happens without a
    /// root.
    pub fn get_buffer_requests(
        &mut self,
        requests: &mut Vec<LayerRequests>,
        unused_buffers: &mut Vec<LayerUnusedBuffers>,
    )
        requires
            old(self).wf(),
        ensures
            final(self).wf(),
            final(self).viewport == old(self).viewport,
            final(self).scale == old(self).scale,
            final(self).background_color == old(self).background_color,
            match old(self).root {
                None => {
                    &&& final(self).root is None
                    &&& final(requests)@ == old(requests)@
                    &&& final(unused_buffers)@ == old(unused_buffers)@
                },
                Some(root) => {
                    &&& final(self).root matches Some(new_root) && collected(root, new_root, root.bounds)
                    &&& requests_view(final(requests)@) == requests_view(old(requests)@) + request_entries(root, root.bounds, root.bounds)
                    &&& unused_view(final(unused_buffers)@) == unused_view(old(unused_buffers)@) + unused_entries(root, root.bounds)
                },
            },
    {
        match &mut self.root {
            Some(root) => {
                let bounds = root.bounds;
                Self::get_buffer_requests_for_layer(root, bounds, bounds, requests, unused_buffers);
            },
            None => {},
        }
    }

    /// Recomputes the screen rectangle of every layer, starting from the
    /// scene's scale.
    pub fn update_transform_state(&mut self)
        requires
            old(self).wf(),
        ensures
            final(self).wf(),
            final(self).viewport == old(self).viewport,
            final(self).scale == old(self).scale,
            final(self).background_color == old(self).background_color,
            match old(self).root {
                None => final(self).root is None,
                Some(root) => final(self).root matches Some(new_root) && transform_state_updated(
                    root,
                    new_root,
                    Transform { scale_x: old(self).scale, scale_y: old(self).scale, offset_x: 0, offset_y: 0 },
                    Clip::Unclipped,
                ),
            },
    {
        let base = Transform::scaling(self.scale, self.scale);
        match &mut self.root {
            Some(root) => root.update_transform_state(&base, &Clip::Unclipped),
            None => {},
        }
    }

    /// Marks the content of `layer` and of every layer below it as changed.
    pub fn mark_layer_contents_as_changed_recursively_for_layer(layer: &mut Layer<T>)
        requires
            old(layer).wf(),
        ensures
            final(layer).wf(),
            marked(*old(layer), *final(layer)),
    {
        layer.mark_contents_changed_recursively();
    }

    /// Marks the content of every layer as changed; nothing happens without
    /// a root.
    pub fn mark_layer_contents_as_changed_recursively(&mut self)
        requires
            old(self).wf(),
        ensures
            final(self).wf(),
            final(self).viewport == old(self).viewport,
            final(self).scale == old(self).scale,
            final(self).background_color == old(self).background_color,
            match old(self).root {
                None => final(self).root is None,
                Some(root) => final(self).root matches Some(new_root) && marked(root, new_root),
            },
    {
        match &mut self.root {
            Some(root) => Self::mark_layer_contents_as_changed_recursively_for_layer(root),
            None => {},
        }
    }

    /// Sets the root's bounds to `new_size` in device pixels brought to
    /// layer pixels (divided by the scale, rounding down), at the origin;
    /// nothing happens without a root.
    pub fn set_root_layer_size(&mut self, new_size: Size)
        requires
            old(self).wf(),
            new_size.wf(),
        ensures
            final(self).wf(),
            match old(self).root {
                None => *final(self) == *old(self),
                Some(root) => {
                    let bounds = Rect {
                        origin: Point { x: 0, y: 0 },
                        size: Size {
                            width: (new_size.width / old(self).scale) as i32,
                            height: (new_size.height / old(self).scale) as i32,
                        },
                    };
                    &&& final(self).viewport == old(self).viewport
                    &&& final(self).scale == old(self).scale
                    &&& final(self).background_color == old(self).background_color
                    &&& final(self).root matches Some(new_root)
                    &&& new_root.bounds == bounds
                    &&& screen_rects_dropped(Layer { bounds, ..root }, new_root)
                },
            },
    {
        let scale = self.scale;
        match &mut self.root {
            Some(root) => {
                let bounds = Rect::new(0, 0, new_size.width / scale, new_size.height / scale);
                root.set_bounds(bounds);
            },
            None => {},
        }
    }

    /// Walks `layer` and its subtree in pre-order. Each layer requests its
    /// stale tiles under the part of `dirty_rect` within `viewport_rect`
    /// and hands out its unused buffers; a layer that masks to its bounds
    /// passes on only the part of the dirty rectangle within its screen
    /// rectangle, and none of its subtree is
    /// visited when that part is empty.
    pub fn get_buffer_requests_for_layer(
        layer: &mut Layer<T>,
        dirty_rect: Rect,
        viewport_rect: Rect,
        requests: &mut Vec<LayerRequests>,
        unused_buffers: &mut Vec<LayerUnusedBuffers>,
    )
        requires
            old(layer).wf(),
            dirty_rect.wf(),
            viewport_rect.wf(),
        ensures
            final(layer).wf(),
            collected(*old(layer), *final(layer), dirty_rect),
            requests_view(final(requests)@) == requests_view(old(requests)@) + request_entries(*old(layer), dirty_rect, viewport_rect),
            unused_view(final(unused_buffers)@) == unused_view(old(unused_buffers)@) + unused_entries(*old(layer), dirty_rect),
            subtree_ids(*final(layer)) == subtree_ids(*old(layer)),
        decreases *old(layer),
    {
        let own = match dirty_rect.intersection(&viewport_rect) {
            None => Vec::new(),
            Some(visible) => match visible.intersection(&layer.bounds) {
                None => Vec::new(),
                Some(r) => {
                    let region = Rect::new(
                        r.origin.x - layer.bounds.origin.x,
                        r.origin.y - layer.bounds.origin.y,
                        r.size.width,
                        r.size.height,
                    );
                    proof {
                        assert(region == relative_to(r, layer.bounds.origin));
                        assert(region_in_layer(region, layer.bounds.size));
                    }
                    layer.tiles.get_buffer_requests_in_rect(&region, layer.bounds.size, layer.content_age)
                },
            },
        };
        let ghost req0 = requests_view(requests@);
        if own.len() > 0 {
            requests.push((layer.id, own));
        }
        assert(requests_view(requests@) =~= req0 + own_request_entry(*old(layer), dirty_rect, viewport_rect));
        let ghost unused0 = unused_view(unused_buffers@);
        let taken = layer.tiles.take_unused_buffers();
        proof {
            reveal(ids_separate);
        }
        if taken.len() > 0 {
            unused_buffers.push((layer.id, taken));
        }
        assert(unused_view(unused_buffers@) =~= unused0 + own_unused_entry(*old(layer)));

        let child_rect = if layer.masks_to_bounds {
            match &layer.screen_rect {
                Some(s) => match dirty_rect.intersection(s) {
                    Some(d) => d,
                    None => {
                        assert(request_entries(*old(layer), dirty_rect, viewport_rect) =~= own_request_entry(*old(layer), dirty_rect, viewport_rect));
                        assert(unused_entries(*old(layer), dirty_rect) =~= own_unused_entry(*old(layer)));
                        return;
                    },
                },
                None => {
                    assert(request_entries(*old(layer), dirty_rect, viewport_rect) =~= own_request_entry(*old(layer), dirty_rect, viewport_rect));
                    assert(unused_entries(*old(layer), dirty_rect) =~= own_unused_entry(*old(layer)));
                    return;
                },
            }
        } else {
            dirty_rect
        };
        proof {
            assert(child_dirty(*old(layer), dirty_rect) == Some(child_rect));
            assert(child_rect.wf()) by {
                if layer.masks_to_bounds {
                    assert(layer.screen_rect is Some);
                }
            }
        }
        let ghost req1 = requests_view(requests@);
        let ghost unused1 = unused_view(unused_buffers@);
        let n = layer.children.len();
        let mut i: usize = 0;
        while i < n
            invariant
                0 <= i <= n,
                n == layer.children@.len(),
                n == old(layer).children@.len(),
                crate::layers::same_node(*old(layer), *layer),
                layer.content_age == old(layer).content_age,
                layer.screen_rect == old(layer).screen_rect,
                layer.tiles.tiles == old(layer).tiles.tiles,
                layer.tiles.unused_buffers@.len() == 0,
                layer.tiles.wf(),
                layer.bounds.wf(),
                child_rect.wf(),
                viewport_rect.wf(),
                child_dirty(*old(layer), dirty_rect) == Some(child_rect),
                requests_view(requests@) == req1 + request_entries_all(old(layer).children@.take(i as int), child_rect, viewport_rect),
                unused_view(unused_buffers@) == unused1 + unused_entries_all(old(layer).children@.take(i as int), child_rect),
                forall|j: int| 0 <= j < i ==> collected(#[trigger] old(layer).children@[j], layer.children@[j], child_rect),
                forall|j: int| 0 <= j < i ==> (#[trigger] layer.children@[j]).wf(),
                forall|j: int| 0 <= j < n ==> subtree_ids(#[trigger] layer.children@[j]) == subtree_ids(old(layer).children@[j]),
                forall|j: int| i <= j < n ==> #[trigger] layer.children@[j] == old(layer).children@[j],
                forall|j: int| 0 <= j < n ==> (#[trigger] layer.children@[j]).parent == Some(layer.id),
                old(layer).wf(),
            decreases n - i,
        {
            proof {
                assert(old(layer).children@.take(i + 1).drop_last() =~= old(layer).children@.take(i as int));
            }
            let child = &mut layer.children[i];
            Self::get_buffer_requests_for_layer(child, child_rect, viewport_rect, requests, unused_buffers);
            proof {
                assert(requests_view(requests@) =~= req1 + request_entries_all(old(layer).children@.take(i + 1), child_rect, viewport_rect));
                assert(unused_view(unused_buffers@) =~= unused1 + unused_entries_all(old(layer).children@.take(i + 1), child_rect));
            }
            i = i + 1;
        }
        proof {
            lemma_wf_from_children(*old(layer), *layer);
        }
        proof {
            assert(old(layer).children@.take(n as int) =~= old(layer).children@);
        }
    }
}

} // verus!
