//! The layer tree. A layer owns its children in paint order (earlier ones are
//! drawn first) and records its parent only by id, for checking links.
use crate::geometry::{Point, Rect, Transform};
use crate::tiling::TileGrid;
use vstd::prelude::*;

verus! {

/// Identifies a layer in the buffer requests and unused buffers handed out.
pub type LayerId = u64;

#[derive(Debug)]
pub struct Layer<T> {
    pub id: LayerId,
    /// The id of the layer that owns this one, if any.
    pub parent: Option<LayerId>,
    /// Owned children, in paint order.
    pub children: Vec<Layer<T>>,
    /// Position and size within the parent, in layer pixels.
    pub bounds: Rect,
    pub transform: Transform,
    /// Whether this layer clips its children to its own rectangle.
    pub masks_to_bounds: bool,
    /// Raised each time the content changes; painted buffers carry the age
    /// they were painted at.
    pub content_age: u64,
    pub tiles: TileGrid,
    /// The rectangle covered on screen as last computed; `None` when the
    /// layer is clipped away entirely or the rectangle is not known.
    pub screen_rect: Option<Rect>,
    /// The client's own data for this layer.
    pub extra_data: T,
}

impl<T> Layer<T> {
    /// Bounds are valid, tiles do not overlap, every child names this layer
    /// as its parent, and no two layers of the subtree share an id, all the
    /// way down.
    pub open spec fn wf(self) -> bool
        decreases self,
    {
        &&& self.bounds.wf()
        &&& self.tiles.wf()
        &&& self.screen_rect matches Some(s) ==> s.wf()
        &&& forall|i: int| 0 <= i < self.children@.len() ==> (#[trigger] self.children@[i]).parent == Some(self.id)
        &&& forall|i: int| 0 <= i < self.children@.len() ==> (#[trigger] self.children@[i]).wf()
        &&& ids_separate(self)
    }

    /// The number of layers in this subtree.
    pub open spec fn count(self) -> nat
        decreases self,
    {
        1 + count_all(self.children@)
    }

    pub fn new(id: LayerId, bounds: Rect, extra_data: T) -> (r: Layer<T>)
        requires
            bounds.wf(),
        ensures
            r.wf(),
            r.id == id,
            r.parent is None,
            r.children@.len() == 0,
            r.bounds == bounds,
            r.transform == (Transform { scale_x: 1, scale_y: 1, offset_x: 0, offset_y: 0 }),
            !r.masks_to_bounds,
            r.content_age == 0,
            r.tiles.tiles@.len() == 0,
            r.tiles.unused_buffers@.len() == 0,
            r.screen_rect is None,
            r.extra_data == extra_data,
    {
        proof {
            reveal(ids_separate);
        }
        Layer {
            id,
            parent: None,
            children: Vec::new(),
            bounds,
            transform: Transform::identity(),
            masks_to_bounds: false,
            content_age: 0,
            tiles: TileGrid::new(),
            screen_rect: None,
            extra_data,
        }
    }

    /// Records that the layer's content changed: tiles painted before now
    /// are stale.
    pub fn contents_changed(&mut self)
        ensures
            final(self).content_age == bumped(old(self).content_age),
            same_node(*old(self), *final(self)),
            final(self).children == old(self).children,
            final(self).tiles == old(self).tiles,
            final(self).screen_rect == old(self).screen_rect,
    {
        if self.content_age < u64::MAX {
            self.content_age = self.content_age + 1;
        }
    }

    /// Marks the content of this layer and of every layer below it as
    /// changed, whatever clips them.
    pub fn mark_contents_changed_recursively(&mut self)
        requires
            old(self).wf(),
        ensures
            final(self).wf(),
            marked(*old(self), *final(self)),
            subtree_ids(*final(self)) == subtree_ids(*old(self)),
        decreases *old(self),
    {
        self.contents_changed();
        let n = self.children.len();
        let mut i: usize = 0;
        while i < n
            invariant
                0 <= i <= n,
                n == self.children@.len(),
                n == old(self).children@.len(),
                same_node(*old(self), *self),
                self.tiles == old(self).tiles,
                self.screen_rect == old(self).screen_rect,
                self.content_age == bumped(old(self).content_age),
                forall|j: int| 0 <= j < i ==> marked(#[trigger] old(self).children@[j], self.children@[j]),
                forall|j: int| 0 <= j < i ==> (#[trigger] self.children@[j]).wf(),
                forall|j: int| 0 <= j < n ==> subtree_ids(#[trigger] self.children@[j]) == subtree_ids(old(self).children@[j]),
                forall|j: int| i <= j < n ==> #[trigger] self.children@[j] == old(self).children@[j],
                forall|j: int| 0 <= j < n ==> (#[trigger] self.children@[j]).parent == Some(self.id),
                old(self).wf(),
            decreases n - i,
        {
            let child = &mut self.children[i];
            child.mark_contents_changed_recursively();
            i = i + 1;
        }
        proof {
            lemma_wf_from_children(*old(self), *self);
        }
    }

    /// Recomputes the screen rectangle of this layer and of every layer
    /// below it, given the parent's transform to device space and the clip
    /// of the nearest masking ancestor.
    pub fn update_transform_state(&mut self, parent: &Transform, clip: &Clip)
        requires
            old(self).wf(),
            clip_wf(*clip),
        ensures
            final(self).wf(),
            transform_state_updated(*old(self), *final(self), *parent, *clip),
            subtree_ids(*final(self)) == subtree_ids(*old(self)),
        decreases *old(self),
    {
        let screen = self.compute_screen_rect(parent, clip);
        self.screen_rect = screen;
        let (child_transform, child_clip) = match parent.compose(&Transform::translation(self.bounds.origin.x, self.bounds.origin.y)) {
            None => (*parent, Clip::Hidden),
            Some(placed) => (placed, if self.masks_to_bounds {
                match screen {
                    Some(s) => Clip::Within(s),
                    None => Clip::Hidden,
                }
            } else {
                *clip
            }),
        };
        proof {
            assert((child_transform, child_clip) == spec_child_env(*old(self), *parent, *clip));
        }
        let n = self.children.len();
        let mut i: usize = 0;
        while i < n
            invariant
                0 <= i <= n,
                n == self.children@.len(),
                n == old(self).children@.len(),
                same_node(*old(self), *self),
                self.tiles == old(self).tiles,
                self.content_age == old(self).content_age,
                self.screen_rect == spec_screen_rect(*old(self), *parent, *clip),
                (child_transform, child_clip) == spec_child_env(*old(self), *parent, *clip),
                clip_wf(child_clip),
                forall|j: int| 0 <= j < i ==> transform_state_updated(
                    #[trigger] old(self).children@[j],
                    self.children@[j],
                    child_transform,
                    child_clip,
                ),
                forall|j: int| 0 <= j < i ==> (#[trigger] self.children@[j]).wf(),
                forall|j: int| 0 <= j < n ==> subtree_ids(#[trigger] self.children@[j]) == subtree_ids(old(self).children@[j]),
                forall|j: int| i <= j < n ==> #[trigger] self.children@[j] == old(self).children@[j],
                forall|j: int| 0 <= j < n ==> (#[trigger] self.children@[j]).parent == Some(self.id),
                old(self).wf(),
            decreases n - i,
        {
            let child = &mut self.children[i];
            child.update_transform_state(&child_transform, &child_clip);
            i = i + 1;
        }
        proof {
            lemma_wf_from_children(*old(self), *self);
        }
    }

    fn compute_screen_rect(&self, parent: &Transform, clip: &Clip) -> (r: Option<Rect>)
        requires
            self.bounds.wf(),
            clip_wf(*clip),
        ensures
            r == spec_screen_rect(*self, *parent, *clip),
            r matches Some(s) ==> s.wf(),
    {
        if let Clip::Hidden = clip {
            return None;
        }
        let placed = match parent.compose(&Transform::translation(self.bounds.origin.x, self.bounds.origin.y)) {
            None => return None,
            Some(t) => t,
        };
        let full = match placed.compose(&self.transform) {
            None => return None,
            Some(t) => t,
        };
        let content = Rect::new(0, 0, self.bounds.size.width, self.bounds.size.height);
        let device = match full.map_rect(&content) {
            None => return None,
            Some(d) => d,
        };
        match clip {
            Clip::Within(c) => c.intersection(&device),
            _ => Some(device),
        }
    }

    /// Drops the cached screen rectangle of this layer and of every layer
    /// below it: they are unknown until the next update.
    pub fn invalidate_transform_state(&mut self)
        requires
            old(self).wf(),
        ensures
            final(self).wf(),
            screen_rects_dropped(*old(self), *final(self)),
            subtree_ids(*final(self)) == subtree_ids(*old(self)),
        decreases *old(self),
    {
        self.screen_rect = None;
        let n = self.children.len();
        let mut i: usize = 0;
        while i < n
            invariant
                0 <= i <= n,
                n == self.children@.len(),
                n == old(self).children@.len(),
                same_node(*old(self), *self),
                self.tiles == old(self).tiles,
                self.content_age == old(self).content_age,
                self.screen_rect is None,
                forall|j: int| 0 <= j < i ==> screen_rects_dropped(#[trigger] old(self).children@[j], self.children@[j]),
                forall|j: int| 0 <= j < i ==> (#[trigger] self.children@[j]).wf(),
                forall|j: int| 0 <= j < n ==> subtree_ids(#[trigger] self.children@[j]) == subtree_ids(old(self).children@[j]),
                forall|j: int| i <= j < n ==> #[trigger] self.children@[j] == old(self).children@[j],
                forall|j: int| 0 <= j < n ==> (#[trigger] self.children@[j]).parent == Some(self.id),
                old(self).wf(),
            decreases n - i,
        {
            let child = &mut self.children[i];
            child.invalidate_transform_state();
            i = i + 1;
        }
        proof {
            lemma_wf_from_children(*old(self), *self);
        }
    }

    /// Sets the transform. The screen rectangles of the layer and of its
    /// subtree are unknown until the next update.
    pub fn set_transform(&mut self, transform: Transform)
        requires
            old(self).wf(),
        ensures
            final(self).wf(),
            final(self).transform == transform,
            screen_rects_dropped(Layer { transform, ..*old(self) }, *final(self)),
    {
        self.transform = transform;
        proof {
            reveal(ids_separate);
        }
        self.invalidate_transform_state();
    }

    /// Sets the bounds. The screen rectangles of the layer and of its
    /// subtree are unknown until the next update.
    pub fn set_bounds(&mut self, bounds: Rect)
        requires
            old(self).wf(),
            bounds.wf(),
        ensures
            final(self).wf(),
            final(self).bounds == bounds,
            screen_rects_dropped(Layer { bounds, ..*old(self) }, *final(self)),
    {
        self.bounds = bounds;
        proof {
            reveal(ids_separate);
        }
        self.invalidate_transform_state();
    }

    pub fn set_masks_to_bounds(&mut self, masks: bool)
        requires
            old(self).wf(),
        ensures
            final(self).wf(),
            *final(self) == (Layer { masks_to_bounds: masks, ..*old(self) }),
    {
        self.masks_to_bounds = masks;
        proof {
            reveal(ids_separate);
        }
    }

    /// Inserts a detached layer as the first child, drawn below the others.
    /// Its ids must not occur in this subtree.
    pub fn add_child(&mut self, child: Layer<T>)
        requires
            old(self).wf(),
            child.wf(),
            child.parent is None,
            subtree_ids(child).disjoint(subtree_ids(*old(self))),
        ensures
            final(self).wf(),
            same_node(*old(self), *final(self)),
            final(self).content_age == old(self).content_age,
            final(self).tiles == old(self).tiles,
            final(self).screen_rect == old(self).screen_rect,
            final(self).children@.len() == old(self).children@.len() + 1,
            final(self).children@ == seq![final(self).children@[0]] + old(self).children@,
            ({
                let c = final(self).children@[0];
                &&& same_node(c, Layer { parent: Some(old(self).id), ..child })
                &&& c.children == child.children
                &&& c.content_age == child.content_age
                &&& c.tiles == child.tiles
                &&& c.screen_rect == child.screen_rect
            }),
    {
        proof {
            reveal(ids_separate);
        }
        let ghost detached = child;
        let mut child = child;
        child.parent = Some(self.id);
        proof {
            reveal_with_fuel(Layer::wf, 2);
            assert(child.wf());
            assert(subtree_ids(child) == subtree_ids(detached));
            assert forall|j: int| 0 <= j < old(self).children@.len() implies subtree_ids(child).disjoint(
                subtree_ids(#[trigger] old(self).children@[j]),
            ) by {
                lemma_ids_all_contains(old(self).children@, j);
            }
        }
        self.children.insert(0, child);
        proof {
            assert(self.children@ =~= seq![self.children@[0]] + old(self).children@);
            assert forall|i: int, j: int|
                0 <= i < self.children@.len() && 0 <= j < self.children@.len() && i != j implies subtree_ids(
                #[trigger] self.children@[i],
            ).disjoint(subtree_ids(#[trigger] self.children@[j])) by {
                if i == 0 {
                    assert(self.children@[j] == old(self).children@[j - 1]);
                } else if j == 0 {
                    assert(self.children@[i] == old(self).children@[i - 1]);
                    assert(subtree_ids(child).disjoint(subtree_ids(old(self).children@[i - 1])));
                } else {
                    assert(self.children@[i] == old(self).children@[i - 1]);
                    assert(self.children@[j] == old(self).children@[j - 1]);
                }
            }
            assert forall|i: int| 0 <= i < self.children@.len() implies (#[trigger] self.children@[i]).wf()
                && self.children@[i].parent == Some(self.id) && !subtree_ids(self.children@[i]).contains(self.id) by {
                if i > 0 {
                    assert(self.children@[i] == old(self).children@[i - 1]);
                }
            }
        }
    }

    /// Whether some child has the given id.
    pub fn has_child(&self, child_id: LayerId) -> (r: bool)
        ensures
            r == exists|i: int| 0 <= i < self.children@.len() && (#[trigger] self.children@[i]).id == child_id,
    {
        let mut i: usize = 0;
        while i < self.children.len()
            invariant
                i <= self.children@.len(),
                forall|j: int| 0 <= j < i ==> (#[trigger] self.children@[j]).id != child_id,
            decreases self.children@.len() - i,
        {
            if self.children[i].id == child_id {
                return true;
            }
            i = i + 1;
        }
        false
    }

    /// Detaches the child with the given id and hands it back with no
    /// parent. The layer must be a child of this one.
    pub fn remove_child(&mut self, child_id: LayerId) -> (r: Layer<T>)
        requires
            old(self).wf(),
            exists|i: int| 0 <= i < old(self).children@.len() && (#[trigger] old(self).children@[i]).id == child_id,
        ensures
            final(self).wf(),
            same_node(*old(self), *final(self)),
            final(self).content_age == old(self).content_age,
            final(self).tiles == old(self).tiles,
            final(self).screen_rect == old(self).screen_rect,
            exists|i: int| {
                &&& 0 <= i < old(self).children@.len()
                &&& (#[trigger] old(self).children@[i]).id == child_id
                &&& final(self).children@ == old(self).children@.remove(i)
                &&& same_node(r, Layer { parent: None, ..old(self).children@[i] })
                &&& r.children == old(self).children@[i].children
                &&& r.content_age == old(self).children@[i].content_age
                &&& r.tiles == old(self).children@[i].tiles
                &&& r.screen_rect == old(self).children@[i].screen_rect
            },
            r.wf(),
            r.parent is None,
    {
        let mut i: usize = 0;
        while i < self.children.len()
            invariant
                *self == *old(self),
                old(self).wf(),
                exists|k: int| i <= k < old(self).children@.len() && (#[trigger] old(self).children@[k]).id == child_id,
                i <= self.children@.len(),
            decreases self.children@.len() - i,
        {
            if self.children[i].id == child_id {
                proof {
                    assert(old(self).children@[i as int].parent == Some(old(self).id));
                    assert(old(self).children@[i as int].wf());
                }
                let mut child = self.children.remove(i);
                child.parent = None;
                proof {
                    reveal(ids_separate);
                    reveal_with_fuel(Layer::wf, 2);
                    assert(child.wf());
                    let m = |k: int| if k < i { k } else { k + 1 };
                    assert forall|k: int| 0 <= k < self.children@.len() implies self.children@[k]
                        == old(self).children@[m(k)] by {}
                    assert forall|k: int| 0 <= k < self.children@.len() implies (#[trigger] self.children@[k]).wf()
                        && self.children@[k].parent == Some(self.id) && !subtree_ids(self.children@[k]).contains(self.id) by {
                        assert(self.children@[k] == old(self).children@[m(k)]);
                    }
                    assert forall|a: int, b: int|
                        0 <= a < self.children@.len() && 0 <= b < self.children@.len() && a != b implies subtree_ids(
                        #[trigger] self.children@[a],
                    ).disjoint(subtree_ids(#[trigger] self.children@[b])) by {
                        assert(self.children@[a] == old(self).children@[m(a)]);
                        assert(self.children@[b] == old(self).children@[m(b)]);
                    }
                }
                return child;
            }
            i = i + 1;
        }
        proof {
            let k = choose|k: int| i <= k < old(self).children@.len() && (#[trigger] old(self).children@[k]).id == child_id;
            assert(false);
        }
        self.children.remove(0)
    }
}

/// A detached layer that carries no client data: id 0, empty bounds at the
/// origin, identity transform, no children and no tiles.
#[allow(non_snake_case)]
pub fn ContainerLayer() -> (r: Layer<()>)
    ensures
        r.wf(),
        r.id == 0,
        r.parent is None,
        r.children@.len() == 0,
        r.bounds == (Rect { origin: Point { x: 0, y: 0 }, size: crate::geometry::Size { width: 0, height: 0 } }),
        r.transform == (Transform { scale_x: 1, scale_y: 1, offset_x: 0, offset_y: 0 }),
        !r.masks_to_bounds,
        r.content_age == 0,
        r.tiles.tiles@.len() == 0,
        r.tiles.unused_buffers@.len() == 0,
        r.screen_rect is None,
{
    Layer::new(0, Rect::new(0, 0, 0, 0), ())
}

/// No child's subtree holds the layer's id, and the subtrees of two children
/// share no id.
#[verifier::opaque]
pub open spec fn ids_separate<T>(l: Layer<T>) -> bool {
    &&& forall|i: int| 0 <= i < l.children@.len() ==> !subtree_ids(#[trigger] l.children@[i]).contains(l.id)
    &&& forall|i: int, j: int|
        0 <= i < l.children@.len() && 0 <= j < l.children@.len() && i != j ==> subtree_ids(
            #[trigger] l.children@[i],
        ).disjoint(subtree_ids(#[trigger] l.children@[j]))
}

/// The ids of the layers of a subtree.
pub open spec fn subtree_ids<T>(l: Layer<T>) -> Set<LayerId>
    decreases l,
{
    set![l.id].union(subtree_ids_all(l.children@))
}

/// The ids of the layers of a sequence of subtrees.
pub open spec fn subtree_ids_all<T>(s: Seq<Layer<T>>) -> Set<LayerId>
    decreases s,
{
    if s.len() == 0 {
        Set::empty()
    } else {
        subtree_ids_all(s.drop_last()).union(subtree_ids(s.last()))
    }
}

/// Sequences whose subtrees have the same ids one by one have the same ids.
pub proof fn lemma_ids_all_pointwise<T>(a: Seq<Layer<T>>, b: Seq<Layer<T>>)
    requires
        a.len() == b.len(),
        forall|i: int| 0 <= i < a.len() ==> subtree_ids(#[trigger] a[i]) == subtree_ids(b[i]),
    ensures
        subtree_ids_all(a) == subtree_ids_all(b),
    decreases a.len(),
{
    if a.len() > 0 {
        assert(subtree_ids(a[a.len() - 1]) == subtree_ids(b[b.len() - 1]));
        lemma_ids_all_pointwise(a.drop_last(), b.drop_last());
    }
}

/// A layer is well formed when its own fields are and its children, each
/// well formed and linked to it, have the ids of a well-formed layer's
/// children one by one.
pub proof fn lemma_wf_from_children<T>(old: Layer<T>, new: Layer<T>)
    requires
        old.wf(),
        new.id == old.id,
        new.bounds.wf(),
        new.tiles.wf(),
        new.screen_rect matches Some(s) ==> s.wf(),
        new.children@.len() == old.children@.len(),
        forall|j: int| 0 <= j < new.children@.len() ==> (#[trigger] new.children@[j]).wf(),
        forall|j: int| 0 <= j < new.children@.len() ==> (#[trigger] new.children@[j]).parent == Some(new.id),
        forall|j: int|
            0 <= j < new.children@.len() ==> subtree_ids(#[trigger] new.children@[j]) == subtree_ids(old.children@[j]),
    ensures
        new.wf(),
        subtree_ids(new) == subtree_ids(old),
{
    reveal(ids_separate);
    assert forall|i: int, j: int|
        0 <= i < new.children@.len() && 0 <= j < new.children@.len() && i != j implies subtree_ids(
        #[trigger] new.children@[i],
    ).disjoint(subtree_ids(#[trigger] new.children@[j])) by {
        assert(subtree_ids(old.children@[i]).disjoint(subtree_ids(old.children@[j])));
    }
    assert forall|i: int| 0 <= i < new.children@.len() implies !subtree_ids(#[trigger] new.children@[i]).contains(
        new.id,
    ) by {
        assert(!subtree_ids(old.children@[i]).contains(old.id));
    }
    lemma_ids_all_pointwise(old.children@, new.children@);
}

/// Each subtree's ids are among the ids of the sequence.
pub proof fn lemma_ids_all_contains<T>(s: Seq<Layer<T>>, i: int)
    requires
        0 <= i < s.len(),
    ensures
        subtree_ids(s[i]).subset_of(subtree_ids_all(s)),
    decreases s.len(),
{
    if i < s.len() - 1 {
        lemma_ids_all_contains(s.drop_last(), i);
        assert(s.drop_last()[i] == s[i]);
    }
}

/// The content age after one change: one more, held at the maximum.
pub open spec fn bumped(age: u64) -> u64 {
    if age < u64::MAX { (age + 1) as u64 } else { age }
}

/// The fields that describe a layer itself agree, other than its children,
/// its content age, its tiles and its cached screen rectangle.
pub open spec fn same_node<T>(a: Layer<T>, b: Layer<T>) -> bool {
    &&& a.id == b.id
    &&& a.parent == b.parent
    &&& a.bounds == b.bounds
    &&& a.transform == b.transform
    &&& a.masks_to_bounds == b.masks_to_bounds
    &&& a.extra_data == b.extra_data
}

/// `new` is `old` with the content age of every layer bumped.
pub open spec fn marked<T>(old: Layer<T>, new: Layer<T>) -> bool
    decreases old,
{
    &&& same_node(old, new)
    &&& new.tiles == old.tiles
    &&& new.screen_rect == old.screen_rect
    &&& new.content_age == bumped(old.content_age)
    &&& new.children@.len() == old.children@.len()
    &&& forall|i: int| 0 <= i < old.children@.len() ==> marked(#[trigger] old.children@[i], new.children@[i])
}

/// The content ages of a subtree, in pre-order.
pub open spec fn preorder_ages<T>(l: Layer<T>) -> Seq<u64>
    decreases l,
{
    seq![l.content_age] + preorder_ages_all(l.children@)
}

pub open spec fn preorder_ages_all<T>(s: Seq<Layer<T>>) -> Seq<u64>
    decreases s,
{
    if s.len() == 0 {
        Seq::empty()
    } else {
        preorder_ages_all(s.drop_last()) + preorder_ages(s.last())
    }
}

/// What limits the screen rectangles of a subtree: nothing, the rectangle of
/// the nearest ancestor that masks to its bounds, or nothing at all is shown.
#[derive(Clone, Copy, Debug, PartialEq, Eq, Structural)]
pub enum Clip {
    Unclipped,
    Within(Rect),
    Hidden,
}

pub open spec fn clip_wf(c: Clip) -> bool {
    c matches Clip::Within(r) ==> r.wf()
}

/// The layer's own rectangle at the origin of its content space.
pub open spec fn content_rect<T>(l: Layer<T>) -> Rect {
    Rect { origin: Point { x: 0, y: 0 }, size: l.bounds.size }
}

/// The device-space rectangle of a layer under its parent's transform,
/// cut to the clip; `None` when nothing of it shows or it leaves the `i32`
/// range.
pub open spec fn spec_screen_rect<T>(l: Layer<T>, parent: Transform, clip: Clip) -> Option<Rect> {
    if clip is Hidden {
        None
    } else {
        match parent.spec_compose(Transform::spec_translation(l.bounds.origin)) {
            None => None,
            Some(placed) => match placed.spec_compose(l.transform) {
                None => None,
                Some(full) => match full.spec_map_rect(content_rect(l)) {
                    None => None,
                    Some(device) => match clip {
                        Clip::Within(c) => c.spec_intersection(device),
                        _ => Some(device),
                    },
                },
            },
        }
    }
}

/// The transform and clip that a layer's children are placed under: its
/// parent's transform moved to its origin (its own transform does not pass
/// down), and its screen rectangle when it masks to its bounds.
pub open spec fn spec_child_env<T>(l: Layer<T>, parent: Transform, clip: Clip) -> (Transform, Clip) {
    match parent.spec_compose(Transform::spec_translation(l.bounds.origin)) {
        None => (parent, Clip::Hidden),
        Some(placed) => (placed, if l.masks_to_bounds {
            match spec_screen_rect(l, parent, clip) {
                Some(s) => Clip::Within(s),
                None => Clip::Hidden,
            }
        } else {
            clip
        }),
    }
}

/// `new` is `old` with the screen rectangle of every layer recomputed.
pub open spec fn transform_state_updated<T>(old: Layer<T>, new: Layer<T>, parent: Transform, clip: Clip) -> bool
    decreases old,
{
    &&& same_node(old, new)
    &&& new.tiles == old.tiles
    &&& new.content_age == old.content_age
    &&& new.screen_rect == spec_screen_rect(old, parent, clip)
    &&& new.children@.len() == old.children@.len()
    &&& forall|i: int| 0 <= i < old.children@.len() ==> transform_state_updated(
        #[trigger] old.children@[i],
        new.children@[i],
        spec_child_env(old, parent, clip).0,
        spec_child_env(old, parent, clip).1,
    )
}

/// Marking a tree of N layers as changed bumps the content age of all N
/// layers, whether or not any of them masks to its bounds.
pub proof fn lemma_mark_touches_every_layer<T>(old: Layer<T>, new: Layer<T>)
    requires
        marked(old, new),
    ensures
        preorder_ages(old).len() == old.count(),
        preorder_ages(new) == preorder_ages(old).map_values(|a: u64| bumped(a)),
        new.count() == old.count(),
    decreases old,
{
    lemma_mark_touches_every_layer_all(old.children@, new.children@);
    assert(preorder_ages(new) =~= preorder_ages(old).map_values(|a: u64| bumped(a)));
}

/// The same, for sequences of subtrees marked one by one.
pub proof fn lemma_mark_touches_every_layer_all<T>(old: Seq<Layer<T>>, new: Seq<Layer<T>>)
    requires
        old.len() == new.len(),
        forall|i: int| 0 <= i < old.len() ==> marked(#[trigger] old[i], new[i]),
    ensures
        preorder_ages_all(old).len() == count_all(old),
        preorder_ages_all(new) == preorder_ages_all(old).map_values(|a: u64| bumped(a)),
        count_all(new) == count_all(old),
    decreases old,
{
    if old.len() > 0 {
        assert(marked(old[old.len() - 1], new[new.len() - 1]));
        lemma_mark_touches_every_layer_all(old.drop_last(), new.drop_last());
        lemma_mark_touches_every_layer(old.last(), new.last());
        assert(preorder_ages_all(new) =~= preorder_ages_all(old).map_values(|a: u64| bumped(a)));
    }
}

/// `new` is `old` with the cached screen rectangle of every layer dropped.
pub open spec fn screen_rects_dropped<T>(old: Layer<T>, new: Layer<T>) -> bool
    decreases old,
{
    &&& same_node(old, new)
    &&& new.tiles == old.tiles
    &&& new.content_age == old.content_age
    &&& new.screen_rect is None
    &&& new.children@.len() == old.children@.len()
    &&& forall|i: int| 0 <= i < old.children@.len() ==> screen_rects_dropped(#[trigger] old.children@[i], new.children@[i])
}

/// The number of layers in a sequence of subtrees.
pub open spec fn count_all<T>(s: Seq<Layer<T>>) -> nat
    decreases s,
{
    if s.len() == 0 {
        0
    } else {
        count_all(s.drop_last()) + s.last().count()
    }
}

} // verus!
