use layers::geometry::{Rect, Size, Transform};
use layers::layers::{ContainerLayer, Layer};
use layers::scene::{LayerRequests, LayerUnusedBuffers, Scene};
use layers::surface::IOSurfaceNativeSurface;
use layers::texture::Flip;
use layers::tiling::{BufferRequest, BufferStorage, LayerBuffer};

fn buffer(surface_id: u32, x: i32, y: i32, w: i32, h: i32, age: u64) -> LayerBuffer {
    LayerBuffer {
        storage: BufferStorage::NativeSurface(IOSurfaceNativeSurface::from_existing_id(surface_id)),
        rect: Rect::new(x, y, w, h),
        content_age: age,
        flip: Flip::NoFlip,
    }
}

fn surface_id(b: &LayerBuffer) -> u32 {
    match &b.storage {
        BufferStorage::NativeSurface(s) => s.get_id(),
        _ => 0,
    }
}

fn traverse_in(layer: &mut Layer<()>, dirty: Rect, viewport: Rect) -> (Vec<LayerRequests>, Vec<LayerUnusedBuffers>) {
    let mut requests = Vec::new();
    let mut unused = Vec::new();
    Scene::<()>::get_buffer_requests_for_layer(layer, dirty, viewport, &mut requests, &mut unused);
    (requests, unused)
}

fn traverse(layer: &mut Layer<()>, dirty: Rect) -> (Vec<LayerRequests>, Vec<LayerUnusedBuffers>) {
    traverse_in(layer, dirty, Rect::new(-1_000_000, -1_000_000, 2_000_000, 2_000_000))
}

#[test]
fn single_root_layer_requests_whole_layer_once() {
    let mut root = Layer::new(1, Rect::new(0, 0, 400, 300), ());
    let (requests, unused) = traverse(&mut root, Rect::new(0, 0, 400, 300));
    assert_eq!(requests.len(), 1);
    assert_eq!(requests[0].0, 1);
    assert_eq!(requests[0].1, vec![BufferRequest { rect: Rect::new(0, 0, 400, 300), content_age: 0 }]);
    assert!(unused.is_empty());

    let (requests, unused) = traverse(&mut root, Rect::new(0, 0, 0, 0));
    assert!(requests.is_empty());
    assert!(unused.is_empty());
}

#[test]
fn large_layer_is_split_into_tiles_row_by_row() {
    let mut root = Layer::new(7, Rect::new(0, 0, 1000, 600), ());
    let (requests, _) = traverse(&mut root, Rect::new(0, 0, 1000, 600));
    assert_eq!(requests.len(), 1);
    let rects: Vec<Rect> = requests[0].1.iter().map(|r| r.rect).collect();
    assert_eq!(
        rects,
        vec![
            Rect::new(0, 0, 512, 512),
            Rect::new(512, 0, 488, 512),
            Rect::new(0, 512, 512, 88),
            Rect::new(512, 512, 488, 88),
        ]
    );
}

#[test]
fn dirty_rect_selects_only_the_tiles_it_meets() {
    let mut root = Layer::new(7, Rect::new(0, 0, 1000, 600), ());
    let (requests, _) = traverse(&mut root, Rect::new(600, 10, 20, 20));
    assert_eq!(requests[0].1, vec![BufferRequest { rect: Rect::new(512, 0, 488, 512), content_age: 0 }]);
}

#[test]
fn viewport_limits_the_requested_tiles() {
    let mut root = Layer::new(7, Rect::new(0, 0, 1000, 600), ());
    let (requests, _) = traverse_in(&mut root, Rect::new(0, 0, 1000, 600), Rect::new(0, 0, 300, 300));
    assert_eq!(requests[0].1, vec![BufferRequest { rect: Rect::new(0, 0, 512, 512), content_age: 0 }]);
    let (requests, _) = traverse_in(&mut root, Rect::new(0, 0, 100, 100), Rect::new(600, 0, 100, 100));
    assert!(requests.is_empty());
}

#[test]
fn dirty_rect_is_taken_in_the_bounds_space_of_an_offset_layer() {
    let mut root = Layer::new(3, Rect::new(100, 100, 200, 200), ());
    let (requests, _) = traverse(&mut root, Rect::new(0, 0, 150, 150));
    assert_eq!(requests[0].1, vec![BufferRequest { rect: Rect::new(0, 0, 200, 200), content_age: 0 }]);
    let (requests, _) = traverse(&mut root, Rect::new(0, 0, 100, 100));
    assert!(requests.is_empty());
}

#[test]
fn current_tiles_are_not_requested_until_content_changes() {
    let mut root = Layer::new(1, Rect::new(0, 0, 400, 300), ());
    root.tiles.add_buffer(buffer(9, 0, 0, 400, 300, 0));
    let (requests, _) = traverse(&mut root, Rect::new(0, 0, 400, 300));
    assert!(requests.is_empty());
    root.contents_changed();
    assert_eq!(root.content_age, 1);
    let (requests, _) = traverse(&mut root, Rect::new(0, 0, 400, 300));
    assert_eq!(requests[0].1, vec![BufferRequest { rect: Rect::new(0, 0, 400, 300), content_age: 1 }]);
}

#[test]
fn replaced_and_refused_buffers_become_unused() {
    let mut root = Layer::new(1, Rect::new(0, 0, 400, 300), ());
    root.tiles.add_buffer(buffer(1, 0, 0, 400, 300, 1));
    root.tiles.add_buffer(buffer(2, 0, 0, 400, 300, 2));
    assert_eq!(root.tiles.tiles.len(), 1);
    assert_eq!(root.tiles.unused_buffers.len(), 1);
    assert_eq!(surface_id(&root.tiles.unused_buffers[0]), 1);
    root.tiles.add_buffer(buffer(3, 0, 0, 400, 300, 2));
    assert_eq!(root.tiles.unused_buffers.len(), 2);
    assert_eq!(surface_id(&root.tiles.unused_buffers[1]), 3);
    assert_eq!(root.tiles.tiles[0].buffer.as_ref().map(surface_id), Some(2));

    let (_, unused) = traverse(&mut root, Rect::new(0, 0, 400, 300));
    assert_eq!(unused.len(), 1);
    assert_eq!(unused[0].0, 1);
    assert_eq!(unused[0].1.len(), 2);
    assert!(root.tiles.unused_buffers.is_empty());
}

fn masked_tree() -> Scene<()> {
    let mut grandchild = Layer::new(3, Rect::new(0, 0, 50, 50), ());
    grandchild.tiles.add_buffer(buffer(30, 0, 0, 50, 50, 1));
    grandchild.tiles.add_buffer(buffer(31, 0, 0, 50, 50, 2));
    let mut child = Layer::new(2, Rect::new(0, 0, 100, 100), ());
    child.set_masks_to_bounds(true);
    child.tiles.add_buffer(buffer(20, 0, 0, 100, 100, 1));
    child.tiles.add_buffer(buffer(21, 0, 0, 100, 100, 2));
    child.add_child(grandchild);
    let mut root = Layer::new(1, Rect::new(0, 0, 1000, 1000), ());
    root.add_child(child);
    let mut scene = Scene::new(Rect::new(0, 0, 1000, 1000));
    scene.root = Some(root);
    scene.update_transform_state();
    scene
}

#[test]
fn masked_layer_missing_dirty_rect_prunes_subtree_but_reclaims_own_buffers() {
    let mut scene = masked_tree();
    let root = scene.root.as_mut().unwrap();
    assert_eq!(root.children[0].screen_rect, Some(Rect::new(0, 0, 100, 100)));
    let (requests, unused) = traverse(root, Rect::new(500, 500, 100, 100));
    assert_eq!(requests.len(), 1);
    assert_eq!(requests[0].0, 1);
    assert_eq!(requests[0].1.len(), 4);
    assert_eq!(unused.len(), 1);
    assert_eq!(unused[0].0, 2);
    assert_eq!(unused[0].1.len(), 1);
    assert_eq!(surface_id(&unused[0].1[0]), 20);
    assert_eq!(root.children[0].children[0].tiles.unused_buffers.len(), 1);
}

#[test]
fn masked_layer_meeting_dirty_rect_visits_subtree() {
    let mut scene = masked_tree();
    let root = scene.root.as_mut().unwrap();
    let (requests, unused) = traverse(root, Rect::new(0, 0, 1000, 1000));
    let ids: Vec<u64> = requests.iter().map(|e| e.0).collect();
    assert_eq!(ids, vec![1]);
    let unused_ids: Vec<u64> = unused.iter().map(|e| e.0).collect();
    assert_eq!(unused_ids, vec![2, 3]);
}

#[test]
fn traversal_gives_at_most_one_entry_per_layer() {
    let mut scene = masked_tree();
    let mut requests = Vec::new();
    let mut unused = Vec::new();
    scene.get_buffer_requests(&mut requests, &mut unused);
    assert!(requests.len() <= 3);
    assert!(unused.len() <= 3);
    let mut ids: Vec<u64> = requests.iter().map(|e| e.0).collect();
    ids.dedup();
    assert_eq!(ids.len(), requests.len());
}

#[test]
fn rootless_scene_yields_nothing() {
    let mut scene: Scene<()> = Scene::new(Rect::new(0, 0, 800, 600));
    let mut requests = Vec::new();
    let mut unused = Vec::new();
    scene.get_buffer_requests(&mut requests, &mut unused);
    assert!(requests.is_empty());
    assert!(unused.is_empty());
    scene.mark_layer_contents_as_changed_recursively();
    assert!(scene.root.is_none());
}

#[test]
fn marking_changes_reaches_every_layer_even_under_a_mask() {
    let mut scene = masked_tree();
    scene.mark_layer_contents_as_changed_recursively();
    let root = scene.root.as_ref().unwrap();
    assert_eq!(root.content_age, 1);
    assert_eq!(root.children[0].content_age, 1);
    assert_eq!(root.children[0].children[0].content_age, 1);
}

#[test]
fn set_root_layer_size_without_root_does_nothing() {
    let mut scene: Scene<()> = Scene::new(Rect::new(0, 0, 800, 600));
    scene.scale = 2;
    scene.set_root_layer_size(Size::new(800, 600));
    assert!(scene.root.is_none());
    assert_eq!(scene.viewport, Rect::new(0, 0, 800, 600));
}

#[test]
fn set_root_layer_size_divides_by_scale() {
    let mut scene: Scene<()> = Scene::new(Rect::new(0, 0, 800, 600));
    scene.root = Some(Layer::new(1, Rect::new(5, 5, 10, 10), ()));
    scene.scale = 2;
    scene.set_root_layer_size(Size::new(800, 600));
    assert_eq!(scene.root.as_ref().unwrap().bounds, Rect::new(0, 0, 400, 300));
}

#[test]
fn new_scene_has_unit_scale_and_no_root() {
    let scene: Scene<u8> = Scene::new(Rect::new(0, 0, 640, 480));
    assert!(scene.root.is_none());
    assert_eq!(scene.scale, 1);
    assert_eq!(scene.viewport, Rect::new(0, 0, 640, 480));
}

#[test]
fn screen_rects_follow_scale_transform_and_masks() {
    let mut inner = Layer::new(3, Rect::new(50, 50, 100, 100), ());
    inner.set_transform(Transform::scaling(2, 2));
    let mut mid = Layer::new(2, Rect::new(10, 10, 100, 100), ());
    mid.set_masks_to_bounds(true);
    mid.add_child(inner);
    let mut root = Layer::new(1, Rect::new(0, 0, 500, 500), ());
    root.add_child(mid);
    let mut scene = Scene::new(Rect::new(0, 0, 1000, 1000));
    scene.root = Some(root);
    scene.scale = 2;
    scene.update_transform_state();
    let root = scene.root.as_ref().unwrap();
    assert_eq!(root.screen_rect, Some(Rect::new(0, 0, 1000, 1000)));
    assert_eq!(root.children[0].screen_rect, Some(Rect::new(20, 20, 200, 200)));
    // The inner layer covers 120..520 on each axis, cut to its masking parent.
    assert_eq!(root.children[0].children[0].screen_rect, Some(Rect::new(120, 120, 100, 100)));
}

#[test]
fn transform_change_drops_screen_rects_of_the_subtree() {
    let mut scene = masked_tree();
    let root = scene.root.as_mut().unwrap();
    assert!(root.children[0].children[0].screen_rect.is_some());
    root.children[0].set_transform(Transform::scaling(3, 3));
    assert_eq!(root.children[0].transform, Transform::scaling(3, 3));
    assert_eq!(root.children[0].screen_rect, None);
    assert_eq!(root.children[0].children[0].screen_rect, None);
    assert!(root.screen_rect.is_some());
    scene.update_transform_state();
    let root = scene.root.as_ref().unwrap();
    assert_eq!(root.children[0].screen_rect, Some(Rect::new(0, 0, 300, 300)));
}

#[test]
fn add_child_puts_the_new_child_first_and_remove_child_detaches_it() {
    let mut root = Layer::new(1, Rect::new(0, 0, 100, 100), ());
    root.add_child(Layer::new(2, Rect::new(0, 0, 10, 10), ()));
    root.add_child(Layer::new(3, Rect::new(0, 0, 10, 10), ()));
    assert_eq!(root.children.len(), 2);
    assert_eq!(root.children[0].id, 3);
    assert_eq!(root.children[1].id, 2);
    assert_eq!(root.children[0].parent, Some(1));
    assert_eq!(root.children[1].parent, Some(1));
    assert!(root.has_child(2));
    assert!(!root.has_child(42));
    let removed = root.remove_child(2);
    assert_eq!(removed.id, 2);
    assert_eq!(removed.parent, None);
    assert_eq!(root.children.len(), 1);
    assert_eq!(root.children[0].id, 3);
    assert!(!root.has_child(2));
}

#[test]
fn container_layer_is_empty() {
    let layer = ContainerLayer();
    assert_eq!(layer.id, 0);
    assert!(layer.children.is_empty());
    assert_eq!(layer.bounds, Rect::new(0, 0, 0, 0));
    assert!(!layer.masks_to_bounds);
}
