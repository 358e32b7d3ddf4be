use layers::geometry::{Color, Rect, Size, Transform};
use layers::layers::Layer;
use layers::render::{
    border_color, border_thickness, quad_for, render_scene, render_tile, BorderKind, DrawOp, ProgramKind, QuadDraw,
    RenderContext,
};
use layers::scene::Scene;
use layers::surface::{IOSurfaceNativeSurface, NativeCompositingGraphicsContext, SurfaceRegistry};
use layers::texture::{filter_for, FilterMode, Flip, Format, Texture, TextureTarget};
use layers::tiling::{BufferStorage, LayerBuffer, Tile};

fn one_tile_scene(registry: &mut SurfaceRegistry, live: bool) -> Scene<()> {
    let surface = if live {
        IOSurfaceNativeSurface::new(registry, Size::new(400, 300)).unwrap()
    } else {
        IOSurfaceNativeSurface::from_existing_id(77)
    };
    let mut root = Layer::new(1, Rect::new(10, 20, 400, 300), ());
    root.tiles.add_buffer(LayerBuffer {
        storage: BufferStorage::NativeSurface(surface),
        rect: Rect::new(0, 0, 400, 300),
        content_age: 0,
        flip: Flip::NoFlip,
    });
    let mut scene = Scene::new(Rect::new(0, 0, 800, 600));
    scene.root = Some(root);
    scene
}

fn texture_one() -> Texture {
    Texture { id: 1, target: TextureTarget::TwoD, width: 400, height: 300, flip: Flip::NoFlip }
}

#[test]
fn frame_binds_new_texture_then_draws_tile() {
    let mut registry = SurfaceRegistry::new();
    let mut scene = one_tile_scene(&mut registry, true);
    let mut context = RenderContext::new(NativeCompositingGraphicsContext::new(), false, TextureTarget::TwoD);
    let ops = render_scene(&mut scene, &mut context, &registry);
    let quad = QuadDraw {
        texture: texture_one(),
        program: ProgramKind::Texture2D,
        texture_transform: Transform::identity(),
        filter: FilterMode::Nearest,
    };
    assert_eq!(
        ops,
        vec![
            DrawOp::SetViewport { width: 800, height: 600 },
            DrawOp::Clear(Color { r: 97, g: 92, b: 92, a: 255 }),
            DrawOp::Save,
            DrawOp::Concat(Transform::scaling(1, 1)),
            DrawOp::Save,
            DrawOp::Concat(Transform::translation(10, 20)),
            DrawOp::Save,
            DrawOp::Concat(Transform::identity()),
            DrawOp::BindSurface { texture: texture_one(), surface_id: 1 },
            DrawOp::Save,
            DrawOp::Concat(Transform { scale_x: 400, scale_y: 300, offset_x: 0, offset_y: 0 }),
            DrawOp::DrawQuad(quad),
            DrawOp::Restore,
            DrawOp::Restore,
            DrawOp::Restore,
            DrawOp::Save,
            DrawOp::Concat(Transform::translation(10, 20)),
            DrawOp::Restore,
            DrawOp::Restore,
        ]
    );
    assert_eq!(context.next_texture_id, 2);

    // The tile already shows its buffer: no second upload.
    let again = render_scene(&mut scene, &mut context, &registry);
    assert!(!again.iter().any(|op| matches!(op, DrawOp::BindSurface { .. })));
    assert!(again.contains(&DrawOp::DrawQuad(quad)));
    assert_eq!(context.next_texture_id, 2);
}

#[test]
fn debug_borders_outline_tiles_and_layers() {
    let mut registry = SurfaceRegistry::new();
    let mut scene = one_tile_scene(&mut registry, true);
    let mut context = RenderContext::new(NativeCompositingGraphicsContext::new(), true, TextureTarget::TwoD);
    let ops = render_scene(&mut scene, &mut context, &registry);
    let tile_border = ops.iter().position(|op| *op == DrawOp::DrawBorder(BorderKind::Tile)).unwrap();
    assert!(matches!(ops[tile_border - 1], DrawOp::DrawQuad(_)));
    let layer_border = ops.iter().position(|op| *op == DrawOp::DrawBorder(BorderKind::Layer)).unwrap();
    assert_eq!(ops[layer_border - 1], DrawOp::Concat(Transform::scaling(400, 300)));
    // The border is drawn at the layer's origin: inside the translation.
    assert_eq!(ops[layer_border - 2], DrawOp::Save);
    assert_eq!(ops[layer_border - 3], DrawOp::Restore);
    assert_eq!(ops[layer_border + 1], DrawOp::Restore);
    assert_eq!(ops[layer_border + 2], DrawOp::Restore);
    assert_eq!(ops[layer_border + 3], DrawOp::Save);
    assert_eq!(ops[layer_border + 4], DrawOp::Concat(Transform::translation(10, 20)));
    assert!(layer_border > tile_border);
}

#[test]
fn tile_on_dead_surface_gets_no_texture_and_no_draw() {
    let mut registry = SurfaceRegistry::new();
    let mut scene = one_tile_scene(&mut registry, false);
    let mut context = RenderContext::new(NativeCompositingGraphicsContext::new(), false, TextureTarget::TwoD);
    let ops = render_scene(&mut scene, &mut context, &registry);
    assert!(!ops.iter().any(|op| matches!(op, DrawOp::BindSurface { .. } | DrawOp::DrawQuad(_))));
    assert_eq!(context.next_texture_id, 1);
    assert!(scene.root.as_ref().unwrap().tiles.tiles[0].texture.is_zero());
}

#[test]
fn local_pixels_are_uploaded_once_into_a_2d_texture() {
    let registry = SurfaceRegistry::new();
    let mut root = Layer::new(4, Rect::new(0, 0, 1, 2), ());
    root.tiles.add_buffer(LayerBuffer {
        storage: BufferStorage::LocalPixels(vec![1, 2, 3, 4, 5, 6, 7, 8]),
        rect: Rect::new(0, 0, 1, 2),
        content_age: 0,
        flip: Flip::VerticalFlip,
    });
    let mut scene = Scene::new(Rect::new(0, 0, 1, 2));
    scene.root = Some(root);
    let mut context = RenderContext::new(NativeCompositingGraphicsContext::new(), false, TextureTarget::Rectangle);
    let ops = render_scene(&mut scene, &mut context, &registry);
    let texture = Texture { id: 1, target: TextureTarget::TwoD, width: 1, height: 2, flip: Flip::VerticalFlip };
    assert!(ops.contains(&DrawOp::UploadPixels { texture, pixels: vec![1, 2, 3, 4, 5, 6, 7, 8] }));
    assert!(ops.contains(&DrawOp::DrawQuad(QuadDraw {
        texture,
        program: ProgramKind::Texture2D,
        texture_transform: Transform { scale_x: 1, scale_y: -1, offset_x: 0, offset_y: 1 },
        filter: FilterMode::Nearest,
    })));
    let tile = &scene.root.as_ref().unwrap().tiles.tiles[0];
    assert!(matches!(tile.buffer.as_ref().unwrap().storage, BufferStorage::Uploaded));
    assert_eq!(tile.texture, texture);

    let again = render_scene(&mut scene, &mut context, &registry);
    assert!(!again.iter().any(|op| matches!(op, DrawOp::UploadPixels { .. })));
    assert_eq!(context.next_texture_id, 2);
}

#[test]
fn scene_scale_magnifies_tiles_so_they_are_sampled_linearly() {
    let mut registry = SurfaceRegistry::new();
    let mut scene = one_tile_scene(&mut registry, true);
    scene.scale = 2;
    let mut context = RenderContext::new(NativeCompositingGraphicsContext::new(), false, TextureTarget::TwoD);
    let ops = render_scene(&mut scene, &mut context, &registry);
    let quads: Vec<&QuadDraw> = ops
        .iter()
        .filter_map(|op| match op {
            DrawOp::DrawQuad(q) => Some(q),
            _ => None,
        })
        .collect();
    assert_eq!(quads.len(), 1);
    assert_eq!(quads[0].filter, FilterMode::Linear);
    assert_eq!(quad_for(&texture_one(), 400, 300).filter, FilterMode::Nearest);
    assert_eq!(quad_for(&texture_one(), 800, 600).filter, FilterMode::Linear);
}

#[test]
fn buffers_that_do_not_fit_their_tile_get_no_texture() {
    let mut registry = SurfaceRegistry::new();
    let small = IOSurfaceNativeSurface::new(&mut registry, Size::new(10, 10)).unwrap();
    let mut root = Layer::new(1, Rect::new(0, 0, 1000, 600), ());
    root.tiles.add_buffer(LayerBuffer {
        storage: BufferStorage::NativeSurface(small),
        rect: Rect::new(0, 0, 512, 512),
        content_age: 0,
        flip: Flip::NoFlip,
    });
    root.tiles.add_buffer(LayerBuffer {
        storage: BufferStorage::LocalPixels(vec![0; 7]),
        rect: Rect::new(512, 0, 488, 512),
        content_age: 0,
        flip: Flip::NoFlip,
    });
    let mut scene = Scene::new(Rect::new(0, 0, 1000, 600));
    scene.root = Some(root);
    let mut context = RenderContext::new(NativeCompositingGraphicsContext::new(), false, TextureTarget::TwoD);
    let ops = render_scene(&mut scene, &mut context, &registry);
    assert!(!ops.iter().any(|op| matches!(op, DrawOp::BindSurface { .. } | DrawOp::UploadPixels { .. } | DrawOp::DrawQuad(_))));
    assert_eq!(context.next_texture_id, 1);
}

#[test]
fn rootless_scene_only_clears() {
    let registry = SurfaceRegistry::new();
    let mut scene: Scene<()> = Scene::new(Rect::new(0, 0, 320, 200));
    let mut context = RenderContext::new(NativeCompositingGraphicsContext::new(), false, TextureTarget::Rectangle);
    let ops = render_scene(&mut scene, &mut context, &registry);
    assert_eq!(
        ops,
        vec![DrawOp::SetViewport { width: 320, height: 200 }, DrawOp::Clear(Color { r: 97, g: 92, b: 92, a: 255 })]
    );
}

#[test]
fn sentinel_tile_draws_nothing() {
    let tile = Tile::new(0, 0);
    let mut ops = Vec::new();
    render_tile(&tile, 1, 1, true, &mut ops);
    assert!(ops.is_empty());
}

#[test]
fn textured_tile_draws_under_its_own_transform() {
    let mut tile = Tile::new(0, 0);
    tile.texture = Texture { id: 5, target: TextureTarget::TwoD, width: 64, height: 64, flip: Flip::NoFlip };
    tile.transform = Transform { scale_x: 64, scale_y: 64, offset_x: 512, offset_y: 0 };
    let mut ops = Vec::new();
    render_tile(&tile, 1, 1, false, &mut ops);
    assert_eq!(ops.len(), 4);
    assert_eq!(ops[1], DrawOp::Concat(tile.transform));
    assert!(matches!(&ops[2], DrawOp::DrawQuad(q) if q.filter == FilterMode::Nearest));
    let mut magnified = Vec::new();
    render_tile(&tile, 2, 2, false, &mut magnified);
    assert!(matches!(&magnified[2], DrawOp::DrawQuad(q) if q.filter == FilterMode::Linear));
}

#[test]
fn filter_is_nearest_only_at_one_to_one_scale() {
    let texture = Texture { id: 1, target: TextureTarget::TwoD, width: 512, height: 512, flip: Flip::NoFlip };
    assert_eq!(filter_for(512, 512, &texture), FilterMode::Nearest);
    assert_eq!(filter_for(1024, 1024, &texture), FilterMode::Linear);
    assert_eq!(filter_for(512, 1024, &texture), FilterMode::Linear);
    assert_eq!(filter_for(256, 256, &texture), FilterMode::Linear);
}

#[test]
fn quad_program_and_texture_transform_follow_kind_and_flip() {
    let plain = Texture { id: 1, target: TextureTarget::TwoD, width: 10, height: 10, flip: Flip::NoFlip };
    assert_eq!(quad_for(&plain, 10, 10).program, ProgramKind::Texture2D);
    assert_eq!(quad_for(&plain, 10, 10).texture_transform, Transform::identity());
    let flipped = Texture { flip: Flip::VerticalFlip, ..plain };
    assert_eq!(
        quad_for(&flipped, 10, 10).texture_transform,
        Transform { scale_x: 1, scale_y: -1, offset_x: 0, offset_y: 1 }
    );
    let rect = Texture { id: 3, target: TextureTarget::Rectangle, width: 256, height: 128, flip: Flip::NoFlip };
    assert_eq!(quad_for(&rect, 256, 128).program, ProgramKind::TextureRectangle);
    assert_eq!(quad_for(&rect, 256, 128).texture_transform, Transform::scaling(256, 128));
    let rect_flipped = Texture { flip: Flip::VerticalFlip, ..rect };
    assert_eq!(
        quad_for(&rect_flipped, 256, 128).texture_transform,
        Transform { scale_x: 256, scale_y: -128, offset_x: 0, offset_y: 128 }
    );
}

#[test]
fn border_styles() {
    assert_eq!(border_color(BorderKind::Layer), Color { r: 255, g: 128, b: 0, a: 255 });
    assert_eq!(border_color(BorderKind::Tile), Color { r: 0, g: 255, b: 255, a: 255 });
    assert_eq!(border_thickness(BorderKind::Layer), 2);
    assert_eq!(border_thickness(BorderKind::Tile), 1);
}

#[test]
fn format_pixel_sizes() {
    assert_eq!(Format::ARGB32Format.bytes_per_pixel(), 4);
    assert_eq!(Format::RGB24Format.bytes_per_pixel(), 3);
}
