//! The render pipeline as a display list. Drawing a frame walks the layer
//! tree, makes textures for newly painted tiles, and emits the operations a
//! GPU backend performs in order: viewport and clear, a stack of transforms,
//! surface bindings, textured quads and debug borders.
use crate::geometry::{Color, Size, Transform};
use crate::layers::{lemma_wf_from_children, same_node, subtree_ids, Layer};
use crate::scene::Scene;
use crate::surface::{spec_bind, spec_surface_len, surface_len, NativeCompositingGraphicsContext, SurfaceRegistry};
use crate::texture::{filter_for, spec_filter_for, FilterMode, Flip, Texture, TextureTarget};
use crate::tiling::{tile_wf, BufferStorage, LayerBuffer, Tile, TileGrid};
use vstd::prelude::*;

verus! {

/// The shader program that draws a textured quad.
#[derive(Clone, Copy, Debug, PartialEq, Eq, Structural)]
pub enum ProgramKind {
    /// Samples a 2D texture with normalized coordinates.
    Texture2D,
    /// Samples a rectangle texture with pixel coordinates.
    TextureRectangle,
}

/// Which debug outline to draw.
#[derive(Clone, Copy, Debug, PartialEq, Eq, Structural)]
pub enum BorderKind {
    Layer,
    Tile,
}

/// A textured quad: the unit square under the current transform.
#[derive(Clone, Copy, Debug, PartialEq, Eq, Structural)]
pub struct QuadDraw {
    pub texture: Texture,
    pub program: ProgramKind,
    /// Maps quad coordinates to texture coordinates.
    pub texture_transform: Transform,
    /// How the texture is sampled at the quad's scale.
    pub filter: FilterMode,
}

/// One step of drawing a frame. The backend keeps a current transform,
/// initially the identity, and a stack of saved ones.
#[derive(Clone, Debug, PartialEq, Eq)]
pub enum DrawOp {
    SetViewport { width: i32, height: i32 },
    Clear(Color),
    /// Pushes the current transform.
    Save,
    /// Pops the last pushed transform and makes it current.
    Restore,
    /// Makes the current transform `current * t`.
    Concat(Transform),
    /// Makes a GPU texture with the given name and binds the surface to it as
    /// its storage.
    BindSurface { texture: Texture, surface_id: u32 },
    /// Makes a GPU texture with the given name and uploads the pixels into it.
    UploadPixels { texture: Texture, pixels: Vec<u8> },
    DrawQuad(QuadDraw),
    /// Outlines the unit square under the current transform.
    DrawBorder(BorderKind),
}

/// What drawing needs besides the scene: the platform context, whether to
/// outline layers and tiles, the storage kind of textures made from painted
/// buffers, and the next texture name to hand out.
#[derive(Debug)]
pub struct RenderContext {
    pub compositing_context: NativeCompositingGraphicsContext,
    pub show_debug_borders: bool,
    pub texture_target: TextureTarget,
    pub next_texture_id: u64,
}

impl RenderContext {
    pub open spec fn wf(&self) -> bool {
        self.next_texture_id >= 1
    }

    pub fn new(
        compositing_context: NativeCompositingGraphicsContext,
        show_debug_borders: bool,
        texture_target: TextureTarget,
    ) -> (r: RenderContext)
        ensures
            r.wf(),
            r.show_debug_borders == show_debug_borders,
            r.texture_target == texture_target,
            r.next_texture_id == 1,
    {
        RenderContext { compositing_context, show_debug_borders, texture_target, next_texture_id: 1 }
    }
}

/// The program for a texture's storage kind.
pub open spec fn spec_program_for(target: TextureTarget) -> ProgramKind {
    match target {
        TextureTarget::TwoD => ProgramKind::Texture2D,
        TextureTarget::Rectangle => ProgramKind::TextureRectangle,
    }
}

/// The texture-coordinate transform of a texture: rectangle textures are
/// addressed in pixels, so coordinates scale by the texture size; flipped
/// content has `y` mapped to `1 - y` first.
pub open spec fn spec_texture_transform(t: Texture) -> Transform {
    match (t.target, t.flip) {
        (TextureTarget::TwoD, Flip::NoFlip) => Transform { scale_x: 1, scale_y: 1, offset_x: 0, offset_y: 0 },
        (TextureTarget::TwoD, Flip::VerticalFlip) => Transform { scale_x: 1, scale_y: -1i32, offset_x: 0, offset_y: 1 },
        (TextureTarget::Rectangle, Flip::NoFlip) => Transform { scale_x: t.width, scale_y: t.height, offset_x: 0, offset_y: 0 },
        (TextureTarget::Rectangle, Flip::VerticalFlip) => Transform {
            scale_x: t.width,
            scale_y: (-t.height) as i32,
            offset_x: 0,
            offset_y: t.height,
        },
    }
}

/// The product of two scale factors.
#[verifier::opaque]
pub open spec fn product(a: int, b: int) -> int {
    a * b
}

/// The quad that draws texture `t` where the unit square spans `scale_x`
/// by `scale_y` device pixels.
pub open spec fn spec_quad(t: Texture, scale_x: int, scale_y: int) -> QuadDraw {
    QuadDraw {
        texture: t,
        program: spec_program_for(t.target),
        texture_transform: spec_texture_transform(t),
        filter: spec_filter_for(scale_x, scale_y, t),
    }
}

/// The operations that draw one tile under the layer's transform, which
/// scales layer pixels by `scale_x` by `scale_y` device pixels: none for a
/// tile without a texture.
pub open spec fn tile_ops(t: Tile, scale_x: int, scale_y: int, debug: bool) -> Seq<DrawOp> {
    if t.texture.id == 0 {
        Seq::empty()
    } else {
        seq![DrawOp::Save, DrawOp::Concat(t.transform), DrawOp::DrawQuad(spec_quad(t.texture, product(scale_x, t.transform.scale_x as int), product(scale_y, t.transform.scale_y as int)))]
            + (if debug { seq![DrawOp::DrawBorder(BorderKind::Tile)] } else { Seq::empty() })
            + seq![DrawOp::Restore]
    }
}

pub open spec fn tiles_ops(s: Seq<Tile>, scale_x: int, scale_y: int, debug: bool) -> Seq<DrawOp>
    decreases s.len(),
{
    if s.len() == 0 {
        Seq::empty()
    } else {
        tiles_ops(s.drop_last(), scale_x, scale_y, debug) + tile_ops(s.last(), scale_x, scale_y, debug)
    }
}

/// Whether a tile gets a texture now: it has no texture yet, a texture name
/// is left, and its buffer either lies on a live surface of the buffer's
/// size or holds local pixels that make exactly one full image of it.
pub open spec fn makes_texture(t: Tile, next: u64, registry: Map<u32, (Size, Seq<u8>)>) -> bool {
    &&& t.texture.id == 0
    &&& next < u64::MAX
    &&& match t.buffer {
        Some(b) => match b.storage {
            BufferStorage::NativeSurface(s) => spec_bind(registry, s.surface_id(), b.rect.size) is Ok,
            BufferStorage::LocalPixels(p) => p@.len() == spec_surface_len(b.rect.size),
            BufferStorage::Uploaded => false,
        },
        None => false,
    }
}

/// The texture made for a tile's buffer: surfaces bind as textures of the
/// context's storage kind, local pixels go into a 2D texture.
pub open spec fn made_texture(t: Tile, next: u64, target: TextureTarget) -> Texture {
    let b = t.buffer->0;
    Texture {
        id: next,
        target: if b.storage is NativeSurface { target } else { TextureTarget::TwoD },
        width: b.rect.size.width,
        height: b.rect.size.height,
        flip: b.flip,
    }
}

/// The operation that fills the texture made for a tile.
pub open spec fn fill_op(t: Tile, next: u64, target: TextureTarget) -> DrawOp {
    match t.buffer->0.storage {
        BufferStorage::NativeSurface(s) => DrawOp::BindSurface {
            texture: made_texture(t, next, target),
            surface_id: s.surface_id()->0,
        },
        BufferStorage::LocalPixels(p) => DrawOp::UploadPixels { texture: made_texture(t, next, target), pixels: p },
        // Not reached: such a tile makes no texture.
        BufferStorage::Uploaded => DrawOp::Save,
    }
}

/// A tile after getting a texture: the unit quad now maps onto its buffer's
/// rectangle, and local pixels are marked as handed over.
pub open spec fn textured_tile(t: Tile, next: u64, target: TextureTarget) -> Tile {
    let b = t.buffer->0;
    let r = b.rect;
    Tile {
        texture: made_texture(t, next, target),
        transform: Transform { scale_x: r.size.width, scale_y: r.size.height, offset_x: r.origin.x, offset_y: r.origin.y },
        buffer: if b.storage is LocalPixels {
            Some(LayerBuffer { storage: BufferStorage::Uploaded, ..b })
        } else {
            t.buffer
        },
        ..t
    }
}

/// Texture creation over a sequence of tiles, from `next` on: the tiles
/// after it, the next name left, and the binding operations.
pub open spec fn create_all(
    s: Seq<Tile>,
    next: u64,
    target: TextureTarget,
    registry: Map<u32, (Size, Seq<u8>)>,
) -> (Seq<Tile>, u64, Seq<DrawOp>)
    decreases s.len(),
{
    if s.len() == 0 {
        (Seq::empty(), next, Seq::empty())
    } else {
        let (ts, n, ops) = create_all(s.drop_last(), next, target, registry);
        let t = s.last();
        if makes_texture(t, n, registry) {
            (
                ts.push(textured_tile(t, n, target)),
                (n + 1) as u64,
                ops.push(fill_op(t, n, target)),
            )
        } else {
            (ts.push(t), n, ops)
        }
    }
}

/// The operations that draw a layer itself from texture name `next` on:
/// its new textures and its tiles under its origin and own transform, then
/// its debug border, sized to its bounds, under its origin.
pub open spec fn layer_own_ops<T>(
    l: Layer<T>,
    scale: int,
    next: u64,
    target: TextureTarget,
    debug: bool,
    registry: Map<u32, (Size, Seq<u8>)>,
) -> Seq<DrawOp> {
    let (tiles, n1, binds) = create_all(l.tiles.tiles@, next, target, registry);
    seq![DrawOp::Save, DrawOp::Concat(Transform::spec_translation(l.bounds.origin)), DrawOp::Save, DrawOp::Concat(l.transform)]
        + binds + tiles_ops(tiles, product(scale, l.transform.scale_x as int), product(scale, l.transform.scale_y as int), debug) + seq![DrawOp::Restore]
        + (if debug {
            seq![
                DrawOp::Save,
                DrawOp::Concat(Transform { scale_x: l.bounds.size.width, scale_y: l.bounds.size.height, offset_x: 0, offset_y: 0 }),
                DrawOp::DrawBorder(BorderKind::Layer),
                DrawOp::Restore,
            ]
        } else {
            Seq::empty()
        }) + seq![DrawOp::Restore]
}

/// The operations that draw a layer and its subtree from texture name `next`
/// on, and the next name left after them. The children are drawn in paint
/// order under the layer's origin alone.
pub open spec fn layer_ops<T>(
    l: Layer<T>,
    scale: int,
    next: u64,
    target: TextureTarget,
    debug: bool,
    registry: Map<u32, (Size, Seq<u8>)>,
) -> (Seq<DrawOp>, u64)
    decreases l,
{
    let n1 = create_all(l.tiles.tiles@, next, target, registry).1;
    let (kids, n2) = layers_ops(l.children@, scale, n1, target, debug, registry);
    (
        layer_own_ops(l, scale, next, target, debug, registry)
            + seq![DrawOp::Save, DrawOp::Concat(Transform::spec_translation(l.bounds.origin))] + kids + seq![DrawOp::Restore],
        n2,
    )
}

pub open spec fn layers_ops<T>(
    s: Seq<Layer<T>>,
    scale: int,
    next: u64,
    target: TextureTarget,
    debug: bool,
    registry: Map<u32, (Size, Seq<u8>)>,
) -> (Seq<DrawOp>, u64)
    decreases s,
{
    if s.len() == 0 {
        (Seq::empty(), next)
    } else {
        let (ops, n) = layers_ops(s.drop_last(), scale, next, target, debug, registry);
        let (more, n2) = layer_ops(s.last(), scale, n, target, debug, registry);
        (ops + more, n2)
    }
}

/// Drawing the first `i + 1` of a sequence of subtrees is drawing the first
/// `i` and then subtree `i`.
proof fn lemma_layers_ops_step<T>(
    s: Seq<Layer<T>>,
    i: int,
    scale: int,
    next: u64,
    target: TextureTarget,
    debug: bool,
    registry: Map<u32, (Size, Seq<u8>)>,
)
    requires
        0 <= i < s.len(),
    ensures
        ({
            let (d0, m0) = layers_ops(s.take(i), scale, next, target, debug, registry);
            let (d, m) = layer_ops(s[i], scale, m0, target, debug, registry);
            layers_ops(s.take(i + 1), scale, next, target, debug, registry) == (d0 + d, m)
        }),
{
    assert(s.take(i + 1).drop_last() =~= s.take(i));
    assert(s.take(i + 1).last() == s[i]);
}

/// What drawing a layer consists of: the layer itself, then its children
/// under its origin.
proof fn lemma_layer_ops_unfold<T>(
    l: Layer<T>,
    scale: int,
    next: u64,
    target: TextureTarget,
    debug: bool,
    registry: Map<u32, (Size, Seq<u8>)>,
)
    ensures
        ({
            let n1 = create_all(l.tiles.tiles@, next, target, registry).1;
            let (kids, n2) = layers_ops(l.children@, scale, n1, target, debug, registry);
            layer_ops(l, scale, next, target, debug, registry) == (
                layer_own_ops(l, scale, next, target, debug, registry)
                    + seq![DrawOp::Save, DrawOp::Concat(Transform::spec_translation(l.bounds.origin))] + kids
                    + seq![DrawOp::Restore],
                n2,
            )
        }),
{
}

/// `textures_created` holds when each of its parts does.
proof fn lemma_textures_created_intro<T>(
    old: Layer<T>,
    new: Layer<T>,
    scale: int,
    next: u64,
    target: TextureTarget,
    debug: bool,
    registry: Map<u32, (Size, Seq<u8>)>,
)
    requires
        same_node(old, new),
        new.content_age == old.content_age,
        new.screen_rect == old.screen_rect,
        new.tiles.unused_buffers == old.tiles.unused_buffers,
        new.tiles.tiles@ == create_all(old.tiles.tiles@, next, target, registry).0,
        new.children@.len() == old.children@.len(),
        forall|i: int| 0 <= i < old.children@.len() ==> textures_created(
            #[trigger] old.children@[i],
            new.children@[i],
            scale,
            layers_ops(old.children@.take(i), scale, create_all(old.tiles.tiles@, next, target, registry).1, target, debug, registry).1,
            target,
            debug,
            registry,
        ),
    ensures
        textures_created(old, new, scale, next, target, debug, registry),
{
    reveal(textures_created);
}

/// `new` is `old` after drawing from texture name `next` on: every tile
/// that got a texture holds it.
#[verifier::opaque]
pub open spec fn textures_created<T>(
    old: Layer<T>,
    new: Layer<T>,
    scale: int,
    next: u64,
    target: TextureTarget,
    debug: bool,
    registry: Map<u32, (Size, Seq<u8>)>,
) -> bool
    decreases old,
{
    let n1 = create_all(old.tiles.tiles@, next, target, registry).1;
    &&& same_node(old, new)
    &&& new.content_age == old.content_age
    &&& new.screen_rect == old.screen_rect
    &&& new.tiles.unused_buffers == old.tiles.unused_buffers
    &&& new.tiles.tiles@ == create_all(old.tiles.tiles@, next, target, registry).0
    &&& new.children@.len() == old.children@.len()
    &&& forall|i: int| 0 <= i < old.children@.len() ==> textures_created(
        #[trigger] old.children@[i],
        new.children@[i],
        scale,
        layers_ops(old.children@.take(i), scale, n1, target, debug, registry).1,
        target,
        debug,
        registry,
    )
}

/// The operations that draw a frame of the scene: the viewport and the
/// background, then the root's tree under the scene's scale.
pub open spec fn scene_ops<T>(
    scene: Scene<T>,
    next: u64,
    target: TextureTarget,
    debug: bool,
    registry: Map<u32, (Size, Seq<u8>)>,
) -> (Seq<DrawOp>, u64) {
    let head = seq![
        DrawOp::SetViewport { width: scene.viewport.size.width, height: scene.viewport.size.height },
        DrawOp::Clear(scene.background_color),
    ];
    match scene.root {
        None => (head, next),
        Some(root) => {
            let (drawn, n) = layer_ops(root, scene.scale as int, next, target, debug, registry);
            (
                head + seq![
                    DrawOp::Save,
                    DrawOp::Concat(Transform { scale_x: scene.scale, scale_y: scene.scale, offset_x: 0, offset_y: 0 }),
                ] + drawn + seq![DrawOp::Restore],
                n,
            )
        },
    }
}

/// A tile without a texture gives no operation at all, so nothing is drawn
/// for it.
pub proof fn lemma_sentinel_tile_draws_nothing(t: Tile, debug: bool)
    requires
        t.texture.id == 0,
    ensures
        forall|scale_x: int, scale_y: int| #[trigger] tile_ops(t, scale_x, scale_y, debug).len() == 0,
{
}

proof fn lemma_scale_product_fits(a: int, b: int)
    requires
        -0x8000_0000_0000_0000 <= a <= 0x7fff_ffff_ffff_ffff,
        -0x8000_0000 <= b <= 0x7fff_ffff,
    ensures
        -0x4000_0000_0000_0000_0000_0000 <= a * b <= 0x4000_0000_0000_0000_0000_0000,
        (-0x8000_0000 <= a <= 0x7fff_ffff) ==> -0x4000_0000_0000_0000 <= a * b <= 0x4000_0000_0000_0000,
{
    assert(-0x4000_0000_0000_0000_0000_0000 <= a * b <= 0x4000_0000_0000_0000_0000_0000) by (nonlinear_arith)
        requires
            -0x8000_0000_0000_0000 <= a <= 0x7fff_ffff_ffff_ffff,
            -0x8000_0000 <= b <= 0x7fff_ffff,
    ;
    if -0x8000_0000 <= a <= 0x7fff_ffff {
        assert(-0x4000_0000_0000_0000 <= a * b <= 0x4000_0000_0000_0000) by (nonlinear_arith)
            requires
                -0x8000_0000 <= a <= 0x7fff_ffff,
                -0x8000_0000 <= b <= 0x7fff_ffff,
        ;
    }
}

/// A drawn tile is sampled nearest-neighbour exactly when the layer's scale
/// times the tile's maps one texel onto one device pixel, and linearly
/// otherwise, for instance when the quad magnifies the texture.
pub proof fn lemma_tile_filter_follows_scale(t: Tile, scale_x: int, scale_y: int, debug: bool)
    requires
        t.texture.id != 0,
    ensures
        tile_ops(t, scale_x, scale_y, debug)[2] == DrawOp::DrawQuad(
            spec_quad(t.texture, scale_x * t.transform.scale_x, scale_y * t.transform.scale_y),
        ),
        (scale_x * t.transform.scale_x == t.texture.width && scale_y * t.transform.scale_y == t.texture.height)
            ==> spec_quad(t.texture, scale_x * t.transform.scale_x, scale_y * t.transform.scale_y).filter
            == FilterMode::Nearest,
        (scale_x * t.transform.scale_x != t.texture.width || scale_y * t.transform.scale_y != t.texture.height)
            ==> spec_quad(t.texture, scale_x * t.transform.scale_x, scale_y * t.transform.scale_y).filter
            == FilterMode::Linear,
{
    reveal(product);
}

/// The quad that draws `texture`: the program for its storage kind and the
/// texture-coordinate transform for its kind and orientation.
pub fn quad_for(texture: &Texture, scale_x: i128, scale_y: i128) -> (r: QuadDraw)
    requires
        texture.width >= 0,
        texture.height >= 0,
    ensures
        r == spec_quad(*texture, scale_x as int, scale_y as int),
{
    let program = match texture.target {
        TextureTarget::TwoD => ProgramKind::Texture2D,
        TextureTarget::Rectangle => ProgramKind::TextureRectangle,
    };
    let texture_transform = match (texture.target, texture.flip) {
        (TextureTarget::TwoD, Flip::NoFlip) => Transform::identity(),
        (TextureTarget::TwoD, Flip::VerticalFlip) => Transform { scale_x: 1, scale_y: -1, offset_x: 0, offset_y: 1 },
        (TextureTarget::Rectangle, Flip::NoFlip) => Transform::scaling(texture.width, texture.height),
        (TextureTarget::Rectangle, Flip::VerticalFlip) => Transform {
            scale_x: texture.width,
            scale_y: -texture.height,
            offset_x: 0,
            offset_y: texture.height,
        },
    };
    let filter = filter_for(scale_x, scale_y, texture);
    QuadDraw { texture: *texture, program, texture_transform, filter }
}

/// Emits the quad that draws `texture` under the current transform, which
/// spans the unit square over `scale_x` by `scale_y` device pixels.
pub fn bind_and_render_quad(texture: &Texture, scale_x: i128, scale_y: i128, ops: &mut Vec<DrawOp>)
    requires
        texture.width >= 0,
        texture.height >= 0,
    ensures
        final(ops)@ == old(ops)@.push(DrawOp::DrawQuad(spec_quad(*texture, scale_x as int, scale_y as int))),
{
    let quad = quad_for(texture, scale_x, scale_y);
    ops.push(DrawOp::DrawQuad(quad));
}

/// Emits a debug outline of the unit square under the current transform.
pub fn bind_and_render_quad_lines(kind: BorderKind, ops: &mut Vec<DrawOp>)
    ensures
        final(ops)@ == old(ops)@.push(DrawOp::DrawBorder(kind)),
{
    ops.push(DrawOp::DrawBorder(kind));
}

/// The outline color of a debug border.
pub fn border_color(kind: BorderKind) -> (r: Color)
    ensures
        r == (match kind {
            BorderKind::Layer => Color { r: 255, g: 128, b: 0, a: 255 },
            BorderKind::Tile => Color { r: 0, g: 255, b: 255, a: 255 },
        }),
{
    match kind {
        BorderKind::Layer => Color { r: 255, g: 128, b: 0, a: 255 },
        BorderKind::Tile => Color { r: 0, g: 255, b: 255, a: 255 },
    }
}

/// The outline width of a debug border, in pixels.
pub fn border_thickness(kind: BorderKind) -> (r: u32)
    ensures
        r == (match kind {
            BorderKind::Layer => 2u32,
            BorderKind::Tile => 1u32,
        }),
{
    match kind {
        BorderKind::Layer => 2,
        BorderKind::Tile => 1,
    }
}

/// Emits the operations that draw one tile under a layer transform that
/// scales by `scale_x` by `scale_y`; a tile without a texture draws nothing.
pub fn render_tile(tile: &Tile, scale_x: i64, scale_y: i64, show_debug_borders: bool, ops: &mut Vec<DrawOp>)
    requires
        tile.texture.width >= 0,
        tile.texture.height >= 0,
    ensures
        final(ops)@ == old(ops)@ + tile_ops(*tile, scale_x as int, scale_y as int, show_debug_borders),
{
    if tile.texture.is_zero() {
        assert(old(ops)@ + tile_ops(*tile, scale_x as int, scale_y as int, show_debug_borders) =~= old(ops)@);
        return;
    }
    ops.push(DrawOp::Save);
    ops.push(DrawOp::Concat(tile.transform));
    proof {
        reveal(product);
        lemma_scale_product_fits(scale_x as int, tile.transform.scale_x as int);
        lemma_scale_product_fits(scale_y as int, tile.transform.scale_y as int);
    }
    let quad_x = scale_x as i128 * tile.transform.scale_x as i128;
    let quad_y = scale_y as i128 * tile.transform.scale_y as i128;
    bind_and_render_quad(&tile.texture, quad_x, quad_y, ops);
    if show_debug_borders {
        bind_and_render_quad_lines(BorderKind::Tile, ops);
    }
    ops.push(DrawOp::Restore);
    assert(final(ops)@ =~= old(ops)@ + tile_ops(*tile, scale_x as int, scale_y as int, show_debug_borders));
}

/// Gives a texture to every tile that has a painted buffer and none yet:
/// a buffer on a live surface is bound to it, local pixels are uploaded into
/// it once. Tiles that already show their buffer are left as they are.
pub fn create_textures(
    grid: &mut TileGrid,
    render_context: &mut RenderContext,
    registry: &SurfaceRegistry,
    ops: &mut Vec<DrawOp>,
)
    requires
        old(grid).wf(),
        old(render_context).wf(),
    ensures
        final(grid).wf(),
        final(render_context).wf(),
        final(render_context).show_debug_borders == old(render_context).show_debug_borders,
        final(render_context).texture_target == old(render_context).texture_target,
        final(grid).unused_buffers == old(grid).unused_buffers,
        ({
            let (tiles, next, binds) = create_all(
                old(grid).tiles@,
                old(render_context).next_texture_id,
                old(render_context).texture_target,
                registry@,
            );
            &&& final(grid).tiles@ == tiles
            &&& final(render_context).next_texture_id == next
            &&& final(ops)@ == old(ops)@ + binds
        }),
{
    let ghost tiles0 = grid.tiles@;
    let ghost next0 = render_context.next_texture_id;
    let ghost target = render_context.texture_target;
    let n = grid.tiles.len();
    let mut i: usize = 0;
    while i < n
        invariant
            0 <= i <= n,
            n == grid.tiles@.len(),
            n == tiles0.len(),
            tiles0 == old(grid).tiles@,
            next0 == old(render_context).next_texture_id,
            target == render_context.texture_target,
            render_context.wf(),
            render_context.show_debug_borders == old(render_context).show_debug_borders,
            render_context.texture_target == old(render_context).texture_target,
            grid.unused_buffers == old(grid).unused_buffers,
            old(grid).wf(),
            ({
                let (tiles, next, binds) = create_all(tiles0.take(i as int), next0, target, registry@);
                &&& grid.tiles@ == tiles + tiles0.skip(i as int)
                &&& render_context.next_texture_id == next
                &&& ops@ == old(ops)@ + binds
            }),
            forall|j: int| 0 <= j < n ==> (#[trigger] grid.tiles@[j]).index_x == tiles0[j].index_x
                && grid.tiles@[j].index_y == tiles0[j].index_y,
            forall|j: int| 0 <= j < n ==> tile_wf(#[trigger] grid.tiles@[j]),
        decreases n - i,
    {
        proof {
            assert(tiles0.take(i + 1).drop_last() =~= tiles0.take(i as int));
            assert(grid.tiles@[i as int] == tiles0[i as int]);
        }
        let next = render_context.next_texture_id;
        let tile = &mut grid.tiles[i];
        if tile.texture.is_zero() && next < u64::MAX {
            match &mut tile.buffer {
                Some(b) => {
                    let rect = b.rect;
                    let filled = match &b.storage {
                        BufferStorage::NativeSurface(s) => {
                            let texture = Texture {
                                id: next,
                                target: render_context.texture_target,
                                width: rect.size.width,
                                height: rect.size.height,
                                flip: b.flip,
                            };
                            match s.bind_to_texture(registry, &render_context.compositing_context, &texture, rect.size) {
                                Ok(()) => Some(DrawOp::BindSurface { texture, surface_id: s.get_id() }),
                                Err(_) => None,
                            }
                        },
                        BufferStorage::LocalPixels(p) => {
                            if p.len() as u128 == surface_len(rect.size) {
                                let texture = Texture {
                                    id: next,
                                    target: TextureTarget::TwoD,
                                    width: rect.size.width,
                                    height: rect.size.height,
                                    flip: b.flip,
                                };
                                let mut storage = BufferStorage::Uploaded;
                                std::mem::swap(&mut b.storage, &mut storage);
                                match storage {
                                    BufferStorage::LocalPixels(pixels) => Some(DrawOp::UploadPixels { texture, pixels }),
                                    _ => None,
                                }
                            } else {
                                None
                            }
                        },
                        BufferStorage::Uploaded => None,
                    };
                    match filled {
                        Some(op) => {
                            tile.texture = match &op {
                                DrawOp::BindSurface { texture, .. } => *texture,
                                DrawOp::UploadPixels { texture, .. } => *texture,
                                _ => Texture::zero(),
                            };
                            tile.transform = Transform {
                                scale_x: rect.size.width,
                                scale_y: rect.size.height,
                                offset_x: rect.origin.x,
                                offset_y: rect.origin.y,
                            };
                            render_context.next_texture_id = next + 1;
                            ops.push(op);
                        },
                        None => {},
                    }
                },
                None => {},
            }
        }
        proof {
            let (tiles, nx, binds) = create_all(tiles0.take(i + 1), next0, target, registry@);
            assert(grid.tiles@ =~= tiles + tiles0.skip(i + 1));
        }
        i = i + 1;
    }
    proof {
        assert(tiles0.take(n as int) =~= tiles0);
        let (tiles, nx, binds) = create_all(tiles0, next0, target, registry@);
        assert(grid.tiles@ =~= tiles);
    }
}

/// Emits the operations that draw every tile of a grid, in order.
fn render_tiles(grid: &TileGrid, scale_x: i64, scale_y: i64, show_debug_borders: bool, ops: &mut Vec<DrawOp>)
    requires
        grid.wf(),
    ensures
        final(ops)@ == old(ops)@ + tiles_ops(grid.tiles@, scale_x as int, scale_y as int, show_debug_borders),
{
    let n = grid.tiles.len();
    let mut i: usize = 0;
    while i < n
        invariant
            0 <= i <= n,
            n == grid.tiles@.len(),
            grid.wf(),
            ops@ == old(ops)@ + tiles_ops(grid.tiles@.take(i as int), scale_x as int, scale_y as int, show_debug_borders),
        decreases n - i,
    {
        proof {
            assert(grid.tiles@.take(i + 1).drop_last() =~= grid.tiles@.take(i as int));
            assert(tile_wf(grid.tiles@[i as int]));
        }
        render_tile(&grid.tiles[i], scale_x, scale_y, show_debug_borders, ops);
        assert(ops@ =~= old(ops)@ + tiles_ops(grid.tiles@.take(i + 1), scale_x as int, scale_y as int, show_debug_borders));
        i = i + 1;
    }
    assert(grid.tiles@.take(n as int) =~= grid.tiles@);
}

/// Emits the operations that draw `layer` itself, making textures for its
/// newly painted tiles.
fn render_layer_own<T>(
    layer: &mut Layer<T>,
    scale: i32,
    render_context: &mut RenderContext,
    registry: &SurfaceRegistry,
    ops: &mut Vec<DrawOp>,
)
    requires
        old(layer).wf(),
        old(render_context).wf(),
    ensures
        final(layer).wf(),
        final(render_context).wf(),
        final(render_context).show_debug_borders == old(render_context).show_debug_borders,
        final(render_context).texture_target == old(render_context).texture_target,
        same_node(*old(layer), *final(layer)),
        final(layer).children == old(layer).children,
        final(layer).content_age == old(layer).content_age,
        final(layer).screen_rect == old(layer).screen_rect,
        final(layer).tiles.unused_buffers == old(layer).tiles.unused_buffers,
        ({
            let (tiles, next, binds) = create_all(
                old(layer).tiles.tiles@,
                old(render_context).next_texture_id,
                old(render_context).texture_target,
                registry@,
            );
            &&& final(layer).tiles.tiles@ == tiles
            &&& final(render_context).next_texture_id == next
        }),
        final(ops)@ == old(ops)@ + layer_own_ops(
            *old(layer),
            scale as int,
            old(render_context).next_texture_id,
            old(render_context).texture_target,
            old(render_context).show_debug_borders,
            registry@,
        ),
{
    let debug = render_context.show_debug_borders;
    let origin = Transform::translation(layer.bounds.origin.x, layer.bounds.origin.y);
    ops.push(DrawOp::Save);
    ops.push(DrawOp::Concat(origin));
    ops.push(DrawOp::Save);
    ops.push(DrawOp::Concat(layer.transform));
    create_textures(&mut layer.tiles, render_context, registry, ops);
    proof {
        reveal(product);
        lemma_scale_product_fits(scale as int, layer.transform.scale_x as int);
        lemma_scale_product_fits(scale as int, layer.transform.scale_y as int);
    }
    let tiles_x = scale as i64 * layer.transform.scale_x as i64;
    let tiles_y = scale as i64 * layer.transform.scale_y as i64;
    render_tiles(&layer.tiles, tiles_x, tiles_y, debug, ops);
    ops.push(DrawOp::Restore);
    if debug {
        ops.push(DrawOp::Save);
        ops.push(DrawOp::Concat(Transform::scaling(layer.bounds.size.width, layer.bounds.size.height)));
        bind_and_render_quad_lines(BorderKind::Layer, ops);
        ops.push(DrawOp::Restore);
    }
    ops.push(DrawOp::Restore);
    proof {
        reveal(crate::layers::ids_separate);
        assert(ops@ =~= old(ops)@ + layer_own_ops(
            *old(layer),
            scale as int,
            old(render_context).next_texture_id,
            old(render_context).texture_target,
            debug,
            registry@,
        ));
    }
}

/// Emits the operations that draw `layer` and its subtree: under its
/// origin and its own transform, textures for newly painted tiles and then
/// every tile; the layer's debug border, sized to its bounds, under its
/// origin; then the children in paint order under its origin alone.
#[verifier::spinoff_prover]
pub fn render_layer<T>(
    layer: &mut Layer<T>,
    scale: i32,
    render_context: &mut RenderContext,
    registry: &SurfaceRegistry,
    ops: &mut Vec<DrawOp>,
)
    requires
        old(layer).wf(),
        old(render_context).wf(),
    ensures
        final(layer).wf(),
        final(render_context).wf(),
        final(render_context).show_debug_borders == old(render_context).show_debug_borders,
        final(render_context).texture_target == old(render_context).texture_target,
        ({
            let (drawn, next) = layer_ops(
                *old(layer),
                scale as int,
                old(render_context).next_texture_id,
                old(render_context).texture_target,
                old(render_context).show_debug_borders,
                registry@,
            );
            &&& final(ops)@ == old(ops)@ + drawn
            &&& final(render_context).next_texture_id == next
        }),
        textures_created(
            *old(layer),
            *final(layer),
            scale as int,
            old(render_context).next_texture_id,
            old(render_context).texture_target,
            old(render_context).show_debug_borders,
            registry@,
        ),
        same_node(*old(layer), *final(layer)),
        subtree_ids(*final(layer)) == subtree_ids(*old(layer)),
    decreases *old(layer),
{
    let ghost next0 = render_context.next_texture_id;
    let ghost target = render_context.texture_target;
    let debug = render_context.show_debug_borders;
    render_layer_own(layer, scale, render_context, registry, ops);
    ops.push(DrawOp::Save);
    ops.push(DrawOp::Concat(Transform::translation(layer.bounds.origin.x, layer.bounds.origin.y)));
    let ghost ops1 = ops@;
    let ghost n1 = render_context.next_texture_id;
    let n = layer.children.len();
    let mut i: usize = 0;
    while i < n
        invariant
            0 <= i <= n,
            n == layer.children@.len(),
            n == old(layer).children@.len(),
            same_node(*old(layer), *layer),
            layer.content_age == old(layer).content_age,
            layer.screen_rect == old(layer).screen_rect,
            layer.tiles.unused_buffers == old(layer).tiles.unused_buffers,
            layer.tiles.tiles@ == create_all(old(layer).tiles.tiles@, next0, target, registry@).0,
            layer.tiles.wf(),
            n1 == create_all(old(layer).tiles.tiles@, next0, target, registry@).1,
            render_context.wf(),
            render_context.show_debug_borders == debug,
            render_context.texture_target == target,
            debug == old(render_context).show_debug_borders,
            target == old(render_context).texture_target,
            next0 == old(render_context).next_texture_id,
            ({
                let (drawn, next) = layers_ops(old(layer).children@.take(i as int), scale as int, n1, target, debug, registry@);
                &&& ops@ == ops1 + drawn
                &&& render_context.next_texture_id == next
            }),
            forall|j: int| 0 <= j < i ==> textures_created(
                #[trigger] old(layer).children@[j],
                layer.children@[j],
                scale as int,
                layers_ops(old(layer).children@.take(j), scale as int, n1, target, debug, registry@).1,
                target,
                debug,
                registry@,
            ),
            forall|j: int| 0 <= j < i ==> (#[trigger] layer.children@[j]).wf(),
            forall|j: int| 0 <= j < n ==> subtree_ids(#[trigger] layer.children@[j]) == subtree_ids(old(layer).children@[j]),
            forall|j: int| i <= j < n ==> #[trigger] layer.children@[j] == old(layer).children@[j],
            forall|j: int| 0 <= j < n ==> (#[trigger] layer.children@[j]).parent == Some(layer.id),
            old(layer).wf(),
        decreases n - i,
    {
        proof {
            lemma_layers_ops_step(old(layer).children@, i as int, scale as int, n1, target, debug, registry@);
        }
        let child = &mut layer.children[i];
        render_layer(child, scale, render_context, registry, ops);
        proof {
            let (d1, m1) = layers_ops(old(layer).children@.take(i + 1), scale as int, n1, target, debug, registry@);
            assert(ops@ =~= ops1 + d1);
        }
        i = i + 1;
    }
    proof {
        lemma_wf_from_children(*old(layer), *layer);
    }
    ops.push(DrawOp::Restore);
    proof {
        assert(old(layer).children@.take(n as int) =~= old(layer).children@);
        lemma_textures_created_intro(*old(layer), *layer, scale as int, next0, target, debug, registry@);
        lemma_layer_ops_unfold(*old(layer), scale as int, next0, target, debug, registry@);
        let (drawn, next) = layer_ops(*old(layer), scale as int, next0, target, debug, registry@);
        assert(ops@ =~= old(ops)@ + drawn);
    }
}

/// Emits the operations that draw a frame of the scene, making textures
/// for newly painted tiles.
pub fn render_scene<T>(
    scene: &mut Scene<T>,
    render_context: &mut RenderContext,
    registry: &SurfaceRegistry,
) -> (r: Vec<DrawOp>)
    requires
        old(scene).wf(),
        old(render_context).wf(),
    ensures
        final(scene).wf(),
        final(render_context).wf(),
        final(render_context).show_debug_borders == old(render_context).show_debug_borders,
        final(render_context).texture_target == old(render_context).texture_target,
        final(scene).viewport == old(scene).viewport,
        final(scene).scale == old(scene).scale,
        final(scene).background_color == old(scene).background_color,
        ({
            let (drawn, next) = scene_ops(
                *old(scene),
                old(render_context).next_texture_id,
                old(render_context).texture_target,
                old(render_context).show_debug_borders,
                registry@,
            );
            &&& r@ == drawn
            &&& final(render_context).next_texture_id == next
        }),
        match old(scene).root {
            None => final(scene).root is None,
            Some(root) => final(scene).root matches Some(new_root) && textures_created(
                root,
                new_root,
                old(scene).scale as int,
                old(render_context).next_texture_id,
                old(render_context).texture_target,
                old(render_context).show_debug_borders,
                registry@,
            ),
        },
{
    let mut ops: Vec<DrawOp> = Vec::new();
    ops.push(DrawOp::SetViewport { width: scene.viewport.size.width, height: scene.viewport.size.height });
    ops.push(DrawOp::Clear(scene.background_color));
    let scale = scene.scale;
    match &mut scene.root {
        Some(root) => {
            ops.push(DrawOp::Save);
            ops.push(DrawOp::Concat(Transform::scaling(scale, scale)));
            render_layer(root, scale, render_context, registry, &mut ops);
            ops.push(DrawOp::Restore);
        },
        None => {},
    }
    proof {
        let (drawn, next) = scene_ops(
            *old(scene),
            old(render_context).next_texture_id,
            old(render_context).texture_target,
            old(render_context).show_debug_borders,
            registry@,
        );
        assert(ops@ =~= drawn);
    }
    ops
}

} // verus!
