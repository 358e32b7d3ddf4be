//! Tiles and the tile grid of a layer: which tiles need painting for a dirty
//! region, taking in painted buffers, and the buffers that fell out of use.
use crate::geometry::{min_int, Rect, Size, Point, Transform};
use crate::surface::IOSurfaceNativeSurface;
use crate::texture::{Flip, Texture};
use vstd::prelude::*;

verus! {

/// The side of a square tile, in layer pixels.
pub const TILE_SIZE: i32 = 512;

/// Where the pixels of a painted buffer live.
#[derive(Debug)]
pub enum BufferStorage {
    /// In a shareable native surface, bound to the tile's texture.
    NativeSurface(IOSurfaceNativeSurface),
    /// In this process, uploaded once into a locally allocated texture.
    LocalPixels(Vec<u8>),
    /// Local pixels that were already handed to the GPU.
    Uploaded,
}

/// Pixels painted for one tile, ready to be shown.
#[derive(Debug)]
pub struct LayerBuffer {
    pub storage: BufferStorage,
    /// The tile rectangle the buffer was painted for, in layer content space.
    pub rect: Rect,
    /// The content age of the layer when the buffer was requested.
    pub content_age: u64,
    /// Whether the pixels are stored upside down.
    pub flip: Flip,
}

/// A request to paint one tile of a layer.
#[derive(Clone, Copy, Debug, PartialEq, Eq, Structural)]
pub struct BufferRequest {
    /// The tile rectangle, in layer content space.
    pub rect: Rect,
    /// The content age of the layer when the request was made.
    pub content_age: u64,
}

#[derive(Debug)]
pub struct Tile {
    /// The tile's column in the grid.
    pub index_x: i32,
    /// The tile's row in the grid.
    pub index_y: i32,
    /// The latest painted buffer, if any.
    pub buffer: Option<LayerBuffer>,
    /// The texture showing `buffer`, or the sentinel while none was made.
    pub texture: Texture,
    /// Places the unit quad onto the tile's rectangle within its layer.
    pub transform: Transform,
}

#[derive(Debug)]
pub struct TileGrid {
    pub tiles: Vec<Tile>,
    /// Buffers replaced or refused since they were last collected.
    pub unused_buffers: Vec<LayerBuffer>,
}

/// The tile rectangle at a grid position, clipped to a layer of the given
/// size.
pub open spec fn spec_tile_rect(x: int, y: int, size: Size) -> Rect {
    Rect::from_edges(
        x * TILE_SIZE,
        y * TILE_SIZE,
        min_int((x + 1) * TILE_SIZE, size.width as int),
        min_int((y + 1) * TILE_SIZE, size.height as int),
    )
}

/// A tile whose content is older than `age`.
pub open spec fn tile_is_stale(t: Tile, age: u64) -> bool {
    match t.buffer {
        Some(b) => b.content_age < age,
        None => true,
    }
}

/// Whether the tile at a grid position needs painting: it does when no tile
/// is there yet or its content is stale.
pub open spec fn needs_request(tiles: Seq<Tile>, x: int, y: int, age: u64) -> bool {
    forall|i: int|
        0 <= i < tiles.len() && tiles[i].index_x == x && tiles[i].index_y == y
            ==> #[trigger] tile_is_stale(tiles[i], age)
}

pub open spec fn cell_requests(tiles: Seq<Tile>, x: int, y: int, size: Size, age: u64) -> Seq<BufferRequest> {
    if needs_request(tiles, x, y, age) {
        seq![BufferRequest { rect: spec_tile_rect(x, y, size), content_age: age }]
    } else {
        Seq::empty()
    }
}

/// The requests of row `y`, for columns `x0 .. x1`, left to right.
pub open spec fn row_requests(tiles: Seq<Tile>, y: int, x0: int, x1: int, size: Size, age: u64) -> Seq<BufferRequest>
    decreases x1 - x0,
{
    if x1 <= x0 {
        Seq::empty()
    } else {
        row_requests(tiles, y, x0, x1 - 1, size, age) + cell_requests(tiles, x1 - 1, y, size, age)
    }
}

/// The requests of rows `y0 .. y1` and columns `x0 .. x1`, row by row.
pub open spec fn block_requests(tiles: Seq<Tile>, x0: int, x1: int, y0: int, y1: int, size: Size, age: u64) -> Seq<BufferRequest>
    decreases y1 - y0,
{
    if y1 <= y0 {
        Seq::empty()
    } else {
        block_requests(tiles, x0, x1, y0, y1 - 1, size, age) + row_requests(tiles, y1 - 1, x0, x1, size, age)
    }
}

/// The region lies within the content of a layer of the given size.
pub open spec fn region_in_layer(region: Rect, size: Size) -> bool {
    &&& region.wf()
    &&& size.wf()
    &&& 0 <= region.left() && region.right() <= size.width
    &&& 0 <= region.top() && region.bottom() <= size.height
}

/// The requests for every tile that meets a non-empty region, row by row.
pub open spec fn spec_requests_in_rect(tiles: Seq<Tile>, region: Rect, size: Size, age: u64) -> Seq<BufferRequest> {
    if region.size.width <= 0 || region.size.height <= 0 {
        Seq::empty()
    } else {
        block_requests(
            tiles,
            region.left() / TILE_SIZE as int,
            (region.right() - 1) / TILE_SIZE as int + 1,
            region.top() / TILE_SIZE as int,
            (region.bottom() - 1) / TILE_SIZE as int + 1,
            size,
            age,
        )
    }
}

impl Tile {
    /// An empty tile at a grid position: no buffer, no texture.
    pub fn new(index_x: i32, index_y: i32) -> (r: Tile)
        ensures
            r.index_x == index_x,
            r.index_y == index_y,
            r.buffer is None,
            r.texture == Texture::spec_zero(),
            r.transform == (Transform { scale_x: 1, scale_y: 1, offset_x: 0, offset_y: 0 }),
    {
        Tile {
            index_x,
            index_y,
            buffer: None,
            texture: Texture::zero(),
            transform: Transform::identity(),
        }
    }

    pub fn is_stale(&self, age: u64) -> (r: bool)
        ensures
            r == tile_is_stale(*self, age),
    {
        match &self.buffer {
            Some(b) => b.content_age < age,
            None => true,
        }
    }
}

fn tile_rect(x: i32, y: i32, size: Size) -> (r: Rect)
    requires
        size.wf(),
        0 <= x,
        0 <= y,
        x * TILE_SIZE < size.width,
        y * TILE_SIZE < size.height,
    ensures
        r == spec_tile_rect(x as int, y as int, size),
        r.wf(),
{
    let left: i64 = x as i64 * TILE_SIZE as i64;
    let top: i64 = y as i64 * TILE_SIZE as i64;
    let right: i64 = if left + (TILE_SIZE as i64) < size.width as i64 { left + TILE_SIZE as i64 } else { size.width as i64 };
    let bottom: i64 = if top + (TILE_SIZE as i64) < size.height as i64 { top + TILE_SIZE as i64 } else { size.height as i64 };
    Rect {
        origin: Point { x: left as i32, y: top as i32 },
        size: Size { width: (right - left) as i32, height: (bottom - top) as i32 },
    }
}

/// Whether a tile takes `b` in place of what it holds: it does unless it
/// already has content at least as recent.
pub open spec fn accepts_buffer(t: Tile, b: LayerBuffer) -> bool {
    match t.buffer {
        Some(old) => b.content_age > old.content_age,
        None => true,
    }
}

/// The grid position of the tile that a buffer was painted for.
pub open spec fn buffer_cell(b: LayerBuffer) -> (int, int) {
    (b.rect.left() / TILE_SIZE as int, b.rect.top() / TILE_SIZE as int)
}

pub open spec fn at_cell(t: Tile, cell: (int, int)) -> bool {
    t.index_x == cell.0 && t.index_y == cell.1
}

/// `t` after taking buffer `b`: its old texture no longer matches.
pub open spec fn with_buffer(t: Tile, b: LayerBuffer) -> Tile {
    Tile { buffer: Some(b), texture: Texture::spec_zero(), ..t }
}

/// A tile's texture has a non-negative size and its buffer a valid
/// rectangle.
pub open spec fn tile_wf(t: Tile) -> bool {
    &&& t.texture.width >= 0
    &&& t.texture.height >= 0
    &&& t.buffer matches Some(b) ==> b.rect.wf()
}

impl TileGrid {
    /// Every tile is well formed and no two tiles share a grid position.
    pub open spec fn wf(&self) -> bool {
        &&& forall|i: int| 0 <= i < self.tiles@.len() ==> tile_wf(#[trigger] self.tiles@[i])
        &&& forall|i: int, j: int|
            0 <= i < self.tiles@.len() && 0 <= j < self.tiles@.len() && i != j
                ==> !(#[trigger] self.tiles@[i].index_x == #[trigger] self.tiles@[j].index_x
                    && self.tiles@[i].index_y == self.tiles@[j].index_y)
    }

    fn find_tile(&self, x: i32, y: i32) -> (r: Option<usize>)
        ensures
            r matches Some(i) ==> i < self.tiles@.len() && at_cell(self.tiles@[i as int], (x as int, y as int)),
            r is None ==> forall|i: int| 0 <= i < self.tiles@.len() ==> !at_cell(#[trigger] self.tiles@[i], (x as int, y as int)),
    {
        let mut i: usize = 0;
        while i < self.tiles.len()
            invariant
                i <= self.tiles@.len(),
                forall|j: int| 0 <= j < i ==> !at_cell(#[trigger] self.tiles@[j], (x as int, y as int)),
            decreases self.tiles@.len() - i,
        {
            if self.tiles[i].index_x == x && self.tiles[i].index_y == y {
                return Some(i);
            }
            i = i + 1;
        }
        None
    }

    /// Takes in a buffer painted for one tile. The tile keeps the more recent
    /// content; the buffer it lets go of joins the unused buffers.
    pub fn add_buffer(&mut self, buffer: LayerBuffer)
        requires
            old(self).wf(),
            buffer.rect.wf(),
            buffer.rect.origin.x >= 0,
            buffer.rect.origin.y >= 0,
        ensures
            final(self).wf(),
            ({
                let cell = buffer_cell(buffer);
                let tiles = old(self).tiles@;
                let unused = old(self).unused_buffers@;
                if exists|i: int| 0 <= i < tiles.len() && at_cell(#[trigger] tiles[i], cell) {
                    let i = choose|i: int| 0 <= i < tiles.len() && at_cell(#[trigger] tiles[i], cell);
                    if accepts_buffer(tiles[i], buffer) {
                        &&& final(self).tiles@ == tiles.update(i, with_buffer(tiles[i], buffer))
                        &&& final(self).unused_buffers@ == match tiles[i].buffer {
                            Some(b) => unused.push(b),
                            None => unused,
                        }
                    } else {
                        &&& final(self).tiles@ == tiles
                        &&& final(self).unused_buffers@ == unused.push(buffer)
                    }
                } else {
                    &&& final(self).tiles@ == tiles.push(with_buffer(
                        Tile {
                            index_x: cell.0 as i32,
                            index_y: cell.1 as i32,
                            buffer: None,
                            texture: Texture::spec_zero(),
                            transform: Transform { scale_x: 1, scale_y: 1, offset_x: 0, offset_y: 0 },
                        },
                        buffer,
                    ))
                    &&& final(self).unused_buffers@ == unused
                }
            }),
    {
        let x: i32 = buffer.rect.origin.x / TILE_SIZE;
        let y: i32 = buffer.rect.origin.y / TILE_SIZE;
        let ghost cell = (x as int, y as int);
        match self.find_tile(x, y) {
            Some(i) => {
                proof {
                    let c = choose|k: int| 0 <= k < self.tiles@.len() && at_cell(#[trigger] self.tiles@[k], cell);
                    assert(c == i as int);
                }
                let accepts = match &self.tiles[i].buffer {
                    Some(old) => buffer.content_age > old.content_age,
                    None => true,
                };
                if accepts {
                    let tile = &mut self.tiles[i];
                    let mut slot = Some(buffer);
                    std::mem::swap(&mut tile.buffer, &mut slot);
                    tile.texture = Texture::zero();
                    match slot {
                        Some(b) => self.unused_buffers.push(b),
                        None => {},
                    }
                } else {
                    self.unused_buffers.push(buffer);
                }
            },
            None => {
                let mut tile = Tile::new(x, y);
                tile.buffer = Some(buffer);
                self.tiles.push(tile);
            },
        }
    }

    /// Hands out the unused buffers and forgets them.
    pub fn take_unused_buffers(&mut self) -> (r: Vec<LayerBuffer>)
        ensures
            r@ == old(self).unused_buffers@,
            final(self).unused_buffers@.len() == 0,
            final(self).tiles == old(self).tiles,
    {
        let mut out: Vec<LayerBuffer> = Vec::new();
        std::mem::swap(&mut self.unused_buffers, &mut out);
        out
    }

    pub fn new() -> (r: TileGrid)
        ensures
            r.wf(),
            r.tiles@.len() == 0,
            r.unused_buffers@.len() == 0,
    {
        TileGrid { tiles: Vec::new(), unused_buffers: Vec::new() }
    }

    pub fn needs_request_at(&self, x: i32, y: i32, age: u64) -> (r: bool)
        ensures
            r == needs_request(self.tiles@, x as int, y as int, age),
    {
        let mut i: usize = 0;
        while i < self.tiles.len()
            invariant
                i <= self.tiles@.len(),
                forall|j: int|
                    0 <= j < i && self.tiles@[j].index_x == x && self.tiles@[j].index_y == y
                        ==> #[trigger] tile_is_stale(self.tiles@[j], age),
            decreases self.tiles@.len() - i,
        {
            let t = &self.tiles[i];
            if t.index_x == x && t.index_y == y && !t.is_stale(age) {
                return false;
            }
            i = i + 1;
        }
        true
    }

    /// Requests for every tile meeting `region` that has no content as recent
    /// as `age`, row by row and left to right.
    pub fn get_buffer_requests_in_rect(&self, region: &Rect, size: Size, age: u64) -> (r: Vec<BufferRequest>)
        requires
            region_in_layer(*region, size),
        ensures
            r@ == spec_requests_in_rect(self.tiles@, *region, size, age),
    {
        let mut out: Vec<BufferRequest> = Vec::new();
        if region.size.width <= 0 || region.size.height <= 0 {
            return out;
        }
        let x0: i32 = region.origin.x / TILE_SIZE;
        let x1: i32 = (region.origin.x + region.size.width - 1) / TILE_SIZE + 1;
        let y0: i32 = region.origin.y / TILE_SIZE;
        let y1: i32 = (region.origin.y + region.size.height - 1) / TILE_SIZE + 1;
        let ghost tiles = self.tiles@;
        let mut y: i32 = y0;
        while y < y1
            invariant
                region_in_layer(*region, size),
                region.size.width > 0,
                region.size.height > 0,
                x0 == region.left() / TILE_SIZE as int,
                x1 == (region.right() - 1) / TILE_SIZE as int + 1,
                y0 == region.top() / TILE_SIZE as int,
                y1 == (region.bottom() - 1) / TILE_SIZE as int + 1,
                y0 <= y <= y1,
                tiles == self.tiles@,
                out@ == block_requests(tiles, x0 as int, x1 as int, y0 as int, y as int, size, age),
            decreases y1 - y,
        {
            let mut x: i32 = x0;
            while x < x1
                invariant
                    region_in_layer(*region, size),
                    region.size.width > 0,
                    region.size.height > 0,
                    x0 == region.left() / TILE_SIZE as int,
                    x1 == (region.right() - 1) / TILE_SIZE as int + 1,
                    y0 == region.top() / TILE_SIZE as int,
                    y1 == (region.bottom() - 1) / TILE_SIZE as int + 1,
                    y0 <= y < y1,
                    x0 <= x <= x1,
                    tiles == self.tiles@,
                    out@ == block_requests(tiles, x0 as int, x1 as int, y0 as int, y as int, size, age)
                        + row_requests(tiles, y as int, x0 as int, x as int, size, age),
                decreases x1 - x,
            {
                if self.needs_request_at(x, y, age) {
                    let rect = tile_rect(x, y, size);
                    out.push(BufferRequest { rect, content_age: age });
                }
                assert(out@ =~= block_requests(tiles, x0 as int, x1 as int, y0 as int, y as int, size, age)
                    + row_requests(tiles, y as int, x0 as int, x + 1, size, age));
                x = x + 1;
            }
            assert(out@ =~= block_requests(tiles, x0 as int, x1 as int, y0 as int, y + 1, size, age));
            y = y + 1;
        }
        out
    }
}

} // verus!
