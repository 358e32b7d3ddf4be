//! Shareable native surfaces: pixel buffers with a process-wide numeric id,
//! kept in an explicit registry that is the single point of truth for their
//! release. A surface handle records whether this side of a cross-process
//! handoff owns the teardown (`will_leak == false`) or not.
//!
//! The registry holds each surface's bytes in this process: 4 bytes per
//! pixel, `4 * width` bytes per row, rows one after another. It is the
//! table that the platform's surface calls are made against.
use crate::geometry::Size;
use crate::texture::Texture;
use std::collections::HashMap;
use vstd::prelude::*;

verus! {

broadcast use vstd::std_specs::hash::group_hash_axioms;

/// What the registry knows of one surface: its size and the bytes last
/// uploaded into it.
pub struct SurfaceEntry {
    pub size: Size,
    pub pixels: Vec<u8>,
}

#[derive(Clone, Copy, Debug, PartialEq, Eq, Structural)]
pub enum SurfaceError {
    /// No live surface has the id: it was never created here or was destroyed.
    NotFound,
    /// Every id has been handed out.
    IdsExhausted,
    /// The surface has another size than the one asked for.
    WrongSize,
    /// The data does not hold exactly one full image of the surface.
    WrongLength,
}

/// Bytes per pixel of a surface.
pub const BYTES_PER_PIXEL: u32 = 4;

/// Bytes in one row of a surface of the given size.
pub open spec fn spec_bytes_per_row(size: Size) -> int {
    BYTES_PER_PIXEL * size.width
}

/// Bytes in a full image of a surface of the given size.
pub open spec fn spec_surface_len(size: Size) -> int {
    spec_bytes_per_row(size) * size.height
}

/// A size a surface can have: not negative, with a row whose byte count
/// fits in `i32`.
pub open spec fn surface_size_ok(size: Size) -> bool {
    size.wf() && size.width <= i32::MAX / 4
}

/// Every surface has a size it can have, and holds either no pixels yet or
/// exactly one full image.
pub open spec fn laid_out(m: Map<u32, (Size, Seq<u8>)>) -> bool {
    forall|id: u32| #[trigger] m.contains_key(id) ==> {
        &&& surface_size_ok(m[id].0)
        &&& (m[id].1.len() == 0 || m[id].1.len() == spec_surface_len(m[id].0))
    }
}

proof fn lemma_surface_len_bound(size: Size)
    requires
        size.wf(),
    ensures
        0 <= spec_surface_len(size) <= 0x4_0000_0000_0000_0000,
{
    let w = size.width as int;
    let h = size.height as int;
    assert(0 <= 4 * w * h <= 0x4_0000_0000_0000_0000) by (nonlinear_arith)
        requires
            0 <= w <= 0x7fff_ffff,
            0 <= h <= 0x7fff_ffff,
    ;
}

/// The number of bytes in a full image of a surface of the given size.
pub fn surface_len(size: Size) -> (r: u128)
    requires
        size.wf(),
    ensures
        r == spec_surface_len(size),
{
    proof {
        lemma_surface_len_bound(size);
        assert(4 * (size.width as int) * (size.height as int) == spec_surface_len(size));
    }
    BYTES_PER_PIXEL as u128 * size.width as u128 * size.height as u128
}

/// The table of live surfaces of this process, keyed by id.
pub struct SurfaceRegistry {
    surfaces: HashMap<u32, SurfaceEntry>,
    next_id: u32,
}

impl View for SurfaceRegistry {
    type V = Map<u32, (Size, Seq<u8>)>;

    closed spec fn view(&self) -> Map<u32, (Size, Seq<u8>)> {
        self.surfaces@.map_values(|e: SurfaceEntry| (e.size, e.pixels@))
    }
}

impl SurfaceRegistry {
    /// Every live id is positive and below the next id to hand out, and
    /// every surface is laid out.
    pub closed spec fn wf(&self) -> bool {
        &&& self.next_id >= 1
        &&& forall|id: u32| #[trigger] self.surfaces@.contains_key(id) ==> 1 <= id < self.next_id
        &&& laid_out(self@)
    }

    /// The id that the next created surface gets.
    pub closed spec fn next(&self) -> u32 {
        self.next_id
    }

    pub fn new() -> (r: SurfaceRegistry)
        ensures
            r.wf(),
            laid_out(r@),
            r@ == Map::<u32, (Size, Seq<u8>)>::empty(),
            r.next() == 1,
    {
        let r = SurfaceRegistry { surfaces: HashMap::new(), next_id: 1 };
        assert(r@ =~= Map::<u32, (Size, Seq<u8>)>::empty());
        r
    }

    pub fn contains(&self, id: u32) -> (r: bool)
        ensures
            r == self@.contains_key(id),
    {
        self.surfaces.contains_key(&id)
    }

    /// Registers a new surface of the given size, with no pixel data yet.
    fn register(&mut self, size: Size) -> (r: Result<u32, SurfaceError>)
        requires
            old(self).wf(),
            surface_size_ok(size),
        ensures
            final(self).wf(),
            old(self).next() == u32::MAX ==> r == Err::<u32, SurfaceError>(SurfaceError::IdsExhausted)
                && *final(self) == *old(self),
            old(self).next() < u32::MAX ==> r == Ok::<u32, SurfaceError>(old(self).next())
                && final(self)@ == old(self)@.insert(old(self).next(), (size, Seq::<u8>::empty()))
                && final(self).next() == old(self).next() + 1,
    {
        if self.next_id == u32::MAX {
            return Err(SurfaceError::IdsExhausted);
        }
        let id = self.next_id;
        self.surfaces.insert(id, SurfaceEntry { size, pixels: Vec::new() });
        self.next_id = id + 1;
        assert(self@ =~= old(self)@.insert(id, (size, Seq::<u8>::empty())));
        assert(laid_out(self@)) by {
            assert forall|k: u32| #[trigger] self@.contains_key(k) implies surface_size_ok(self@[k].0)
                && (self@[k].1.len() == 0 || self@[k].1.len() == spec_surface_len(self@[k].0)) by {
                if k != id {
                    assert(old(self)@.contains_key(k));
                }
            }
        }
        Ok(id)
    }
}

/// Whether a surface is kept in place or left to its owner when a handle
/// falls out of scope without `destroy`.
#[derive(Debug)]
pub struct IOSurfaceNativeSurface {
    io_surface_id: Option<u32>,
    will_leak: bool,
}

/// What reading a surface's pixels back yields.
pub open spec fn spec_read(registry: Map<u32, (Size, Seq<u8>)>, id: Option<u32>) -> Result<Seq<u8>, SurfaceError> {
    match id {
        Some(i) => if registry.contains_key(i) {
            Ok(registry[i].1)
        } else {
            Err(SurfaceError::NotFound)
        },
        None => Err(SurfaceError::NotFound),
    }
}

/// Whether `id` names a live surface of the registry.
pub open spec fn spec_live(registry: Map<u32, (Size, Seq<u8>)>, id: Option<u32>) -> bool {
    id matches Some(i) && registry.contains_key(i)
}

/// What binding the surface with `id` as a texture of `size` gives: it
/// must be live and have that size.
pub open spec fn spec_bind(registry: Map<u32, (Size, Seq<u8>)>, id: Option<u32>, size: Size) -> Result<(), SurfaceError> {
    if !spec_live(registry, id) {
        Err(SurfaceError::NotFound)
    } else if registry[id->0].0 != size {
        Err(SurfaceError::WrongSize)
    } else {
        Ok(())
    }
}

/// The registry after uploading `data` into the surface with `id`, which
/// must be live and get exactly one full image.
pub open spec fn spec_upload(registry: Map<u32, (Size, Seq<u8>)>, id: Option<u32>, data: Seq<u8>) -> Result<
    Map<u32, (Size, Seq<u8>)>,
    SurfaceError,
> {
    if !spec_live(registry, id) {
        Err(SurfaceError::NotFound)
    } else if data.len() != spec_surface_len(registry[id->0].0) {
        Err(SurfaceError::WrongLength)
    } else {
        Ok(registry.insert(id->0, (registry[id->0].0, data)))
    }
}

/// Once `destroy` has removed a surface, binding any handle with its id
/// fails as not found.
pub proof fn lemma_destroyed_surface_cannot_be_bound(
    before: Map<u32, (Size, Seq<u8>)>,
    after: Map<u32, (Size, Seq<u8>)>,
    destroyed: u32,
    other: IOSurfaceNativeSurface,
    size: Size,
)
    requires
        spec_live(before, Some(destroyed)),
        after == before.remove(destroyed),
        other.surface_id() == Some(destroyed),
    ensures
        spec_bind(after, other.surface_id(), size) == Err::<(), SurfaceError>(SurfaceError::NotFound),
{
}

/// After `new` registers a surface and `from_existing_id` wraps its id, the
/// received handle sees the new surface's (empty) pixels, and a full image
/// uploaded through the created handle reads back through the received one.
pub proof fn lemma_received_handle_shares_pixels(
    before: Map<u32, (Size, Seq<u8>)>,
    after: Map<u32, (Size, Seq<u8>)>,
    id: u32,
    size: Size,
    created: IOSurfaceNativeSurface,
    received: IOSurfaceNativeSurface,
    data: Seq<u8>,
)
    requires
        !before.contains_key(id),
        after == before.insert(id, (size, Seq::<u8>::empty())),
        created.surface_id() == Some(id),
        received.surface_id() == Some(id),
    ensures
        spec_read(after, received.surface_id()) == Ok::<Seq<u8>, SurfaceError>(Seq::empty()),
        spec_bind(after, received.surface_id(), size) == Ok::<(), SurfaceError>(()),
        data.len() == spec_surface_len(size) ==> (spec_upload(after, created.surface_id(), data) matches Ok(m)
            && spec_read(m, received.surface_id()) == Ok::<Seq<u8>, SurfaceError>(data)),
{
}

/// A successful upload reads back unchanged.
pub proof fn lemma_upload_then_read_round_trip(registry: Map<u32, (Size, Seq<u8>)>, id: Option<u32>, data: Seq<u8>)
    requires
        spec_upload(registry, id, data) is Ok,
    ensures
        spec_read(spec_upload(registry, id, data)->Ok_0, id) == Ok::<Seq<u8>, SurfaceError>(data),
{
}

impl IOSurfaceNativeSurface {
    pub closed spec fn surface_id(&self) -> Option<u32> {
        self.io_surface_id
    }

    pub closed spec fn leaks(&self) -> bool {
        self.will_leak
    }

    /// Allocates a surface of the given size and registers it under a fresh
    /// id. The handle starts as not owning the teardown.
    pub fn new(registry: &mut SurfaceRegistry, size: Size) -> (r: Result<IOSurfaceNativeSurface, SurfaceError>)
        requires
            old(registry).wf(),
            surface_size_ok(size),
        ensures
            final(registry).wf(),
            laid_out(final(registry)@),
            old(registry).next() == u32::MAX <==> r is Err,
            r matches Err(e) ==> e == SurfaceError::IdsExhausted && *final(registry) == *old(registry),
            r matches Ok(s) ==> {
                &&& s.surface_id() == Some(old(registry).next())
                &&& !old(registry)@.contains_key(old(registry).next())
                &&& s.leaks()
                &&& final(registry)@ == old(registry)@.insert(old(registry).next(), (size, Seq::<u8>::empty()))
                &&& final(registry).next() == old(registry).next() + 1
            },
    {
        match registry.register(size) {
            Ok(id) => Ok(IOSurfaceNativeSurface { io_surface_id: Some(id), will_leak: true }),
            Err(e) => Err(e),
        }
    }

    /// Wraps an id received from elsewhere, without allocating. Ownership of
    /// the teardown is not assumed.
    pub fn from_existing_id(id: u32) -> (r: IOSurfaceNativeSurface)
        ensures
            r.surface_id() == Some(id),
            r.leaks(),
    {
        IOSurfaceNativeSurface { io_surface_id: Some(id), will_leak: true }
    }

    /// Attaches the surface as the backing store of `texture`, which is
    /// `size` pixels large; fails when the surface is not live or has
    /// another size.
    pub fn bind_to_texture(
        &self,
        registry: &SurfaceRegistry,
        _context: &NativeCompositingGraphicsContext,
        _texture: &Texture,
        size: Size,
    ) -> (r: Result<(), SurfaceError>)
        ensures
            r == spec_bind(registry@, self.surface_id(), size),
    {
        let id = match self.io_surface_id {
            Some(id) => id,
            None => return Err(SurfaceError::NotFound),
        };
        match registry.surfaces.get(&id) {
            Some(entry) => if entry.size == size {
                Ok(())
            } else {
                Err(SurfaceError::WrongSize)
            },
            None => Err(SurfaceError::NotFound),
        }
    }

    /// Copies one full image, `data`, into the surface's backing store.
    pub fn upload(&self, registry: &mut SurfaceRegistry, data: &[u8]) -> (r: Result<(), SurfaceError>)
        requires
            old(registry).wf(),
        ensures
            final(registry).wf(),
            laid_out(final(registry)@),
            final(registry).next() == old(registry).next(),
            match spec_upload(old(registry)@, self.surface_id(), data@) {
                Ok(m) => r is Ok && final(registry)@ == m,
                Err(e) => r == Err::<(), SurfaceError>(e) && *final(registry) == *old(registry),
            },
    {
        let id = match self.io_surface_id {
            Some(id) => id,
            None => return Err(SurfaceError::NotFound),
        };
        let size = match registry.surfaces.get(&id) {
            Some(entry) => entry.size,
            None => return Err(SurfaceError::NotFound),
        };
        if data.len() as u128 != surface_len(size) {
            return Err(SurfaceError::WrongLength);
        }
        let mut pixels: Vec<u8> = Vec::new();
        let mut i: usize = 0;
        while i < data.len()
            invariant
                i <= data@.len(),
                pixels@ == data@.subrange(0, i as int),
            decreases data@.len() - i,
        {
            pixels.push(data[i]);
            i = i + 1;
        }
        assert(pixels@ =~= data@);
        registry.surfaces.insert(id, SurfaceEntry { size, pixels });
        assert(registry@ =~= old(registry)@.insert(id, (size, data@)));
        assert(laid_out(registry@)) by {
            assert forall|k: u32| #[trigger] registry@.contains_key(k) implies surface_size_ok(registry@[k].0)
                && (registry@[k].1.len() == 0 || registry@[k].1.len() == spec_surface_len(registry@[k].0)) by {
                if k != id {
                    assert(old(registry)@.contains_key(k));
                }
            }
        }
        Ok(())
    }

    /// Reads back the bytes last uploaded into the surface.
    pub fn read_pixels(&self, registry: &SurfaceRegistry) -> (r: Result<Vec<u8>, SurfaceError>)
        ensures
            match r {
                Ok(v) => spec_read(registry@, self.surface_id()) == Ok::<Seq<u8>, SurfaceError>(v@),
                Err(e) => spec_read(registry@, self.surface_id()) == Err::<Seq<u8>, SurfaceError>(e),
            },
    {
        let id = match self.io_surface_id {
            Some(id) => id,
            None => return Err(SurfaceError::NotFound),
        };
        match registry.surfaces.get(&id) {
            Some(entry) => {
                let mut out: Vec<u8> = Vec::new();
                let mut i: usize = 0;
                while i < entry.pixels.len()
                    invariant
                        i <= entry.pixels@.len(),
                        out@ == entry.pixels@.subrange(0, i as int),
                    decreases entry.pixels@.len() - i,
                {
                    out.push(entry.pixels[i]);
                    i = i + 1;
                }
                assert(out@ =~= entry.pixels@);
                Ok(out)
            },
            None => Err(SurfaceError::NotFound),
        }
    }

    /// The surface's id, or 0 once it has been destroyed.
    pub fn get_id(&self) -> (r: u32)
        ensures
            r == (match self.surface_id() {
                Some(id) => id,
                None => 0u32,
            }),
    {
        match self.io_surface_id {
            None => 0,
            Some(id) => id,
        }
    }

    /// Removes the surface from the registry and releases it. The handle no
    /// longer names any surface afterwards.
    pub fn destroy(&mut self, registry: &mut SurfaceRegistry)
        requires
            old(registry).wf(),
            spec_live(old(registry)@, old(self).surface_id()),
        ensures
            final(registry).wf(),
            laid_out(final(registry)@),
            final(registry).next() == old(registry).next(),
            final(registry)@ == old(registry)@.remove(old(self).surface_id()->0),
            final(self).surface_id() is None,
            !final(self).leaks(),
    {
        let id = self.io_surface_id.unwrap();
        registry.surfaces.remove(&id);
        assert(registry@ =~= old(registry)@.remove(id));
        assert(laid_out(registry@)) by {
            assert forall|k: u32| #[trigger] registry@.contains_key(k) implies surface_size_ok(registry@[k].0)
                && (registry@[k].1.len() == 0 || registry@[k].1.len() == spec_surface_len(registry@[k].0)) by {
                assert(old(registry)@.contains_key(k));
            }
        }
        self.io_surface_id = None;
        self.mark_wont_leak();
    }

    /// Hands the teardown to the other side of a handoff.
    pub fn mark_will_leak(&mut self)
        ensures
            final(self).surface_id() == old(self).surface_id(),
            final(self).leaks(),
    {
        self.will_leak = true;
    }

    /// Takes the teardown on this side of a handoff.
    pub fn mark_wont_leak(&mut self)
        ensures
            final(self).surface_id() == old(self).surface_id(),
            !final(self).leaks(),
    {
        self.will_leak = false;
    }

    pub fn will_leak(&self) -> (r: bool)
        ensures
            r == self.leaks(),
    {
        self.will_leak
    }

    /// Whether letting this handle go without `destroy` is in order: either
    /// the teardown belongs elsewhere or the surface is already released.
    pub fn may_drop_without_destroy(&self) -> (r: bool)
        ensures
            r == (self.leaks() || self.surface_id() is None),
    {
        self.will_leak || self.io_surface_id.is_none()
    }
}

/// The platform compositing context that surfaces are bound in.
#[derive(Clone, Copy, Debug)]
pub struct NativeCompositingGraphicsContext {
    _contents: (),
}

impl NativeCompositingGraphicsContext {
    pub fn new() -> (r: NativeCompositingGraphicsContext) {
        NativeCompositingGraphicsContext { _contents: () }
    }
}

} // verus!
