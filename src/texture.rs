//! GPU texture descriptors as the compositor sees them: a name, a storage
//! kind, a pixel size and an orientation. Name 0 is the "no content" sentinel.
use vstd::prelude::*;

verus! {

/// The pixel layout of painted content.
#[derive(Clone, Copy, Debug, PartialEq, Eq, Structural)]
pub enum Format {
    ARGB32Format,
    RGB24Format,
}

impl Format {
    /// Bytes that one pixel of this format occupies in an upload.
    pub fn bytes_per_pixel(&self) -> (r: u32)
        ensures
            r == (match self {
                Format::ARGB32Format => 4u32,
                Format::RGB24Format => 3u32,
            }),
    {
        match self {
            Format::ARGB32Format => 4,
            Format::RGB24Format => 3,
        }
    }
}

/// Whether a texture's content is stored upside down.
#[derive(Clone, Copy, Debug, PartialEq, Eq, Structural)]
pub enum Flip {
    /// The texture should not be flipped.
    NoFlip,
    /// The texture should be flipped vertically.
    VerticalFlip,
}

/// How a texture's storage is addressed.
#[derive(Clone, Copy, Debug, PartialEq, Eq, Structural)]
pub enum TextureTarget {
    /// A 2D texture sampled with normalized coordinates.
    TwoD,
    /// A rectangle texture of any size, sampled in pixel coordinates.
    Rectangle,
}

/// Sampling filter for a drawn texture.
#[derive(Clone, Copy, Debug, PartialEq, Eq, Structural)]
pub enum FilterMode {
    Nearest,
    Linear,
}

#[derive(Clone, Copy, Debug, PartialEq, Eq, Structural)]
pub struct Texture {
    /// The GPU name of the texture; 0 means no texture.
    pub id: u64,
    pub target: TextureTarget,
    pub width: i32,
    pub height: i32,
    pub flip: Flip,
}

impl Texture {
    pub open spec fn spec_zero() -> Texture {
        Texture { id: 0, target: TextureTarget::TwoD, width: 0, height: 0, flip: Flip::NoFlip }
    }

    /// The "no content" sentinel.
    pub fn zero() -> (r: Texture)
        ensures
            r == Texture::spec_zero(),
    {
        Texture { id: 0, target: TextureTarget::TwoD, width: 0, height: 0, flip: Flip::NoFlip }
    }

    pub fn is_zero(&self) -> (r: bool)
        ensures
            r == (self.id == 0),
    {
        self.id == 0
    }
}

/// The filter to sample `texture` with, given the horizontal and vertical
/// scale of the transform that maps the unit quad to device pixels:
/// nearest-neighbour exactly when one texel lands on one pixel.
pub open spec fn spec_filter_for(scale_x: int, scale_y: int, texture: Texture) -> FilterMode {
    if scale_x == texture.width as int && scale_y == texture.height as int {
        FilterMode::Nearest
    } else {
        FilterMode::Linear
    }
}

/// A quad drawn at exactly one texel per pixel is sampled nearest-neighbour;
/// one that magnifies the texture in either direction is sampled linearly.
pub proof fn lemma_filter_follows_scale(scale_x: int, scale_y: int, texture: Texture)
    ensures
        scale_x == texture.width && scale_y == texture.height ==> spec_filter_for(scale_x, scale_y, texture)
            == FilterMode::Nearest,
        scale_x > texture.width || scale_y > texture.height ==> spec_filter_for(scale_x, scale_y, texture)
            == FilterMode::Linear,
{
}

/// Chooses the sampling filter for a quad whose transform scales the unit
/// square by `scale_x` by `scale_y` device pixels.
pub fn filter_for(scale_x: i128, scale_y: i128, texture: &Texture) -> (r: FilterMode)
    ensures
        r == spec_filter_for(scale_x as int, scale_y as int, *texture),
{
    if scale_x == texture.width as i128 && scale_y == texture.height as i128 {
        FilterMode::Nearest
    } else {
        FilterMode::Linear
    }
}

} // verus!
