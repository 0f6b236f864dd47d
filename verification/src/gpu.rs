use vstd::prelude::*;

use crate::error::LoadError;

verus! {

/// The storage format a decoded image uploads as, by channel layout.
#[derive(Clone, Copy, Debug, PartialEq, Eq, Structural)]
pub enum TextureFormat {
    /// One channel: the red channel.
    Red,
    /// Two channels: red and green.
    RedGreen,
    /// Three channels.
    Rgb,
    /// Four channels.
    Rgba,
}

/// The format a pixel buffer of `channels` channels uploads as, or an
/// unsupported-format failure for any other layout.
pub open spec fn texture_format_spec(channels: int) -> Result<TextureFormat, LoadError> {
    if channels == 1 {
        Ok(TextureFormat::Red)
    } else if channels == 2 {
        Ok(TextureFormat::RedGreen)
    } else if channels == 3 {
        Ok(TextureFormat::Rgb)
    } else if channels == 4 {
        Ok(TextureFormat::Rgba)
    } else {
        Err(LoadError::UnsupportedFormat)
    }
}

/// Maps a decoded image's channel count to the storage format it uploads
/// as: one channel to red, two to red-green, three and four to the full
/// layouts, anything else to an unsupported-format failure.
pub fn texture_format(channels: usize) -> (r: Result<TextureFormat, LoadError>)
    ensures
        r == texture_format_spec(channels as int),
{
    if channels == 1 {
        Ok(TextureFormat::Red)
    } else if channels == 2 {
        Ok(TextureFormat::RedGreen)
    } else if channels == 3 {
        Ok(TextureFormat::Rgb)
    } else if channels == 4 {
        Ok(TextureFormat::Rgba)
    } else {
        Err(LoadError::UnsupportedFormat)
    }
}

/// The byte stride of one vertex as uploaded: eight 4-byte scalars —
/// three for the position, three for the normal, two for the texture
/// coordinate.
pub fn vertex_stride() -> (r: usize)
    ensures
        r == 32,
{
    32
}

/// The byte offset of the position inside one vertex: the first field.
pub fn position_offset() -> (r: usize)
    ensures
        r == 0,
{
    0
}

/// The byte offset of the normal inside one vertex: after the three
/// position scalars.
pub fn normal_offset() -> (r: usize)
    ensures
        r == 12,
{
    12
}

/// The byte offset of the texture coordinate inside one vertex: after
/// the position and normal scalars.
pub fn tex_coords_offset() -> (r: usize)
    ensures
        r == 24,
{
    24
}

} // verus!
