//! Textures that are embedded as images.

use crate::text::concat;
use vstd::prelude::*;

verus! {

/// Why a texture could not be embedded.
#[derive(Debug)]
#[allow(inconsistent_fields)]
pub enum TextureError {
    Missing { path: String },
    Decode { path: String, message: String },
    Encode { path: String, message: String },
}

/// The message of an error.
pub open spec fn texture_error_text(e: TextureError) -> Seq<char> {
    match e {
        TextureError::Missing { path } => path@ + ": not found in any source VPK"@,
        TextureError::Decode { path, message } => path@ + ": failed to decode: "@ + message@,
        TextureError::Encode { path, message } => path@ + ": failed to encode: "@ + message@,
    }
}

impl TextureError {
    /// The message.
    pub fn message(&self) -> (r: String)
        ensures
            r@ == texture_error_text(*self),
    {
        match self {
            TextureError::Missing { path } => concat(
                path.as_str(),
                ": not found in any source VPK",
            ),
            TextureError::Decode { path, message } => {
                let mut r: String = concat(path.as_str(), ": failed to decode: ");
                r.append(message.as_str());
                r
            },
            TextureError::Encode { path, message } => {
                let mut r: String = concat(path.as_str(), ": failed to encode: ");
                r.append(message.as_str());
                r
            },
        }
    }
}

/// How large and how good an embedded image may be.
#[derive(Debug, Clone, Copy, PartialEq, Eq, Structural)]
pub struct TextureBudget {
    pub max_side: u32,
    pub jpeg_quality: u8,
}

impl Default for TextureBudget {
    fn default() -> (r: TextureBudget)
        ensures
            r.max_side == 1024,
            r.jpeg_quality == 90,
    {
        TextureBudget { max_side: 1024, jpeg_quality: 90 }
    }
}

/// How an image is encoded.
#[derive(Debug, Clone, Copy, PartialEq, Eq, Structural)]
pub enum EncodedFormat {
    Jpeg,
    Png,
}

/// An encoded image.
#[derive(Debug)]
pub struct EncodedTexture {
    pub bytes: Vec<u8>,
    pub mime_type: &'static str,
    pub width: u32,
    pub height: u32,
}

/// The type of an encoding.
pub open spec fn mime_type_of(f: EncodedFormat) -> Seq<char> {
    match f {
        EncodedFormat::Jpeg => "image/jpeg"@,
        EncodedFormat::Png => "image/png"@,
    }
}

/// Pixels of four bytes with full opacity. What is left over after the last whole pixel stays.
pub open spec fn opaque(rgba: Seq<u8>) -> Seq<u8> {
    Seq::new(
        rgba.len(),
        |i: int|
            if i % 4 == 3 {
                255u8
            } else {
                rgba[i]
            },
    )
}

/// The pixels to encode: those of a normal map lose their fourth channel, which holds roughness,
/// so that they need no transparency.
pub fn pixels_to_encode(rgba: Vec<u8>, is_normal: bool) -> (r: Vec<u8>)
    ensures
        r@ == if is_normal {
            opaque(rgba@)
        } else {
            rgba@
        },
{
    if !is_normal {
        return rgba;
    }
    let mut out: Vec<u8> = Vec::new();
    let mut i: usize = 0;
    while i < rgba.len()
        invariant
            i <= rgba@.len(),
            out@ =~= opaque(rgba@).take(i as int),
        decreases rgba@.len() - i,
    {
        if i % 4 == 3 {
            out.push(255);
        } else {
            out.push(rgba[i]);
        }
        i += 1;
    }
    assert(out@ =~= opaque(rgba@));
    out
}

/// An encoded image, with the type of its encoding.
pub fn encoded_texture(bytes: Vec<u8>, format: EncodedFormat, width: u32, height: u32) -> (r:
    EncodedTexture)
    ensures
        r.bytes@ == bytes@,
        r.mime_type@ == mime_type_of(format),
        r.width == width,
        r.height == height,
{
    EncodedTexture {
        bytes,
        mime_type: match format {
            EncodedFormat::Jpeg => "image/jpeg",
            EncodedFormat::Png => "image/png",
        },
        width,
        height,
    }
}

} // verus!
