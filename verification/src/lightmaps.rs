//! Lightmaps of the world: which are written out, at which level, under which name, and what is
//! written for readers that lack the compressed formats.

use crate::codec::sha256;
use crate::native_texture::{RawMip, VTexFormat};
use crate::source::compiled_path;
use crate::text::{base_name, concat, decimal, eq_ignore_ascii_case, hex, trim_suffix};
use vstd::prelude::*;

verus! {

/// One lightmap to write.
#[derive(Debug)]
pub struct LightmapFile {
    pub file_name: String,
    pub bytes: Vec<u8>,
    pub format: &'static str,
    pub width: u32,
    pub height: u32,
    pub mip_level: u32,
    /// The digest of the bytes, in hexadecimal.
    pub sha256: String,
    pub byte_length: usize,
}

/// A [`LightmapFile`] as plain values.
pub struct LightmapView {
    pub file_name: Seq<char>,
    pub bytes: Seq<u8>,
    pub format: Seq<char>,
    pub width: u32,
    pub height: u32,
    pub mip_level: u32,
    pub sha256: Seq<char>,
    pub byte_length: usize,
}

impl View for LightmapFile {
    type V = LightmapView;

    open spec fn view(&self) -> LightmapView {
        LightmapView {
            file_name: self.file_name@,
            bytes: self.bytes@,
            format: self.format@,
            width: self.width,
            height: self.height,
            mip_level: self.mip_level,
            sha256: self.sha256@,
            byte_length: self.byte_length,
        }
    }
}

/// The name of a block format that a reader can take as it is.
pub open spec fn block_format(format: VTexFormat) -> Option<Seq<char>> {
    match format {
        VTexFormat::Bc6H => Some("BC6H_UF16"@),
        VTexFormat::Bc7 => Some("BC7"@),
        VTexFormat::Ati1N => Some("BC4"@),
        VTexFormat::Ati2N => Some("BC5"@),
        VTexFormat::Dxt1 => Some("BC1"@),
        VTexFormat::Dxt5 => Some("BC3"@),
        _ => None,
    }
}

/// The text behind an optional name.
pub open spec fn opt_name(s: Option<&'static str>) -> Option<Seq<char>> {
    match s {
        Some(s) => Some(s@),
        None => None,
    }
}

/// The name of a block format that a reader can take as it is.
pub fn compressed_format_name(format: VTexFormat) -> (r: Option<&'static str>)
    ensures
        opt_name(r) == block_format(format),
{
    match format {
        VTexFormat::Bc6H => Some("BC6H_UF16"),
        VTexFormat::Bc7 => Some("BC7"),
        VTexFormat::Ati1N => Some("BC4"),
        VTexFormat::Ati2N => Some("BC5"),
        VTexFormat::Dxt1 => Some("BC1"),
        VTexFormat::Dxt5 => Some("BC3"),
        _ => None,
    }
}

/// The name of a lightmap: the last part of its path, without the extension.
pub open spec fn plain_name(path: Seq<char>) -> Seq<char> {
    crate::text::without_suffix(crate::text::last_segment(path), ".vtex"@)
}

/// The first lightmap with a name, from `from` on.
pub open spec fn named_from(v: Seq<String>, name: Seq<char>, from: int) -> Option<String>
    decreases v.len() - from,
{
    if from < 0 || from >= v.len() {
        None
    } else if crate::text::same_ignoring_case(plain_name(v[from]@), name) {
        Some(v[from])
    } else {
        named_from(v, name, from + 1)
    }
}

/// The first lightmap with a name, whatever its directory and the case of its letters.
pub fn find_by_basename<'a>(light_maps: &'a Vec<String>, name: &str) -> (r: Option<&'a String>)
    ensures
        match r {
            Some(p) => named_from(light_maps@, name@, 0) == Some(*p),
            None => named_from(light_maps@, name@, 0) is None,
        },
{
    let mut i: usize = 0;
    while i < light_maps.len()
        invariant
            i <= light_maps@.len(),
            named_from(light_maps@, name@, 0) == named_from(light_maps@, name@, i as int),
        decreases light_maps@.len() - i,
    {
        let base: String = base_name(light_maps[i].as_str());
        let plain: String = trim_suffix(base.as_str(), ".vtex");
        if eq_ignore_ascii_case(plain.as_str(), name) {
            return Some(&light_maps[i]);
        }
        i += 1;
    }
    None
}

/// A width halved `level` times.
pub open spec fn halved(width: int, level: int) -> int
    decreases level,
{
    if level <= 0 {
        width
    } else {
        halved(width, level - 1) / 2
    }
}

/// The width of a level; at least 1.
pub open spec fn level_width(width: int, level: int) -> int {
    if halved(width, level) < 1 {
        1
    } else {
        halved(width, level)
    }
}

/// The first level, from `from` on, that is no wider than the limit; the last where there is none.
pub open spec fn narrow_level(width: int, levels: int, limit: int, from: int) -> int
    decreases levels - from,
{
    if from >= levels {
        if levels > 0 {
            levels - 1
        } else {
            0
        }
    } else if level_width(width, from) <= limit {
        from
    } else {
        narrow_level(width, levels, limit, from + 1)
    }
}

/// The level of the irradiance lightmap to write: the whole of it in high quality, else the first
/// level that is no wider than 4096.
pub fn pick_irradiance_level(width: u16, num_mip_levels: u8, high_quality: bool) -> (r: u32)
    ensures
        high_quality ==> r == 0,
        !high_quality ==> r == narrow_level(width as int, num_mip_levels as int, 4096, 0),
{
    if high_quality {
        return 0;
    }
    let mut level: u32 = 0;
    let mut w: u32 = width as u32;
    while level < num_mip_levels as u32
        invariant
            !high_quality,
            level <= num_mip_levels,
            w == halved(width as int, level as int),
            narrow_level(width as int, num_mip_levels as int, 4096, 0) == narrow_level(
                width as int,
                num_mip_levels as int,
                4096,
                level as int,
            ),
        decreases num_mip_levels - level,
    {
        if w <= 4096 {
            return level;
        }
        w = w / 2;
        level += 1;
    }
    if num_mip_levels > 0 {
        num_mip_levels as u32 - 1
    } else {
        0
    }
}

/// A lightmap to read.
#[derive(Debug, Clone)]
pub struct LightmapRequest {
    /// The path of the compiled texture.
    pub path: String,
    pub name: &'static str,
    /// The level to write; where there is none, [`pick_irradiance_level`] picks it.
    pub level: Option<u32>,
}

/// A [`LightmapRequest`] as plain values.
pub struct RequestView {
    pub path: Seq<char>,
    pub name: Seq<char>,
    pub level: Option<u32>,
}

impl View for LightmapRequest {
    type V = RequestView;

    open spec fn view(&self) -> RequestView {
        RequestView { path: self.path@, name: self.name@, level: self.level }
    }
}

/// The views of a list of requests.
pub open spec fn request_views(v: Seq<LightmapRequest>) -> Seq<RequestView> {
    Seq::new(v.len(), |i: int| v[i]@)
}

/// The request for one lightmap, where the world lists it.
pub open spec fn request_for(light_maps: Seq<String>, name: Seq<char>, level: Option<u32>) -> Seq<
    RequestView,
> {
    match named_from(light_maps, name, 0) {
        Some(p) => Seq::<RequestView>::empty().push(
            RequestView { path: crate::source::compiled(p@), name, level },
        ),
        None => Seq::empty(),
    }
}

/// The lightmaps to write, in order. One that the world does not list is left out.
pub open spec fn requests_of(light_maps: Seq<String>) -> Seq<RequestView> {
    request_for(light_maps, "irradiance"@, None) + request_for(
        light_maps,
        "direct_light_shadows"@,
        Some(0u32),
    ) + request_for(light_maps, "directional_irradiance"@, Some(0u32))
}

/// Adds the request for one lightmap.
fn add_request(
    out: &mut Vec<LightmapRequest>,
    light_maps: &Vec<String>,
    name: &'static str,
    level: Option<u32>,
)
    ensures
        request_views(final(out)@) == request_views(old(out)@) + request_for(
            light_maps@,
            name@,
            level,
        ),
{
    let ghost before = request_views(out@);
    match find_by_basename(light_maps, name) {
        Some(p) => {
            out.push(LightmapRequest { path: compiled_path(p.as_str()), name, level });
        },
        None => {},
    }
    assert(request_views(out@) =~= before + request_for(light_maps@, name@, level));
}

/// The lightmaps to write.
pub fn lightmap_requests(light_maps: &Vec<String>) -> (r: Vec<LightmapRequest>)
    ensures
        request_views(r@) == requests_of(light_maps@),
{
    let mut out: Vec<LightmapRequest> = Vec::new();
    assert(request_views(out@) =~= Seq::<RequestView>::empty());
    add_request(&mut out, light_maps, "irradiance", None);
    add_request(&mut out, light_maps, "direct_light_shadows", Some(0));
    add_request(&mut out, light_maps, "directional_irradiance", Some(0));
    assert(request_views(out@) =~= requests_of(light_maps@));
    out
}

/// The file of a lightmap.
pub open spec fn lightmap_file_name(name: Seq<char>, level: u32) -> Seq<char> {
    "render_lm_"@ + name + "_"@ + crate::text::decimal_digits(level as nat) + ".bin"@
}

/// The message for a format that no reader takes as it is.
pub open spec fn unmapped_text(path: Seq<char>, format: Seq<char>) -> Seq<char> {
    path + ": format "@ + format
        + " has no known WebGL2 compressed-texture mapping, not writing a raw block file"@
}

/// The message for a format that no reader takes as it is.
pub fn unmapped(path: &str, format_name: &str) -> (r: String)
    ensures
        r@ == unmapped_text(path@, format_name@),
{
    let mut e: String = concat(path, ": format ");
    e.append(format_name);
    e.append(" has no known WebGL2 compressed-texture mapping, not writing a raw block file");
    e
}

/// The lightmap to write from one level as it is stored.
pub open spec fn lightmap_of(
    name: Seq<char>,
    level: u32,
    format: Seq<char>,
    width: u32,
    height: u32,
    bytes: Seq<u8>,
) -> LightmapView {
    LightmapView {
        file_name: lightmap_file_name(name, level),
        bytes,
        format,
        width,
        height,
        mip_level: level,
        sha256: crate::text::hex_text(crate::codec::sha256_of(bytes)),
        byte_length: bytes.len() as usize,
    }
}

/// The lightmap to write from one level as it is stored. A format that no reader takes is an error,
/// and nothing is written.
pub fn load_raw(
    path: &str,
    name: &str,
    level: u32,
    raw: RawMip,
    format: VTexFormat,
    format_name: &str,
) -> (r: Result<LightmapFile, String>)
    ensures
        match r {
            Ok(f) => block_format(format) matches Some(n) && f@ == lightmap_of(
                name@,
                level,
                n,
                raw.width,
                raw.height,
                raw.bytes@,
            ),
            Err(e) => block_format(format) is None && e@ == unmapped_text(path@, format_name@),
        },
{
    let format: &'static str = match compressed_format_name(format) {
        Some(f) => f,
        None => {
            return Err(unmapped(path, format_name));
        },
    };
    let digest: [u8; 32] = sha256(raw.bytes.as_slice());
    let mut file_name: String = concat("render_lm_", name);
    file_name.append("_");
    file_name.append(decimal(level as u64).as_str());
    file_name.append(".bin");
    Ok(
        LightmapFile {
            file_name,
            byte_length: raw.bytes.len(),
            bytes: raw.bytes,
            format,
            width: raw.width,
            height: raw.height,
            mip_level: level,
            sha256: hex(digest.as_slice()),
        },
    )
}

/// Half of a side, rounded up; at least 1.
pub open spec fn half_up(n: int) -> int {
    if n <= 1 {
        1
    } else {
        (n + 1) / 2
    }
}

/// Half of a side, rounded up; at least 1.
pub fn half_side(n: u32) -> (r: u32)
    ensures
        r == half_up(n as int),
{
    if n <= 1 {
        1
    } else {
        n / 2 + n % 2
    }
}

/// The longest side of the fallback of the irradiance lightmap.
pub const IRRADIANCE_FALLBACK_SIDE: u32 = 2048;

/// The sides after the next halving of an image that is too large; none where it is not.
pub fn next_halving(width: u32, height: u32, limit: u32) -> (r: Option<(u32, u32)>)
    ensures
        match r {
            Some(p) => {
                &&& width > limit || height > limit
                &&& p.0 == half_up(width as int)
                &&& p.1 == half_up(height as int)
            },
            None => width <= limit && height <= limit,
        },
{
    if width > limit || height > limit {
        Some((half_side(width), half_side(height)))
    } else {
        None
    }
}

/// Halving comes to an end: where the limit is at least 1, the longer side of an image that is too
/// large gets shorter.
pub proof fn halving_shortens(w: int, h: int, limit: int)
    requires
        w >= 0,
        h >= 0,
        limit >= 1,
        w > limit || h > limit,
    ensures
        half_up(w) < w || half_up(w) < h,
        half_up(h) < w || half_up(h) < h,
{
}

/// A lightmap for readers that lack the compressed format.
#[derive(Debug)]
pub struct FallbackFile {
    pub file_name: String,
    pub bytes: Vec<u8>,
    pub width: u32,
    pub height: u32,
    pub byte_length: usize,
    /// How the channels are to be read.
    pub encoding: &'static str,
    /// The range of a shared multiplier, as the bits of a single.
    pub rgbm_range: Option<u32>,
    pub decode: &'static str,
}

/// The bits of the single 8, the range of the irradiance fallback's multiplier.
pub const IRRADIANCE_RGBM_RANGE: u32 = 0x4100_0000;

/// The fallback of the irradiance lightmap.
pub fn irradiance_fallback(bytes: Vec<u8>, width: u32, height: u32) -> (r: FallbackFile)
    ensures
        r.file_name@ == "render_lm_irradiance_fallback.png"@,
        r.bytes@ == bytes@,
        r.width == width,
        r.height == height,
        r.byte_length == bytes@.len(),
        r.encoding@ == "RGBM8"@,
        r.rgbm_range == Some(IRRADIANCE_RGBM_RANGE),
        r.decode@ == "linear = rgb*a*8; PNG is linear, not sRGB"@,
{
    FallbackFile {
        file_name: "render_lm_irradiance_fallback.png".to_owned(),
        byte_length: bytes.len(),
        bytes,
        width,
        height,
        encoding: "RGBM8",
        rgbm_range: Some(IRRADIANCE_RGBM_RANGE),
        decode: "linear = rgb*a*8; PNG is linear, not sRGB",
    }
}

/// The fallback of the sun shadow lightmap.
pub fn shadow_fallback(bytes: Vec<u8>, width: u32, height: u32) -> (r: FallbackFile)
    ensures
        r.file_name@ == "render_lm_direct_light_shadows_fallback.png"@,
        r.bytes@ == bytes@,
        r.width == width,
        r.height == height,
        r.byte_length == bytes@.len(),
        r.encoding@ == "RGBA8"@,
        r.rgbm_range is None,
        r.decode@ == "same channels as the raw file; vis = 1 - channel[bakedShadowChannel]"@,
{
    FallbackFile {
        file_name: "render_lm_direct_light_shadows_fallback.png".to_owned(),
        byte_length: bytes.len(),
        bytes,
        width,
        height,
        encoding: "RGBA8",
        rgbm_range: None,
        decode: "same channels as the raw file; vis = 1 - channel[bakedShadowChannel]",
    }
}

/// The lightmaps that have a fallback: the light, and the shadow of the sun.
pub open spec fn fallback_requests_of(light_maps: Seq<String>) -> (Option<String>, Option<String>) {
    (
        named_from(light_maps, "irradiance"@, 0),
        named_from(light_maps, "direct_light_shadows"@, 0),
    )
}

/// The paths of the lightmaps that have a fallback: the light, and the shadow of the sun.
pub fn fallback_requests<'a>(light_maps: &'a Vec<String>) -> (r: (
    Option<&'a String>,
    Option<&'a String>,
))
    ensures
        (crate::world::referred(r.0), crate::world::referred(r.1)) == fallback_requests_of(
            light_maps@,
        ),
{
    (
        find_by_basename(light_maps, "irradiance"),
        find_by_basename(light_maps, "direct_light_shadows"),
    )
}

} // verus!
