//! What the catalog of textures and the lightmaps hold.

use crate::json::JsonView;
use crate::native_texture::{
    CatalogView, Codec, CodecFlags, ColorSpace, EntryView, LevelInfo, LoadStep, Loaded, MipView,
    NativeFormat, TextureHeader, VTexFormat,
};
use vstd::arithmetic::power2::pow2;
use vstd::prelude::*;

verus! {

/// How a texture is coded goes by its flags, the first that is set.
pub proof fn the_first_flag_tells_the_coding(f: CodecFlags)
    ensures
        f.hemi_oct_rb ==> crate::native_texture::codec_of(f) == Codec::HemiOct,
        !f.hemi_oct_rb && f.dxt5nm ==> crate::native_texture::codec_of(f) == Codec::Dxt5nm,
        !f.hemi_oct_rb && !f.dxt5nm && f.ycocg ==> crate::native_texture::codec_of(f)
            == Codec::YCoCg,
        !f.hemi_oct_rb && !f.dxt5nm && !f.ycocg && f.normalize_normals
            ==> crate::native_texture::codec_of(f) == Codec::ReconstructZ,
        !f.hemi_oct_rb && !f.dxt5nm && !f.ycocg && !f.normalize_normals
            ==> crate::native_texture::codec_of(f) == Codec::Plain,
{
}

/// Four formats are written as they are; no other is.
pub proof fn four_formats_are_written_as_they_are(f: VTexFormat, n: NativeFormat)
    ensures
        (crate::native_texture::native_of(f) == Some(n)) == match n {
            NativeFormat::Bc7 => f == VTexFormat::Bc7,
            NativeFormat::Bc1 => f == VTexFormat::Dxt1,
            NativeFormat::Bc4 => f == VTexFormat::Ati1N,
            NativeFormat::Rgba8 => f == VTexFormat::Rgba8888,
        },
        f == VTexFormat::Bc6H ==> crate::lightmaps::block_format(f) == Some("BC6H_UF16"@),
        f == VTexFormat::Bc7 ==> crate::lightmaps::block_format(f) == Some("BC7"@),
        f == VTexFormat::Ati1N ==> crate::lightmaps::block_format(f) == Some("BC4"@),
        f == VTexFormat::Ati2N ==> crate::lightmaps::block_format(f) == Some("BC5"@),
        f == VTexFormat::Dxt1 ==> crate::lightmaps::block_format(f) == Some("BC1"@),
        f == VTexFormat::Dxt5 ==> crate::lightmaps::block_format(f) == Some("BC3"@),
        f == VTexFormat::Rgba8888 || f == VTexFormat::Other ==> crate::lightmaps::block_format(
            f,
        ) is None,
{
}

/// The levels of a texture come in order, each with its bytes behind those of the one before.
pub proof fn levels_come_in_order(a: Seq<MipView>, m: MipView)
    ensures
        crate::native_texture::blob_of(a.push(m)) == crate::native_texture::blob_of(a) + m.bytes,
        crate::native_texture::levels_of(a.push(m)) == crate::native_texture::levels_of(a).push(
            LevelInfo {
                width: m.width,
                height: m.height,
                offset: crate::native_texture::blob_of(a).len() as u64,
                length: m.bytes.len() as u64,
            },
        ),
        crate::native_texture::blob_of(Seq::empty()).len() == 0,
        crate::native_texture::levels_of(Seq::empty()).len() == 0,
{
    assert(a.push(m).drop_last() =~= a);
}

/// What was loaded last for a path, a level and a colour space is what is handed out for them.
pub proof fn the_last_load_counts(
    entries: Seq<(String, u32, ColorSpace, Loaded)>,
    e: (String, u32, ColorSpace, Loaded),
    key: (Seq<char>, u32, ColorSpace),
)
    ensures
        ({
            let m = crate::native_texture::by_level(entries.push(e));
            let at = crate::native_texture::at_level(m, key);
            &&& key == (e.0@, e.1, e.2) ==> at == Some(e.3)
            &&& key != (e.0@, e.1, e.2) ==> at == crate::native_texture::at_level(
                crate::native_texture::by_level(entries),
                key,
            )
        }),
        crate::native_texture::at_level(
            crate::native_texture::by_level(Seq::<(String, u32, ColorSpace, Loaded)>::empty()),
            key,
        ) is None,
{
    assert(entries.push(e).drop_last() =~= entries);
}

/// A file is named by the first six bytes of the digest of what it holds.
pub proof fn a_file_is_named_by_its_digest(hash: Seq<u8>, i: int)
    requires
        hash.len() >= 6,
        0 <= i < 6,
    ensures
        ({
            let d = crate::native_texture::short_digest(hash);
            &&& d.len() == 12
            &&& 16 * crate::laws::texts::hex_value(d[2 * i]) + crate::laws::texts::hex_value(
                d[2 * i + 1],
            ) == hash[i]
            &&& crate::native_texture::file_of(hash) == "render_tex/"@ + d + ".bin"@
        }),
{
    crate::laws::texts::two_digits_stand_for_a_byte(hash.take(6), i);
}

/// The first texture with a content, and in a colour space where one is asked for, is found.
pub proof fn the_first_texture_with_a_content_is_found(
    v: Seq<EntryView>,
    hash: Seq<u8>,
    space: Option<ColorSpace>,
    from: int,
)
    requires
        0 <= from <= v.len(),
    ensures
        match crate::native_texture::entry_with(v, hash, space, from) {
            Some(i) => {
                &&& from <= i < v.len()
                &&& v[i].hash == hash
                &&& space matches Some(c) ==> v[i].color_space == c
                &&& forall|k: int|
                    from <= k < i ==> (#[trigger] v[k]).hash != hash || (space is Some
                        && v[k].color_space != space->Some_0)
            },
            None => forall|k: int|
                from <= k < v.len() ==> (#[trigger] v[k]).hash != hash || (space is Some
                    && v[k].color_space != space->Some_0),
        },
    decreases v.len() - from,
{
    if from < v.len() && !crate::native_texture::entry_has(v[from], hash, space) {
        the_first_texture_with_a_content_is_found(v, hash, space, from + 1);
    }
}

/// What a texture needs: nothing where it is known; its colour where it is a single one, four texels wide
/// and high and of one level; else its levels, from the one that is asked for to the last. A format that
/// cannot be written is refused.
pub proof fn a_texture_needs_what_is_not_known(
    c: CatalogView,
    path: Seq<char>,
    h: TextureHeader,
    base_level: u32,
    space: ColorSpace,
)
    requires
        h.num_mip_levels >= 1,
    ensures
        ({
            let single = h.width == 4 && h.height == 4 && h.num_mip_levels == 1 && h.depth <= 1
                && !h.is_cube && !h.is_volume;
            let key = (path, base_level, space);
            let r = crate::native_texture::step_for(c, path, h, base_level, space);
            &&& single && c.by_constant.contains_key(path) ==> r == Some(
                LoadStep::Known(c.by_constant[path]),
            )
            &&& single && !c.by_constant.contains_key(path) ==> r == Some(LoadStep::Pixel)
            &&& !single && crate::native_texture::native_of(h.format) is None ==> r is None
            &&& !single && crate::native_texture::native_of(h.format) is Some
                && c.by_path_level.contains_key(key) ==> r == Some(
                LoadStep::Known(c.by_path_level[key]),
            )
            &&& !single && crate::native_texture::native_of(h.format) is Some
                && !c.by_path_level.contains_key(key) ==> (r matches Some(
                LoadStep::Levels { first, last, format },
            ) && first == base_level && last == h.num_mip_levels - 1 && Some(format)
                == crate::native_texture::native_of(h.format))
        }),
{
}

/// A texture that is taken is handed out under its number. One whose content and colour space are there
/// is that one; one whose content is there in another colour space is a new one on the same file; else it
/// brings its file. What a file need not be written for is counted.
pub proof fn a_content_is_written_once(
    c: CatalogView,
    path: Seq<char>,
    base_level: u32,
    space: ColorSpace,
    format: NativeFormat,
    codec: Codec,
    mips: Seq<MipView>,
)
    requires
        c.entries.len() < u32::MAX,
        crate::native_texture::has_room(
            c,
            crate::native_texture::blob_of(mips).len() as int,
        ),
    ensures
        ({
            let (after, got) = crate::native_texture::after_register(
                c,
                path,
                base_level,
                space,
                format,
                codec,
                mips,
            );
            let blob = crate::native_texture::blob_of(mips);
            let hash = crate::codec::sha256_of(blob);
            let same = exists|k: int|
                0 <= k < c.entries.len() && (#[trigger] c.entries[k]).hash == hash
                    && c.entries[k].color_space == space;
            let there = exists|k: int|
                0 <= k < c.entries.len() && (#[trigger] c.entries[k]).hash == hash;
            &&& got matches Loaded::Texture(i) && i < after.entries.len() && {
                let e = after.entries[i as int];
                &&& e.hash == hash
                &&& e.color_space == space
                &&& !same ==> i == c.entries.len() && e.path == path && e.format == format
                    && e.codec == codec
                &&& !there ==> {
                    &&& e.file_name == crate::native_texture::file_of(hash)
                    &&& e.sha12 == crate::native_texture::short_digest(hash)
                    &&& e.levels == crate::native_texture::levels_of(mips)
                    &&& e.byte_length == blob.len() as u64
                }
            }
            &&& after.by_path_level == c.by_path_level.insert((path, base_level, space), got)
            &&& after.by_constant == c.by_constant
            &&& after.entries.len() == c.entries.len() + if same {
                0int
            } else {
                1
            }
            &&& after.entries.take(c.entries.len() as int) == c.entries
            &&& there ==> after.files == c.files && after.dedup_hits == c.dedup_hits + 1
                && after.dedup_bytes_saved == c.dedup_bytes_saved + blob.len()
            &&& !there ==> after.files == c.files.push(
                (crate::native_texture::file_of(hash), blob),
            ) && after.dedup_hits == c.dedup_hits && after.dedup_bytes_saved == c.dedup_bytes_saved
        }),
{
    let (after, got) = crate::native_texture::after_register(
        c,
        path,
        base_level,
        space,
        format,
        codec,
        mips,
    );
    let blob = crate::native_texture::blob_of(mips);
    let hash = crate::codec::sha256_of(blob);
    the_first_texture_with_a_content_is_found(c.entries, hash, Some(space), 0);
    the_first_texture_with_a_content_is_found(c.entries, hash, None, 0);
    if crate::native_texture::entry_with(c.entries, hash, Some(space), 0) is Some {
        let k = crate::native_texture::entry_with(c.entries, hash, Some(space), 0)->Some_0;
        assert(c.entries[k].hash == hash);
    }
    if crate::native_texture::entry_with(c.entries, hash, None, 0) is Some {
        let k = crate::native_texture::entry_with(c.entries, hash, None, 0)->Some_0;
        assert(c.entries[k].hash == hash);
    }
    assert(after.entries.take(c.entries.len() as int) =~= c.entries);
}

/// A texture says where its file is, how it is written and where its levels stand in it.
pub proof fn a_texture_says_where_its_levels_stand(e: EntryView, l: LevelInfo)
    ensures
        ({
            let j = crate::native_texture::entry_json(e);
            &&& j matches JsonView::Object(m) && {
                &&& m.len() == 8
                &&& m[0] == ("path"@, JsonView::Str(e.path))
                &&& m[1] == (
                    "format"@,
                    JsonView::Str(
                        match e.format {
                            NativeFormat::Bc7 => "BC7"@,
                            NativeFormat::Bc1 => "BC1"@,
                            NativeFormat::Bc4 => "BC4"@,
                            NativeFormat::Rgba8 => "RGBA8"@,
                        },
                    ),
                )
                &&& m[2] == (
                    "colorSpace"@,
                    JsonView::Str(
                        match e.color_space {
                            ColorSpace::Srgb => "srgb"@,
                            ColorSpace::Linear => "linear"@,
                        },
                    ),
                )
                &&& m[3] == (
                    "codec"@,
                    JsonView::Str(
                        match e.codec {
                            Codec::Plain => "none"@,
                            Codec::HemiOct => "hemiOct"@,
                            Codec::Dxt5nm => "dxt5nm"@,
                            Codec::YCoCg => "ycocg"@,
                            Codec::ReconstructZ => "reconstructZ"@,
                        },
                    ),
                )
                &&& m[4] == ("file"@, JsonView::Str(e.file_name))
                &&& m[5] == ("sha12"@, JsonView::Str(e.sha12))
                &&& m[6] == ("byteLength"@, JsonView::UInt(e.byte_length))
                &&& m[7].0 == "levels"@
                &&& m[7].1 matches JsonView::Array(v) && v.len() == e.levels.len() && forall|i: int|
                    0 <= i < v.len() ==> #[trigger] v[i] == crate::native_texture::level_json(
                        e.levels[i],
                    )
            }
        }),
        crate::native_texture::level_json(l) matches JsonView::Object(m) && {
            &&& m.len() == 4
            &&& m[0] == ("width"@, JsonView::UInt(l.width as u64))
            &&& m[1] == ("height"@, JsonView::UInt(l.height as u64))
            &&& m[2] == ("offset"@, JsonView::UInt(l.offset))
            &&& m[3] == ("length"@, JsonView::UInt(l.length))
        },
{
}

/// The bytes of textures are counted one by one.
pub proof fn bytes_are_counted_texture_by_texture(v: Seq<EntryView>, n: int)
    requires
        0 <= n < v.len(),
    ensures
        crate::native_texture::bytes_of(v, n + 1) == crate::native_texture::bytes_of(v, n)
            + v[n].byte_length,
        crate::native_texture::bytes_of(v, 0) == 0,
{
}

/// A lightmap is asked for by the last part of its path, without its ending and whatever its case; the
/// first of a name counts.
pub proof fn a_lightmap_is_asked_for_by_its_name(v: Seq<String>, name: Seq<char>, from: int)
    requires
        0 <= from <= v.len(),
    ensures
        match crate::lightmaps::named_from(v, name, from) {
            Some(s) => exists|i: int|
                from <= i < v.len() && #[trigger] v[i] == s && is_called(v[i]@, name) && forall|
                    k: int,
                |
                    from <= k < i ==> !is_called((#[trigger] v[k])@, name),
            None => forall|k: int| from <= k < v.len() ==> !is_called((#[trigger] v[k])@, name),
        },
    decreases v.len() - from,
{
    if from < v.len() && !is_called(v[from]@, name) {
        a_lightmap_is_asked_for_by_its_name(v, name, from + 1);
    } else if from < v.len() {
        assert(v[from] == v[from]);
    }
}

/// Whether the last part of a path, without the ending of a texture, is a name, whatever its case.
pub open spec fn is_called(path: Seq<char>, name: Seq<char>) -> bool {
    crate::text::same_ignoring_case(
        crate::text::without_suffix(crate::text::last_segment(path), ".vtex"@),
        name,
    )
}

/// The light of the lightmaps is asked for at a level that is chosen later, what goes with it at full size.
pub proof fn three_lightmaps_are_asked_for(v: Seq<String>)
    ensures
        ({
            let q = crate::lightmaps::requests_of(v);
            let light = crate::lightmaps::named_from(v, "irradiance"@, 0);
            let shadows = crate::lightmaps::named_from(v, "direct_light_shadows"@, 0);
            let directions = crate::lightmaps::named_from(v, "directional_irradiance"@, 0);
            let a = if light is Some {
                1int
            } else {
                0
            };
            let b = if shadows is Some {
                a + 1
            } else {
                a
            };
            &&& q.len() == if directions is Some {
                b + 1
            } else {
                b
            }
            &&& light matches Some(p) ==> q[0].path == crate::source::compiled(p@) && q[0].name
                == "irradiance"@ && q[0].level is None
            &&& shadows matches Some(p) ==> q[a].path == crate::source::compiled(p@) && q[a].name
                == "direct_light_shadows"@ && q[a].level == Some(0u32)
            &&& directions matches Some(p) ==> q[b].path == crate::source::compiled(p@) && q[b].name
                == "directional_irradiance"@ && q[b].level == Some(0u32)
        }),
{
}

/// A level is half as wide as the one before it, and at least one texel.
pub proof fn a_level_is_half_as_wide(width: int, level: int)
    requires
        0 <= width,
        0 <= level,
    ensures
        crate::lightmaps::halved(width, level) == width / (pow2(level as nat) as int),
        crate::lightmaps::level_width(width, level) >= 1,
        width >= pow2(level as nat) ==> crate::lightmaps::level_width(width, level) == width / (
        pow2(level as nat) as int),
        width < pow2(level as nat) ==> crate::lightmaps::level_width(width, level) == 1,
    decreases level,
{
    vstd::arithmetic::power2::lemma_pow2_pos(level as nat);
    let p = pow2(level as nat) as int;
    if level == 0 {
        vstd::arithmetic::power2::lemma2_to64();
        assert(width / 1 == width);
    } else {
        a_level_is_half_as_wide(width, level - 1);
        vstd::arithmetic::power2::lemma_pow2_unfold(level as nat);
        vstd::arithmetic::power2::lemma_pow2_pos((level - 1) as nat);
        let q = pow2((level - 1) as nat) as int;
        vstd::arithmetic::div_mod::lemma_div_denominator(width, q, 2);
        assert(q * 2 == p) by (nonlinear_arith)
            requires
                p == 2 * q,
        ;
    }
    if width < p {
        vstd::arithmetic::div_mod::lemma_basic_div(width, p);
    } else {
        vstd::arithmetic::div_mod::lemma_div_non_zero(width, p);
    }
}

/// The first level that is narrow enough is taken; where none is, the last.
pub proof fn the_first_narrow_level_is_taken(width: int, levels: int, limit: int, from: int)
    requires
        0 <= from <= levels,
    ensures
        ({
            let l = crate::lightmaps::narrow_level(width, levels, limit, from);
            ||| from <= l < levels && crate::lightmaps::level_width(width, l) <= limit && forall|k: int|
                from <= k < l ==> #[trigger] crate::lightmaps::level_width(width, k) > limit
            ||| (l == if levels > 0 {
                levels - 1
            } else {
                0
            }) && forall|k: int|
                from <= k < levels ==> #[trigger] crate::lightmaps::level_width(width, k) > limit
        }),
    decreases levels - from,
{
    if from < levels && crate::lightmaps::level_width(width, from) > limit {
        the_first_narrow_level_is_taken(width, levels, limit, from + 1);
    }
}

/// A lightmap is what was read of it, in a file that is named by its name and its level, with the digest
/// and the length of its bytes.
pub proof fn a_lightmap_is_what_was_read(
    name: Seq<char>,
    level: u32,
    format: Seq<char>,
    width: u32,
    height: u32,
    bytes: Seq<u8>,
)
    ensures
        ({
            let m = crate::lightmaps::lightmap_of(name, level, format, width, height, bytes);
            &&& m.bytes == bytes
            &&& m.format == format
            &&& m.width == width
            &&& m.height == height
            &&& m.mip_level == level
            &&& m.sha256 == crate::text::hex_text(crate::codec::sha256_of(bytes))
            &&& bytes.len() <= usize::MAX ==> m.byte_length == bytes.len()
            &&& m.file_name == "render_lm_"@ + name + "_"@ + crate::text::decimal_digits(
                level as nat,
            ) + ".bin"@
        }),
{
}

/// Half of a side is rounded up, and at least one.
pub proof fn half_a_side_is_rounded_up(n: int)
    requires
        n >= 0,
    ensures
        crate::lightmaps::half_up(n) >= 1,
        n >= 1 ==> n <= 2 * crate::lightmaps::half_up(n) <= n + 1,
{
}

/// A constant is known by its path once it was taken.
pub proof fn a_constant_is_known_by_its_path(
    c: CatalogView,
    path: Seq<char>,
    value: Loaded,
    other: Seq<char>,
)
    ensures
        ({
            let after = crate::native_texture::with_constant(c, path, value);
            &&& crate::table::named(after.by_constant, path) == Some(value)
            &&& other != path ==> crate::table::named(after.by_constant, other)
                == crate::table::named(c.by_constant, other)
            &&& after.by_path_level == c.by_path_level
            &&& after.entries == c.entries
            &&& after.files == c.files
            &&& after.dedup_hits == c.dedup_hits
            &&& after.dedup_bytes_saved == c.dedup_bytes_saved
        }),
{
}

/// Two lightmaps are asked for again for readers that lack the formats: the light and the shadows.
pub proof fn light_and_shadows_have_fallbacks(v: Seq<String>)
    ensures
        crate::lightmaps::fallback_requests_of(v).0 == crate::lightmaps::named_from(
            v,
            "irradiance"@,
            0,
        ),
        crate::lightmaps::fallback_requests_of(v).1 == crate::lightmaps::named_from(
            v,
            "direct_light_shadows"@,
            0,
        ),
{
}

} // verus!
