//! Textures that are written out as the game stores them: the mip chain of each texture, from the
//! largest level within the budget down, goes into one file, and no content is written twice.
//!
//! Reading a texture's header and mips is for the caller. The catalog says first what it needs
//! ([`TextureCatalog::plan`]) and then takes it ([`TextureCatalog::keep_constant`],
//! [`TextureCatalog::register`]).

use crate::bytes::push_all;
use crate::codec::sha256;
use crate::json::{array, Json, Members};
use crate::table::Table;
use crate::text::{concat, hex, same};
use vstd::prelude::*;

verus! {

/// How the numbers of a texture are to be read. The shader decides, not the texture.
#[derive(Debug, Clone, Copy, PartialEq, Eq, Structural)]
pub enum ColorSpace {
    Srgb,
    Linear,
}

/// The name of a colour space.
pub open spec fn color_space_name(c: ColorSpace) -> Seq<char> {
    match c {
        ColorSpace::Srgb => "srgb"@,
        ColorSpace::Linear => "linear"@,
    }
}

impl ColorSpace {
    /// The name.
    pub fn as_str(self) -> (r: &'static str)
        ensures
            r@ == color_space_name(self),
    {
        match self {
            ColorSpace::Srgb => "srgb",
            ColorSpace::Linear => "linear",
        }
    }
}

/// What a sample has to go through before it is a colour or a normal.
#[derive(Debug, Clone, Copy, PartialEq, Eq, Structural)]
pub enum Codec {
    Plain,
    HemiOct,
    Dxt5nm,
    YCoCg,
    ReconstructZ,
}

/// The name of a codec.
pub open spec fn codec_name(c: Codec) -> Seq<char> {
    match c {
        Codec::Plain => "none"@,
        Codec::HemiOct => "hemiOct"@,
        Codec::Dxt5nm => "dxt5nm"@,
        Codec::YCoCg => "ycocg"@,
        Codec::ReconstructZ => "reconstructZ"@,
    }
}

impl Codec {
    /// The name.
    pub fn as_str(self) -> (r: &'static str)
        ensures
            r@ == codec_name(self),
    {
        match self {
            Codec::Plain => "none",
            Codec::HemiOct => "hemiOct",
            Codec::Dxt5nm => "dxt5nm",
            Codec::YCoCg => "ycocg",
            Codec::ReconstructZ => "reconstructZ",
        }
    }
}

/// The codec flags of a texture.
#[derive(Debug, Clone, Copy, PartialEq, Eq, Structural)]
pub struct CodecFlags {
    pub hemi_oct_rb: bool,
    pub dxt5nm: bool,
    pub ycocg: bool,
    pub normalize_normals: bool,
}

/// The codec that flags stand for: the first of them that is set.
pub open spec fn codec_of(f: CodecFlags) -> Codec {
    if f.hemi_oct_rb {
        Codec::HemiOct
    } else if f.dxt5nm {
        Codec::Dxt5nm
    } else if f.ycocg {
        Codec::YCoCg
    } else if f.normalize_normals {
        Codec::ReconstructZ
    } else {
        Codec::Plain
    }
}

/// The codec that flags stand for.
pub fn codec_from_flags(codec: CodecFlags) -> (r: Codec)
    ensures
        r == codec_of(codec),
{
    if codec.hemi_oct_rb {
        Codec::HemiOct
    } else if codec.dxt5nm {
        Codec::Dxt5nm
    } else if codec.ycocg {
        Codec::YCoCg
    } else if codec.normalize_normals {
        Codec::ReconstructZ
    } else {
        Codec::Plain
    }
}

/// The pixel format of a stored texture.
#[derive(Debug, Clone, Copy, PartialEq, Eq, Structural)]
pub enum VTexFormat {
    Dxt1,
    Dxt5,
    Bc6H,
    Bc7,
    Ati1N,
    Ati2N,
    Rgba8888,
    Other,
}

/// The pixel formats that are written out as they are stored.
#[derive(Debug, Clone, Copy, PartialEq, Eq, Structural)]
pub enum NativeFormat {
    Bc7,
    Bc1,
    Bc4,
    Rgba8,
}

/// The format that a stored format is written out as.
pub open spec fn native_of(format: VTexFormat) -> Option<NativeFormat> {
    match format {
        VTexFormat::Bc7 => Some(NativeFormat::Bc7),
        VTexFormat::Dxt1 => Some(NativeFormat::Bc1),
        VTexFormat::Ati1N => Some(NativeFormat::Bc4),
        VTexFormat::Rgba8888 => Some(NativeFormat::Rgba8),
        _ => None,
    }
}

/// The name of a format.
pub open spec fn native_name(f: NativeFormat) -> Seq<char> {
    match f {
        NativeFormat::Bc7 => "BC7"@,
        NativeFormat::Bc1 => "BC1"@,
        NativeFormat::Bc4 => "BC4"@,
        NativeFormat::Rgba8 => "RGBA8"@,
    }
}

impl NativeFormat {
    /// The format that a stored format is written out as.
    pub fn from_vtex(format: VTexFormat) -> (r: Option<NativeFormat>)
        ensures
            r == native_of(format),
    {
        match format {
            VTexFormat::Bc7 => Some(NativeFormat::Bc7),
            VTexFormat::Dxt1 => Some(NativeFormat::Bc1),
            VTexFormat::Ati1N => Some(NativeFormat::Bc4),
            VTexFormat::Rgba8888 => Some(NativeFormat::Rgba8),
            _ => None,
        }
    }

    /// The name.
    pub fn as_str(self) -> (r: &'static str)
        ensures
            r@ == native_name(self),
    {
        match self {
            NativeFormat::Bc7 => "BC7",
            NativeFormat::Bc1 => "BC1",
            NativeFormat::Bc4 => "BC4",
            NativeFormat::Rgba8 => "RGBA8",
        }
    }
}

/// Why a texture could not be taken.
#[derive(Debug)]
#[allow(inconsistent_fields)]
pub enum NativeTextureError {
    Missing { path: String },
    Resource { path: String, message: String },
    Tex { path: String, message: String },
    UnsupportedFormat { path: String, format: String },
}

/// The message of an error.
pub open spec fn texture_error_text(e: NativeTextureError) -> Seq<char> {
    match e {
        NativeTextureError::Missing { path } => path@ + ": not found in any source VPK"@,
        NativeTextureError::Resource { path, message } => path@
            + ": failed to parse as a resource: "@ + message@,
        NativeTextureError::Tex { path, message } => path@ + ": "@ + message@,
        NativeTextureError::UnsupportedFormat { path, format } => path@
            + ": material texture format "@ + format@ + WHY_NO_NATIVE@,
    }
}

/// Why only four formats are taken.
pub const WHY_NO_NATIVE: &'static str =
    " has no native WebGL mapping (only BC7/DXT1/ATI1N/RGBA8888 are used by any material texture on the surveyed maps -- REPORT.md's headline)";

impl NativeTextureError {
    /// The message.
    pub fn message(&self) -> (r: String)
        ensures
            r@ == texture_error_text(*self),
    {
        match self {
            NativeTextureError::Missing { path } => concat(
                path.as_str(),
                ": not found in any source VPK",
            ),
            NativeTextureError::Resource { path, message } => {
                let mut r: String = concat(path.as_str(), ": failed to parse as a resource: ");
                r.append(message.as_str());
                r
            },
            NativeTextureError::Tex { path, message } => {
                let mut r: String = concat(path.as_str(), ": ");
                r.append(message.as_str());
                r
            },
            NativeTextureError::UnsupportedFormat { path, format } => {
                let mut r: String = concat(path.as_str(), ": material texture format ");
                r.append(format.as_str());
                r.append(WHY_NO_NATIVE);
                r
            },
        }
    }
}

/// What a texture's header says.
#[derive(Debug, Clone)]
pub struct TextureHeader {
    pub width: u16,
    pub height: u16,
    pub depth: u16,
    pub num_mip_levels: u8,
    pub is_cube: bool,
    pub is_volume: bool,
    pub format: VTexFormat,
    /// The name of the format, for messages.
    pub format_name: String,
}

/// Whether a texture is one value: a single block of four by four.
pub open spec fn is_constant(h: TextureHeader) -> bool {
    h.width == 4 && h.height == 4 && h.num_mip_levels == 1 && h.depth <= 1 && !h.is_cube
        && !h.is_volume
}

/// One level as it is stored.
#[derive(Debug, Clone)]
pub struct RawMip {
    pub width: u32,
    pub height: u32,
    pub bytes: Vec<u8>,
}

/// A [`RawMip`] as plain values.
pub struct MipView {
    pub width: u32,
    pub height: u32,
    pub bytes: Seq<u8>,
}

impl View for RawMip {
    type V = MipView;

    open spec fn view(&self) -> MipView {
        MipView { width: self.width, height: self.height, bytes: self.bytes@ }
    }
}

/// The views of a list of levels.
pub open spec fn mip_views(v: Seq<RawMip>) -> Seq<MipView> {
    Seq::new(v.len(), |i: int| v[i]@)
}

/// Where one level stands in its file.
#[derive(Debug, Clone, Copy, PartialEq, Eq, Structural)]
pub struct LevelInfo {
    pub width: u32,
    pub height: u32,
    pub offset: u64,
    pub length: u64,
}

/// The file of a chain of levels: one after the other, from the largest down.
pub open spec fn blob_of(mips: Seq<MipView>) -> Seq<u8>
    decreases mips.len(),
{
    if mips.len() == 0 {
        Seq::empty()
    } else {
        blob_of(mips.drop_last()) + mips.last().bytes
    }
}

/// Where each level of a chain stands.
pub open spec fn levels_of(mips: Seq<MipView>) -> Seq<LevelInfo>
    decreases mips.len(),
{
    if mips.len() == 0 {
        Seq::empty()
    } else {
        levels_of(mips.drop_last()).push(
            LevelInfo {
                width: mips.last().width,
                height: mips.last().height,
                offset: blob_of(mips.drop_last()).len() as u64,
                length: mips.last().bytes.len() as u64,
            },
        )
    }
}

/// What a level's place says is where its bytes are: the file holds level `i` at its offset, as
/// long as its length.
pub proof fn levels_stand_in_the_file(mips: Seq<MipView>, i: int)
    requires
        0 <= i < mips.len(),
        blob_of(mips).len() <= u64::MAX,
    ensures
        levels_of(mips).len() == mips.len(),
        levels_of(mips)[i].width == mips[i].width,
        levels_of(mips)[i].height == mips[i].height,
        levels_of(mips)[i].offset + levels_of(mips)[i].length <= blob_of(mips).len(),
        blob_of(mips).subrange(
            levels_of(mips)[i].offset as int,
            levels_of(mips)[i].offset + levels_of(mips)[i].length,
        ) == mips[i].bytes,
    decreases mips.len(),
{
    let before = mips.drop_last();
    lemma_levels_len(before);
    if i < mips.len() - 1 {
        levels_stand_in_the_file(before, i);
        assert(levels_of(mips)[i] == levels_of(before)[i]);
        assert(blob_of(mips).subrange(
            levels_of(mips)[i].offset as int,
            levels_of(mips)[i].offset + levels_of(mips)[i].length,
        ) =~= blob_of(before).subrange(
            levels_of(mips)[i].offset as int,
            levels_of(mips)[i].offset + levels_of(mips)[i].length,
        ));
    } else {
        assert(blob_of(mips).subrange(
            blob_of(before).len() as int,
            blob_of(mips).len() as int,
        ) =~= mips[i].bytes);
    }
}

/// There is a place for each level.
pub proof fn lemma_levels_len(mips: Seq<MipView>)
    ensures
        levels_of(mips).len() == mips.len(),
    decreases mips.len(),
{
    if mips.len() > 0 {
        lemma_levels_len(mips.drop_last());
    }
}

/// A texture of the catalog.
#[derive(Debug)]
pub struct TextureEntry {
    pub path: String,
    pub format: NativeFormat,
    pub color_space: ColorSpace,
    pub codec: Codec,
    pub file_name: String,
    pub sha12: String,
    pub levels: Vec<LevelInfo>,
    pub byte_length: u64,
    /// The digest of the file's content.
    pub hash: [u8; 32],
}

/// A [`TextureEntry`] as plain values.
pub struct EntryView {
    pub path: Seq<char>,
    pub format: NativeFormat,
    pub color_space: ColorSpace,
    pub codec: Codec,
    pub file_name: Seq<char>,
    pub sha12: Seq<char>,
    pub levels: Seq<LevelInfo>,
    pub byte_length: u64,
    pub hash: Seq<u8>,
}

impl View for TextureEntry {
    type V = EntryView;

    open spec fn view(&self) -> EntryView {
        EntryView {
            path: self.path@,
            format: self.format,
            color_space: self.color_space,
            codec: self.codec,
            file_name: self.file_name@,
            sha12: self.sha12@,
            levels: self.levels@,
            byte_length: self.byte_length,
            hash: self.hash@,
        }
    }
}

/// What the catalog hands out: the index of a texture, or one stored pixel for all of it.
#[derive(Debug, Clone, Copy)]
pub enum Loaded {
    Texture(u32),
    /// The pixel as it is stored, and what a sample of it has to go through.
    Constant { raw: [u8; 4], codec: Codec },
}

/// Results by path, base level and colour space.
#[derive(Debug)]
pub struct LevelTable {
    pub entries: Vec<(String, u32, ColorSpace, Loaded)>,
}

/// The results that a list of entries stands for.
pub open spec fn by_level(entries: Seq<(String, u32, ColorSpace, Loaded)>) -> Map<
    (Seq<char>, u32, ColorSpace),
    Loaded,
>
    decreases entries.len(),
{
    if entries.len() == 0 {
        Map::empty()
    } else {
        let e = entries.last();
        by_level(entries.drop_last()).insert((e.0@, e.1, e.2), e.3)
    }
}

/// The result under a key.
pub open spec fn at_level(
    m: Map<(Seq<char>, u32, ColorSpace), Loaded>,
    key: (Seq<char>, u32, ColorSpace),
) -> Option<Loaded> {
    if m.contains_key(key) {
        Some(m[key])
    } else {
        None
    }
}

impl View for LevelTable {
    type V = Map<(Seq<char>, u32, ColorSpace), Loaded>;

    open spec fn view(&self) -> Map<(Seq<char>, u32, ColorSpace), Loaded> {
        by_level(self.entries@)
    }
}

impl LevelTable {
    /// Puts a result in.
    fn insert(&mut self, path: &str, level: u32, color_space: ColorSpace, value: Loaded)
        ensures
            final(self)@ == old(self)@.insert((path@, level, color_space), value),
    {
        let ghost before = self.entries@;
        self.entries.push((path.to_owned(), level, color_space, value));
        assert(self.entries@.drop_last() =~= before);
    }

    /// The result under a key.
    fn get(&self, path: &str, level: u32, color_space: ColorSpace) -> (r: Option<Loaded>)
        ensures
            r == at_level(self@, (path@, level, color_space)),
    {
        let ghost key = (path@, level, color_space);
        let mut i: usize = self.entries.len();
        assert(self.entries@.take(i as int) =~= self.entries@);
        while i > 0
            invariant
                i <= self.entries@.len(),
                key == (path@, level, color_space),
                at_level(self@, key) == at_level(by_level(self.entries@.take(i as int)), key),
            decreases i,
        {
            proof {
                let t = self.entries@.take(i as int);
                assert(t.drop_last() =~= self.entries@.take(i - 1));
                assert(t.last() == self.entries@[i - 1]);
            }
            let e: &(String, u32, ColorSpace, Loaded) = &self.entries[i - 1];
            if e.1 == level && e.2 == color_space && same(e.0.as_str(), path) {
                return Some(e.3);
            }
            i -= 1;
        }
        None
    }
}

/// The textures of an export.
#[derive(Debug)]
pub struct TextureCatalog {
    by_path_level: LevelTable,
    by_constant: Table<Loaded>,
    entries: Vec<TextureEntry>,
    files: Vec<(String, Vec<u8>)>,
    dedup_hits: u32,
    dedup_bytes_saved: u64,
}

/// A [`TextureCatalog`] as plain values.
pub struct CatalogView {
    /// What was handed out, by path, base level and colour space.
    pub by_path_level: Map<(Seq<char>, u32, ColorSpace), Loaded>,
    /// The constants, by path.
    pub by_constant: Map<Seq<char>, Loaded>,
    pub entries: Seq<EntryView>,
    /// The files to write, and their content.
    pub files: Seq<(Seq<char>, Seq<u8>)>,
    pub dedup_hits: u32,
    pub dedup_bytes_saved: u64,
}

/// The views of a list of entries.
pub open spec fn entry_views(v: Seq<TextureEntry>) -> Seq<EntryView> {
    Seq::new(v.len(), |i: int| v[i]@)
}

/// The views of a list of files.
pub open spec fn file_views(v: Seq<(String, Vec<u8>)>) -> Seq<(Seq<char>, Seq<u8>)> {
    Seq::new(v.len(), |i: int| (v[i].0@, v[i].1@))
}

impl View for TextureCatalog {
    type V = CatalogView;

    closed spec fn view(&self) -> CatalogView {
        CatalogView {
            by_path_level: self.by_path_level@,
            by_constant: self.by_constant@,
            entries: entry_views(self.entries@),
            files: file_views(self.files@),
            dedup_hits: self.dedup_hits,
            dedup_bytes_saved: self.dedup_bytes_saved,
        }
    }
}

/// The first six bytes of a digest, in hexadecimal.
pub open spec fn short_digest(hash: Seq<u8>) -> Seq<char> {
    crate::text::hex_text(hash.take(6))
}

/// The first six bytes of a digest, in hexadecimal.
pub fn sha12(hash: &[u8; 32]) -> (r: String)
    ensures
        r@ == short_digest(hash@),
{
    let first: [u8; 6] = [hash[0], hash[1], hash[2], hash[3], hash[4], hash[5]];
    assert(first@ =~= hash@.take(6));
    hex(first.as_slice())
}

/// The file of a digest.
pub open spec fn file_of(hash: Seq<u8>) -> Seq<char> {
    "render_tex/"@ + short_digest(hash) + ".bin"@
}

/// Whether an entry has a content, and, where one is given, a colour space.
pub open spec fn entry_has(e: EntryView, hash: Seq<u8>, color_space: Option<ColorSpace>) -> bool {
    e.hash == hash && match color_space {
        Some(c) => e.color_space == c,
        None => true,
    }
}

/// The first entry from `from` on with a content, and, where one is given, a colour space.
pub open spec fn entry_with(
    entries: Seq<EntryView>,
    hash: Seq<u8>,
    color_space: Option<ColorSpace>,
    from: int,
) -> Option<int>
    decreases entries.len() - from,
{
    if from < 0 || from >= entries.len() {
        None
    } else if entry_has(entries[from], hash, color_space) {
        Some(from)
    } else {
        entry_with(entries, hash, color_space, from + 1)
    }
}

/// What the search finds is there, and where it finds nothing there is nothing.
proof fn lemma_entry_with(
    entries: Seq<EntryView>,
    hash: Seq<u8>,
    color_space: Option<ColorSpace>,
    from: int,
)
    requires
        0 <= from,
    ensures
        match entry_with(entries, hash, color_space, from) {
            Some(i) => from <= i < entries.len() && entry_has(entries[i], hash, color_space),
            None => forall|i: int|
                from <= i < entries.len() ==> !entry_has(
                    #[trigger] entries[i],
                    hash,
                    color_space,
                ),
        },
    decreases entries.len() - from,
{
    if from < entries.len() && !entry_has(entries[from], hash, color_space) {
        lemma_entry_with(entries, hash, color_space, from + 1);
    }
}

/// What a catalog needs to take a chain of levels next.
pub enum LoadStep {
    /// Nothing: it has the result.
    Known(Loaded),
    /// The pixel of a constant.
    Pixel,
    /// The levels from `first` to `last`, to be written out in `format`.
    Levels { first: u32, last: u32, format: NativeFormat },
}

/// What a catalog needs of a texture; none where its format cannot be written out.
pub open spec fn step_for(
    c: CatalogView,
    path: Seq<char>,
    h: TextureHeader,
    base_level: u32,
    color_space: ColorSpace,
) -> Option<LoadStep> {
    if is_constant(h) {
        match crate::table::named(c.by_constant, path) {
            Some(known) => Some(LoadStep::Known(known)),
            None => Some(LoadStep::Pixel),
        }
    } else {
        match native_of(h.format) {
            None => None,
            Some(format) => match at_level(c.by_path_level, (path, base_level, color_space)) {
                Some(known) => Some(LoadStep::Known(known)),
                None => Some(
                    LoadStep::Levels {
                        first: base_level,
                        last: (h.num_mip_levels - 1) as u32,
                        format,
                    },
                ),
            },
        }
    }
}

/// Whether a texture has levels, where they are needed: it is not in the catalog yet, and of a
/// format that is written out.
pub open spec fn has_levels(
    c: CatalogView,
    path: Seq<char>,
    h: TextureHeader,
    base_level: u32,
    color_space: ColorSpace,
) -> bool {
    native_of(h.format) is Some && at_level(c.by_path_level, (path, base_level, color_space)) is None
        ==> h.num_mip_levels >= 1
}

/// The catalog after a constant was taken.
pub open spec fn with_constant(c: CatalogView, path: Seq<char>, value: Loaded) -> CatalogView {
    CatalogView { by_constant: c.by_constant.insert(path, value), ..c }
}

/// A new texture of the catalog, with a file of its own.
pub open spec fn new_entry(
    path: Seq<char>,
    color_space: ColorSpace,
    format: NativeFormat,
    codec: Codec,
    mips: Seq<MipView>,
) -> EntryView {
    let hash = crate::codec::sha256_of(blob_of(mips));
    EntryView {
        path,
        format,
        color_space,
        codec,
        file_name: file_of(hash),
        sha12: short_digest(hash),
        levels: levels_of(mips),
        byte_length: blob_of(mips).len() as u64,
        hash,
    }
}

/// The catalog after a chain of levels was taken, and what it hands out:
///
/// - content that it has in this colour space: the texture it has;
/// - content that it has in another colour space only: a new texture on the file it has;
/// - other content: a new texture and a new file.
pub open spec fn after_register(
    c: CatalogView,
    path: Seq<char>,
    base_level: u32,
    color_space: ColorSpace,
    format: NativeFormat,
    codec: Codec,
    mips: Seq<MipView>,
) -> (CatalogView, Loaded) {
    let blob = blob_of(mips);
    let hash = crate::codec::sha256_of(blob);
    let key = (path, base_level, color_space);
    match entry_with(c.entries, hash, Some(color_space), 0) {
        Some(i) => {
            let got = Loaded::Texture(i as u32);
            (
                CatalogView {
                    by_path_level: c.by_path_level.insert(key, got),
                    dedup_hits: (c.dedup_hits + 1) as u32,
                    dedup_bytes_saved: (c.dedup_bytes_saved + blob.len()) as u64,
                    ..c
                },
                got,
            )
        },
        None => {
            let got = Loaded::Texture(c.entries.len() as u32);
            match entry_with(c.entries, hash, None, 0) {
                Some(k) => {
                    let other = c.entries[k];
                    (
                        CatalogView {
                            by_path_level: c.by_path_level.insert(key, got),
                            entries: c.entries.push(
                                EntryView { path, format, color_space, codec, ..other },
                            ),
                            dedup_hits: (c.dedup_hits + 1) as u32,
                            dedup_bytes_saved: (c.dedup_bytes_saved + blob.len()) as u64,
                            ..c
                        },
                        got,
                    )
                },
                None => (
                    CatalogView {
                        by_path_level: c.by_path_level.insert(key, got),
                        entries: c.entries.push(
                            new_entry(path, color_space, format, codec, mips),
                        ),
                        files: c.files.push((file_of(hash), blob)),
                        ..c
                    },
                    got,
                ),
            }
        },
    }
}

/// Whether a file is the one of an entry.
pub open spec fn is_file_of(file: (Seq<char>, Seq<u8>), e: EntryView) -> bool {
    &&& crate::codec::sha256_of(file.1) == e.hash
    &&& file.0 == e.file_name
    &&& e.file_name == file_of(e.hash)
    &&& e.sha12 == short_digest(e.hash)
    &&& e.byte_length == file.1.len()
}

/// What holds of every catalog.
pub open spec fn sound(c: CatalogView) -> bool {
    // No two textures have the same content and the same colour space.
    &&& forall|i: int, j: int|
        0 <= i < j < c.entries.len() && #[trigger] c.entries[i].hash
            == #[trigger] c.entries[j].hash ==> c.entries[i].color_space
            != c.entries[j].color_space
    // No two files have the same content.
    &&& forall|i: int, j: int|
        0 <= i < j < c.files.len() ==> crate::codec::sha256_of(#[trigger] c.files[i].1)
            != crate::codec::sha256_of(#[trigger] c.files[j].1)
    // Every texture has its file, and every file its texture.
    &&& forall|i: int|
        0 <= i < c.entries.len() ==> has_file(c.files, #[trigger] c.entries[i])
    &&& forall|k: int|
        0 <= k < c.files.len() ==> has_entry(c.entries, #[trigger] c.files[k])
    // What was handed out for a colour space is a texture of that colour space.
    &&& forall|key: (Seq<char>, u32, ColorSpace)| #[trigger]
        c.by_path_level.contains_key(key) ==> {
            &&& c.by_path_level[key] is Texture
            &&& c.by_path_level[key]->Texture_0 < c.entries.len()
            &&& c.entries[c.by_path_level[key]->Texture_0 as int].color_space == key.2
        }
    // What was handed out for a constant is one.
    &&& forall|path: Seq<char>| #[trigger]
        c.by_constant.contains_key(path) ==> c.by_constant[path] is Constant
}

/// Whether the file of an entry is among the files.
pub open spec fn has_file(files: Seq<(Seq<char>, Seq<u8>)>, e: EntryView) -> bool {
    exists|k: int| 0 <= k < files.len() && is_file_of(#[trigger] files[k], e)
}

/// Whether an entry of a file is among the entries.
pub open spec fn has_entry(entries: Seq<EntryView>, file: (Seq<char>, Seq<u8>)) -> bool {
    exists|i: int| 0 <= i < entries.len() && is_file_of(file, #[trigger] entries[i])
}

/// Whether the counts of a catalog can take content of `len` bytes more.
pub open spec fn has_room(c: CatalogView, len: int) -> bool {
    c.entries.len() < u32::MAX && c.dedup_hits < u32::MAX && c.dedup_bytes_saved + len <= u64::MAX
}

/// Taking a constant keeps a catalog sound.
proof fn lemma_constant_sound(c: CatalogView, path: Seq<char>, value: Loaded)
    requires
        sound(c),
        value is Constant,
    ensures
        sound(with_constant(c, path, value)),
{
    let after = with_constant(c, path, value);
    assert forall|p: Seq<char>| #[trigger]
        after.by_constant.contains_key(p) implies after.by_constant[p] is Constant by {
        if p != path {
            assert(c.by_constant.contains_key(p));
        }
    }
}

/// Taking a chain of levels keeps a catalog sound.
proof fn lemma_register_sound(
    c: CatalogView,
    path: Seq<char>,
    base_level: u32,
    color_space: ColorSpace,
    format: NativeFormat,
    codec: Codec,
    mips: Seq<MipView>,
)
    requires
        sound(c),
        has_room(c, blob_of(mips).len() as int),
    ensures
        sound(after_register(c, path, base_level, color_space, format, codec, mips).0),
{
    let blob = blob_of(mips);
    let hash = crate::codec::sha256_of(blob);
    let key = (path, base_level, color_space);
    let after = after_register(c, path, base_level, color_space, format, codec, mips).0;
    lemma_entry_with(c.entries, hash, Some(color_space), 0);
    lemma_entry_with(c.entries, hash, None, 0);
    match entry_with(c.entries, hash, Some(color_space), 0) {
        Some(i) => {
            assert(after.entries == c.entries);
            assert(after.files == c.files);
        },
        None => {
            let n = c.entries.len() as int;
            let added = after.entries[n];
            assert(added.hash == hash && added.color_space == color_space);
            assert forall|i: int, j: int|
                0 <= i < j < after.entries.len() && #[trigger] after.entries[i].hash
                    == #[trigger] after.entries[j].hash implies after.entries[i].color_space
                != after.entries[j].color_space by {
                if j == n {
                    assert(!entry_has(c.entries[i], hash, Some(color_space)));
                }
            }
            match entry_with(c.entries, hash, None, 0) {
                Some(k) => {
                    assert(has_file(c.files, c.entries[k]));
                    let f = choose|f: int|
                        0 <= f < c.files.len() && is_file_of(#[trigger] c.files[f], c.entries[k]);
                    assert(is_file_of(after.files[f], added));
                    assert forall|i: int| 0 <= i < after.entries.len() implies has_file(
                        after.files,
                        #[trigger] after.entries[i],
                    ) by {
                        if i < n {
                            assert(has_file(c.files, c.entries[i]));
                        }
                    }
                    assert forall|f: int| 0 <= f < after.files.len() implies has_entry(
                        after.entries,
                        #[trigger] after.files[f],
                    ) by {
                        assert(has_entry(c.entries, c.files[f]));
                        let i = choose|i: int|
                            0 <= i < n && is_file_of(c.files[f], #[trigger] c.entries[i]);
                        assert(is_file_of(after.files[f], after.entries[i]));
                    }
                },
                None => {
                    let m = c.files.len() as int;
                    assert(is_file_of(after.files[m], added));
                    assert forall|i: int, j: int| 0 <= i < j < after.files.len() implies
                        crate::codec::sha256_of(#[trigger] after.files[i].1)
                        != crate::codec::sha256_of(#[trigger] after.files[j].1) by {
                        if j == m {
                            assert(has_entry(c.entries, c.files[i]));
                            let e = choose|e: int|
                                0 <= e < n && is_file_of(c.files[i], #[trigger] c.entries[e]);
                            assert(!entry_has(c.entries[e], hash, None));
                        }
                    }
                    assert forall|i: int| 0 <= i < after.entries.len() implies has_file(
                        after.files,
                        #[trigger] after.entries[i],
                    ) by {
                        if i < n {
                            assert(has_file(c.files, c.entries[i]));
                            let f = choose|f: int|
                                0 <= f < m && is_file_of(#[trigger] c.files[f], c.entries[i]);
                            assert(is_file_of(after.files[f], after.entries[i]));
                        }
                    }
                    assert forall|f: int| 0 <= f < after.files.len() implies has_entry(
                        after.entries,
                        #[trigger] after.files[f],
                    ) by {
                        if f < m {
                            assert(has_entry(c.entries, c.files[f]));
                            let i = choose|i: int|
                                0 <= i < n && is_file_of(c.files[f], #[trigger] c.entries[i]);
                            assert(is_file_of(after.files[f], after.entries[i]));
                        } else {
                            assert(is_file_of(after.files[f], after.entries[n]));
                        }
                    }
                },
            }
        },
    }
    assert forall|k: (Seq<char>, u32, ColorSpace)| #[trigger]
        after.by_path_level.contains_key(k) implies {
        &&& after.by_path_level[k] is Texture
        &&& after.by_path_level[k]->Texture_0 < after.entries.len()
        &&& after.entries[after.by_path_level[k]->Texture_0 as int].color_space == k.2
    } by {
        if k != key {
            assert(c.by_path_level.contains_key(k));
        }
    }
}

/// Whether two digests are the same.
fn same_hash(a: &[u8; 32], b: &[u8; 32]) -> (r: bool)
    ensures
        r == (a@ == b@),
{
    let mut i: usize = 0;
    while i < 32
        invariant
            i <= 32,
            forall|k: int| 0 <= k < i ==> a@[k] == b@[k],
        decreases 32 - i,
    {
        if a[i] != b[i] {
            return false;
        }
        i += 1;
    }
    assert(a@ =~= b@);
    true
}

/// Finds the first entry with a content, and, where one is given, a colour space.
fn find_entry(entries: &Vec<TextureEntry>, hash: &[u8; 32], color_space: Option<ColorSpace>) -> (r:
    Option<usize>)
    ensures
        match r {
            Some(i) => {
                &&& entry_with(entry_views(entries@), hash@, color_space, 0) == Some(i as int)
                &&& i < entries@.len()
            },
            None => entry_with(entry_views(entries@), hash@, color_space, 0) is None,
        },
{
    let ghost all = entry_views(entries@);
    let mut i: usize = 0;
    while i < entries.len()
        invariant
            i <= entries@.len(),
            all == entry_views(entries@),
            entry_with(all, hash@, color_space, 0) == entry_with(
                all,
                hash@,
                color_space,
                i as int,
            ),
        decreases entries@.len() - i,
    {
        assert(all[i as int] == entries@[i as int]@);
        let right: bool = match color_space {
            Some(c) => entries[i].color_space == c,
            None => true,
        };
        if right && same_hash(&entries[i].hash, hash) {
            return Some(i);
        }
        i += 1;
    }
    None
}

/// A copy of a list of places.
fn copy_levels(v: &Vec<LevelInfo>) -> (r: Vec<LevelInfo>)
    ensures
        r@ == v@,
{
    let mut out: Vec<LevelInfo> = Vec::new();
    let mut i: usize = 0;
    while i < v.len()
        invariant
            i <= v@.len(),
            out@ =~= v@.take(i as int),
        decreases v@.len() - i,
    {
        out.push(v[i]);
        i += 1;
    }
    out
}

/// Puts a chain of levels into one file.
pub fn lay_out(mips: &Vec<RawMip>) -> (r: (Vec<u8>, Vec<LevelInfo>))
    ensures
        r.0@ == blob_of(mip_views(mips@)),
        r.1@ == levels_of(mip_views(mips@)),
{
    let ghost all = mip_views(mips@);
    let mut blob: Vec<u8> = Vec::new();
    let mut levels: Vec<LevelInfo> = Vec::new();
    let mut i: usize = 0;
    while i < mips.len()
        invariant
            i <= mips@.len(),
            all == mip_views(mips@),
            blob@ == blob_of(all.take(i as int)),
            levels@ == levels_of(all.take(i as int)),
        decreases mips@.len() - i,
    {
        proof {
            assert(all.take(i + 1).drop_last() =~= all.take(i as int));
            assert(all.take(i + 1).last() == mips@[i as int]@);
        }
        levels.push(
            LevelInfo {
                width: mips[i].width,
                height: mips[i].height,
                offset: blob.len() as u64,
                length: mips[i].bytes.len() as u64,
            },
        );
        push_all(&mut blob, mips[i].bytes.as_slice());
        i += 1;
    }
    assert(all.take(i as int) =~= all);
    (blob, levels)
}

/// The document of one place.
pub open spec fn level_json(l: LevelInfo) -> crate::json::JsonView {
    crate::json::JsonView::Object(
        crate::json::empty().push(
            ("width"@, crate::json::JsonView::UInt(l.width as u64)),
        ).push(
            ("height"@, crate::json::JsonView::UInt(l.height as u64)),
        ).push(
            ("offset"@, crate::json::JsonView::UInt(l.offset)),
        ).push(
            ("length"@, crate::json::JsonView::UInt(l.length)),
        ),
    )
}

/// The documents of places.
pub open spec fn levels_json(v: Seq<LevelInfo>) -> Seq<crate::json::JsonView> {
    Seq::new(v.len(), |i: int| level_json(v[i]))
}

/// The document of one texture.
pub open spec fn entry_json(e: EntryView) -> crate::json::JsonView {
    crate::json::JsonView::Object(
        crate::json::empty().push(
            ("path"@, crate::json::JsonView::Str(e.path)),
        ).push(
            ("format"@, crate::json::JsonView::Str(native_name(e.format))),
        ).push(
            ("colorSpace"@, crate::json::JsonView::Str(color_space_name(e.color_space))),
        ).push(
            ("codec"@, crate::json::JsonView::Str(codec_name(e.codec))),
        ).push(
            ("file"@, crate::json::JsonView::Str(e.file_name)),
        ).push(
            ("sha12"@, crate::json::JsonView::Str(e.sha12)),
        ).push(
            ("byteLength"@, crate::json::JsonView::UInt(e.byte_length)),
        ).push(
            ("levels"@, crate::json::JsonView::Array(levels_json(e.levels))),
        ),
    )
}

/// The document of places.
fn write_levels(v: &Vec<LevelInfo>) -> (r: Json)
    ensures
        r@ == crate::json::JsonView::Array(levels_json(v@)),
{
    let mut out: Vec<Json> = Vec::new();
    let mut i: usize = 0;
    while i < v.len()
        invariant
            i <= v@.len(),
            crate::json::json_views(out@) =~= levels_json(v@).take(i as int),
        decreases v@.len() - i,
    {
        let mut m: Members = Members::new();
        m.put_uint("width", v[i].width as u64);
        m.put_uint("height", v[i].height as u64);
        m.put_uint("offset", v[i].offset);
        m.put_uint("length", v[i].length);
        let item: Json = m.object();
        assert(levels_json(v@).take(i + 1) =~= levels_json(v@).take(i as int).push(item@));
        crate::json::add_item(&mut out, item);
        i += 1;
    }
    assert(levels_json(v@).take(i as int) =~= levels_json(v@));
    array(out)
}

/// The document of one texture.
fn write_entry(e: &TextureEntry) -> (r: Json)
    ensures
        r@ == entry_json(e@),
{
    let mut m: Members = Members::new();
    m.put_text("path", e.path.as_str());
    m.put_text("format", e.format.as_str());
    m.put_text("colorSpace", e.color_space.as_str());
    m.put_text("codec", e.codec.as_str());
    m.put_text("file", e.file_name.as_str());
    m.put_text("sha12", e.sha12.as_str());
    m.put_uint("byteLength", e.byte_length);
    m.put("levels", write_levels(&e.levels));
    m.object()
}

/// The bytes of the first `n` textures, those that share a file counted each.
pub open spec fn bytes_of(entries: Seq<EntryView>, n: int) -> int
    decreases n,
{
    if n <= 0 {
        0
    } else {
        bytes_of(entries, n - 1) + entries[n - 1].byte_length
    }
}

/// The bytes of some of the textures are no more than those of all.
proof fn lemma_bytes_grow(entries: Seq<EntryView>, k: int, n: int)
    requires
        0 <= k <= n,
    ensures
        bytes_of(entries, k) <= bytes_of(entries, n),
    decreases n - k,
{
    if k < n {
        lemma_bytes_grow(entries, k, n - 1);
    }
}

/// The catalog of an export that has not begun.
pub open spec fn empty_catalog() -> CatalogView {
    CatalogView {
        by_path_level: Map::empty(),
        by_constant: Map::empty(),
        entries: Seq::empty(),
        files: Seq::empty(),
        dedup_hits: 0,
        dedup_bytes_saved: 0,
    }
}

impl Default for TextureCatalog {
    fn default() -> (r: TextureCatalog)
        ensures
            r@ == empty_catalog(),
            sound(r@),
    {
        let r: TextureCatalog = TextureCatalog {
            by_path_level: LevelTable { entries: Vec::new() },
            by_constant: Table::new(),
            entries: Vec::new(),
            files: Vec::new(),
            dedup_hits: 0,
            dedup_bytes_saved: 0,
        };
        assert(r@.entries =~= Seq::<EntryView>::empty());
        assert(r@.files =~= Seq::<(Seq<char>, Seq<u8>)>::empty());
        r
    }
}

impl TextureCatalog {
    /// Whether a texture has levels, where they are needed.
    pub fn can_plan(
        &self,
        compiled_path: &str,
        header: &TextureHeader,
        base_level: u32,
        color_space: ColorSpace,
    ) -> (r: bool)
        ensures
            r == has_levels(self@, compiled_path@, *header, base_level, color_space),
    {
        header.num_mip_levels >= 1 || NativeFormat::from_vtex(header.format).is_none()
            || self.by_path_level.get(compiled_path, base_level, color_space).is_some()
    }

    /// What the catalog needs to hand out a texture: nothing where it has it, else the pixel of a
    /// constant or the levels from `base_level` on. A format that cannot be written out is an
    /// error.
    pub fn plan(
        &self,
        compiled_path: &str,
        header: &TextureHeader,
        base_level: u32,
        color_space: ColorSpace,
    ) -> (r: Result<LoadStep, NativeTextureError>)
        requires
            has_levels(self@, compiled_path@, *header, base_level, color_space),
        ensures
            match r {
                Ok(step) => step_for(
                    self@,
                    compiled_path@,
                    *header,
                    base_level,
                    color_space,
                ) == Some(step),
                Err(e) => {
                    &&& step_for(
                        self@,
                        compiled_path@,
                        *header,
                        base_level,
                        color_space,
                    ) is None
                    &&& e matches NativeTextureError::UnsupportedFormat { path, format }
                    &&& path@ == compiled_path@
                    &&& format@ == header.format_name@
                },
            },
    {
        let constant: bool = header.width == 4 && header.height == 4 && header.num_mip_levels == 1
            && header.depth <= 1 && !header.is_cube && !header.is_volume;
        if constant {
            return match self.by_constant.get(compiled_path) {
                Some(known) => Ok(LoadStep::Known(*known)),
                None => Ok(LoadStep::Pixel),
            };
        }
        match NativeFormat::from_vtex(header.format) {
            None => Err(
                NativeTextureError::UnsupportedFormat {
                    path: compiled_path.to_owned(),
                    format: header.format_name.clone(),
                },
            ),
            Some(format) => match self.by_path_level.get(compiled_path, base_level, color_space) {
                Some(known) => Ok(LoadStep::Known(known)),
                None => Ok(
                    LoadStep::Levels {
                        first: base_level,
                        last: header.num_mip_levels as u32 - 1,
                        format,
                    },
                ),
            },
        }
    }

    /// Takes the pixel of a constant.
    pub fn keep_constant(&mut self, compiled_path: &str, raw: [u8; 4], codec: Codec) -> (r: Loaded)
        requires
            sound(old(self)@),
        ensures
            r == (Loaded::Constant { raw, codec }),
            final(self)@ == with_constant(old(self)@, compiled_path@, r),
            sound(final(self)@),
    {
        let value: Loaded = Loaded::Constant { raw, codec };
        proof {
            lemma_constant_sound(self@, compiled_path@, value);
        }
        self.by_constant.insert(compiled_path.to_owned(), value);
        value
    }

    /// Takes a chain of levels.
    pub fn register(
        &mut self,
        compiled_path: &str,
        base_level: u32,
        color_space: ColorSpace,
        format: NativeFormat,
        codec: Codec,
        mips: &Vec<RawMip>,
    ) -> (r: Loaded)
        requires
            sound(old(self)@),
            has_room(old(self)@, blob_of(mip_views(mips@)).len() as int),
        ensures
            (final(self)@, r) == after_register(
                old(self)@,
                compiled_path@,
                base_level,
                color_space,
                format,
                codec,
                mip_views(mips@),
            ),
            sound(final(self)@),
    {
        proof {
            lemma_register_sound(
                self@,
                compiled_path@,
                base_level,
                color_space,
                format,
                codec,
                mip_views(mips@),
            );
        }
        let ghost before = self@;
        let (blob, levels) = lay_out(mips);
        let hash: [u8; 32] = sha256(blob.as_slice());
        let got: Loaded = match find_entry(&self.entries, &hash, Some(color_space)) {
            Some(i) => {
                self.dedup_hits = self.dedup_hits + 1;
                self.dedup_bytes_saved = self.dedup_bytes_saved + blob.len() as u64;
                Loaded::Texture(i as u32)
            },
            None => {
                let index: u32 = self.entries.len() as u32;
                match find_entry(&self.entries, &hash, None) {
                    Some(k) => {
                        proof {
                            lemma_entry_with(before.entries, hash@, None, 0);
                        }
                        let other: &TextureEntry = &self.entries[k];
                        let entry: TextureEntry = TextureEntry {
                            path: compiled_path.to_owned(),
                            format,
                            color_space,
                            codec,
                            file_name: other.file_name.clone(),
                            sha12: other.sha12.clone(),
                            levels: copy_levels(&other.levels),
                            byte_length: other.byte_length,
                            hash: other.hash,
                        };
                        proof {
                            assert(before.entries[k as int] == self.entries@[k as int]@);
                            assert(entry_views(self.entries@.push(entry)) =~= entry_views(
                                self.entries@,
                            ).push(entry@));
                        }
                        self.entries.push(entry);
                        self.dedup_hits = self.dedup_hits + 1;
                        self.dedup_bytes_saved = self.dedup_bytes_saved + blob.len() as u64;
                    },
                    None => {
                        let digest: String = sha12(&hash);
                        let mut file_name: String = concat("render_tex/", digest.as_str());
                        file_name.append(".bin");
                        let entry: TextureEntry = TextureEntry {
                            path: compiled_path.to_owned(),
                            format,
                            color_space,
                            codec,
                            file_name: file_name.clone(),
                            sha12: digest,
                            levels,
                            byte_length: blob.len() as u64,
                            hash,
                        };
                        proof {
                            assert(entry_views(self.entries@.push(entry)) =~= entry_views(
                                self.entries@,
                            ).push(entry@));
                            assert(file_views(self.files@.push((file_name, blob))) =~= file_views(
                                self.files@,
                            ).push((file_name@, blob@)));
                        }
                        self.entries.push(entry);
                        self.files.push((file_name, blob));
                    },
                }
                Loaded::Texture(index)
            },
        };
        self.by_path_level.insert(compiled_path, base_level, color_space, got);
        got
    }

    /// The documents of the textures.
    pub fn textures_json(&self) -> (r: Vec<Json>)
        ensures
            crate::json::json_views(r@) == Seq::new(
                self@.entries.len(),
                |i: int| entry_json(self@.entries[i]),
            ),
    {
        let ghost all = Seq::new(self@.entries.len(), |i: int| entry_json(self@.entries[i]));
        let mut out: Vec<Json> = Vec::new();
        let mut i: usize = 0;
        while i < self.entries.len()
            invariant
                i <= self.entries@.len(),
                all == Seq::new(self@.entries.len(), |i: int| entry_json(self@.entries[i])),
                crate::json::json_views(out@) =~= all.take(i as int),
            decreases self.entries@.len() - i,
        {
            let item: Json = write_entry(&self.entries[i]);
            proof {
                assert(self@.entries[i as int] == self.entries@[i as int]@);
                assert(all.take(i + 1) =~= all.take(i as int).push(item@));
            }
            crate::json::add_item(&mut out, item);
            i += 1;
        }
        assert(all.take(i as int) =~= all);
        out
    }

    /// The files to write.
    pub fn into_files(self) -> (r: Vec<(String, Vec<u8>)>)
        ensures
            file_views(r@) == self@.files,
    {
        self.files
    }

    /// How many textures there are.
    pub fn count(&self) -> (r: usize)
        ensures
            r == self@.entries.len(),
    {
        self.entries.len()
    }

    /// The bytes of the textures, those that share a file counted each.
    pub fn total_bytes(&self) -> (r: u64)
        requires
            bytes_of(self@.entries, self@.entries.len() as int) <= u64::MAX,
        ensures
            r == bytes_of(self@.entries, self@.entries.len() as int),
    {
        let mut total: u64 = 0;
        let mut i: usize = 0;
        while i < self.entries.len()
            invariant
                i <= self.entries@.len(),
                self@.entries.len() == self.entries@.len(),
                bytes_of(self@.entries, self@.entries.len() as int) <= u64::MAX,
                total == bytes_of(self@.entries, i as int),
            decreases self.entries@.len() - i,
        {
            proof {
                lemma_bytes_grow(self@.entries, i + 1, self@.entries.len() as int);
                assert(self@.entries[i as int] == self.entries@[i as int]@);
            }
            total = total + self.entries[i].byte_length;
            i += 1;
        }
        total
    }

    /// Whether the bytes of the textures, those that share a file counted each, can be counted.
    pub fn total_is_countable(&self) -> (r: bool)
        ensures
            r == (bytes_of(self@.entries, self@.entries.len() as int) <= u64::MAX),
    {
        let mut total: u64 = 0;
        let mut i: usize = 0;
        while i < self.entries.len()
            invariant
                i <= self.entries@.len(),
                self@.entries.len() == self.entries@.len(),
                total == bytes_of(self@.entries, i as int),
            decreases self.entries@.len() - i,
        {
            proof {
                lemma_bytes_grow(self@.entries, i + 1, self@.entries.len() as int);
                assert(self@.entries[i as int] == self.entries@[i as int]@);
            }
            total = match total.checked_add(self.entries[i].byte_length) {
                Some(t) => t,
                None => {
                    return false;
                },
            };
            i += 1;
        }
        true
    }

    /// Whether the counts can take content of `len` bytes more.
    pub fn has_room(&self, len: u64) -> (r: bool)
        ensures
            r == has_room(self@, len as int),
    {
        (self.entries.len() as u64) < u32::MAX as u64 && self.dedup_hits < u32::MAX
            && self.dedup_bytes_saved <= u64::MAX - len
    }

    /// How often content was there already.
    pub fn dedup_hits(&self) -> (r: u32)
        ensures
            r == self@.dedup_hits,
    {
        self.dedup_hits
    }

    /// The bytes that were not written a second time.
    pub fn dedup_bytes_saved(&self) -> (r: u64)
        ensures
            r == self@.dedup_bytes_saved,
    {
        self.dedup_bytes_saved
    }
}

/// A texture that was taken is known: asked for again by the same path, level and colour space, the
/// catalog hands out the same and needs nothing.
pub proof fn registered_textures_are_known(
    c: CatalogView,
    path: Seq<char>,
    h: TextureHeader,
    base_level: u32,
    color_space: ColorSpace,
    format: NativeFormat,
    codec: Codec,
    mips: Seq<MipView>,
)
    requires
        !is_constant(h),
        native_of(h.format) is Some,
    ensures
        ({
            let (after, got) = after_register(
                c,
                path,
                base_level,
                color_space,
                format,
                codec,
                mips,
            );
            step_for(after, path, h, base_level, color_space) == Some(LoadStep::Known(got))
        }),
{
}

/// One content in two colour spaces makes two textures, each of its own colour space, on one file.
pub proof fn one_file_for_two_color_spaces(
    c: CatalogView,
    path: Seq<char>,
    base_level: u32,
    format: NativeFormat,
    codec: Codec,
    mips: Seq<MipView>,
)
    requires
        sound(c),
        has_room(c, 2 * (blob_of(mips).len() as int)),
        c.entries.len() + 1 < u32::MAX,
        c.dedup_hits + 1 < u32::MAX,
    ensures
        ({
            let (once, a) = after_register(
                c,
                path,
                base_level,
                ColorSpace::Srgb,
                format,
                codec,
                mips,
            );
            let (twice, b) = after_register(
                once,
                path,
                base_level,
                ColorSpace::Linear,
                format,
                codec,
                mips,
            );
            &&& a is Texture && b is Texture
            &&& a->Texture_0 != b->Texture_0
            &&& a->Texture_0 < twice.entries.len() && b->Texture_0 < twice.entries.len()
            &&& twice.entries[a->Texture_0 as int].color_space == ColorSpace::Srgb
            &&& twice.entries[b->Texture_0 as int].color_space == ColorSpace::Linear
            &&& twice.entries[a->Texture_0 as int].file_name
                == twice.entries[b->Texture_0 as int].file_name
            &&& twice.files == once.files
        }),
{
    let hash = crate::codec::sha256_of(blob_of(mips));
    let (once, a) = after_register(c, path, base_level, ColorSpace::Srgb, format, codec, mips);
    lemma_register_sound(c, path, base_level, ColorSpace::Srgb, format, codec, mips);
    lemma_entry_with(c.entries, hash, Some(ColorSpace::Srgb), 0);
    lemma_entry_with(c.entries, hash, None, 0);
    let (twice, b) = after_register(
        once,
        path,
        base_level,
        ColorSpace::Linear,
        format,
        codec,
        mips,
    );
    lemma_register_sound(once, path, base_level, ColorSpace::Linear, format, codec, mips);
    lemma_entry_with(once.entries, hash, Some(ColorSpace::Linear), 0);
    lemma_entry_with(once.entries, hash, None, 0);
    let i = a->Texture_0 as int;
    assert(entry_has(once.entries[i], hash, Some(ColorSpace::Srgb)));
    assert(entry_has(once.entries[i], hash, None));
    assert(entry_with(once.entries, hash, None, 0) is Some);
    let j = b->Texture_0 as int;
    assert(twice.entries[i] == once.entries[i]);
    assert(twice.entries[j].hash == hash);
    assert(has_file(twice.files, twice.entries[i]));
    assert(has_file(twice.files, twice.entries[j]));
}

} // verus!
