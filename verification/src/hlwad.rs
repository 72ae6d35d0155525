//! Texture-archive container codec: a 12-byte header, a directory of 32-byte
//! entries, and one indexed-color texture payload per entry. Each payload is a
//! 40-byte texture header, the concatenated index buffers of four mip levels,
//! a 256-entry RGB palette, and a 2-byte trailer. All integers little-endian.

use vstd::prelude::*;

use crate::le::{
    le_of_u16, le_of_u32, lemma_vec_len_fits, push_bytes, push_u16_le, push_u32_le, read_bytes,
    read_u16_le, read_u32_le, u16_of_le, u32_of_le,
};
use crate::FormatError;

verus! {

pub const WAD_HEADER_SIZE: usize = 12;

pub const DIRECTORY_ENTRY_SIZE: usize = 32;

pub const DIRECTORY_ENTRY_NAME_SIZE: usize = 16;

pub const TEXTURE_HEADER_SIZE: usize = 40;

/// Palette bytes (256 colors of 3 bytes) plus the 2-byte trailer.
pub const TEXTURE_TAIL_SIZE: usize = 770;

/// Smallest possible texture payload: header + empty index buffer + tail.
pub const MIN_TEXTURE_DISK_SIZE: usize = 810;

/// Directory type tag of a texture entry.
pub const TEXTURE_TYPE_TAG: u8 = 0x43;

/// The archive signature, the ASCII bytes of `WAD3`.
pub open spec fn wad_magic() -> Seq<u8> {
    seq![0x57u8, 0x41u8, 0x44u8, 0x33u8]
}

// ---------------------------------------------------------------------------
// Data model and views
// ---------------------------------------------------------------------------

#[derive(Debug, Clone, PartialEq)]
pub struct WadHeader {
    /// 4 signature bytes.
    pub sz_magic: Vec<u8>,
    pub n_dir: u32,
    pub n_dir_offset: u32,
}

#[verifier::ext_equal]
pub ghost struct WadHeaderView {
    pub magic: Seq<u8>,
    pub n_dir: u32,
    pub n_dir_offset: u32,
}

impl View for WadHeader {
    type V = WadHeaderView;

    open spec fn view(&self) -> WadHeaderView {
        WadHeaderView { magic: self.sz_magic@, n_dir: self.n_dir, n_dir_offset: self.n_dir_offset }
    }
}

impl WadHeaderView {
    pub open spec fn wf(self) -> bool {
        self.magic.len() == 4
    }
}

#[derive(Debug, Clone, PartialEq)]
pub struct DirectoryEntry {
    pub n_file_pos: u32,
    pub n_disk_size: u32,
    pub n_size: u32,
    pub n_type: u8,
    pub b_compression: u8,
    /// Unused on disk; kept so records round-trip byte for byte.
    pub padding: u16,
    /// 16 bytes, null-padded.
    pub sz_name: Vec<u8>,
}

#[verifier::ext_equal]
pub ghost struct DirectoryEntryView {
    pub file_pos: u32,
    pub disk_size: u32,
    pub size: u32,
    pub n_type: u8,
    pub compression: u8,
    pub padding: u16,
    pub name: Seq<u8>,
}

impl View for DirectoryEntry {
    type V = DirectoryEntryView;

    open spec fn view(&self) -> DirectoryEntryView {
        DirectoryEntryView {
            file_pos: self.n_file_pos,
            disk_size: self.n_disk_size,
            size: self.n_size,
            n_type: self.n_type,
            compression: self.b_compression,
            padding: self.padding,
            name: self.sz_name@,
        }
    }
}

impl DirectoryEntryView {
    pub open spec fn wf(self) -> bool {
        self.name.len() == 16
    }
}

/// One RGB palette entry.
#[derive(Debug, Clone, Copy, PartialEq, Eq, Structural)]
pub struct Color {
    pub r: u8,
    pub g: u8,
    pub b: u8,
}

impl Color {
    pub fn new(r: u8, g: u8, b: u8) -> (c: Color)
        ensures
            c == (Color { r, g, b }),
    {
        Color { r, g, b }
    }
}

#[derive(Debug, Clone, PartialEq)]
pub struct TextureHeader {
    /// 16 bytes, null-padded.
    pub sz_name: Vec<u8>,
    pub n_width: u32,
    pub n_height: u32,
    /// 4 byte offsets, each relative to the texture's own start.
    pub mip_offsets: Vec<u32>,
}

#[verifier::ext_equal]
pub ghost struct TextureHeaderView {
    pub name: Seq<u8>,
    pub width: u32,
    pub height: u32,
    pub mip_offsets: Seq<u32>,
}

impl View for TextureHeader {
    type V = TextureHeaderView;

    open spec fn view(&self) -> TextureHeaderView {
        TextureHeaderView {
            name: self.sz_name@,
            width: self.n_width,
            height: self.n_height,
            mip_offsets: self.mip_offsets@,
        }
    }
}

impl TextureHeaderView {
    pub open spec fn wf(self) -> bool {
        self.name.len() == 16 && self.mip_offsets.len() == 4
    }
}

/// A mip level of a texture: level 0 is full size, level N is 1/2^N size.
#[allow(non_camel_case_types)]
#[derive(Debug, Clone, Copy)]
pub enum MIPMAP_LEVEL {
    LEVEL0,
    LEVEL1,
    LEVEL2,
    LEVEL3,
}

impl MIPMAP_LEVEL {
    pub open spec fn spec_index(self) -> int {
        match self {
            MIPMAP_LEVEL::LEVEL0 => 0,
            MIPMAP_LEVEL::LEVEL1 => 1,
            MIPMAP_LEVEL::LEVEL2 => 2,
            MIPMAP_LEVEL::LEVEL3 => 3,
        }
    }

    pub fn index(&self) -> (r: usize)
        ensures
            r == self.spec_index(),
    {
        match self {
            MIPMAP_LEVEL::LEVEL0 => 0,
            MIPMAP_LEVEL::LEVEL1 => 1,
            MIPMAP_LEVEL::LEVEL2 => 2,
            MIPMAP_LEVEL::LEVEL3 => 3,
        }
    }

    /// The dimension divisor of this level.
    pub fn divisor(&self) -> (r: u32)
        ensures
            r == spec_mip_divisor(self.spec_index()),
    {
        match self {
            MIPMAP_LEVEL::LEVEL0 => 1,
            MIPMAP_LEVEL::LEVEL1 => 2,
            MIPMAP_LEVEL::LEVEL2 => 4,
            MIPMAP_LEVEL::LEVEL3 => 8,
        }
    }
}

pub open spec fn spec_mip_divisor(level: int) -> int {
    if level <= 0 {
        1
    } else if level == 1 {
        2
    } else if level == 2 {
        4
    } else {
        8
    }
}

/// Width of mip level `level` of a texture `w` pixels wide.
pub open spec fn spec_mip_dim(d: u32, level: int) -> int {
    d as int / spec_mip_divisor(level)
}

/// One decoded archive texture: header, concatenated mip index buffers,
/// and a private 256-entry palette.
#[derive(Debug, Clone, PartialEq)]
pub struct Texture {
    pub header: TextureHeader,
    /// Index bytes of all four mip levels, concatenated in level order.
    pub data: Vec<u8>,
    pub palette: Vec<Color>,
}

#[verifier::ext_equal]
pub ghost struct TextureView {
    pub header: TextureHeaderView,
    pub data: Seq<u8>,
    pub palette: Seq<Color>,
}

impl View for Texture {
    type V = TextureView;

    open spec fn view(&self) -> TextureView {
        TextureView { header: self.header@, data: self.data@, palette: self.palette@ }
    }
}

impl TextureView {
    pub open spec fn wf(self) -> bool {
        self.header.wf() && self.palette.len() == 256
    }
}

#[derive(Debug, Clone, PartialEq)]
pub struct EntryPair {
    pub dir_entry: DirectoryEntry,
    pub texture: Texture,
}

#[verifier::ext_equal]
pub ghost struct EntryPairView {
    pub dir_entry: DirectoryEntryView,
    pub texture: TextureView,
}

impl View for EntryPair {
    type V = EntryPairView;

    open spec fn view(&self) -> EntryPairView {
        EntryPairView { dir_entry: self.dir_entry@, texture: self.texture@ }
    }
}

impl EntryPairView {
    pub open spec fn wf(self) -> bool {
        self.dir_entry.wf() && self.texture.wf()
    }
}

#[derive(Debug, Clone, PartialEq)]
pub struct WadFile {
    pub header: WadHeader,
    pub entries: Vec<EntryPair>,
}

#[verifier::ext_equal]
pub ghost struct WadFileView {
    pub header: WadHeaderView,
    pub entries: Seq<EntryPairView>,
}

impl View for WadFile {
    type V = WadFileView;

    open spec fn view(&self) -> WadFileView {
        WadFileView {
            header: self.header@,
            entries: Seq::new(self.entries@.len(), |i: int| self.entries@[i]@),
        }
    }
}

impl WadFileView {
    pub open spec fn wf(self) -> bool {
        &&& self.header.wf()
        &&& forall|i: int| 0 <= i < self.entries.len() ==> (#[trigger] self.entries[i]).wf()
    }
}

// ---------------------------------------------------------------------------
// Parse specification
// ---------------------------------------------------------------------------

pub open spec fn spec_parse_header(b: Seq<u8>) -> WadHeaderView
    recommends
        b.len() >= 12,
{
    WadHeaderView {
        magic: b.subrange(0, 4),
        n_dir: u32_of_le(b.subrange(4, 8)) as u32,
        n_dir_offset: u32_of_le(b.subrange(8, 12)) as u32,
    }
}

pub open spec fn spec_parse_dir_entry(b: Seq<u8>, off: int) -> DirectoryEntryView
    recommends
        0 <= off,
        off + 32 <= b.len(),
{
    DirectoryEntryView {
        file_pos: u32_of_le(b.subrange(off, off + 4)) as u32,
        disk_size: u32_of_le(b.subrange(off + 4, off + 8)) as u32,
        size: u32_of_le(b.subrange(off + 8, off + 12)) as u32,
        n_type: b[off + 12],
        compression: b[off + 13],
        padding: u16_of_le(b.subrange(off + 14, off + 16)) as u16,
        name: b.subrange(off + 16, off + 32),
    }
}

pub open spec fn spec_parse_tex_header(b: Seq<u8>, off: int) -> TextureHeaderView
    recommends
        0 <= off,
        off + 40 <= b.len(),
{
    TextureHeaderView {
        name: b.subrange(off, off + 16),
        width: u32_of_le(b.subrange(off + 16, off + 20)) as u32,
        height: u32_of_le(b.subrange(off + 20, off + 24)) as u32,
        mip_offsets: seq![
            u32_of_le(b.subrange(off + 24, off + 28)) as u32,
            u32_of_le(b.subrange(off + 28, off + 32)) as u32,
            u32_of_le(b.subrange(off + 32, off + 36)) as u32,
            u32_of_le(b.subrange(off + 36, off + 40)) as u32,
        ],
    }
}

pub open spec fn spec_parse_palette(b: Seq<u8>, off: int) -> Seq<Color>
    recommends
        0 <= off,
        off + 768 <= b.len(),
{
    Seq::new(256, |i: int| Color { r: b[off + 3 * i], g: b[off + 3 * i + 1], b: b[off + 3 * i + 2] })
}

/// Where a texture's palette begins: derived from the directory entry,
/// not stored, to match the on-disk layout exactly.
pub open spec fn spec_palette_start(e: DirectoryEntryView) -> int {
    e.file_pos + e.disk_size - 770
}

/// The bounds checks that make one entry's payload readable: an uncompressed
/// payload of at least header + palette + trailer, lying inside the buffer.
pub open spec fn spec_entry_bounds_ok(blen: int, e: DirectoryEntryView) -> bool {
    &&& e.compression == 0
    &&& e.disk_size >= 810
    &&& e.file_pos + e.disk_size <= blen
}

pub open spec fn spec_parse_texture(b: Seq<u8>, e: DirectoryEntryView) -> TextureView
    recommends
        spec_entry_bounds_ok(b.len() as int, e),
{
    TextureView {
        header: spec_parse_tex_header(b, e.file_pos as int),
        data: b.subrange(e.file_pos + 40, spec_palette_start(e)),
        palette: spec_parse_palette(b, spec_palette_start(e)),
    }
}

pub open spec fn spec_dir_entry_off(h: WadHeaderView, i: int) -> int {
    h.n_dir_offset + 32 * i
}

pub open spec fn spec_entry_at(b: Seq<u8>, h: WadHeaderView, i: int) -> DirectoryEntryView {
    spec_parse_dir_entry(b, spec_dir_entry_off(h, i))
}

pub open spec fn spec_has_magic(b: Seq<u8>) -> bool {
    b.len() >= 12 && b.subrange(0, 4) == wad_magic()
}

/// Every check the decoder performs; decoding returns `Ok` exactly here.
pub open spec fn spec_wad_decodable(b: Seq<u8>) -> bool {
    &&& spec_has_magic(b)
    &&& {
        let h = spec_parse_header(b);
        &&& h.n_dir_offset + 32 * h.n_dir <= b.len()
        &&& forall|i: int|
            0 <= i < h.n_dir ==> spec_entry_bounds_ok(
                b.len() as int,
                #[trigger] spec_entry_at(b, h, i),
            )
    }
}

pub open spec fn spec_decode_wad(b: Seq<u8>) -> WadFileView
    recommends
        spec_wad_decodable(b),
{
    let h = spec_parse_header(b);
    WadFileView {
        header: h,
        entries: Seq::new(
            h.n_dir as nat,
            |i: int|
                EntryPairView {
                    dir_entry: spec_entry_at(b, h, i),
                    texture: spec_parse_texture(b, spec_entry_at(b, h, i)),
                },
        ),
    }
}

// ---------------------------------------------------------------------------
// Decoding
// ---------------------------------------------------------------------------

impl WadHeader {
    /// Read the 12-byte archive header at the start of the buffer.
    pub fn from_bytes(buf: &Vec<u8>) -> (h: WadHeader)
        requires
            buf@.len() >= 12,
        ensures
            h@ == spec_parse_header(buf@),
            h@.wf(),
    {
        let sz_magic = read_bytes(buf, 0, 4);
        let n_dir = read_u32_le(buf, 4);
        let n_dir_offset = read_u32_le(buf, 8);
        WadHeader { sz_magic, n_dir, n_dir_offset }
    }
}

impl DirectoryEntry {
    /// Read one 32-byte directory entry at `off`.
    pub fn from_bytes(buf: &Vec<u8>, off: usize) -> (e: DirectoryEntry)
        requires
            off + 32 <= buf@.len(),
        ensures
            e@ == spec_parse_dir_entry(buf@, off as int),
            e@.wf(),
    {
        proof {
            lemma_vec_len_fits(buf);
        }
        let n_file_pos = read_u32_le(buf, off);
        let n_disk_size = read_u32_le(buf, off + 4);
        let n_size = read_u32_le(buf, off + 8);
        let n_type = buf[off + 12];
        let b_compression = buf[off + 13];
        let padding = read_u16_le(buf, off + 14);
        let sz_name = read_bytes(buf, off + 16, 16);
        DirectoryEntry { n_file_pos, n_disk_size, n_size, n_type, b_compression, padding, sz_name }
    }
}

impl TextureHeader {
    /// Read one 40-byte texture header at `off`.
    pub fn from_bytes(buf: &Vec<u8>, off: usize) -> (t: TextureHeader)
        requires
            off + 40 <= buf@.len(),
        ensures
            t@ == spec_parse_tex_header(buf@, off as int),
            t@.wf(),
    {
        proof {
            lemma_vec_len_fits(buf);
        }
        let sz_name = read_bytes(buf, off, 16);
        let n_width = read_u32_le(buf, off + 16);
        let n_height = read_u32_le(buf, off + 20);
        let mut mip_offsets: Vec<u32> = Vec::new();
        mip_offsets.push(read_u32_le(buf, off + 24));
        mip_offsets.push(read_u32_le(buf, off + 28));
        mip_offsets.push(read_u32_le(buf, off + 32));
        mip_offsets.push(read_u32_le(buf, off + 36));
        let t = TextureHeader { sz_name, n_width, n_height, mip_offsets };
        proof {
            assert(t@.mip_offsets =~= spec_parse_tex_header(buf@, off as int).mip_offsets);
            assert(t@ =~= spec_parse_tex_header(buf@, off as int));
        }
        t
    }
}

/// Read the 256-entry RGB palette starting at `off`.
fn read_palette(buf: &Vec<u8>, off: usize) -> (p: Vec<Color>)
    requires
        off + 768 <= buf@.len(),
    ensures
        p@ == spec_parse_palette(buf@, off as int),
{
    proof {
        lemma_vec_len_fits(buf);
    }
    let mut p: Vec<Color> = Vec::new();
    let mut k: usize = 0;
    while k < 256
        invariant
            k <= 256,
            off + 768 <= buf@.len(),
            buf@.len() <= usize::MAX,
            p@.len() == k,
            forall|j: int|
                0 <= j < k ==> p@[j] == (Color {
                    r: buf@[off + 3 * j],
                    g: buf@[off + 3 * j + 1],
                    b: buf@[off + 3 * j + 2],
                }),
        decreases 256 - k,
    {
        p.push(
            Color { r: buf[off + 3 * k], g: buf[off + 3 * k + 1], b: buf[off + 3 * k + 2] },
        );
        k = k + 1;
    }
    proof {
        assert(p@ =~= spec_parse_palette(buf@, off as int));
    }
    p
}

impl Texture {
    /// Decode the texture payload that `entry` locates inside the archive
    /// buffer. Fails with `Truncated` when the payload would reach out of
    /// bounds, is smaller than its fixed parts, or claims compression.
    pub fn from_directory_entry(entry: &DirectoryEntry, wad_data: &Vec<u8>) -> (r: Result<
        Texture,
        FormatError,
    >)
        requires
            entry@.wf(),
        ensures
            r is Ok <==> spec_entry_bounds_ok(wad_data@.len() as int, entry@),
            r matches Ok(t) ==> t@ == spec_parse_texture(wad_data@, entry@) && t@.wf(),
            r matches Err(e) ==> e == FormatError::Truncated,
    {
        proof {
            lemma_vec_len_fits(wad_data);
        }
        if entry.b_compression != 0 {
            return Err(FormatError::Truncated);
        }
        if entry.n_disk_size < MIN_TEXTURE_DISK_SIZE as u32 {
            return Err(FormatError::Truncated);
        }
        if (entry.n_file_pos as u64) + (entry.n_disk_size as u64) > wad_data.len() as u64 {
            return Err(FormatError::Truncated);
        }
        let file_pos = entry.n_file_pos as usize;
        let palette_start = file_pos + entry.n_disk_size as usize - 770;
        let header = TextureHeader::from_bytes(wad_data, file_pos);
        let data = read_bytes(wad_data, file_pos + 40, palette_start - (file_pos + 40));
        let palette = read_palette(wad_data, palette_start);
        Ok(Texture { header, data, palette })
    }
}

impl WadFile {
    /// True exactly when the buffer is long enough for a header and starts
    /// with the archive signature.
    pub fn validate_header(buf: &Vec<u8>) -> (r: bool)
        ensures
            r == spec_has_magic(buf@),
    {
        proof {
            lemma_vec_len_fits(buf);
        }
        if buf.len() < WAD_HEADER_SIZE {
            return false;
        }
        let ok = buf[0] == 0x57 && buf[1] == 0x41 && buf[2] == 0x44 && buf[3] == 0x33;
        proof {
            if ok {
                assert(buf@.subrange(0, 4) =~= wad_magic());
            } else {
                assert(buf@.subrange(0, 4) != wad_magic()) by {
                    if buf@.subrange(0, 4) == wad_magic() {
                        assert(buf@.subrange(0, 4)[0] == 0x57u8);
                        assert(buf@.subrange(0, 4)[1] == 0x41u8);
                        assert(buf@.subrange(0, 4)[2] == 0x44u8);
                        assert(buf@.subrange(0, 4)[3] == 0x33u8);
                    }
                }
            }
        }
        ok
    }

    /// Decode a whole archive. `Ok` exactly when every byte the header and
    /// directory point at lies inside the buffer; no partial model is
    /// returned.
    pub fn from_bytes(wad_data: &Vec<u8>) -> (r: Result<WadFile, FormatError>)
        ensures
            r is Ok <==> spec_wad_decodable(wad_data@),
            r matches Ok(w) ==> w@ == spec_decode_wad(wad_data@) && w@.wf(),
            r == Err::<WadFile, FormatError>(FormatError::BadMagic) <==> (wad_data@.len() >= 12
                && !spec_has_magic(wad_data@)),
            r == Err::<WadFile, FormatError>(FormatError::Truncated) <==> (wad_data@.len() < 12 || (
            spec_has_magic(wad_data@) && !spec_wad_decodable(wad_data@))),
    {
        proof {
            lemma_vec_len_fits(wad_data);
        }
        if wad_data.len() < WAD_HEADER_SIZE {
            return Err(FormatError::Truncated);
        }
        if !Self::validate_header(wad_data) {
            return Err(FormatError::BadMagic);
        }
        let header = WadHeader::from_bytes(wad_data);
        let ghost h = spec_parse_header(wad_data@);
        if (header.n_dir_offset as u64) + 32u64 * (header.n_dir as u64) > wad_data.len() as u64 {
            return Err(FormatError::Truncated);
        }
        let n = header.n_dir as usize;
        let mut entries: Vec<EntryPair> = Vec::new();
        let mut i: usize = 0;
        while i < n
            invariant
                i <= n,
                n == h.n_dir,
                header@ == h,
                header@.wf(),
                h == spec_parse_header(wad_data@),
                spec_has_magic(wad_data@),
                h.n_dir_offset + 32 * h.n_dir <= wad_data@.len(),
                wad_data@.len() <= usize::MAX,
                entries@.len() == i,
                forall|j: int|
                    0 <= j < i ==> spec_entry_bounds_ok(
                        wad_data@.len() as int,
                        #[trigger] spec_entry_at(wad_data@, h, j),
                    ),
                forall|j: int|
                    0 <= j < i ==> (#[trigger] entries@[j])@ == (EntryPairView {
                        dir_entry: spec_entry_at(wad_data@, h, j),
                        texture: spec_parse_texture(wad_data@, spec_entry_at(wad_data@, h, j)),
                    }),
            decreases n - i,
        {
            let off = header.n_dir_offset as usize + 32 * i;
            let dir_entry = DirectoryEntry::from_bytes(wad_data, off);
            match Texture::from_directory_entry(&dir_entry, wad_data) {
                Ok(texture) => {
                    entries.push(EntryPair { dir_entry, texture });
                },
                Err(_) => {
                    proof {
                        assert(!spec_entry_bounds_ok(
                            wad_data@.len() as int,
                            spec_entry_at(wad_data@, h, i as int),
                        ));
                    }
                    return Err(FormatError::Truncated);
                },
            }
            i = i + 1;
        }
        let w = WadFile { header, entries };
        proof {
            assert(spec_wad_decodable(wad_data@));
            assert(w@.entries =~= spec_decode_wad(wad_data@).entries);
            assert(w@ =~= spec_decode_wad(wad_data@));
        }
        Ok(w)
    }
}

// ---------------------------------------------------------------------------
// Indexed-color image extraction
// ---------------------------------------------------------------------------

/// RGB expansion of the first `n` palette indices of `data`: output byte
/// `3*i + c` is channel `c` of the palette color selected by index byte `i`.
pub open spec fn spec_indexed_rgb(data: Seq<u8>, palette: Seq<Color>, n: int) -> Seq<u8>
    recommends
        0 <= n <= data.len(),
        palette.len() == 256,
{
    Seq::new(
        (3 * n) as nat,
        |i: int|
            {
                let c = palette[data[i / 3] as int];
                if i % 3 == 0 {
                    c.r
                } else if i % 3 == 1 {
                    c.g
                } else {
                    c.b
                }
            },
    )
}

/// Index of the first null byte of `name` at or after `i`, if any.
pub open spec fn spec_name_end(name: Seq<u8>, i: int) -> Option<int>
    recommends
        0 <= i,
    decreases name.len() - i,
        when 0 <= i <= name.len()
{
    if i >= name.len() {
        None
    } else if name[i] == 0 {
        Some(i)
    } else {
        spec_name_end(name, i + 1)
    }
}

/// What String::from_utf8 decodes the bytes to: the character sequence
/// when they are valid UTF-8, nothing otherwise. A pure function of the
/// bytes.
pub uninterp spec fn utf8_chars(bytes: Seq<u8>) -> Option<Seq<char>>;

/// Relies on String::from_utf8: `Ok` exactly for valid UTF-8, a pure
/// function of the bytes; bytes below 0x80 are valid UTF-8 and decode to
/// one char each, equal to the byte's code point.
#[verifier::external_body]
fn bytes_to_string(v: Vec<u8>) -> (r: Option<String>)
    ensures
        r is Some <==> utf8_chars(v@) is Some,
        r matches Some(s) ==> utf8_chars(v@) == Some(s@),
        r matches Some(s) ==> (forall|i: int| 0 <= i < v@.len() ==> v@[i] < 128) ==> s@
            == Seq::new(v@.len(), |i: int| v@[i] as char),
        r is None ==> exists|i: int| 0 <= i < v@.len() && v@[i] >= 128,
{
    match String::from_utf8(v) {
        Ok(s) => Some(s),
        Err(_) => None,
    }
}

impl DirectoryEntry {
    /// The entry's name up to its first null byte, UTF-8 decoded. Yields
    /// nothing when no null terminator exists or the prefix before it is
    /// not valid UTF-8.
    pub fn name_str(&self) -> (r: Option<String>)
        ensures
            spec_name_end(self@.name, 0) is None ==> r is None,
            spec_name_end(self@.name, 0) matches Some(end) ==> {
                match utf8_chars(self@.name.subrange(0, end)) {
                    Some(cs) => r matches Some(s) && s@ == cs,
                    None => r is None,
                }
            },
    {
        proof {
            lemma_vec_len_fits(&self.sz_name);
        }
        let n = self.sz_name.len();
        let ghost name = self@.name;
        let mut i: usize = 0;
        let mut found = false;
        while i < n && !found
            invariant
                0 <= i <= n,
                n == name.len(),
                name == self@.name,
                spec_name_end(name, 0) == spec_name_end(name, i as int),
                found ==> i < n && name[i as int] == 0,
                !found ==> forall|j: int| 0 <= j < i ==> name[j] != 0,
            decreases n - i + (if found { 0int } else { 1int }),
        {
            if self.sz_name[i] == 0 {
                found = true;
            } else {
                i = i + 1;
            }
        }
        if !found {
            return None;
        }
        let end = i;
        proof {
            assert(spec_name_end(name, 0) == Some(end as int));
        }
        let bytes = read_bytes(&self.sz_name, 0, end);
        bytes_to_string(bytes)
    }
}

impl Texture {
    /// Decode mip level `level` to a flat row-major RGB buffer of
    /// `3 * (width >> level) * (height >> level)` bytes. The caller must
    /// request a level whose stored offset and pixel span lie inside the
    /// index buffer.
    pub fn to_rgb_image_vec(&self, level: MIPMAP_LEVEL) -> (r: Vec<u8>)
        requires
            self@.wf(),
            self@.header.mip_offsets[level.spec_index()] >= 40,
            self@.header.mip_offsets[level.spec_index()] - 40 + spec_mip_dim(
                self@.header.width,
                level.spec_index(),
            ) * spec_mip_dim(self@.header.height, level.spec_index()) <= self@.data.len(),
            3 * spec_mip_dim(self@.header.width, level.spec_index()) * spec_mip_dim(
                self@.header.height,
                level.spec_index(),
            ) <= usize::MAX,
        ensures
            r@ == spec_indexed_rgb(
                self@.data.subrange(
                    self@.header.mip_offsets[level.spec_index()] - 40,
                    self@.data.len() as int,
                ),
                self@.palette,
                spec_mip_dim(self@.header.width, level.spec_index()) * spec_mip_dim(
                    self@.header.height,
                    level.spec_index(),
                ),
            ),
            r@.len() == 3 * spec_mip_dim(self@.header.width, level.spec_index()) * spec_mip_dim(
                self@.header.height,
                level.spec_index(),
            ),
    {
        proof {
            lemma_vec_len_fits(&self.data);
        }
        let ghost l = level.spec_index();
        let div = level.divisor();
        let mw = self.header.n_width / div;
        let mh = self.header.n_height / div;
        let pc64 = (mw as u64) * (mh as u64);
        proof {
            assert(mw == spec_mip_dim(self@.header.width, l));
            assert(mh == spec_mip_dim(self@.header.height, l));
            assert(pc64 == mw as int * mh as int) by (nonlinear_arith)
                requires
                    pc64 == (mw as u64) * (mh as u64),
            ;
            assert(3 * (mw as int) * (mh as int) == 3 * (mw as int * mh as int))
                by (nonlinear_arith);
            assert(pc64 <= usize::MAX);
        }
        let pc = pc64 as usize;
        let li = level.index();
        let moff = self.mip_offset(li);
        let base = moff as usize - 40;
        let ghost dseg = self@.data.subrange(moff - 40, self@.data.len() as int);
        let mut r: Vec<u8> = Vec::new();
        let mut k: usize = 0;
        while k < pc
            invariant
                0 <= k <= pc,
                base + pc <= self.data@.len(),
                self.data@.len() <= usize::MAX,
                self.palette@.len() == 256,
                base == moff - 40,
                dseg == self@.data.subrange(moff - 40, self@.data.len() as int),
                3 * pc <= usize::MAX,
                r@.len() == 3 * k,
                forall|j: int|
                    0 <= j < 3 * k ==> r@[j] == spec_indexed_rgb(dseg, self@.palette, pc as int)[j],
            decreases pc - k,
        {
            let idx = self.data[base + k];
            let c = self.palette[idx as usize];
            r.push(c.r);
            r.push(c.g);
            r.push(c.b);
            proof {
                lemma_div3(k as int, 0);
                lemma_div3(k as int, 1);
                lemma_div3(k as int, 2);
                assert(dseg[k as int] == self@.data[base + k]);
            }
            k = k + 1;
        }
        proof {
            assert(r@ =~= spec_indexed_rgb(dseg, self@.palette, pc as int));
        }
        r
    }

    /// The stored offset of mip level `li`, relative to the texture start.
    fn mip_offset(&self, li: usize) -> (r: u32)
        requires
            self@.wf(),
            li < 4,
        ensures
            r == self@.header.mip_offsets[li as int],
    {
        self.header.mip_offsets[li]
    }

    /// Decode the full-size image (mip level 0 at the front of the index
    /// buffer) to one palette color per pixel.
    pub fn to_rgb_color_vec(&self) -> (r: Vec<Color>)
        requires
            self@.wf(),
            self@.header.width * self@.header.height <= self@.data.len(),
        ensures
            r@.len() == self@.header.width * self@.header.height,
            forall|i: int|
                0 <= i < r@.len() ==> r@[i] == self@.palette[self@.data[i] as int],
    {
        proof {
            lemma_vec_len_fits(&self.data);
        }
        let pc64 = (self.header.n_width as u64) * (self.header.n_height as u64);
        proof {
            assert(pc64 == self@.header.width * self@.header.height) by (nonlinear_arith)
                requires
                    pc64 == (self.header.n_width as u64) * (self.header.n_height as u64),
                    self.header.n_width == self@.header.width,
                    self.header.n_height == self@.header.height,
            ;
        }
        let pc = pc64 as usize;
        let mut r: Vec<Color> = Vec::new();
        let mut i: usize = 0;
        while i < pc
            invariant
                0 <= i <= pc,
                pc <= self.data@.len(),
                self.palette@.len() == 256,
                r@.len() == i,
                forall|j: int| 0 <= j < i ==> r@[j] == self@.palette[self@.data[j] as int],
            decreases pc - i,
        {
            let idx = self.data[i];
            r.push(self.palette[idx as usize]);
            i = i + 1;
        }
        r
    }
}

// ---------------------------------------------------------------------------
// Serialization specification
// ---------------------------------------------------------------------------

/// On-disk byte size of a texture payload: header, index data, palette, trailer.
pub open spec fn spec_tex_size(t: TextureView) -> int {
    40 + t.data.len() as int + 770
}

pub open spec fn spec_ser_header(h: WadHeaderView) -> Seq<u8> {
    h.magic + le_of_u32(h.n_dir) + le_of_u32(h.n_dir_offset)
}

pub open spec fn spec_ser_dir_entry(e: DirectoryEntryView) -> Seq<u8> {
    le_of_u32(e.file_pos) + le_of_u32(e.disk_size) + le_of_u32(e.size) + seq![
        e.n_type,
        e.compression,
    ] + le_of_u16(e.padding) + e.name
}

pub open spec fn spec_ser_tex_header(t: TextureHeaderView) -> Seq<u8>
    recommends
        t.wf(),
{
    t.name + le_of_u32(t.width) + le_of_u32(t.height) + le_of_u32(t.mip_offsets[0]) + le_of_u32(
        t.mip_offsets[1],
    ) + le_of_u32(t.mip_offsets[2]) + le_of_u32(t.mip_offsets[3])
}

pub open spec fn spec_ser_palette(p: Seq<Color>) -> Seq<u8> {
    Seq::new(
        (3 * p.len()) as nat,
        |i: int|
            {
                let c = p[i / 3];
                if i % 3 == 0 {
                    c.r
                } else if i % 3 == 1 {
                    c.g
                } else {
                    c.b
                }
            },
    )
}

pub open spec fn spec_ser_texture(t: TextureView) -> Seq<u8>
    recommends
        t.wf(),
{
    spec_ser_tex_header(t.header) + t.data + spec_ser_palette(t.palette) + seq![0u8, 0u8]
}

/// All texture payloads, in entry order.
pub open spec fn spec_ser_texs(es: Seq<EntryPairView>) -> Seq<u8>
    decreases es.len(),
{
    if es.len() == 0 {
        Seq::empty()
    } else {
        spec_ser_texs(es.drop_last()) + spec_ser_texture(es.last().texture)
    }
}

/// All 32-byte directory records, in entry order.
pub open spec fn spec_ser_dirs(es: Seq<EntryPairView>) -> Seq<u8>
    decreases es.len(),
{
    if es.len() == 0 {
        Seq::empty()
    } else {
        spec_ser_dirs(es.drop_last()) + spec_ser_dir_entry(es.last().dir_entry)
    }
}

/// The whole archive: header, texture payloads, then the directory.
pub open spec fn spec_ser_wad(w: WadFileView) -> Seq<u8> {
    spec_ser_header(w.header) + spec_ser_texs(w.entries) + spec_ser_dirs(w.entries)
}

/// Quotient and remainder of an explicit 3-term decomposition.
pub(crate) proof fn lemma_div3(k: int, m: int)
    requires
        0 <= m < 3,
    ensures
        (3 * k + m) / 3 == k,
        (3 * k + m) % 3 == m,
{
    vstd::arithmetic::div_mod::lemma_fundamental_div_mod_converse(3 * k + m, 3, k, m);
}

// ---------------------------------------------------------------------------
// Serialization
// ---------------------------------------------------------------------------

impl WadHeader {
    pub fn to_vec(&self) -> (r: Vec<u8>)
        ensures
            r@ == spec_ser_header(self@),
    {
        proof {
            lemma_vec_len_fits(&self.sz_magic);
        }
        let mut r = read_bytes(&self.sz_magic, 0, self.sz_magic.len());
        push_u32_le(&mut r, self.n_dir);
        push_u32_le(&mut r, self.n_dir_offset);
        proof {
            assert(r@ =~= spec_ser_header(self@));
        }
        r
    }
}

impl DirectoryEntry {
    pub fn to_vec(&self) -> (r: Vec<u8>)
        ensures
            r@ == spec_ser_dir_entry(self@),
    {
        let mut r: Vec<u8> = Vec::new();
        push_u32_le(&mut r, self.n_file_pos);
        push_u32_le(&mut r, self.n_disk_size);
        push_u32_le(&mut r, self.n_size);
        r.push(self.n_type);
        r.push(self.b_compression);
        push_u16_le(&mut r, self.padding);
        push_bytes(&mut r, &self.sz_name);
        proof {
            assert(r@ =~= spec_ser_dir_entry(self@));
        }
        r
    }
}

impl TextureHeader {
    pub fn to_vec(&self) -> (r: Vec<u8>)
        requires
            self@.wf(),
        ensures
            r@ == spec_ser_tex_header(self@),
    {
        proof {
            lemma_vec_len_fits(&self.sz_name);
        }
        let mut r = read_bytes(&self.sz_name, 0, self.sz_name.len());
        push_u32_le(&mut r, self.n_width);
        push_u32_le(&mut r, self.n_height);
        push_u32_le(&mut r, self.mip_offsets[0]);
        push_u32_le(&mut r, self.mip_offsets[1]);
        push_u32_le(&mut r, self.mip_offsets[2]);
        push_u32_le(&mut r, self.mip_offsets[3]);
        proof {
            assert(r@ =~= spec_ser_tex_header(self@));
        }
        r
    }
}

impl Texture {
    /// Serialize this texture payload: header, index data, palette, trailer.
    pub fn to_vec(&self) -> (r: Vec<u8>)
        requires
            self@.wf(),
        ensures
            r@ == spec_ser_texture(self@),
            r@.len() == spec_tex_size(self@),
    {
        proof {
            lemma_vec_len_fits(&self.data);
        }
        let mut r = self.header.to_vec();
        push_bytes(&mut r, &self.data);
        let ghost base = r@.len() as int;
        let n = self.palette.len();
        let mut k: usize = 0;
        while k < n
            invariant
                k <= n,
                n == self.palette@.len(),
                base == spec_ser_tex_header(self@.header).len() + self@.data.len(),
                r@.len() == base + 3 * k,
                r@.subrange(0, base) == spec_ser_tex_header(self@.header) + self@.data,
                forall|j: int|
                    0 <= j < 3 * k ==> r@[base + j] == spec_ser_palette(self@.palette)[j],
            decreases n - k,
        {
            let c = self.palette[k];
            r.push(c.r);
            r.push(c.g);
            r.push(c.b);
            proof {
                lemma_div3(k as int, 0);
                lemma_div3(k as int, 1);
                lemma_div3(k as int, 2);
                assert(r@.subrange(0, base) =~= spec_ser_tex_header(self@.header) + self@.data);
            }
            k = k + 1;
        }
        r.push(0);
        r.push(0);
        proof {
            assert(r@ =~= spec_ser_texture(self@));
        }
        r
    }

    /// The byte size this texture will occupy on disk.
    pub fn calculated_size(&self) -> (r: u64)
        requires
            spec_tex_size(self@) <= u64::MAX,
        ensures
            r == spec_tex_size(self@),
    {
        proof {
            lemma_vec_len_fits(&self.data);
        }
        40u64 + self.data.len() as u64 + 770u64
    }
}

impl WadFile {
    /// Serialize the archive as it stands: header, payloads, directory.
    /// Offsets are emitted as stored; call `regenerate` first so they match.
    pub fn to_bytes(&self) -> (r: Vec<u8>)
        requires
            self@.wf(),
        ensures
            r@ == spec_ser_wad(self@),
    {
        let ghost w = self@;
        let mut r = self.header.to_vec();
        let n = self.entries.len();
        let mut i: usize = 0;
        while i < n
            invariant
                i <= n,
                n == self.entries@.len(),
                w == self@,
                w.wf(),
                w.entries.len() == n,
                r@ == spec_ser_header(w.header) + spec_ser_texs(w.entries.take(i as int)),
            decreases n - i,
        {
            proof {
                assert(w.entries[i as int].wf());
            }
            let tv = self.entries[i].texture.to_vec();
            push_bytes(&mut r, &tv);
            proof {
                assert(w.entries.take(i + 1).drop_last() =~= w.entries.take(i as int));
                assert(w.entries.take(i + 1).last() == w.entries[i as int]);
                assert(r@ =~= spec_ser_header(w.header) + spec_ser_texs(w.entries.take(i + 1)));
            }
            i = i + 1;
        }
        proof {
            assert(w.entries.take(n as int) =~= w.entries);
        }
        let mut i: usize = 0;
        while i < n
            invariant
                i <= n,
                n == self.entries@.len(),
                w == self@,
                w.wf(),
                w.entries.len() == n,
                r@ == spec_ser_header(w.header) + spec_ser_texs(w.entries) + spec_ser_dirs(
                    w.entries.take(i as int),
                ),
            decreases n - i,
        {
            let dv = self.entries[i].dir_entry.to_vec();
            push_bytes(&mut r, &dv);
            proof {
                assert(w.entries.take(i + 1).drop_last() =~= w.entries.take(i as int));
                assert(w.entries.take(i + 1).last() == w.entries[i as int]);
                assert(r@ =~= spec_ser_header(w.header) + spec_ser_texs(w.entries) + spec_ser_dirs(
                    w.entries.take(i + 1),
                ));
            }
            i = i + 1;
        }
        proof {
            assert(w.entries.take(n as int) =~= w.entries);
        }
        r
    }
}

// ---------------------------------------------------------------------------
// Re-addressing (regenerate)
// ---------------------------------------------------------------------------

/// File offset of entry `i`'s texture payload after re-addressing: the
/// 12-byte header plus every earlier payload.
pub open spec fn spec_entry_offset(es: Seq<EntryPairView>, i: int) -> int
    decreases i,
{
    if i <= 0 {
        12
    } else {
        spec_entry_offset(es, i - 1) + spec_tex_size(es[i - 1].texture)
    }
}

/// Entry `i` after re-addressing: fresh offset and sizes, name and texture kept.
pub open spec fn spec_regen_entry(e: EntryPairView, off: int) -> EntryPairView {
    EntryPairView {
        dir_entry: DirectoryEntryView {
            file_pos: off as u32,
            disk_size: spec_tex_size(e.texture) as u32,
            size: spec_tex_size(e.texture) as u32,
            n_type: 0x43,
            compression: 0,
            padding: 0,
            name: e.dir_entry.name,
        },
        texture: e.texture,
    }
}

/// The archive after a full re-addressing pass.
pub open spec fn spec_regen(w: WadFileView) -> WadFileView {
    WadFileView {
        header: WadHeaderView {
            magic: wad_magic(),
            n_dir: w.entries.len() as u32,
            n_dir_offset: spec_entry_offset(w.entries, w.entries.len() as int) as u32,
        },
        entries: Seq::new(
            w.entries.len(),
            |i: int| spec_regen_entry(w.entries[i], spec_entry_offset(w.entries, i)),
        ),
    }
}

/// Every re-addressed offset, including the final directory offset, fits
/// the header's 32-bit fields.
pub open spec fn spec_regen_fits(w: WadFileView) -> bool {
    spec_entry_offset(w.entries, w.entries.len() as int) <= u32::MAX
}

pub proof fn lemma_entry_offset_lower(es: Seq<EntryPairView>, i: int)
    requires
        0 <= i,
    ensures
        spec_entry_offset(es, i) >= 12 + 810 * i,
    decreases i,
{
    if i > 0 {
        lemma_entry_offset_lower(es, i - 1);
    }
}

pub proof fn lemma_entry_offset_mono(es: Seq<EntryPairView>, i: int, j: int)
    requires
        0 <= i <= j,
    ensures
        spec_entry_offset(es, i) <= spec_entry_offset(es, j),
    decreases j,
{
    if i < j {
        lemma_entry_offset_mono(es, i, j - 1);
    }
}

/// Offsets depend only on the textures, not on the directory records.
pub proof fn lemma_entry_offset_textures(es1: Seq<EntryPairView>, es2: Seq<EntryPairView>, i: int)
    requires
        0 <= i <= es1.len(),
        es1.len() == es2.len(),
        forall|j: int| 0 <= j < es1.len() ==> (#[trigger] es1[j]).texture == es2[j].texture,
    ensures
        spec_entry_offset(es1, i) == spec_entry_offset(es2, i),
    decreases i,
{
    if i > 0 {
        lemma_entry_offset_textures(es1, es2, i - 1);
    }
}

/// Re-addressing keeps the model well-formed, keeps its size bound, and is
/// idempotent: a second pass changes nothing.
pub proof fn lemma_regen_idempotent(w: WadFileView)
    requires
        w.wf(),
        spec_regen_fits(w),
    ensures
        spec_regen(w).wf(),
        spec_regen_fits(spec_regen(w)),
        spec_regen(spec_regen(w)) == spec_regen(w),
{
    let w1 = spec_regen(w);
    assert forall|j: int| 0 <= j < w1.entries.len() implies (#[trigger] w1.entries[j]).wf() by {
        assert(w.entries[j].wf());
    }
    lemma_entry_offset_textures(w1.entries, w.entries, w.entries.len() as int);
    let w2 = spec_regen(w1);
    assert forall|i: int| 0 <= i < w1.entries.len() implies #[trigger] w2.entries[i]
        == w1.entries[i] by {
        lemma_entry_offset_textures(w1.entries, w.entries, i);
    }
    assert(w2.entries =~= w1.entries);
    assert(w2 =~= w1);
}

// ---------------------------------------------------------------------------
// Round trip: parsing a serialized archive restores the model
// ---------------------------------------------------------------------------

pub proof fn lemma_ser_header_len(h: WadHeaderView)
    requires
        h.wf(),
    ensures
        spec_ser_header(h).len() == 12,
{
}

pub proof fn lemma_ser_dir_entry_len(e: DirectoryEntryView)
    requires
        e.wf(),
    ensures
        spec_ser_dir_entry(e).len() == 32,
{
}

pub proof fn lemma_ser_tex_header_len(t: TextureHeaderView)
    requires
        t.wf(),
    ensures
        spec_ser_tex_header(t).len() == 40,
{
}

pub proof fn lemma_ser_texture_len(t: TextureView)
    requires
        t.wf(),
    ensures
        spec_ser_texture(t).len() == spec_tex_size(t),
{
    lemma_ser_tex_header_len(t.header);
}

/// A subrange of a subrange, named from the outer sequence.
pub proof fn lemma_subrange_of_subrange(b: Seq<u8>, off: int, len: int, x: int, y: int)
    requires
        0 <= off,
        off + len <= b.len(),
        0 <= x <= y <= len,
    ensures
        b.subrange(off + x, off + y) == b.subrange(off, off + len).subrange(x, y),
{
    assert(b.subrange(off + x, off + y) =~= b.subrange(off, off + len).subrange(x, y));
}

/// A serialized 32-byte directory record parses back to the record.
pub proof fn lemma_parse_ser_dir_entry(b: Seq<u8>, off: int, e: DirectoryEntryView)
    requires
        e.wf(),
        0 <= off,
        off + 32 <= b.len(),
        b.subrange(off, off + 32) == spec_ser_dir_entry(e),
    ensures
        spec_parse_dir_entry(b, off) == e,
{
    let s = spec_ser_dir_entry(e);
    assert(s.subrange(0, 4) =~= le_of_u32(e.file_pos));
    assert(s.subrange(4, 8) =~= le_of_u32(e.disk_size));
    assert(s.subrange(8, 12) =~= le_of_u32(e.size));
    assert(s[12] == e.n_type && s[13] == e.compression);
    assert(s.subrange(14, 16) =~= le_of_u16(e.padding));
    assert(s.subrange(16, 32) =~= e.name);
    lemma_subrange_of_subrange(b, off, 32, 0, 4);
    lemma_subrange_of_subrange(b, off, 32, 4, 8);
    lemma_subrange_of_subrange(b, off, 32, 8, 12);
    lemma_subrange_of_subrange(b, off, 32, 14, 16);
    lemma_subrange_of_subrange(b, off, 32, 16, 32);
    assert(b.subrange(off, off + 32)[12] == b[off + 12]);
    assert(b.subrange(off, off + 32)[13] == b[off + 13]);
    crate::le::lemma_u32_round_trip(e.file_pos);
    crate::le::lemma_u32_round_trip(e.disk_size);
    crate::le::lemma_u32_round_trip(e.size);
    crate::le::lemma_u16_round_trip(e.padding);
    assert(spec_parse_dir_entry(b, off) =~= e);
}

/// A serialized 40-byte texture header parses back to the header.
pub proof fn lemma_parse_ser_tex_header(b: Seq<u8>, off: int, t: TextureHeaderView)
    requires
        t.wf(),
        0 <= off,
        off + 40 <= b.len(),
        b.subrange(off, off + 40) == spec_ser_tex_header(t),
    ensures
        spec_parse_tex_header(b, off) == t,
{
    let s = spec_ser_tex_header(t);
    assert(s.subrange(0, 16) =~= t.name);
    assert(s.subrange(16, 20) =~= le_of_u32(t.width));
    assert(s.subrange(20, 24) =~= le_of_u32(t.height));
    assert(s.subrange(24, 28) =~= le_of_u32(t.mip_offsets[0]));
    assert(s.subrange(28, 32) =~= le_of_u32(t.mip_offsets[1]));
    assert(s.subrange(32, 36) =~= le_of_u32(t.mip_offsets[2]));
    assert(s.subrange(36, 40) =~= le_of_u32(t.mip_offsets[3]));
    lemma_subrange_of_subrange(b, off, 40, 0, 16);
    lemma_subrange_of_subrange(b, off, 40, 16, 20);
    lemma_subrange_of_subrange(b, off, 40, 20, 24);
    lemma_subrange_of_subrange(b, off, 40, 24, 28);
    lemma_subrange_of_subrange(b, off, 40, 28, 32);
    lemma_subrange_of_subrange(b, off, 40, 32, 36);
    lemma_subrange_of_subrange(b, off, 40, 36, 40);
    crate::le::lemma_u32_round_trip(t.width);
    crate::le::lemma_u32_round_trip(t.height);
    crate::le::lemma_u32_round_trip(t.mip_offsets[0]);
    crate::le::lemma_u32_round_trip(t.mip_offsets[1]);
    crate::le::lemma_u32_round_trip(t.mip_offsets[2]);
    crate::le::lemma_u32_round_trip(t.mip_offsets[3]);
    assert(spec_parse_tex_header(b, off).mip_offsets =~= t.mip_offsets);
    assert(spec_parse_tex_header(b, off) =~= t);
}

/// Serialized palette bytes parse back to the palette.
pub proof fn lemma_parse_ser_palette(b: Seq<u8>, off: int, p: Seq<Color>)
    requires
        p.len() == 256,
        0 <= off,
        off + 768 <= b.len(),
        b.subrange(off, off + 768) == spec_ser_palette(p),
    ensures
        spec_parse_palette(b, off) == p,
{
    assert forall|i: int| 0 <= i < 256 implies spec_parse_palette(b, off)[i] == p[i] by {
        lemma_div3(i, 0);
        lemma_div3(i, 1);
        lemma_div3(i, 2);
        assert(b[off + 3 * i] == spec_ser_palette(p)[3 * i]);
        assert(b[off + 3 * i + 1] == spec_ser_palette(p)[3 * i + 1]);
        assert(b[off + 3 * i + 2] == spec_ser_palette(p)[3 * i + 2]);
    }
    assert(spec_parse_palette(b, off) =~= p);
}

/// A serialized texture payload parses back to the texture, given a
/// directory record carrying its re-addressed position and size.
pub proof fn lemma_parse_ser_texture(b: Seq<u8>, e: DirectoryEntryView, t: TextureView)
    requires
        t.wf(),
        spec_entry_bounds_ok(b.len() as int, e),
        e.disk_size == spec_tex_size(t),
        b.subrange(e.file_pos as int, e.file_pos + e.disk_size) == spec_ser_texture(t),
    ensures
        spec_parse_texture(b, e) == t,
{
    let fp = e.file_pos as int;
    let dlen = t.data.len() as int;
    let ps = spec_palette_start(e);
    let s = spec_ser_texture(t);
    let size = e.disk_size as int;
    lemma_ser_tex_header_len(t.header);
    lemma_ser_texture_len(t);
    assert(ps == fp + 40 + dlen);
    assert(s.subrange(0, 40) =~= spec_ser_tex_header(t.header));
    assert(s.subrange(40, 40 + dlen) =~= t.data);
    assert(s.subrange(40 + dlen, 40 + dlen + 768) =~= spec_ser_palette(t.palette));
    lemma_subrange_of_subrange(b, fp, size, 0, 40);
    lemma_subrange_of_subrange(b, fp, size, 40, 40 + dlen);
    lemma_subrange_of_subrange(b, fp, size, 40 + dlen, 40 + dlen + 768);
    assert(b.subrange(fp, fp + 40) == spec_ser_tex_header(t.header));
    lemma_parse_ser_tex_header(b, fp, t.header);
    assert(b.subrange(fp + 40, ps) == t.data);
    assert(b.subrange(ps, ps + 768) == spec_ser_palette(t.palette));
    lemma_parse_ser_palette(b, ps, t.palette);
    assert(spec_parse_texture(b, e) =~= t);
}

pub proof fn lemma_entry_offset_drop_last(es: Seq<EntryPairView>, i: int)
    requires
        0 <= i < es.len(),
    ensures
        spec_entry_offset(es.drop_last(), i) == spec_entry_offset(es, i),
    decreases i,
{
    if i > 0 {
        lemma_entry_offset_drop_last(es, i - 1);
    }
}

pub proof fn lemma_ser_texs_len(es: Seq<EntryPairView>)
    requires
        forall|i: int| 0 <= i < es.len() ==> (#[trigger] es[i]).wf(),
    ensures
        spec_ser_texs(es).len() == spec_entry_offset(es, es.len() as int) - 12,
    decreases es.len(),
{
    if es.len() > 0 {
        let n = es.len() as int;
        assert forall|i: int| 0 <= i < es.drop_last().len() implies (#[trigger] es.drop_last()[i]).wf() by {
            assert(es[i].wf());
        }
        lemma_ser_texs_len(es.drop_last());
        lemma_entry_offset_drop_last(es, n - 1);
        assert(es[n - 1].wf());
        lemma_ser_texture_len(es.last().texture);
    }
}

pub proof fn lemma_ser_dirs_len(es: Seq<EntryPairView>)
    requires
        forall|i: int| 0 <= i < es.len() ==> (#[trigger] es[i]).wf(),
    ensures
        spec_ser_dirs(es).len() == 32 * es.len(),
    decreases es.len(),
{
    if es.len() > 0 {
        let n = es.len() as int;
        assert forall|i: int| 0 <= i < es.drop_last().len() implies (#[trigger] es.drop_last()[i]).wf() by {
            assert(es[i].wf());
        }
        lemma_ser_dirs_len(es.drop_last());
        assert(es[n - 1].wf());
        lemma_ser_dir_entry_len(es.last().dir_entry);
    }
}

/// The right-hand part of a concatenation, cut out by subrange.
pub proof fn lemma_concat_subrange_right(a: Seq<u8>, c: Seq<u8>)
    ensures
        (a + c).subrange(a.len() as int, a.len() + c.len() as int) == c,
{
    assert((a + c).subrange(a.len() as int, a.len() + c.len() as int) =~= c);
}

/// A subrange that stays inside the left part of a concatenation.
pub proof fn lemma_concat_subrange_left(a: Seq<u8>, c: Seq<u8>, x: int, y: int)
    requires
        0 <= x <= y <= a.len(),
    ensures
        (a + c).subrange(x, y) == a.subrange(x, y),
{
    assert((a + c).subrange(x, y) =~= a.subrange(x, y));
}

/// Inside the concatenated payload block, entry `i`'s texture occupies
/// exactly the bytes between its re-addressed offset and the next one.
pub proof fn lemma_ser_texs_segment(es: Seq<EntryPairView>, i: int)
    requires
        forall|j: int| 0 <= j < es.len() ==> (#[trigger] es[j]).wf(),
        0 <= i < es.len(),
    ensures
        spec_ser_texs(es).subrange(
            spec_entry_offset(es, i) - 12,
            spec_entry_offset(es, i + 1) - 12,
        ) == spec_ser_texture(es[i].texture),
    decreases es.len(),
{
    let n = es.len() as int;
    let front = spec_ser_texs(es.drop_last());
    let last = spec_ser_texture(es.last().texture);
    assert forall|j: int| 0 <= j < es.drop_last().len() implies (#[trigger] es.drop_last()[j]).wf() by {
        assert(es[j].wf());
    }
    lemma_ser_texs_len(es.drop_last());
    lemma_entry_offset_drop_last(es, n - 1);
    assert(es[n - 1].wf());
    lemma_ser_texture_len(es.last().texture);
    assert(front.len() == spec_entry_offset(es, n - 1) - 12);
    if i == n - 1 {
        lemma_concat_subrange_right(front, last);
    } else {
        lemma_ser_texs_segment(es.drop_last(), i);
        lemma_entry_offset_drop_last(es, i);
        lemma_entry_offset_drop_last(es, i + 1);
        lemma_entry_offset_mono(es.drop_last(), i + 1, n - 1);
        assert(es[i].wf());
        lemma_ser_texture_len(es[i].texture);
        lemma_entry_offset_lower(es.drop_last(), i);
        lemma_concat_subrange_left(
            front,
            last,
            spec_entry_offset(es, i) - 12,
            spec_entry_offset(es, i + 1) - 12,
        );
    }
}

/// Inside the directory block, entry `i`'s record occupies bytes
/// `32*i .. 32*(i+1)`.
pub proof fn lemma_ser_dirs_segment(es: Seq<EntryPairView>, i: int)
    requires
        forall|j: int| 0 <= j < es.len() ==> (#[trigger] es[j]).wf(),
        0 <= i < es.len(),
    ensures
        spec_ser_dirs(es).subrange(32 * i, 32 * (i + 1)) == spec_ser_dir_entry(es[i].dir_entry),
    decreases es.len(),
{
    let n = es.len() as int;
    lemma_ser_dirs_len(es);
    assert forall|j: int| 0 <= j < es.drop_last().len() implies (#[trigger] es.drop_last()[j]).wf() by {
        assert(es[j].wf());
    }
    lemma_ser_dirs_len(es.drop_last());
    assert(es[i].wf());
    lemma_ser_dir_entry_len(es[i].dir_entry);
    if i == n - 1 {
        assert(spec_ser_dirs(es).subrange(32 * i, 32 * (i + 1)) =~= spec_ser_dir_entry(
            es[i].dir_entry,
        ));
    } else {
        lemma_ser_dirs_segment(es.drop_last(), i);
        assert(spec_ser_dirs(es).subrange(32 * i, 32 * (i + 1)) =~= spec_ser_dirs(
            es.drop_last(),
        ).subrange(32 * i, 32 * (i + 1)));
    }
}

/// The full-archive round trip: after a re-addressing pass, serializing and
/// decoding restores every directory record, texture header, index buffer
/// and palette exactly.
#[verifier::rlimit(100)]
pub proof fn lemma_wad_round_trip(w: WadFileView)
    requires
        w.wf(),
        spec_regen_fits(w),
    ensures
        spec_wad_decodable(spec_ser_wad(spec_regen(w))),
        spec_decode_wad(spec_ser_wad(spec_regen(w))) == spec_regen(w),
{
    lemma_regen_idempotent(w);
    let w1 = spec_regen(w);
    let n = w.entries.len() as int;
    let b = spec_ser_wad(w1);
    lemma_entry_offset_textures(w1.entries, w.entries, n);
    lemma_entry_offset_lower(w.entries, n);
    assert(n <= (u32::MAX - 12) / 810) by {
        assert(12 + 810 * n <= u32::MAX);
    }
    lemma_ser_header_len(w1.header);
    lemma_ser_texs_len(w1.entries);
    lemma_ser_dirs_len(w1.entries);
    let total = spec_entry_offset(w.entries, n);
    assert(spec_entry_offset(w1.entries, n) == total);
    let tlen = total - 12;
    assert(spec_ser_texs(w1.entries).len() == tlen);
    assert(b.len() == 12 + tlen + 32 * n);
    // The header parses back.
    assert(b.subrange(0, 4) =~= wad_magic());
    assert(b.subrange(4, 8) =~= le_of_u32(w1.header.n_dir));
    assert(b.subrange(8, 12) =~= le_of_u32(w1.header.n_dir_offset));
    crate::le::lemma_u32_round_trip(w1.header.n_dir);
    crate::le::lemma_u32_round_trip(w1.header.n_dir_offset);
    let h = spec_parse_header(b);
    assert(h =~= w1.header);
    assert(spec_has_magic(b));
    assert(h.n_dir == n);
    assert(h.n_dir_offset == total);
    assert(h.n_dir_offset + 32 * h.n_dir <= b.len());
    // Each directory record parses back.
    assert forall|i: int| 0 <= i < n implies spec_entry_at(b, h, i) == w1.entries[i].dir_entry
        && spec_entry_bounds_ok(b.len() as int, spec_entry_at(b, h, i)) by {
        lemma_ser_dirs_segment(w1.entries, i);
        let off = spec_dir_entry_off(h, i);
        assert(off == total + 32 * i);
        assert(w1.entries[i].wf());
        lemma_ser_dir_entry_len(w1.entries[i].dir_entry);
        assert(b.subrange(off, off + 32) =~= spec_ser_dirs(w1.entries).subrange(
            32 * i,
            32 * (i + 1),
        ));
        lemma_parse_ser_dir_entry(b, off, w1.entries[i].dir_entry);
        // Bounds: the record points at offsets inside the payload block.
        lemma_entry_offset_textures(w1.entries, w.entries, i);
        lemma_entry_offset_textures(w1.entries, w.entries, i + 1);
        lemma_entry_offset_mono(w.entries, 0, i);
        lemma_entry_offset_mono(w.entries, i + 1, n);
        assert(w1.entries[i].dir_entry.file_pos == spec_entry_offset(w.entries, i));
        assert(w1.entries[i].dir_entry.disk_size == spec_tex_size(w1.entries[i].texture));
    }
    assert(spec_wad_decodable(b));
    // Each texture payload parses back.
    assert forall|i: int| 0 <= i < n implies spec_parse_texture(b, spec_entry_at(b, h, i))
        == w1.entries[i].texture by {
        let e = spec_entry_at(b, h, i);
        assert(e == w1.entries[i].dir_entry);
        lemma_ser_texs_segment(w1.entries, i);
        lemma_entry_offset_textures(w1.entries, w.entries, i);
        lemma_entry_offset_textures(w1.entries, w.entries, i + 1);
        lemma_entry_offset_mono(w.entries, 0, i);
        lemma_entry_offset_mono(w.entries, i + 1, n);
        let fp = e.file_pos as int;
        assert(fp == spec_entry_offset(w1.entries, i));
        assert(w1.entries[i].wf());
        lemma_ser_texture_len(w1.entries[i].texture);
        assert(fp + e.disk_size == spec_entry_offset(w1.entries, i + 1));
        assert(b.subrange(fp, fp + e.disk_size) =~= spec_ser_texs(w1.entries).subrange(
            spec_entry_offset(w1.entries, i) - 12,
            spec_entry_offset(w1.entries, i + 1) - 12,
        ));
        lemma_parse_ser_texture(b, e, w1.entries[i].texture);
    }
    assert(spec_decode_wad(b).entries =~= w1.entries);
    assert(spec_decode_wad(b) =~= w1);
}

impl WadFile {
    /// Walk the entries in order, assigning each directory record the offset
    /// and size its texture will occupy, then point the header at the
    /// directory that follows the last payload.
    pub fn regenerate(&mut self)
        requires
            old(self)@.wf(),
            spec_regen_fits(old(self)@),
        ensures
            final(self)@ == spec_regen(old(self)@),
            final(self)@.wf(),
            spec_regen_fits(final(self)@),
            spec_regen(final(self)@) == final(self)@,
    {
        proof {
            lemma_regen_idempotent(old(self)@);
        }
        let ghost w0 = old(self)@;
        let n = self.entries.len();
        let mut off: u32 = 12;
        let mut i: usize = 0;
        while i < n
            invariant
                i <= n,
                n == self.entries@.len(),
                self@.header == w0.header,
                w0.wf(),
                w0.entries.len() == n,
                spec_regen_fits(w0),
                off == spec_entry_offset(w0.entries, i as int),
                forall|j: int| i <= j < n ==> (#[trigger] self.entries@[j])@ == w0.entries[j],
                forall|j: int|
                    0 <= j < i ==> (#[trigger] self.entries@[j])@ == spec_regen_entry(
                        w0.entries[j],
                        spec_entry_offset(w0.entries, j),
                    ),
            decreases n - i,
        {
            proof {
                lemma_entry_offset_mono(w0.entries, i + 1, n as int);
                assert(spec_entry_offset(w0.entries, i + 1) <= u32::MAX);
                assert((self.entries@[i as int])@ == w0.entries[i as int]);
            }
            let data_len = self.entries[i].texture.data.len();
            proof {
                assert(spec_tex_size(w0.entries[i as int].texture) == 810 + data_len);
            }
            let size = (810u64 + data_len as u64) as u32;
            let name_len = self.entries[i].dir_entry.sz_name.len();
            let name = read_bytes(&self.entries[i].dir_entry.sz_name, 0, name_len);
            proof {
                assert(name@ =~= w0.entries[i as int].dir_entry.name);
            }
            let d = DirectoryEntry {
                n_file_pos: off,
                n_disk_size: size,
                n_size: size,
                n_type: TEXTURE_TYPE_TAG,
                b_compression: 0,
                padding: 0,
                sz_name: name,
            };
            let ghost pre = self.entries@;
            let ghost dv = d@;
            let e = vstd::std_specs::vec::vec_index_mut(&mut self.entries, i);
            e.dir_entry = d;
            proof {
                assert(self.entries@[i as int].dir_entry@ == dv);
                assert(self.entries@[i as int].texture == pre[i as int].texture);
                assert((self.entries@[i as int])@ == spec_regen_entry(
                    w0.entries[i as int],
                    spec_entry_offset(w0.entries, i as int),
                ));
                assert forall|j: int| 0 <= j < n && j != i implies (#[trigger] self.entries@[j])@
                    == pre[j]@ by {
                    assert(self.entries@[j] == pre[j]);
                }
            }
            off = off + size;
            i = i + 1;
        }
        let mut sz_magic: Vec<u8> = Vec::new();
        sz_magic.push(0x57);
        sz_magic.push(0x41);
        sz_magic.push(0x44);
        sz_magic.push(0x33);
        proof {
            assert(sz_magic@ =~= wad_magic());
            lemma_entry_offset_lower(w0.entries, n as int);
        }
        self.header = WadHeader { sz_magic, n_dir: n as u32, n_dir_offset: off };
        proof {
            assert forall|j: int| 0 <= j < n implies self@.entries[j] == spec_regen(w0).entries[j] by {
                assert((self.entries@[j])@ == spec_regen_entry(
                    w0.entries[j],
                    spec_entry_offset(w0.entries, j),
                ));
            }
            assert(self@.entries =~= spec_regen(w0).entries);
            assert(self@ =~= spec_regen(w0));
        }
    }
}

// ---------------------------------------------------------------------------
// Texture replacement (write path)
// ---------------------------------------------------------------------------

/// Total pixels of the four mip levels of a `w` by `h` texture.
pub open spec fn spec_mip_total(w: u32, h: u32) -> int {
    w * h + (w as int / 2) * (h as int / 2) + (w as int / 4) * (h as int / 4) + (w as int / 8) * (
    h as int / 8)
}

impl Texture {
    /// Build an archive texture from a true-color image: generate the
    /// four-level mip chain, quantize all four levels against one shared
    /// 256-color palette, and lay the index buffers out behind running mip
    /// offsets that start at the 40-byte header. The texture name is left
    /// zeroed. Dimensions that are zero or not divisible by 8 are rejected
    /// with `InvalidDimensions`; the same error reports the edge case that
    /// palette generation itself fails.
    pub fn from_image(img: &crate::quant::RgbImage) -> (r: Result<Texture, FormatError>)
        requires
            img.wf(),
            40 + spec_mip_total(img.width, img.height) <= u32::MAX,
            4 * (img.width * img.height) <= usize::MAX,
        ensures
            (img.width == 0 || img.height == 0 || img.width % 8 != 0 || img.height % 8 != 0)
                ==> r == Err::<Texture, FormatError>(FormatError::InvalidDimensions),
            r matches Err(e) ==> e == FormatError::InvalidDimensions,
            r matches Ok(t) ==> {
                &&& img.width % 8 == 0 && img.height % 8 == 0 && img.width >= 8 && img.height >= 8
                &&& t@.wf()
                &&& t@.header.width == img.width
                &&& t@.header.height == img.height
                &&& t@.header.name == Seq::new(16, |i: int| 0u8)
                &&& t@.header.mip_offsets[0] == 40
                &&& t@.header.mip_offsets[1] == 40 + img.width * img.height
                &&& t@.header.mip_offsets[2] == 40 + img.width * img.height + (img.width as int
                    / 2) * (img.height as int / 2)
                &&& t@.header.mip_offsets[3] == 40 + img.width * img.height + (img.width as int
                    / 2) * (img.height as int / 2) + (img.width as int / 4) * (img.height as int
                    / 4)
                &&& t@.data.len() == spec_mip_total(img.width, img.height)
            },
    {
        if img.width == 0 || img.height == 0 || img.width % 8 != 0 || img.height % 8 != 0 {
            return Err(FormatError::InvalidDimensions);
        }
        let mips = crate::quant::gen_mipmaps(img);
        let w = img.width;
        let h = img.height;
        proof {
            assert forall|l: int| 0 <= l < 4 implies 4 * crate::quant::spec_pixels(
                #[trigger] mips@[l],
            ) <= usize::MAX by {
                vstd::arithmetic::mul::lemma_mul_upper_bound(
                    mips@[l].width as int,
                    w as int,
                    mips@[l].height as int,
                    h as int,
                );
            }
            assert(crate::quant::spec_total_pixels(mips@) == spec_mip_total(w, h));
        }
        let pd = match crate::quant::quantize_mips(&mips) {
            Some(pd) => pd,
            None => {
                return Err(FormatError::InvalidDimensions);
            },
        };
        let (palette, data) = pd;
        let px0 = (w as u64) * (h as u64);
        let px1 = ((w / 2) as u64) * ((h / 2) as u64);
        let px2 = ((w / 4) as u64) * ((h / 4) as u64);
        proof {
            assert(px0 == w * h && px1 == (w as int / 2) * (h as int / 2) && px2 == (w as int / 4)
                * (h as int / 4)) by (nonlinear_arith)
                requires
                    px0 == (w as u64) * (h as u64),
                    px1 == ((w / 2) as u64) * ((h / 2) as u64),
                    px2 == ((w / 4) as u64) * ((h / 4) as u64),
            ;
            assert((w as int / 8) * (h as int / 8) >= 0) by (nonlinear_arith);
        }
        let o2 = (40u64 + px0) as u32;
        let o3 = (40u64 + px0 + px1) as u32;
        let o4 = (40u64 + px0 + px1 + px2) as u32;
        let mut mip_offsets: Vec<u32> = Vec::new();
        mip_offsets.push(40);
        mip_offsets.push(o2);
        mip_offsets.push(o3);
        mip_offsets.push(o4);
        let mut sz_name: Vec<u8> = Vec::new();
        let mut k: usize = 0;
        while k < 16
            invariant
                k <= 16,
                sz_name@.len() == k,
                forall|i: int| 0 <= i < k ==> sz_name@[i] == 0u8,
            decreases 16 - k,
        {
            sz_name.push(0);
            k = k + 1;
        }
        proof {
            assert(sz_name@ =~= Seq::new(16, |i: int| 0u8));
        }
        let header = TextureHeader { sz_name, n_width: w, n_height: h, mip_offsets };
        let t = Texture { header, data, palette };
        Ok(t)
    }
}

impl WadFile {
    /// Replace entry `index`'s texture with one built from `img`, keeping
    /// the entry's name in both the directory record and the new texture
    /// header. Directory offsets and sizes go stale; call `regenerate`
    /// before serializing.
    pub fn replace_archive_texture(
        &mut self,
        index: usize,
        img: &crate::quant::RgbImage,
    ) -> (r: Result<(), FormatError>)
        requires
            old(self)@.wf(),
            index < old(self)@.entries.len(),
            img.wf(),
            40 + spec_mip_total(img.width, img.height) <= u32::MAX,
            4 * (img.width * img.height) <= usize::MAX,
        ensures
            final(self)@.wf(),
            final(self)@.header == old(self)@.header,
            final(self)@.entries.len() == old(self)@.entries.len(),
            forall|j: int|
                0 <= j < old(self)@.entries.len() && j != index ==> final(self)@.entries[j] == old(
                    self,
                )@.entries[j],
            final(self)@.entries[index as int].dir_entry == old(self)@.entries[
                index as int
            ].dir_entry,
            (img.width == 0 || img.height == 0 || img.width % 8 != 0 || img.height % 8 != 0)
                ==> r == Err::<(), FormatError>(FormatError::InvalidDimensions),
            r matches Err(e) ==> e == FormatError::InvalidDimensions && final(self)@ == old(
                self,
            )@,
            r matches Ok(u) ==> {
                let t = final(self)@.entries[index as int].texture;
                &&& t.wf()
                &&& t.header.name == old(self)@.entries[index as int].texture.header.name
                &&& t.header.width == img.width
                &&& t.header.height == img.height
                &&& t.data.len() == spec_mip_total(img.width, img.height)
            },
    {
        let new_t = match Texture::from_image(img) {
            Ok(t) => t,
            Err(e) => {
                return Err(e);
            },
        };
        proof {
            assert(self@.entries[index as int].wf());
        }
        let old_name_len = self.entries[index].texture.header.sz_name.len();
        let name = read_bytes(&self.entries[index].texture.header.sz_name, 0, old_name_len);
        let mut new_t = new_t;
        new_t.header.sz_name = name;
        proof {
            assert(new_t@.header.name =~= old(self)@.entries[index as int].texture.header.name);
        }
        let ghost pre = self.entries@;
        let e = vstd::std_specs::vec::vec_index_mut(&mut self.entries, index);
        e.texture = new_t;
        proof {
            assert(forall|j: int|
                0 <= j < pre.len() && j != index ==> self.entries@[j] == pre[j]);
            assert forall|j: int|
                0 <= j < pre.len() && j != index implies #[trigger] self@.entries[j] == old(
                self,
            )@.entries[j] by {
                assert(self.entries@[j] == pre[j]);
            }
            assert(self@.wf()) by {
                assert forall|j: int| 0 <= j < self@.entries.len() implies (
                #[trigger] self@.entries[j]).wf() by {
                    if j != index {
                        assert(old(self)@.entries[j].wf());
                    }
                }
            }
        }
        Ok(())
    }
}

} // verus!

