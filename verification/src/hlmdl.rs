//! Skeletal-model container codec: a fixed 1024-byte header describing
//! bone, sequence and texture sub-tables, of which only the texture
//! sub-table is consumed. Each texture record is 80 bytes (64-byte name
//! plus four 32-bit fields) and points at an absolute payload offset
//! holding `width * height` index bytes followed by a 256-entry palette.

use vstd::prelude::*;

use crate::le::{i32_of_le, lemma_vec_len_fits, read_bytes, read_i32_le, read_u32_le, u32_of_le};
use crate::FormatError;
use crate::GuiImage;

verus! {

pub const MDL_HEADER_SIZE: usize = 1024;

pub const MDL_TEXTURE_HEADER_SIZE: usize = 80;

pub const MDL_TEXTURE_NAME_SIZE: usize = 64;

/// The model signature, the ASCII bytes of `IDST`.
pub open spec fn mdl_magic() -> Seq<u8> {
    seq![0x49u8, 0x44u8, 0x53u8, 0x54u8]
}

// ---------------------------------------------------------------------------
// Data model and views
// ---------------------------------------------------------------------------

#[derive(Debug, Clone, PartialEq)]
pub struct MdlHeader {
    pub id: i32,
    pub version: i32,
    /// 64 bytes, null-padded.
    pub name: Vec<u8>,
    pub data_length: i32,
    pub flags: i32,
    pub num_bones: i32,
    pub bone_index: i32,
    pub num_bone_controllers: i32,
    pub bone_controller_index: i32,
    pub num_hit_boxes: i32,
    pub hit_box_index: i32,
    pub num_seq: i32,
    pub seq_index: i32,
    pub num_seq_groups: i32,
    pub seq_group_index: i32,
    pub num_textures: i32,
    pub texture_index: i32,
    pub texture_data_index: i32,
    pub num_skin_ref: i32,
    pub num_skin_families: i32,
    pub skin_index: i32,
}

#[verifier::ext_equal]
pub ghost struct MdlHeaderView {
    pub id: i32,
    pub version: i32,
    pub name: Seq<u8>,
    pub data_length: i32,
    pub flags: i32,
    pub num_bones: i32,
    pub bone_index: i32,
    pub num_bone_controllers: i32,
    pub bone_controller_index: i32,
    pub num_hit_boxes: i32,
    pub hit_box_index: i32,
    pub num_seq: i32,
    pub seq_index: i32,
    pub num_seq_groups: i32,
    pub seq_group_index: i32,
    pub num_textures: i32,
    pub texture_index: i32,
    pub texture_data_index: i32,
    pub num_skin_ref: i32,
    pub num_skin_families: i32,
    pub skin_index: i32,
}

impl View for MdlHeader {
    type V = MdlHeaderView;

    open spec fn view(&self) -> MdlHeaderView {
        MdlHeaderView {
            id: self.id,
            version: self.version,
            name: self.name@,
            data_length: self.data_length,
            flags: self.flags,
            num_bones: self.num_bones,
            bone_index: self.bone_index,
            num_bone_controllers: self.num_bone_controllers,
            bone_controller_index: self.bone_controller_index,
            num_hit_boxes: self.num_hit_boxes,
            hit_box_index: self.hit_box_index,
            num_seq: self.num_seq,
            seq_index: self.seq_index,
            num_seq_groups: self.num_seq_groups,
            seq_group_index: self.seq_group_index,
            num_textures: self.num_textures,
            texture_index: self.texture_index,
            texture_data_index: self.texture_data_index,
            num_skin_ref: self.num_skin_ref,
            num_skin_families: self.num_skin_families,
            skin_index: self.skin_index,
        }
    }
}

impl MdlHeaderView {
    pub open spec fn wf(self) -> bool {
        self.name.len() == 64
    }
}

/// One RGB palette entry of the model codec.
#[derive(Debug, Clone, Copy, PartialEq, Eq, Structural)]
pub struct ColorRGB {
    pub r: u8,
    pub g: u8,
    pub b: u8,
}

impl ColorRGB {
    pub fn new(r: u8, g: u8, b: u8) -> (c: ColorRGB)
        ensures
            c == (ColorRGB { r, g, b }),
    {
        ColorRGB { r, g, b }
    }
}

#[derive(Debug, Clone, PartialEq)]
pub struct TextureHeader {
    /// 64 bytes, null-padded.
    pub name: Vec<u8>,
    pub flags: u32,
    pub width: u32,
    pub height: u32,
    /// Absolute file offset of the texture's index bytes.
    pub index: u32,
}

#[verifier::ext_equal]
pub ghost struct MdlTexHeaderView {
    pub name: Seq<u8>,
    pub flags: u32,
    pub width: u32,
    pub height: u32,
    pub index: u32,
}

impl View for TextureHeader {
    type V = MdlTexHeaderView;

    open spec fn view(&self) -> MdlTexHeaderView {
        MdlTexHeaderView {
            name: self.name@,
            flags: self.flags,
            width: self.width,
            height: self.height,
            index: self.index,
        }
    }
}

impl MdlTexHeaderView {
    pub open spec fn wf(self) -> bool {
        self.name.len() == 64
    }
}

/// One decoded model texture: header, `width * height` index bytes, and
/// the 256-entry palette stored right after them in the file.
#[derive(Debug, Clone, PartialEq)]
pub struct Texture {
    pub raw_data: Vec<u8>,
    pub palette: Vec<ColorRGB>,
    pub header: TextureHeader,
}

#[verifier::ext_equal]
pub ghost struct MdlTextureView {
    pub raw_data: Seq<u8>,
    pub palette: Seq<ColorRGB>,
    pub header: MdlTexHeaderView,
}

impl View for Texture {
    type V = MdlTextureView;

    open spec fn view(&self) -> MdlTextureView {
        MdlTextureView { raw_data: self.raw_data@, palette: self.palette@, header: self.header@ }
    }
}

impl MdlTextureView {
    pub open spec fn wf(self) -> bool {
        &&& self.header.wf()
        &&& self.palette.len() == 256
        &&& self.raw_data.len() == self.header.width * self.header.height
    }
}

#[derive(Debug, Clone, PartialEq)]
pub struct MdlFile {
    pub header: MdlHeader,
    pub textures: Vec<Texture>,
}

#[verifier::ext_equal]
pub ghost struct MdlFileView {
    pub header: MdlHeaderView,
    pub textures: Seq<MdlTextureView>,
}

impl View for MdlFile {
    type V = MdlFileView;

    open spec fn view(&self) -> MdlFileView {
        MdlFileView {
            header: self.header@,
            textures: Seq::new(self.textures@.len(), |i: int| self.textures@[i]@),
        }
    }
}

impl MdlFileView {
    pub open spec fn wf(self) -> bool {
        &&& self.header.wf()
        &&& forall|i: int| 0 <= i < self.textures.len() ==> (#[trigger] self.textures[i]).wf()
    }
}

// ---------------------------------------------------------------------------
// Parse specification
// ---------------------------------------------------------------------------

pub open spec fn spec_parse_mdl_header(b: Seq<u8>) -> MdlHeaderView
    recommends
        b.len() >= 1024,
{
    MdlHeaderView {
        id: i32_of_le(b.subrange(0, 4)) as i32,
        version: i32_of_le(b.subrange(4, 8)) as i32,
        name: b.subrange(8, 72),
        data_length: i32_of_le(b.subrange(72, 76)) as i32,
        flags: i32_of_le(b.subrange(136, 140)) as i32,
        num_bones: i32_of_le(b.subrange(140, 144)) as i32,
        bone_index: i32_of_le(b.subrange(144, 148)) as i32,
        num_bone_controllers: i32_of_le(b.subrange(148, 152)) as i32,
        bone_controller_index: i32_of_le(b.subrange(152, 156)) as i32,
        num_hit_boxes: i32_of_le(b.subrange(156, 160)) as i32,
        hit_box_index: i32_of_le(b.subrange(160, 164)) as i32,
        num_seq: i32_of_le(b.subrange(164, 168)) as i32,
        seq_index: i32_of_le(b.subrange(168, 172)) as i32,
        num_seq_groups: i32_of_le(b.subrange(172, 176)) as i32,
        seq_group_index: i32_of_le(b.subrange(176, 180)) as i32,
        num_textures: i32_of_le(b.subrange(180, 184)) as i32,
        texture_index: i32_of_le(b.subrange(184, 188)) as i32,
        texture_data_index: i32_of_le(b.subrange(188, 192)) as i32,
        num_skin_ref: i32_of_le(b.subrange(192, 196)) as i32,
        num_skin_families: i32_of_le(b.subrange(196, 200)) as i32,
        skin_index: i32_of_le(b.subrange(200, 204)) as i32,
    }
}

pub open spec fn spec_parse_mdl_tex_header(b: Seq<u8>, off: int) -> MdlTexHeaderView
    recommends
        0 <= off,
        off + 80 <= b.len(),
{
    MdlTexHeaderView {
        name: b.subrange(off, off + 64),
        flags: u32_of_le(b.subrange(off + 64, off + 68)) as u32,
        width: u32_of_le(b.subrange(off + 68, off + 72)) as u32,
        height: u32_of_le(b.subrange(off + 72, off + 76)) as u32,
        index: u32_of_le(b.subrange(off + 76, off + 80)) as u32,
    }
}

pub open spec fn spec_parse_mdl_palette(b: Seq<u8>, off: int) -> Seq<ColorRGB>
    recommends
        0 <= off,
        off + 768 <= b.len(),
{
    Seq::new(
        256,
        |i: int| ColorRGB { r: b[off + 3 * i], g: b[off + 3 * i + 1], b: b[off + 3 * i + 2] },
    )
}

/// The payload of one texture record lies inside the buffer.
pub open spec fn spec_mdl_tex_ok(blen: int, th: MdlTexHeaderView) -> bool {
    th.index + th.width * th.height + 768 <= blen
}

pub open spec fn spec_parse_mdl_texture(b: Seq<u8>, th: MdlTexHeaderView) -> MdlTextureView
    recommends
        spec_mdl_tex_ok(b.len() as int, th),
{
    MdlTextureView {
        raw_data: b.subrange(th.index as int, th.index + th.width * th.height),
        palette: spec_parse_mdl_palette(b, th.index + th.width * th.height),
        header: th,
    }
}

pub open spec fn spec_mdl_tex_header_at(b: Seq<u8>, h: MdlHeaderView, i: int) -> MdlTexHeaderView {
    spec_parse_mdl_tex_header(b, h.texture_index + 80 * i)
}

pub open spec fn spec_mdl_has_magic(b: Seq<u8>) -> bool {
    b.len() >= 1024 && b.subrange(0, 4) == mdl_magic()
}

/// Every check the model decoder performs.
pub open spec fn spec_mdl_decodable(b: Seq<u8>) -> bool {
    &&& spec_mdl_has_magic(b)
    &&& {
        let h = spec_parse_mdl_header(b);
        &&& h.num_textures >= 0
        &&& h.texture_index >= 0
        &&& h.texture_index + 80 * h.num_textures <= b.len()
        &&& forall|i: int|
            0 <= i < h.num_textures ==> spec_mdl_tex_ok(
                b.len() as int,
                #[trigger] spec_mdl_tex_header_at(b, h, i),
            )
    }
}

pub open spec fn spec_decode_mdl(b: Seq<u8>) -> MdlFileView
    recommends
        spec_mdl_decodable(b),
{
    let h = spec_parse_mdl_header(b);
    MdlFileView {
        header: h,
        textures: Seq::new(
            h.num_textures as nat,
            |i: int| spec_parse_mdl_texture(b, spec_mdl_tex_header_at(b, h, i)),
        ),
    }
}

// ---------------------------------------------------------------------------
// Decoding
// ---------------------------------------------------------------------------

impl MdlHeader {
    /// Read the fixed model header fields from the start of the buffer.
    pub fn from_bytes(buf: &Vec<u8>) -> (h: MdlHeader)
        requires
            buf@.len() >= 1024,
        ensures
            h@ == spec_parse_mdl_header(buf@),
            h@.wf(),
    {
        let id = read_i32_le(buf, 0);
        let version = read_i32_le(buf, 4);
        let name = read_bytes(buf, 8, 64);
        let data_length = read_i32_le(buf, 72);
        let flags = read_i32_le(buf, 136);
        let num_bones = read_i32_le(buf, 140);
        let bone_index = read_i32_le(buf, 144);
        let num_bone_controllers = read_i32_le(buf, 148);
        let bone_controller_index = read_i32_le(buf, 152);
        let num_hit_boxes = read_i32_le(buf, 156);
        let hit_box_index = read_i32_le(buf, 160);
        let num_seq = read_i32_le(buf, 164);
        let seq_index = read_i32_le(buf, 168);
        let num_seq_groups = read_i32_le(buf, 172);
        let seq_group_index = read_i32_le(buf, 176);
        let num_textures = read_i32_le(buf, 180);
        let texture_index = read_i32_le(buf, 184);
        let texture_data_index = read_i32_le(buf, 188);
        let num_skin_ref = read_i32_le(buf, 192);
        let num_skin_families = read_i32_le(buf, 196);
        let skin_index = read_i32_le(buf, 200);
        MdlHeader {
            id,
            version,
            name,
            data_length,
            flags,
            num_bones,
            bone_index,
            num_bone_controllers,
            bone_controller_index,
            num_hit_boxes,
            hit_box_index,
            num_seq,
            seq_index,
            num_seq_groups,
            seq_group_index,
            num_textures,
            texture_index,
            texture_data_index,
            num_skin_ref,
            num_skin_families,
            skin_index,
        }
    }
}

impl TextureHeader {
    /// Read one 80-byte texture record at `off`.
    pub fn from_reader(buf: &Vec<u8>, off: usize) -> (t: TextureHeader)
        requires
            off + 80 <= buf@.len(),
        ensures
            t@ == spec_parse_mdl_tex_header(buf@, off as int),
            t@.wf(),
    {
        proof {
            lemma_vec_len_fits(buf);
        }
        let name = read_bytes(buf, off, 64);
        let flags = read_u32_le(buf, off + 64);
        let width = read_u32_le(buf, off + 68);
        let height = read_u32_le(buf, off + 72);
        let index = read_u32_le(buf, off + 76);
        TextureHeader { name, flags, width, height, index }
    }
}

/// Read the 256-entry RGB palette starting at `off`.
fn read_mdl_palette(buf: &Vec<u8>, off: usize) -> (p: Vec<ColorRGB>)
    requires
        off + 768 <= buf@.len(),
    ensures
        p@ == spec_parse_mdl_palette(buf@, off as int),
{
    proof {
        lemma_vec_len_fits(buf);
    }
    let mut p: Vec<ColorRGB> = Vec::new();
    let mut k: usize = 0;
    while k < 256
        invariant
            k <= 256,
            off + 768 <= buf@.len(),
            buf@.len() <= usize::MAX,
            p@.len() == k,
            forall|j: int|
                0 <= j < k ==> p@[j] == (ColorRGB {
                    r: buf@[off + 3 * j],
                    g: buf@[off + 3 * j + 1],
                    b: buf@[off + 3 * j + 2],
                }),
        decreases 256 - k,
    {
        p.push(
            ColorRGB { r: buf[off + 3 * k], g: buf[off + 3 * k + 1], b: buf[off + 3 * k + 2] },
        );
        k = k + 1;
    }
    proof {
        assert(p@ =~= spec_parse_mdl_palette(buf@, off as int));
    }
    p
}

impl Texture {
    /// Decode the payload that `header` locates: `width * height` index
    /// bytes at the absolute offset `header.index`, then the palette.
    pub fn from_reader(buf: &Vec<u8>, header: TextureHeader) -> (r: Result<Texture, FormatError>)
        requires
            header@.wf(),
        ensures
            r is Ok <==> spec_mdl_tex_ok(buf@.len() as int, header@),
            r matches Ok(t) ==> t@ == spec_parse_mdl_texture(buf@, header@) && t@.wf(),
            r matches Err(e) ==> e == FormatError::Truncated,
    {
        proof {
            lemma_vec_len_fits(buf);
        }
        proof {
            assert((header.width as int) * (header.height as int) <= 0xFFFF_FFFFint
                * 0xFFFF_FFFFint) by (nonlinear_arith)
                requires
                    header.width <= 0xFFFF_FFFFu32,
                    header.height <= 0xFFFF_FFFFu32,
            ;
        }
        let px64 = (header.width as u64) * (header.height as u64);
        proof {
            assert(px64 == header@.width * header@.height) by (nonlinear_arith)
                requires
                    px64 == (header.width as u64) * (header.height as u64),
                    header.width == header@.width,
                    header.height == header@.height,
            ;
        }
        if (header.index as u64) + px64 + 768u64 > buf.len() as u64 {
            return Err(FormatError::Truncated);
        }
        let index = header.index as usize;
        let px = px64 as usize;
        let raw_data = read_bytes(buf, index, px);
        let palette = read_mdl_palette(buf, index + px);
        Ok(Texture { raw_data, palette, header })
    }
}

impl MdlFile {
    /// True exactly when the buffer is long enough for the fixed header and
    /// starts with the model signature.
    pub fn validate_header(buf: &Vec<u8>) -> (r: bool)
        ensures
            r == spec_mdl_has_magic(buf@),
    {
        proof {
            lemma_vec_len_fits(buf);
        }
        if buf.len() < MDL_HEADER_SIZE {
            return false;
        }
        let ok = buf[0] == 0x49 && buf[1] == 0x44 && buf[2] == 0x53 && buf[3] == 0x54;
        proof {
            if ok {
                assert(buf@.subrange(0, 4) =~= mdl_magic());
            } else {
                assert(buf@.subrange(0, 4) != mdl_magic()) by {
                    if buf@.subrange(0, 4) == mdl_magic() {
                        assert(buf@.subrange(0, 4)[0] == 0x49u8);
                        assert(buf@.subrange(0, 4)[1] == 0x44u8);
                        assert(buf@.subrange(0, 4)[2] == 0x53u8);
                        assert(buf@.subrange(0, 4)[3] == 0x54u8);
                    }
                }
            }
        }
        ok
    }

    /// Decode a whole model file: header, then the texture sub-table.
    /// `Ok` exactly when the header, table and every payload lie inside
    /// the buffer; no partial model is returned.
    pub fn from_bytes(buf: &Vec<u8>) -> (r: Result<MdlFile, FormatError>)
        ensures
            r is Ok <==> spec_mdl_decodable(buf@),
            r matches Ok(m) ==> m@ == spec_decode_mdl(buf@) && m@.wf(),
            r == Err::<MdlFile, FormatError>(FormatError::BadMagic) <==> (buf@.len() >= 1024
                && !spec_mdl_has_magic(buf@)),
            r == Err::<MdlFile, FormatError>(FormatError::Truncated) <==> (buf@.len() < 1024 || (
            spec_mdl_has_magic(buf@) && !spec_mdl_decodable(buf@))),
    {
        proof {
            lemma_vec_len_fits(buf);
        }
        if buf.len() < MDL_HEADER_SIZE {
            return Err(FormatError::Truncated);
        }
        if !Self::validate_header(buf) {
            return Err(FormatError::BadMagic);
        }
        let header = MdlHeader::from_bytes(buf);
        let ghost h = spec_parse_mdl_header(buf@);
        if header.num_textures < 0 || header.texture_index < 0 {
            return Err(FormatError::Truncated);
        }
        if (header.texture_index as u64) + 80u64 * (header.num_textures as u64) > buf.len()
            as u64 {
            return Err(FormatError::Truncated);
        }
        let n = header.num_textures as usize;
        let table = header.texture_index as usize;
        let mut textures: Vec<Texture> = Vec::new();
        let mut i: usize = 0;
        while i < n
            invariant
                i <= n,
                n == h.num_textures,
                table == h.texture_index,
                spec_mdl_has_magic(buf@),
                h == spec_parse_mdl_header(buf@),
                h.num_textures >= 0,
                h.texture_index >= 0,
                h.texture_index + 80 * h.num_textures <= buf@.len(),
                buf@.len() <= usize::MAX,
                textures@.len() == i,
                forall|j: int|
                    0 <= j < i ==> spec_mdl_tex_ok(
                        buf@.len() as int,
                        #[trigger] spec_mdl_tex_header_at(buf@, h, j),
                    ),
                forall|j: int|
                    0 <= j < i ==> (#[trigger] textures@[j])@ == spec_parse_mdl_texture(
                        buf@,
                        spec_mdl_tex_header_at(buf@, h, j),
                    ) && textures@[j]@.wf(),
            decreases n - i,
        {
            let th = TextureHeader::from_reader(buf, table + 80 * i);
            match Texture::from_reader(buf, th) {
                Ok(t) => {
                    textures.push(t);
                },
                Err(_) => {
                    proof {
                        assert(!spec_mdl_tex_ok(
                            buf@.len() as int,
                            spec_mdl_tex_header_at(buf@, h, i as int),
                        ));
                    }
                    return Err(FormatError::Truncated);
                },
            }
            i = i + 1;
        }
        let m = MdlFile { header, textures };
        proof {
            assert(spec_mdl_decodable(buf@));
            assert(m@.textures =~= spec_decode_mdl(buf@).textures);
            assert(m@ =~= spec_decode_mdl(buf@));
        }
        Ok(m)
    }
}

// ---------------------------------------------------------------------------
// Indexed-color image decoding
// ---------------------------------------------------------------------------

/// RGB expansion of `n` palette indices, the model codec's own palette type.
pub open spec fn spec_mdl_indexed_rgb(data: Seq<u8>, palette: Seq<ColorRGB>, n: int) -> Seq<u8>
    recommends
        0 <= n <= data.len(),
        palette.len() == 256,
{
    Seq::new(
        (3 * n) as nat,
        |i: int|
            {
                let c = palette[data[i / 3] as int];
                if i % 3 == 0 {
                    c.r
                } else if i % 3 == 1 {
                    c.g
                } else {
                    c.b
                }
            },
    )
}

impl GuiImage for Texture {
    open spec fn gui_wf(&self) -> bool {
        self@.wf() && 3 * self@.header.width * self@.header.height <= usize::MAX
    }

    open spec fn gui_rgb(&self) -> Seq<u8> {
        spec_mdl_indexed_rgb(
            self@.raw_data,
            self@.palette,
            self@.header.width * self@.header.height,
        )
    }

    fn to_rgb_image_vec(&self) -> (r: Vec<u8>) {
        proof {
            lemma_vec_len_fits(&self.raw_data);
        }
        let pc64 = (self.header.width as u64) * (self.header.height as u64);
        proof {
            assert(pc64 == self@.header.width * self@.header.height) by (nonlinear_arith)
                requires
                    pc64 == (self.header.width as u64) * (self.header.height as u64),
                    self.header.width == self@.header.width,
                    self.header.height == self@.header.height,
            ;
            assert(3 * (self@.header.width as int) * (self@.header.height as int) == 3 * (
            self@.header.width * self@.header.height)) by (nonlinear_arith);
        }
        let pc = pc64 as usize;
        let mut r: Vec<u8> = Vec::new();
        let mut k: usize = 0;
        while k < pc
            invariant
                0 <= k <= pc,
                pc == self@.raw_data.len(),
                3 * pc <= usize::MAX,
                self.palette@.len() == 256,
                r@.len() == 3 * k,
                forall|j: int|
                    0 <= j < 3 * k ==> r@[j] == spec_mdl_indexed_rgb(
                        self@.raw_data,
                        self@.palette,
                        pc as int,
                    )[j],
            decreases pc - k,
        {
            let idx = self.raw_data[k];
            let c = self.palette[idx as usize];
            r.push(c.r);
            r.push(c.g);
            r.push(c.b);
            proof {
                crate::hlwad::lemma_div3(k as int, 0);
                crate::hlwad::lemma_div3(k as int, 1);
                crate::hlwad::lemma_div3(k as int, 2);
            }
            k = k + 1;
        }
        proof {
            assert(r@ =~= spec_mdl_indexed_rgb(self@.raw_data, self@.palette, pc as int));
        }
        r
    }
}

} // verus!
