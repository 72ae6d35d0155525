use hlfiles::hlwad::{Color, DirectoryEntry, Texture, TextureHeader, WadFile, MIPMAP_LEVEL};
use hlfiles::FormatError;

fn push_u32(out: &mut Vec<u8>, v: u32) {
    out.extend_from_slice(&v.to_le_bytes());
}

fn push_u16(out: &mut Vec<u8>, v: u16) {
    out.extend_from_slice(&v.to_le_bytes());
}

/// A texture payload for an 8x8 texture whose index bytes are all `index_fill`
/// and whose palette entry 0 is (10, 20, 30).
fn texture_payload(name: &[u8], index_fill: u8) -> Vec<u8> {
    let mut p = Vec::new();
    let mut n = [0u8; 16];
    n[..name.len()].copy_from_slice(name);
    p.extend_from_slice(&n);
    push_u32(&mut p, 8); // width
    push_u32(&mut p, 8); // height
    let pixels = [64u32, 16, 4, 1];
    let mut off = 40u32;
    for px in pixels {
        push_u32(&mut p, off);
        off += px;
    }
    p.extend_from_slice(&vec![index_fill; 64 + 16 + 4 + 1]);
    // palette: entry 0 = (10, 20, 30), the rest grey ramps
    p.extend_from_slice(&[10, 20, 30]);
    for i in 1..256u32 {
        let v = (i % 256) as u8;
        p.extend_from_slice(&[v, v, v]);
    }
    p.push(0);
    p.push(0);
    p
}

/// One-texture archive: header, payload, then the directory.
fn small_archive() -> Vec<u8> {
    let payload = texture_payload(b"brick", 0);
    let mut b = Vec::new();
    b.extend_from_slice(b"WAD3");
    push_u32(&mut b, 1); // entry count
    push_u32(&mut b, 12 + payload.len() as u32); // directory offset
    b.extend_from_slice(&payload);
    // directory entry
    push_u32(&mut b, 12); // file_pos
    push_u32(&mut b, payload.len() as u32); // disk size
    push_u32(&mut b, payload.len() as u32); // size
    b.push(0x43);
    b.push(0);
    push_u16(&mut b, 0);
    let mut n = [0u8; 16];
    n[..5].copy_from_slice(b"brick");
    b.extend_from_slice(&n);
    b
}

#[test]
fn it_works() {
    println!("ass");
}

#[test]
fn read_header() {
}

#[test]
fn short_buffer_is_truncated() {
    let buf: Vec<u8> = vec![0x57, 0x41, 0x44, 0x33, 0, 0];
    assert_eq!(WadFile::from_bytes(&buf), Err(FormatError::Truncated));
}

#[test]
fn wrong_magic_is_bad_magic() {
    let mut b = small_archive();
    b[0] = b'X';
    assert_eq!(WadFile::from_bytes(&b), Err(FormatError::BadMagic));
    assert!(!WadFile::validate_header(&b));
}

#[test]
fn validate_header_accepts_magic() {
    let b = small_archive();
    assert!(WadFile::validate_header(&b));
    assert!(!WadFile::validate_header(&vec![0u8; 4]));
}

#[test]
fn decode_small_archive() {
    let b = small_archive();
    let w = WadFile::from_bytes(&b).unwrap();
    assert_eq!(w.header.n_dir, 1);
    assert_eq!(w.entries.len(), 1);
    let e = &w.entries[0];
    assert_eq!(e.dir_entry.name_str(), Some(String::from("brick")));
    assert_eq!(e.texture.header.n_width, 8);
    assert_eq!(e.texture.header.n_height, 8);
    assert_eq!(e.texture.header.mip_offsets, vec![40, 104, 120, 124]);
    assert_eq!(e.texture.data.len(), 64 + 16 + 4 + 1);
    assert_eq!(e.texture.palette.len(), 256);
    assert_eq!(e.texture.palette[0], Color { r: 10, g: 20, b: 30 });
}

#[test]
fn round_trip_restores_archive() {
    let b = small_archive();
    let mut w = WadFile::from_bytes(&b).unwrap();
    w.regenerate();
    let out = w.to_bytes();
    let w2 = WadFile::from_bytes(&out).unwrap();
    assert_eq!(w2.header, w.header);
    assert_eq!(w2.entries.len(), w.entries.len());
    for (a, b) in w.entries.iter().zip(w2.entries.iter()) {
        assert_eq!(a.dir_entry, b.dir_entry);
        assert_eq!(a.texture.header, b.texture.header);
        assert_eq!(a.texture.data, b.texture.data);
        assert_eq!(a.texture.palette, b.texture.palette);
    }
}

#[test]
fn round_trip_restores_two_entry_archive() {
    let p1 = texture_payload(b"brick", 0);
    let p2 = texture_payload(b"lava", 3);
    let mut b = Vec::new();
    b.extend_from_slice(b"WAD3");
    push_u32(&mut b, 2);
    push_u32(&mut b, (12 + p1.len() + p2.len()) as u32);
    b.extend_from_slice(&p1);
    b.extend_from_slice(&p2);
    for (pos, len, name) in [
        (12u32, p1.len() as u32, *b"brick\0\0\0\0\0\0\0\0\0\0\0"),
        (12 + p1.len() as u32, p2.len() as u32, *b"lava\0\0\0\0\0\0\0\0\0\0\0\0"),
    ] {
        push_u32(&mut b, pos);
        push_u32(&mut b, len);
        push_u32(&mut b, len);
        b.push(0x43);
        b.push(0);
        push_u16(&mut b, 0);
        b.extend_from_slice(&name);
    }
    let mut w = WadFile::from_bytes(&b).unwrap();
    assert_eq!(w.entries.len(), 2);
    w.regenerate();
    let out = w.to_bytes();
    assert_eq!(out, b);
    let w2 = WadFile::from_bytes(&out).unwrap();
    assert_eq!(w2.entries[1].dir_entry.name_str(), Some(String::from("lava")));
    assert_eq!(w2.entries[1].texture.data, w.entries[1].texture.data);
    assert_eq!(w2.entries[0].texture.palette, w.entries[0].texture.palette);
}

#[test]
fn regenerate_is_idempotent() {
    let b = small_archive();
    let mut w = WadFile::from_bytes(&b).unwrap();
    w.regenerate();
    let pos1: Vec<(u32, u32)> = w
        .entries
        .iter()
        .map(|e| (e.dir_entry.n_file_pos, e.dir_entry.n_disk_size))
        .collect();
    let hdr1 = w.header.clone();
    w.regenerate();
    let pos2: Vec<(u32, u32)> = w
        .entries
        .iter()
        .map(|e| (e.dir_entry.n_file_pos, e.dir_entry.n_disk_size))
        .collect();
    assert_eq!(pos1, pos2);
    assert_eq!(hdr1, w.header);
}

#[test]
fn compressed_entry_is_rejected() {
    let b = small_archive();
    let dir_off = 12 + texture_payload(b"brick", 0).len();
    let mut b2 = b.clone();
    b2[dir_off + 13] = 1; // compression flag of the first entry
    assert_eq!(WadFile::from_bytes(&b2), Err(FormatError::Truncated));
}

/// A 64x64 texture whose index buffer selects palette entry 0 everywhere.
fn texture_64() -> Texture {
    let mut palette = vec![Color { r: 0, g: 0, b: 0 }; 256];
    palette[0] = Color { r: 10, g: 20, b: 30 };
    Texture {
        header: TextureHeader {
            sz_name: vec![0; 16],
            n_width: 64,
            n_height: 64,
            mip_offsets: vec![40, 40 + 4096, 40 + 4096 + 1024, 40 + 4096 + 1024 + 256],
        },
        data: vec![0; 4096 + 1024 + 256 + 64],
        palette,
    }
}

#[test]
fn mip_image_sizes() {
    let t = texture_64();
    assert_eq!(t.to_rgb_image_vec(MIPMAP_LEVEL::LEVEL0).len(), 64 * 64 * 3);
    assert_eq!(t.to_rgb_image_vec(MIPMAP_LEVEL::LEVEL1).len(), 32 * 32 * 3);
    assert_eq!(t.to_rgb_image_vec(MIPMAP_LEVEL::LEVEL3).len(), 8 * 8 * 3);
}

#[test]
fn palette_lookup_is_consistent() {
    let t = texture_64();
    let img = t.to_rgb_image_vec(MIPMAP_LEVEL::LEVEL0);
    assert_eq!(img.len(), 64 * 64 * 3);
    for px in img.chunks(3) {
        assert_eq!(px, &[10, 20, 30]);
    }
    let colors = t.to_rgb_color_vec();
    assert_eq!(colors.len(), 64 * 64);
    assert!(colors.iter().all(|c| *c == Color { r: 10, g: 20, b: 30 }));
}

#[test]
fn name_str_terminates_at_first_null() {
    let mut name = vec![0u8; 16];
    name[..4].copy_from_slice(b"lava");
    let e = DirectoryEntry {
        n_file_pos: 0,
        n_disk_size: 0,
        n_size: 0,
        n_type: 0x43,
        b_compression: 0,
        padding: 0,
        sz_name: name,
    };
    assert_eq!(e.name_str(), Some(String::from("lava")));
    let e2 = DirectoryEntry { sz_name: vec![b'x'; 16], ..e };
    assert_eq!(e2.name_str(), None);
}

#[test]
fn name_str_decodes_utf8_prefix() {
    // 0xC3 0xA9 is the two-byte UTF-8 encoding of U+00E9
    let mut name = vec![0u8; 16];
    name[0] = 0xC3;
    name[1] = 0xA9;
    let e = DirectoryEntry {
        n_file_pos: 0,
        n_disk_size: 0,
        n_size: 0,
        n_type: 0x43,
        b_compression: 0,
        padding: 0,
        sz_name: name,
    };
    let expected = String::from_utf8(vec![0xC3, 0xA9]).unwrap();
    assert_eq!(e.name_str(), Some(expected));
    // 0xFF alone is not valid UTF-8
    let mut bad = vec![0u8; 16];
    bad[0] = 0xFF;
    let e2 = DirectoryEntry { sz_name: bad, ..e };
    assert_eq!(e2.name_str(), None);
}

#[test]
fn serialized_header_layout() {
    let b = small_archive();
    let w = WadFile::from_bytes(&b).unwrap();
    let hv = w.header.to_vec();
    assert_eq!(&hv[..4], b"WAD3");
    assert_eq!(u32::from_le_bytes(hv[4..8].try_into().unwrap()), 1);
    let dv = w.entries[0].dir_entry.to_vec();
    assert_eq!(dv.len(), 32);
    assert_eq!(u32::from_le_bytes(dv[0..4].try_into().unwrap()), 12);
    assert_eq!(&dv[16..21], b"brick");
}
