use hlfiles::hlwad::{Texture, WadFile, MIPMAP_LEVEL};
use hlfiles::quant::{gen_mipmaps, quantize_mips, rgb_to_rgba, RgbImage};
use hlfiles::FormatError;

/// A 128x128 image of four solid color quadrants.
fn test_image() -> RgbImage {
    let mut pixels = Vec::with_capacity(128 * 128 * 3);
    for y in 0..128u32 {
        for x in 0..128u32 {
            let c: [u8; 3] = match (x < 64, y < 64) {
                (true, true) => [255, 0, 0],
                (false, true) => [0, 255, 0],
                (true, false) => [0, 0, 255],
                (false, false) => [255, 255, 0],
            };
            pixels.extend_from_slice(&c);
        }
    }
    RgbImage { width: 128, height: 128, pixels }
}

#[test]
fn rgba_widening_inserts_opaque_alpha() {
    let rgb = vec![1u8, 2, 3, 4, 5, 6];
    let rgba = rgb_to_rgba(&rgb);
    assert_eq!(rgba, vec![1, 2, 3, 255, 4, 5, 6, 255]);
}

#[test]
fn mip_chain_has_half_sizes() {
    let img = test_image();
    let mips = gen_mipmaps(&img);
    assert_eq!(mips.len(), 4);
    let dims: Vec<(u32, u32)> = mips.iter().map(|m| (m.width, m.height)).collect();
    assert_eq!(dims, vec![(128, 128), (64, 64), (32, 32), (16, 16)]);
    for m in &mips {
        assert_eq!(m.pixels.len() as u32, 3 * m.width * m.height);
    }
    assert_eq!(mips[0].pixels, img.pixels);
}

#[test]
fn quantize_concatenates_all_levels() {
    let img = test_image();
    let mips = gen_mipmaps(&img);
    let (palette, indices) = quantize_mips(&mips).unwrap();
    assert_eq!(palette.len(), 256);
    assert_eq!(indices.len(), 128 * 128 + 64 * 64 + 32 * 32 + 16 * 16);
}

#[test]
fn from_image_lays_out_mip_offsets() {
    let img = test_image();
    let t = Texture::from_image(&img).unwrap();
    assert_eq!(t.header.n_width, 128);
    assert_eq!(t.header.n_height, 128);
    assert_eq!(
        t.header.mip_offsets,
        vec![40, 40 + 16384, 40 + 16384 + 4096, 40 + 16384 + 4096 + 1024]
    );
    assert_eq!(t.data.len(), 16384 + 4096 + 1024 + 256);
    assert_eq!(t.palette.len(), 256);
    assert_eq!(t.header.sz_name, vec![0u8; 16]);
}

#[test]
fn from_image_rejects_bad_dimensions() {
    let img = RgbImage { width: 100, height: 100, pixels: vec![0; 100 * 100 * 3] };
    assert_eq!(Texture::from_image(&img), Err(FormatError::InvalidDimensions));
    let img = RgbImage { width: 0, height: 0, pixels: vec![] };
    assert_eq!(Texture::from_image(&img), Err(FormatError::InvalidDimensions));
}

fn push_u32(out: &mut Vec<u8>, v: u32) {
    out.extend_from_slice(&v.to_le_bytes());
}

fn push_u16(out: &mut Vec<u8>, v: u16) {
    out.extend_from_slice(&v.to_le_bytes());
}

/// A one-texture archive holding an 8x8 texture.
fn small_archive() -> Vec<u8> {
    let mut payload = Vec::new();
    let mut n = [0u8; 16];
    n[..5].copy_from_slice(b"brick");
    payload.extend_from_slice(&n);
    push_u32(&mut payload, 8);
    push_u32(&mut payload, 8);
    for off in [40u32, 104, 120, 124] {
        push_u32(&mut payload, off);
    }
    payload.extend_from_slice(&[0u8; 85]);
    payload.extend_from_slice(&[0u8; 768]);
    payload.push(0);
    payload.push(0);
    let mut b = Vec::new();
    b.extend_from_slice(b"WAD3");
    push_u32(&mut b, 1);
    push_u32(&mut b, 12 + payload.len() as u32);
    b.extend_from_slice(&payload);
    push_u32(&mut b, 12);
    push_u32(&mut b, payload.len() as u32);
    push_u32(&mut b, payload.len() as u32);
    b.push(0x43);
    b.push(0);
    push_u16(&mut b, 0);
    b.extend_from_slice(&n);
    b
}

#[test]
fn replace_texture_keeps_name_and_resizes_mips() {
    let b = small_archive();
    let mut w = WadFile::from_bytes(&b).unwrap();
    let img = test_image();
    w.replace_archive_texture(0, &img).unwrap();
    w.regenerate();
    let t = &w.entries[0].texture;
    assert_eq!(&t.header.sz_name[..5], b"brick");
    assert_eq!((t.header.n_width, t.header.n_height), (128, 128));
    // the four levels are 128x128, 64x64, 32x32 and 16x16
    assert_eq!(
        t.header.mip_offsets,
        vec![40, 40 + 128 * 128, 40 + 128 * 128 + 64 * 64, 40 + 128 * 128 + 64 * 64 + 32 * 32]
    );
    assert_eq!(t.data.len(), 128 * 128 + 64 * 64 + 32 * 32 + 16 * 16);
    let e = &w.entries[0].dir_entry;
    assert_eq!(e.n_disk_size, (40 + t.data.len() + 768 + 2) as u32);
    assert_eq!(e.n_file_pos, 12);
    // decodes again after serialization
    let out = w.to_bytes();
    let w2 = WadFile::from_bytes(&out).unwrap();
    assert_eq!(w2.entries[0].texture.data, w.entries[0].texture.data);
    // a mip image of the replaced texture has the right size
    let img1 = w.entries[0].texture.to_rgb_image_vec(MIPMAP_LEVEL::LEVEL1);
    assert_eq!(img1.len(), 64 * 64 * 3);
}
