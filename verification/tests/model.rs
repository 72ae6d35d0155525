use hlfiles::hlmdl::{ColorRGB, MdlFile};
use hlfiles::FormatError;
use hlfiles::GuiImage;

fn push_u32(out: &mut Vec<u8>, v: u32) {
    out.extend_from_slice(&v.to_le_bytes());
}

/// A model buffer: 1024-byte header with two texture records right after
/// it, their payloads following the table.
fn small_model() -> Vec<u8> {
    let mut b = vec![0u8; 1024];
    b[0..4].copy_from_slice(b"IDST");
    b[4..8].copy_from_slice(&10i32.to_le_bytes()); // version
    b[8..13].copy_from_slice(b"gordo"); // name, null padded
    b[180..184].copy_from_slice(&2i32.to_le_bytes()); // texture count
    b[184..188].copy_from_slice(&1024i32.to_le_bytes()); // texture table offset
    let payload1 = 1024 + 2 * 80;
    let payload2 = payload1 + 4 * 4 + 768;
    // record 1: 4x4
    let mut rec = Vec::new();
    let mut name = [0u8; 64];
    name[..4].copy_from_slice(b"skin");
    rec.extend_from_slice(&name);
    push_u32(&mut rec, 0); // flags
    push_u32(&mut rec, 4); // width
    push_u32(&mut rec, 4); // height
    push_u32(&mut rec, payload1 as u32);
    b.extend_from_slice(&rec);
    // record 2: 2x2
    let mut rec = Vec::new();
    let mut name = [0u8; 64];
    name[..4].copy_from_slice(b"face");
    rec.extend_from_slice(&name);
    push_u32(&mut rec, 0);
    push_u32(&mut rec, 2);
    push_u32(&mut rec, 2);
    push_u32(&mut rec, payload2 as u32);
    b.extend_from_slice(&rec);
    // payload 1: all indices 1; palette entry 1 = (7, 8, 9)
    b.extend_from_slice(&[1u8; 16]);
    let mut pal = vec![0u8; 768];
    pal[3..6].copy_from_slice(&[7, 8, 9]);
    b.extend_from_slice(&pal);
    // payload 2: all indices 0; palette entry 0 = (1, 2, 3)
    b.extend_from_slice(&[0u8; 4]);
    let mut pal = vec![0u8; 768];
    pal[0..3].copy_from_slice(&[1, 2, 3]);
    b.extend_from_slice(&pal);
    b
}

#[test]
fn model_too_short_is_truncated() {
    let b = vec![0u8; 100];
    assert_eq!(MdlFile::from_bytes(&b), Err(FormatError::Truncated));
}

#[test]
fn model_wrong_magic_is_bad_magic() {
    let mut b = small_model();
    b[0] = b'X';
    assert_eq!(MdlFile::from_bytes(&b), Err(FormatError::BadMagic));
    assert!(!MdlFile::validate_header(&b));
}

#[test]
fn model_decodes_two_textures() {
    let b = small_model();
    assert!(MdlFile::validate_header(&b));
    let m = MdlFile::from_bytes(&b).unwrap();
    assert_eq!(m.header.version, 10);
    assert_eq!(m.header.num_textures, 2);
    assert_eq!(m.textures.len(), 2);
    assert_eq!(&m.header.name[..6], b"gordo\0");
    let t0 = &m.textures[0];
    assert_eq!(&t0.header.name[..5], b"skin\0");
    assert_eq!((t0.header.width, t0.header.height), (4, 4));
    assert_eq!(t0.raw_data, vec![1u8; 16]);
    assert_eq!(t0.palette[1], ColorRGB { r: 7, g: 8, b: 9 });
    let t1 = &m.textures[1];
    assert_eq!(&t1.header.name[..5], b"face\0");
    assert_eq!((t1.header.width, t1.header.height), (2, 2));
    assert_eq!(t1.raw_data, vec![0u8; 4]);
    assert_eq!(t1.palette[0], ColorRGB { r: 1, g: 2, b: 3 });
}

#[test]
fn model_texture_payload_out_of_bounds_is_truncated() {
    let mut b = small_model();
    // record 1's payload offset now points past the end of the buffer
    let huge = (b.len() as u32 + 1).to_le_bytes();
    b[1024 + 76..1024 + 80].copy_from_slice(&huge);
    assert_eq!(MdlFile::from_bytes(&b), Err(FormatError::Truncated));
}

#[test]
fn model_texture_decodes_to_rgb() {
    let b = small_model();
    let m = MdlFile::from_bytes(&b).unwrap();
    let img = m.textures[0].to_rgb_image_vec();
    assert_eq!(img.len(), 4 * 4 * 3);
    for px in img.chunks(3) {
        assert_eq!(px, &[7, 8, 9]);
    }
    let img = m.textures[1].to_rgb_image_vec();
    assert_eq!(img.len(), 2 * 2 * 3);
    for px in img.chunks(3) {
        assert_eq!(px, &[1, 2, 3]);
    }
}
