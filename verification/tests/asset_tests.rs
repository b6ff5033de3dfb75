use citrii::asset::{
    padded_size, parse_face_config, parse_model, parse_texture, Asset, AttributeMode, RawModel,
    RawTexture, TextureFormat,
};
use citrii::model::{Attribute, AttributeType, VaryingAttribute};
use citrii::texture::WrapMode;
use citrii::ui::ButtonContent;

#[test]
fn padded_sizes() {
    assert_eq!(padded_size(0), 8);
    assert_eq!(padded_size(1), 8);
    assert_eq!(padded_size(8), 8);
    assert_eq!(padded_size(9), 16);
    assert_eq!(padded_size(300), 512);
    assert_eq!(padded_size(65535), 65536);
}

#[test]
fn format_codes() {
    assert!(matches!(TextureFormat::from_code(0), Some(TextureFormat::I4)));
    assert!(matches!(TextureFormat::from_code(11), Some(TextureFormat::RGBA8)));
    assert!(TextureFormat::from_code(12).is_none());
    assert!(matches!(WrapMode::from_code(0), Some(WrapMode::Edge)));
    assert!(WrapMode::from_code(3).is_none());
}

#[test]
fn attribute_modes() {
    assert!(matches!(AttributeMode::from_count(0), AttributeMode::Absent));
    assert!(matches!(AttributeMode::from_count(1), AttributeMode::Common));
    assert!(matches!(AttributeMode::from_count(9), AttributeMode::Individual));
}

fn rgba8_texture() -> RawTexture {
    let mut pixels = vec![0u8; 8 * 8 * 32 / 8];
    pixels[0..8].copy_from_slice(&[1, 2, 3, 4, 5, 6, 7, 8]);
    RawTexture {
        width: 2,
        height: 1,
        format: TextureFormat::RGBA8,
        wrap_u: WrapMode::Edge,
        wrap_v: WrapMode::Repeat,
        pixels,
    }
}

#[test]
fn texture_decode_rgba8_vector() {
    let out = rgba8_texture().decode();
    // One texel pair: bytes swap within each texel, pair order kept.
    assert_eq!(out, vec![4, 3, 2, 1, 8, 7, 6, 5]);
}

#[test]
fn texture_decode_i4_vector() {
    let mut pixels = vec![0u8; 8 * 8 * 4 / 8];
    pixels[0] = 0x2F;
    let tex = RawTexture {
        width: 2,
        height: 1,
        format: TextureFormat::I4,
        wrap_u: WrapMode::Edge,
        wrap_v: WrapMode::Edge,
        pixels,
    };
    // Low nibble first, each replicated to eight bits, alpha opaque.
    assert_eq!(tex.decode(), vec![0xFF, 0xFF, 0xFF, 255, 0x22, 0x22, 0x22, 255]);
}

#[test]
fn texture_decode_is_pure() {
    let a = rgba8_texture().decode();
    let b = rgba8_texture().decode();
    assert_eq!(a, b);
    assert_eq!(a.len(), 2 * 1 * 4);
}

#[test]
fn texture_decode_flips_rows() {
    // Two rows: the bottom source row fills the top output row.
    let mut pixels = vec![0u8; 8 * 8 * 32 / 8];
    // Source texel (0, 0) is white, (0, 1) is black.
    // Row y=1 of the tile sits at interleaved offset ylut[1] = 2, pair 1.
    pixels[0..4].copy_from_slice(&[0xAA, 0xAA, 0xAA, 0xAA]);
    pixels[8..12].copy_from_slice(&[0xBB, 0xBB, 0xBB, 0xBB]);
    let tex = RawTexture {
        width: 1,
        height: 2,
        format: TextureFormat::RGBA8,
        wrap_u: WrapMode::Edge,
        wrap_v: WrapMode::Edge,
        pixels,
    };
    let out = tex.decode();
    assert_eq!(out.len(), 16);
    // Output row 0 comes from source row 1 (offset pair 1), row 1 from row 0.
    assert_eq!(&out[0..4], &[0xBB, 0xBB, 0xBB, 0xBB]);
    assert_eq!(&out[8..12], &[0xAA, 0xAA, 0xAA, 0xAA]);
}

#[test]
fn model_parse_and_bake() {
    // One vertex, a shared normal, no texture coordinates, an index list.
    let bytes: Vec<u8> = vec![
        1, 0, // vertex count
        1, 0, // normal count
        0, 0, // texcoord count
        1, 0, // index list count
        9, 0, 10, 0, 11, 0, // one 6-byte vertex record
        1, 0, 2, 0, 3, 0, // shared normal
        4, 0, // index tag
        3, 0, // index count
        7, 8, 9, // indices
    ];
    let (m, used) = parse_model(&bytes).unwrap();
    assert_eq!(used, bytes.len());
    assert!(matches!(m.normal_mode, AttributeMode::Common));
    assert!(matches!(m.texcoord_mode, AttributeMode::Absent));
    assert_eq!(m.vertex_list, vec![9, 0, 10, 0, 11, 0]);
    assert_eq!(m.default_normal, (1, 2, 3));
    assert_eq!(m.default_texcoord, (0, 0));
    assert_eq!(m.index_list, vec![7, 8, 9]);

    let baked = m.bake();
    assert_eq!(baked.stride, 6);
    assert_eq!(baked.vertex_data, vec![9, 0, 10, 0, 11, 0]);
    assert_eq!(baked.index_data, vec![7, 8, 9]);
    assert_eq!(
        baked.attribute_map,
        vec![
            (
                0,
                Attribute::Varying(VaryingAttribute {
                    dimension: 3,
                    data_type: AttributeType::Short,
                    offset: 0,
                })
            ),
            (1, Attribute::Short3((1, 2, 3))),
        ]
    );
}

#[test]
fn model_parse_rejects_bad_tag() {
    let bytes: Vec<u8> = vec![0, 0, 0, 0, 0, 0, 1, 0, 5, 0, 0, 0];
    assert!(parse_model(&bytes).is_none());
}

#[test]
fn face_config_vector() {
    let mut bytes = vec![0u8; 36];
    bytes[0] = 0x2A;
    bytes[32] = 0x01;
    let c = parse_face_config(&bytes).unwrap();
    assert_eq!(c.hair_pos.0, 0x2A);
    assert_eq!(c.beard_pos.2, 0x01);
    assert!(parse_face_config(&bytes[0..35]).is_none());
}

fn put16(buf: &mut Vec<u8>, v: u16) {
    buf.extend_from_slice(&v.to_le_bytes());
}

fn put32(buf: &mut Vec<u8>, v: u32) {
    buf.extend_from_slice(&v.to_le_bytes());
}

/// A section: its item count, the item-offset table, and the data chunk.
fn section(offsets: &[u32], chunk: &[u8]) -> Vec<u8> {
    let mut s = Vec::new();
    put16(&mut s, (offsets.len() - 1) as u16);
    put16(&mut s, 0);
    for &o in offsets {
        put32(&mut s, o);
    }
    s.extend_from_slice(chunk);
    s
}

/// A container of twenty sections.
fn container(sections: &[Vec<u8>]) -> Vec<u8> {
    assert_eq!(sections.len(), 20);
    let mut buf = Vec::new();
    put16(&mut buf, 20);
    put16(&mut buf, 7); // version
    let mut off = 84u32;
    for s in sections {
        put32(&mut buf, off);
        off += s.len() as u32;
    }
    for s in sections {
        buf.extend_from_slice(s);
    }
    buf
}

/// A stored texture item: an eight-by-eight I4 texture shown as 2x1.
fn i4_item(first_pixel_byte: u8) -> Vec<u8> {
    let mut item = Vec::new();
    put16(&mut item, 2); // width
    put16(&mut item, 1); // height
    item.push(1); // tag
    item.push(0); // format code: I4
    item.push(0); // wrap u
    item.push(0); // wrap v
    let mut pixels = vec![0u8; 8 * 8 * 4 / 8];
    pixels[0] = first_pixel_byte;
    item.extend_from_slice(&pixels);
    item
}

fn empty_section() -> Vec<u8> {
    section(&[0], &[])
}

/// An all-empty container plus one texture section holding a direct item
/// and an item redirecting to it.
fn redirect_container() -> Vec<u8> {
    let mut sections: Vec<Vec<u8>> = (0..20).map(|_| empty_section()).collect();
    let item = i4_item(0x2F);
    let len = item.len() as u32;
    // Item 0 is direct; item 1 redirects to item 0 (one-based index 1).
    sections[9] = section(&[0, (1 << 22) | len, len], &item);
    container(&sections)
}

#[test]
fn empty_container_loads() {
    let sections: Vec<Vec<u8>> = (0..20).map(|_| empty_section()).collect();
    let bytes = container(&sections);
    let asset = Asset::from_bytes(&bytes).unwrap();
    assert_eq!(asset.version, 7);
    assert_eq!(asset.beard_models.len(), 0);
    assert_eq!(asset.nose_textures.len(), 0);
    assert_eq!(asset.face_configs.len(), 0);
}

#[test]
fn empty_items_load_as_empty_slots() {
    let mut sections: Vec<Vec<u8>> = (0..20).map(|_| empty_section()).collect();
    sections[2] = section(&[0, 0], &[]);
    sections[10] = section(&[0, 0, 0], &[]);
    let bytes = container(&sections);
    let asset = Asset::from_bytes(&bytes).unwrap();
    assert_eq!(asset.face_models, vec![None]);
    assert_eq!(asset.face_configs.len(), 1);
    assert!(asset.face_configs[0].is_none());
    assert_eq!(asset.eye_textures, vec![None, None]);
}

#[test]
fn redirect_resolves_to_the_same_bytes() {
    let bytes = redirect_container();
    let asset = Asset::from_bytes(&bytes).unwrap();
    assert_eq!(asset.accessory_textures.len(), 2);
    let direct = asset.accessory_textures[0].as_ref().unwrap();
    let redirected = asset.accessory_textures[1].as_ref().unwrap();
    assert_eq!(direct, redirected);
    assert_eq!(direct.rgba, vec![0xFF, 0xFF, 0xFF, 255, 0x22, 0x22, 0x22, 255]);
}

#[test]
fn truncation_always_fails() {
    let bytes = redirect_container();
    assert!(Asset::from_bytes(&bytes).is_some());
    for cut in 1..=bytes.len() {
        assert!(Asset::from_bytes(&bytes[0..bytes.len() - cut]).is_none());
    }
}

#[test]
fn corrupt_offsets_always_fail() {
    let good = redirect_container();
    // A section offset pointing outside the buffer.
    let mut bad = good.clone();
    bad[4] = 0xFF;
    bad[5] = 0xFF;
    bad[6] = 0xFF;
    bad[7] = 0xFF;
    assert!(Asset::from_bytes(&bad).is_none());
    // A redirect pointing at an item that does not exist.
    let mut bad = good.clone();
    let sec9 = 84 + 9 * 8;
    // item_offsets[1] of section 9: redirect index 5 is out of range.
    let v: u32 = 5 << 22;
    bad[sec9 + 8..sec9 + 12].copy_from_slice(&v.to_le_bytes());
    assert!(Asset::from_bytes(&bad).is_none());
    // A wrong section count.
    let mut bad = good.clone();
    bad[0] = 19;
    assert!(Asset::from_bytes(&bad).is_none());
}

#[test]
fn texture_item_with_trailing_garbage_fails() {
    let mut sections: Vec<Vec<u8>> = (0..20).map(|_| empty_section()).collect();
    let mut item = i4_item(0);
    item.extend_from_slice(&[0, 0, 0, 0]); // four trailing bytes: too many
    let len = item.len() as u32;
    sections[9] = section(&[0, len], &item);
    assert!(Asset::from_bytes(&container(&sections)).is_none());

    let mut sections: Vec<Vec<u8>> = (0..20).map(|_| empty_section()).collect();
    let mut item = i4_item(0);
    item.extend_from_slice(&[0, 0, 0]); // three trailing bytes: tolerated
    let len = item.len() as u32;
    sections[9] = section(&[0, len], &item);
    assert!(Asset::from_bytes(&container(&sections)).is_some());
}

#[test]
fn model_items_in_a_container() {
    let mut sections: Vec<Vec<u8>> = (0..20).map(|_| empty_section()).collect();
    // Section zero: one model with no attributes and no index list.
    let model_item = vec![0u8; 8];
    sections[0] = section(&[0, 8], &model_item);
    let bytes = container(&sections);
    let asset = Asset::from_bytes(&bytes).unwrap();
    assert_eq!(asset.beard_models.len(), 1);
    let m = asset.beard_models[0].as_ref().unwrap();
    assert_eq!(m.stride, 6);
    assert_eq!(m.attribute_map.len(), 1);
    assert_eq!(m.vertex_data.len(), 0);
    assert_eq!(m.index_data.len(), 0);
}

#[test]
fn parse_texture_vector() {
    let item = i4_item(0x2F);
    let (t, used) = parse_texture(&item).unwrap();
    assert_eq!(used, item.len());
    assert_eq!(t.width, 2);
    assert_eq!(t.height, 1);
    assert!(matches!(t.format, TextureFormat::I4));
    assert_eq!(t.pixels.len(), 32);
    // A wrong tag byte is refused.
    let mut bad = item.clone();
    bad[4] = 2;
    assert!(parse_texture(&bad).is_none());
    // An unknown format code is refused.
    let mut bad = item.clone();
    bad[5] = 12;
    assert!(parse_texture(&bad).is_none());
}

#[test]
fn button_content() {
    assert!(matches!(ButtonContent::from_text("hi"), ButtonContent::Text(t) if t == "hi"));
    assert!(
        matches!(ButtonContent::from_image(&[1, 2, 3]), ButtonContent::Image(d) if d == vec![1, 2, 3])
    );
}
