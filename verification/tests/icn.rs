use ps2_suitcase::bin::{BinReader, BinWriter};
use ps2_suitcase::color::Color;
use ps2_suitcase::icn::{
    decode_rle_texture, parse_icn, AnimationHeader, Frame, ICNHeader, ICNParser, ICNWriter,
    IcnTexture, Key, Normal, Vertex, ICN, UV,
};

fn sample_icon(texture_type: u32, frames: Vec<Frame>) -> ICN {
    let frame_count = frames.len() as u32;
    ICN {
        header: ICNHeader {
            animation_shape_count: 1,
            vertex_count: 3,
            texture_type,
        },
        animation_shapes: vec![vec![
            Vertex::new(1, -2, 3, 4),
            Vertex::new(-100, 200, -300, 400),
            Vertex::new(i16::MIN, i16::MAX, 0, u16::MAX),
        ]],
        normals: vec![
            Normal::new(0, 1, 0, 0),
            Normal::new(1, 0, 0, 0),
            Normal::new(0, 0, -1, 7),
        ],
        uvs: vec![UV::new(0, 0), UV::new(4096, 0), UV::new(0, -4096)],
        colors: vec![
            Color::new(255, 10, 10, 255),
            Color::new(0, 0, 0, 0),
            Color::new(1, 2, 2, 3),
        ],
        texture: IcnTexture {
            pixels: (0..16384u32).map(|i| (i % 65536) as u16).collect(),
        },
        animation_header: AnimationHeader {
            tag: 1,
            frame_length: 1,
            anim_speed: 0x3F80_0000,
            play_offset: 0,
            frame_count,
        },
        frames,
    }
}

#[test]
fn written_icons_read_back_unchanged() {
    let icon = sample_icon(7, Vec::new());
    let bytes = ICNWriter::new(icon).write().expect("writable");
    assert_eq!(bytes.len(), 20 + 3 * 24 + 20 + 32768);
    let parsed = parse_icn(&bytes).expect("parses");
    let expected = sample_icon(7, Vec::new());
    assert_eq!(parsed.header, expected.header);
    assert_eq!(parsed.animation_shapes, expected.animation_shapes);
    assert_eq!(parsed.normals, expected.normals);
    assert_eq!(parsed.uvs, expected.uvs);
    assert_eq!(parsed.colors, expected.colors);
    assert_eq!(parsed.texture.pixels, expected.texture.pixels);
    assert_eq!(parsed.animation_header, expected.animation_header);
    assert!(parsed.frames.is_empty());
}

#[test]
fn frames_come_back_with_a_leading_zero_key() {
    let frames = vec![Frame {
        shape_id: 0,
        keys: vec![Key { time: 1, value: 2 }],
    }];
    let bytes = ICNWriter::new(sample_icon(7, frames)).write().expect("writable");
    let parsed = ICNParser::read(&bytes).expect("parses");
    assert_eq!(parsed.frames.len(), 1);
    assert_eq!(
        parsed.frames[0].keys,
        vec![Key { time: 0, value: 0 }, Key { time: 1, value: 2 }]
    );
}

#[test]
fn compressed_texture_types_cannot_be_written() {
    assert!(ICNWriter::new(sample_icon(8, Vec::new())).write().is_err());
}

#[test]
fn untextured_icons_read_as_white() {
    let bytes = ICNWriter::new(sample_icon(3, Vec::new())).write().expect("writable");
    let parsed = parse_icn(&bytes).expect("parses");
    assert!(parsed.texture.pixels.iter().all(|p| *p == 0xFFFF));
}

#[test]
fn malformed_data_is_rejected() {
    assert!(parse_icn(&[0u8; 10]).is_none());
    let mut bytes = ICNWriter::new(sample_icon(7, Vec::new())).write().expect("writable");
    bytes[0] = 9;
    assert!(parse_icn(&bytes).is_none());
    let bytes = ICNWriter::new(sample_icon(7, Vec::new())).write().expect("writable");
    assert!(parse_icn(&bytes[..bytes.len() - 1]).is_none());
    assert!(ICNParser::read(&bytes[..100]).is_err());
}

#[test]
fn run_length_texture_decoding() {
    // 3 repeats of 0x1234, then 2 literal texels.
    let coded = vec![3u16, 0x1234, 0xFFFE, 7, 8];
    let pixels = decode_rle_texture(&coded);
    assert_eq!(pixels.len(), 16384);
    assert_eq!(&pixels[..5], &[0x1234, 0x1234, 0x1234, 7, 8]);
    assert!(pixels[5..].iter().all(|p| *p == 0));
}

#[test]
fn texture_exports_as_png() {
    let icon = sample_icon(7, Vec::new());
    let rgba = icon.texture_rgba();
    assert_eq!(rgba.len(), 16384 * 4);
    let c = Color::from_u16(icon.texture.pixels[1]);
    assert_eq!(&rgba[4..8], &[c.r, c.g, c.b, c.a]);
    let png = icon.export_png();
    assert_eq!(&png[..8], &[0x89, b'P', b'N', b'G', 0x0D, 0x0A, 0x1A, 0x0A]);
}

#[test]
fn texel_colours() {
    let c = Color::from_u16(0x801F);
    assert_eq!(c, Color::new(255, 0, 0, 255));
    assert_eq!(Color::new(255, 0, 0, 255).to_u16(), 0x801F);
    assert_eq!(Color::white().to_rgba(), [255, 255, 255, 255]);
    assert_eq!(Color::from_u16(1), Color::new(8, 0, 0, 0));
}
