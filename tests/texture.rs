use shaderpixel::texture::{plan_mips, MipBlit, TextureData, TextureError};

fn png(width: u32, height: u32, pixels: Vec<u8>) -> Vec<u8> {
    let img = image::RgbaImage::from_raw(width, height, pixels).unwrap();
    let mut out = std::io::Cursor::new(Vec::new());
    img.write_to(&mut out, image::ImageFormat::Png).unwrap();
    out.into_inner()
}

#[test]
fn decode_flips_rows_and_plans_mips() {
    let top = [1u8, 2, 3, 255, 4, 5, 6, 255];
    let bottom = [7u8, 8, 9, 255, 10, 11, 12, 255];
    let bytes = png(2, 2, [top, bottom].concat());
    let t = TextureData::decode(&bytes).expect("decodes");
    assert_eq!((t.width, t.height), (2, 2));
    assert_eq!(t.pixels, [bottom, top].concat());
    assert_eq!(t.mip_levels, 2);
    assert_eq!(t.blits, vec![MipBlit { level: 1, src_width: 2, src_height: 2, dst_width: 1, dst_height: 1 }]);
}

#[test]
fn decode_rejects_garbage() {
    assert!(matches!(TextureData::decode(b"not an image"), Err(TextureError::Decode(_))));
}

#[test]
fn from_rgba_checks_pixel_count() {
    assert!(matches!(TextureData::from_rgba(2, 2, vec![0; 15]), Err(TextureError::PixelCount)));
    let t = TextureData::from_rgba(1, 1, vec![1, 2, 3, 4]).unwrap();
    assert_eq!(t.mip_levels, 1);
    assert!(t.blits.is_empty());
}

#[test]
fn mip_chain_uses_smaller_side() {
    let (levels, blits) = plan_mips(4, 8);
    assert_eq!(levels, 3);
    assert_eq!(blits, vec![
        MipBlit { level: 1, src_width: 4, src_height: 8, dst_width: 2, dst_height: 4 },
        MipBlit { level: 2, src_width: 2, src_height: 4, dst_width: 1, dst_height: 2 },
    ]);
    assert_eq!(plan_mips(1024, 768).0, 10);
    assert_eq!(plan_mips(0, 16).0, 0);
    assert!(plan_mips(0, 16).1.is_empty());
}
