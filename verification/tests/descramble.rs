//! End-to-end tests of the byte-level descrambling pipeline, on synthetic
//! TIFF fixtures carrying an `ImageUniqueID` EXIF field.

use descrambler::descramble_image;
use descrambler::error::DescrambleError;

fn le16(v: u16) -> [u8; 2] {
    v.to_le_bytes()
}

fn le32(v: u32) -> [u8; 4] {
    v.to_le_bytes()
}

fn entry(out: &mut Vec<u8>, tag: u16, typ: u16, count: u32, value: u32) {
    out.extend_from_slice(&le16(tag));
    out.extend_from_slice(&le16(typ));
    out.extend_from_slice(&le32(count));
    out.extend_from_slice(&le32(value));
}

/// A minimal little-endian TIFF: one uncompressed 8-bit grayscale strip and
/// an EXIF IFD holding `ImageUniqueID = unique_id`.
fn build_tiff(width: u32, height: u32, pixels: &[u8], unique_id: &str) -> Vec<u8> {
    assert_eq!(pixels.len(), (width * height) as usize);
    let strip_offset: u32 = 8;
    let n = pixels.len() as u32;
    let ifd0_off = strip_offset + n;
    let exif_off = ifd0_off + 2 + 10 * 12 + 4;
    let uid_off = exif_off + 2 + 12 + 4;
    let mut uid_bytes = unique_id.as_bytes().to_vec();
    uid_bytes.push(0);

    let mut out: Vec<u8> = Vec::new();
    out.extend_from_slice(b"II");
    out.extend_from_slice(&le16(42));
    out.extend_from_slice(&le32(ifd0_off));
    out.extend_from_slice(pixels);

    out.extend_from_slice(&le16(10)); // entry count of IFD0
    entry(&mut out, 0x0100, 4, 1, width); // ImageWidth
    entry(&mut out, 0x0101, 4, 1, height); // ImageLength
    entry(&mut out, 0x0102, 3, 1, 8); // BitsPerSample
    entry(&mut out, 0x0103, 3, 1, 1); // Compression: none
    entry(&mut out, 0x0106, 3, 1, 1); // Photometric: BlackIsZero
    entry(&mut out, 0x0111, 4, 1, strip_offset); // StripOffsets
    entry(&mut out, 0x0115, 3, 1, 1); // SamplesPerPixel
    entry(&mut out, 0x0116, 4, 1, height); // RowsPerStrip
    entry(&mut out, 0x0117, 4, 1, n); // StripByteCounts
    entry(&mut out, 0x8769, 4, 1, exif_off); // Exif IFD pointer
    out.extend_from_slice(&le32(0)); // no next IFD

    out.extend_from_slice(&le16(1)); // entry count of Exif IFD
    if uid_bytes.len() <= 4 {
        let mut v = [0u8; 4];
        v[..uid_bytes.len()].copy_from_slice(&uid_bytes);
        entry(&mut out, 0xa420, 2, uid_bytes.len() as u32, u32::from_le_bytes(v));
        out.extend_from_slice(&le32(0));
    } else {
        entry(&mut out, 0xa420, 2, uid_bytes.len() as u32, uid_off);
        out.extend_from_slice(&le32(0));
        out.extend_from_slice(&uid_bytes);
    }
    out
}

/// Deterministic source pattern.
fn pat(x: u32, y: u32) -> u8 {
    ((x * 7 + y * 13) % 251) as u8
}

fn identity_keys(n: u32) -> String {
    let mut s = String::new();
    for i in 0..n {
        if i > 0 {
            s.push(':');
        }
        s.push_str(&format!("{:x}", i));
    }
    s
}

fn gray_pixels(width: u32, height: u32) -> Vec<u8> {
    let mut pixels = Vec::with_capacity((width * height) as usize);
    for y in 0..height {
        for x in 0..width {
            pixels.push(pat(x, y));
        }
    }
    pixels
}

/// The full concrete scenario: a 1000x1000 source whose metadata holds the
/// identity permutation for 104 tiles must descramble to a 910x860 image
/// whose borders match the gutter-offset source strips and whose interior
/// tiles appear in unshifted raster order.
#[test]
fn identity_scenario_1000() {
    let (width, height) = (1000u32, 1000u32);
    let tiff = build_tiff(width, height, &gray_pixels(width, height), &identity_keys(104));

    let png = descramble_image(&tiff).expect("descramble should succeed");
    let img = image::load_from_memory(&png).expect("output must decode");
    assert_eq!(img.width(), 910);
    assert_eq!(img.height(), 860);
    assert_eq!(img.color(), image::ColorType::L8);
    let data = img.as_bytes();
    let at = |x: u32, y: u32| data[(y * 910 + x) as usize];

    // x = 910, v = 860, b = 91, w = 57, 14 * w = 798, v - w = 803, 9 * b = 819
    // top strip: identical to the source
    for y in 0..57u32 {
        for x in 0..910u32 {
            assert_eq!(at(x, y), pat(x, y), "top ({x},{y})");
        }
    }
    // bottom strip: source 140 rows further down
    for y in 798..860u32 {
        for x in 0..819u32 {
            assert_eq!(at(x, y), pat(x, y + 140), "bottom ({x},{y})");
        }
    }
    // left strip: source 10 rows further down
    for y in 57..798u32 {
        for x in 0..91u32 {
            assert_eq!(at(x, y), pat(x, y + 10), "left ({x},{y})");
        }
    }
    // right strip: source 90 columns over and 10 rows down
    for y in 57..803u32 {
        for x in 819..910u32 {
            assert_eq!(at(x, y), pat(x + 90, y + 10), "right ({x},{y})");
        }
    }
    // interior: raster order, gutters removed
    for i in 0..104u32 {
        let (dx, dy) = ((i % 8 + 1) * 91, (i / 8 + 1) * 57);
        let (sx, sy) = ((i % 8 + 1) * 101, (i / 8 + 1) * 67);
        for ty in 0..57u32 {
            for tx in 0..91u32 {
                assert_eq!(at(dx + tx, dy + ty), pat(sx + tx, sy + ty), "tile {i} ({tx},{ty})");
            }
        }
    }
}

/// Descrambling the same bytes twice yields byte-identical output.
#[test]
fn deterministic_output() {
    let tiff = build_tiff(200, 290, &gray_pixels(200, 290), &identity_keys(8));
    let a = descramble_image(&tiff).expect("first run");
    let b = descramble_image(&tiff).expect("second run");
    assert_eq!(a, b);
}

/// Output dimensions are exactly (width - 90, height - 140).
#[test]
fn output_dimensions() {
    let tiff = build_tiff(200, 290, &gray_pixels(200, 290), &identity_keys(8));
    let png = descramble_image(&tiff).expect("descramble");
    let img = image::load_from_memory(&png).expect("decode");
    assert_eq!((img.width(), img.height()), (110, 150));
}

/// A non-hex token in the metadata is rejected, naming the token and the
/// whole raw value.
#[test]
fn malformed_metadata_rejected() {
    let tiff = build_tiff(200, 290, &gray_pixels(200, 290), "12:gg:34");
    match descramble_image(&tiff) {
        Err(DescrambleError::KeyParseError { token, raw }) => {
            assert_eq!(token, "gg");
            assert_eq!(raw, "\"12:gg:34\"");
        }
        other => panic!("expected KeyParseError, got {:?}", other),
    }
}

/// A key whose grid cell leaves the interior bounds is a tile-copy failure
/// carrying the offending rectangle, never a clamp.
#[test]
fn out_of_bounds_key_rejected() {
    // cell height 10; key 0x70 = 112 puts the cell's rows at 150..160 of 150
    let tiff = build_tiff(200, 290, &gray_pixels(200, 290), "70");
    match descramble_image(&tiff) {
        Err(DescrambleError::TileCopyError { dest_x, dest_y, src_x, src_y, width, height }) => {
            assert_eq!(dest_x, 11); // (112 % 8 + 1) * 11
            assert_eq!(dest_y, 150); // (112 / 8 + 1) * 10
            assert_eq!(src_x, 21); // (0 % 8 + 1) * (11 + 10)
            assert_eq!(src_y, 20); // (0 / 8 + 1) * (10 + 10)
            assert_eq!(width, 11);
            assert_eq!(height, 10);
        }
        other => panic!("expected TileCopyError, got {:?}", other),
    }
}

/// Too many keys run the source tile window off the image: the first tile
/// whose source rectangle leaves the image decides the failure.
#[test]
fn too_many_keys_rejected() {
    // source rows hold 14 gutter-padded tile rows: index 112 reads rows 300..310 of 290
    let tiff = build_tiff(200, 290, &gray_pixels(200, 290), &identity_keys(113));
    match descramble_image(&tiff) {
        Err(DescrambleError::TileCopyError { src_y, .. }) => assert_eq!(src_y, 300),
        other => panic!("expected TileCopyError, got {:?}", other),
    }
}

/// An image not strictly larger than the reserved margins is rejected.
#[test]
fn undersized_image_rejected() {
    let tiff = build_tiff(90, 290, &gray_pixels(90, 290), "0");
    match descramble_image(&tiff) {
        Err(DescrambleError::InvalidImageDimensions { width, height }) => {
            assert_eq!((width, height), (90, 290));
        }
        other => panic!("expected InvalidImageDimensions, got {:?}", other),
    }
}

/// An image without the ImageUniqueID tag is rejected before any decoding.
#[test]
fn missing_metadata_rejected() {
    // a plain PNG has no EXIF container at all
    let mut pixels = Vec::new();
    for y in 0..200u32 {
        for x in 0..200u32 {
            pixels.push(pat(x, y));
        }
    }
    let img = image::GrayImage::from_raw(200, 200, pixels).unwrap();
    let mut png = std::io::Cursor::new(Vec::new());
    image::DynamicImage::ImageLuma8(img)
        .write_to(&mut png, image::ImageFormat::Png)
        .unwrap();
    match descramble_image(&png.into_inner()) {
        Err(DescrambleError::MetadataMissing) => {}
        other => panic!("expected MetadataMissing, got {:?}", other),
    }
}

/// Bytes with a readable EXIF container that no image decoder accepts are an
/// image decode failure: the TIFF claims an unknown compression scheme.
#[test]
fn undecodable_image_rejected() {
    let mut tiff = build_tiff(200, 290, &gray_pixels(200, 290), "0");
    // IFD0 entry 3 (Compression) sits at 8 + strip + 2 + 3 * 12 + 8: set value 99
    let comp_value_off = (8 + 200 * 290 + 2 + 3 * 12 + 8) as usize;
    assert_eq!(tiff[comp_value_off - 8], 0x03); // tag 0x0103, low byte
    assert_eq!(tiff[comp_value_off - 7], 0x01); // tag 0x0103, high byte
    tiff[comp_value_off] = 99;
    match descramble_image(&tiff) {
        Err(DescrambleError::ImageDecodeError) => {}
        other => panic!("expected ImageDecodeError, got {:?}", other),
    }
}
