//! Bitmap decoding and registration.

use ruffle_core::bitmap::{
    argb_to_rgba, base64_fits, color_map_fits, expand_color_map, jpeg_data_url, lossless_rgba, merge_jpeg_tables,
    png_data_url, strip_erroneous_header, svg_data_url, xrgb_to_rgba, BitmapFormat, BitmapHandle, BitmapRegistry,
    DefineBitsLossless,
};

/// A zlib stream holding `data` in one stored (uncompressed) block.
fn zlib_stored(data: &[u8]) -> Vec<u8> {
    let mut out = vec![0x78, 0x01, 0x01];
    let len = data.len() as u16;
    out.extend_from_slice(&len.to_le_bytes());
    out.extend_from_slice(&(!len).to_le_bytes());
    out.extend_from_slice(data);
    let (mut a, mut b) = (1u32, 0u32);
    for &byte in data {
        a = (a + byte as u32) % 65521;
        b = (b + a) % 65521;
    }
    out.extend_from_slice(&((b << 16) | a).to_be_bytes());
    out
}

/// The smallest stream whose header the JPEG decoder reads: a start of
/// image and a baseline frame header of one component.
fn tiny_jpeg(width: u16, height: u16) -> Vec<u8> {
    let mut out = vec![0xFF, 0xD8, 0xFF, 0xC0, 0x00, 0x0B, 0x08];
    out.extend_from_slice(&height.to_be_bytes());
    out.extend_from_slice(&width.to_be_bytes());
    out.extend_from_slice(&[0x01, 0x01, 0x11, 0x00]);
    out
}

#[test]
fn erroneous_header_is_stripped() {
    let data = [0xFF, 0xD9, 0xFF, 0xD8, 0xFF, 0xD8, 7];
    assert_eq!(strip_erroneous_header(&data), &[0xFF, 0xD8, 7]);
    let clean = [0xFF, 0xD8, 1, 2];
    assert_eq!(strip_erroneous_header(&clean), &clean);
}

#[test]
fn jpeg_tables_are_merged() {
    let tables = [0xFF, 0xD8, 1, 2, 0xFF, 0xD9];
    let data = [0xFF, 0xD9, 0xFF, 0xD8, 0xFF, 0xD8, 3, 4, 0xFF, 0xD9];
    assert_eq!(merge_jpeg_tables(&data, &tables), vec![0xFF, 0xD8, 1, 2, 3, 4, 0xFF, 0xD9]);
}

#[test]
fn jpeg_data_url_is_base64() {
    assert_eq!(jpeg_data_url(&[1, 2, 3]), "data:image/jpeg;base64,AQID");
    assert_eq!(jpeg_data_url(&[0xFF]), "data:image/jpeg;base64,/w==");
    assert_eq!(png_data_url(&[]), "data:image/png;base64,");
}

#[test]
fn base64_lengths_fit() {
    assert!(base64_fits(0));
    assert!(base64_fits(1000));
    assert!(!base64_fits(usize::MAX));
}

#[test]
fn xrgb_and_argb_become_rgba() {
    let mut v = vec![0, 1, 2, 3, 9, 4, 5, 6];
    xrgb_to_rgba(&mut v);
    assert_eq!(v, vec![1, 2, 3, 0xFF, 4, 5, 6, 0xFF]);
    let mut w = vec![9, 1, 2, 3, 8, 4, 5, 6];
    argb_to_rgba(&mut w);
    assert_eq!(w, vec![1, 2, 3, 9, 4, 5, 6, 8]);
}

#[test]
fn color_map_rows_are_padded() {
    // Two palette entries, then two rows of two indices padded to four bytes.
    let data = [10, 20, 30, 40, 50, 60, 70, 80, 0, 1, 0xEE, 0xEE, 1, 5, 0xEE, 0xEE];
    assert!(color_map_fits(data.len(), 1, 2, 2));
    assert!(!color_map_fits(13, 1, 2, 2));
    assert_eq!(
        expand_color_map(&data, 1, 2, 2),
        vec![10, 20, 30, 40, 50, 60, 70, 80, 50, 60, 70, 80, 0, 0, 0, 0]
    );
}

#[test]
fn lossless_version_decides_alpha() {
    let tag = |version: u8| DefineBitsLossless {
        version,
        id: 1,
        format: BitmapFormat::Rgb32,
        width: 1,
        height: 1,
        num_colors: 0,
        data: vec![],
    };
    assert_eq!(lossless_rgba(&tag(1), vec![7, 1, 2, 3]), vec![1, 2, 3, 0xFF]);
    assert_eq!(lossless_rgba(&tag(2), vec![7, 1, 2, 3]), vec![1, 2, 3, 7]);
}

#[test]
fn lossless_bitmap_registers_as_png() {
    let mut registry = BitmapRegistry::new();
    let tag = DefineBitsLossless {
        version: 2,
        id: 7,
        format: BitmapFormat::Rgb32,
        width: 2,
        height: 1,
        num_colors: 0,
        data: zlib_stored(&[0xFF, 1, 2, 3, 0x80, 4, 5, 6]),
    };
    let handle = registry.register_bitmap_png(&tag).unwrap();
    assert_eq!(handle, BitmapHandle(0));
    assert_eq!(registry.handle_of(7), Some(BitmapHandle(0)));
    let bitmap = registry.bitmap(handle).unwrap();
    assert_eq!((bitmap.width, bitmap.height), (2, 1));
    // The base64 text of the PNG signature.
    assert!(bitmap.data.starts_with("data:image/png;base64,iVBORw0KGgo"));
}

#[test]
fn lossless_bitmap_with_bad_data_is_refused() {
    let mut registry = BitmapRegistry::new();
    let bad_stream = DefineBitsLossless {
        version: 2,
        id: 7,
        format: BitmapFormat::Rgb32,
        width: 2,
        height: 1,
        num_colors: 0,
        data: vec![1, 2, 3],
    };
    assert_eq!(registry.register_bitmap_png(&bad_stream), None);
    let short_pixels = DefineBitsLossless { data: zlib_stored(&[1, 2, 3, 4]), ..bad_stream };
    assert_eq!(registry.register_bitmap_png(&short_pixels), None);
    assert_eq!(registry.len(), 0);
    assert_eq!(registry.handle_of(7), None);
}

#[test]
fn color_mapped_bitmap_registers() {
    let mut registry = BitmapRegistry::new();
    let pixels = [10, 20, 30, 40, 50, 60, 70, 80, 0, 1, 0, 0];
    let tag = DefineBitsLossless {
        version: 2,
        id: 3,
        format: BitmapFormat::ColorMap8,
        width: 2,
        height: 1,
        num_colors: 1,
        data: zlib_stored(&pixels),
    };
    assert_eq!(registry.register_bitmap_png(&tag), Some(BitmapHandle(0)));
}

#[test]
fn jpeg_registers_with_its_frame_size() {
    let mut registry = BitmapRegistry::new();
    let mut data = vec![0xFF, 0xD9, 0xFF, 0xD8];
    data.extend_from_slice(&tiny_jpeg(32, 16));
    let handle = registry.register_bitmap_jpeg_2(5, &data).unwrap();
    let bitmap = registry.bitmap(handle).unwrap();
    assert_eq!((bitmap.width, bitmap.height), (32, 16));
    assert_eq!(bitmap.data, jpeg_data_url(&tiny_jpeg(32, 16)));
    // A second bitmap under the same id takes the id over.
    let second = registry.register_bitmap_jpeg_2(5, &tiny_jpeg(8, 8)).unwrap();
    assert_eq!(second, BitmapHandle(1));
    assert_eq!(registry.handle_of(5), Some(BitmapHandle(1)));
}

#[test]
fn jpeg_with_separate_tables_registers() {
    let mut registry = BitmapRegistry::new();
    let jpeg = tiny_jpeg(4, 2);
    let mut tables = jpeg.clone();
    tables.extend_from_slice(&[0xFF, 0xD9]);
    let data = [0xFF, 0xD8, 0xFF, 0xD9];
    let handle = registry.register_bitmap_jpeg(9, &data, &tables).unwrap();
    assert_eq!(registry.bitmap(handle).unwrap().width, 4);
}

#[test]
fn unreadable_jpeg_is_refused() {
    let mut registry = BitmapRegistry::new();
    assert_eq!(registry.register_bitmap_jpeg_2(5, &[1, 2, 3, 4, 5]), None);
    assert_eq!(registry.len(), 0);
}

#[test]
fn svg_data_url_is_percent_encoded() {
    assert_eq!(svg_data_url("<svg a='1'/>"), "data:image/svg+xml,%3Csvg%20a='1'/%3E");
    assert_eq!(svg_data_url("é?{}"), "data:image/svg+xml,%C3%A9%3F%7B%7D");
}
