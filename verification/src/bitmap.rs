//! Bitmaps for the canvas renderer: SWF JPEG and lossless bitmap tags are
//! turned into image data URLs, and registered under their character ids.

use std::collections::BTreeMap;
use vstd::prelude::*;
use vstd::slice::slice_subrange;
use vstd::string::StringSliceAdditionalSpecFns;

verus! {

broadcast use {vstd::laws_cmp::group_laws_cmp, vstd::std_specs::btree::group_btree_axioms};

/// What zlib inflation of `data` gives: the decompressed bytes, or `None`
/// where the stream is malformed or its checksum does not match.
pub uninterp spec fn zlib_inflated(data: Seq<u8>) -> Option<Seq<u8>>;

/// The character of the standard base64 alphabet for a six-bit value.
pub open spec fn base64_char(v: int) -> char {
    if v < 26 {
        ('A' as int + v) as char
    } else if v < 52 {
        ('a' as int + (v - 26)) as char
    } else if v < 62 {
        ('0' as int + (v - 52)) as char
    } else if v == 62 {
        '+'
    } else {
        '/'
    }
}

/// The standard, padded base64 text of `data`: each group of three bytes
/// becomes four characters of six bits each, and a last group of one or
/// two bytes is filled with zero bits and padded with `=`.
pub open spec fn base64_text(data: Seq<u8>) -> Seq<char>
    decreases data.len(),
{
    if data.len() == 0 {
        Seq::empty()
    } else if data.len() == 1 {
        seq![base64_char(data[0] as int / 4), base64_char((data[0] as int % 4) * 16), '=', '=']
    } else if data.len() == 2 {
        seq![
            base64_char(data[0] as int / 4),
            base64_char((data[0] as int % 4) * 16 + data[1] as int / 16),
            base64_char((data[1] as int % 16) * 4),
            '=',
        ]
    } else {
        seq![
            base64_char(data[0] as int / 4),
            base64_char((data[0] as int % 4) * 16 + data[1] as int / 16),
            base64_char((data[1] as int % 16) * 4 + data[2] as int / 64),
            base64_char(data[2] as int % 64),
        ] + base64_text(data.skip(3))
    }
}

/// The PNG file that encodes `pixels` as 8-bit RGBA pixels of the given size.
pub uninterp spec fn png_rgba8(width: u32, height: u32, pixels: Seq<u8>) -> Seq<u8>;

/// The width and height that the frame header of a JPEG stream declares, or
/// `None` where the decoder refuses the stream before the frame header.
pub uninterp spec fn jpeg_size(data: Seq<u8>) -> Option<(u16, u16)>;

/// Calls `inflate::inflate_bytes_zlib`. Its result is named by
/// [`zlib_inflated`]; the crate's error message becomes `None`.
#[verifier::external_body]
fn inflate_zlib(data: &[u8]) -> (r: Option<Vec<u8>>)
    ensures
        r is Some ==> zlib_inflated(data@) == Some(r.unwrap()@),
        r is None ==> zlib_inflated(data@) is None,
{
    match inflate::inflate_bytes_zlib(data) {
        Ok(v) => Some(v),
        Err(_) => None,
    }
}

/// Calls `base64::encode`, which uses the standard alphabet with padding:
/// four characters for each started group of three bytes. The crate panics
/// where that length does not fit in `usize`, which `requires` leaves out.
#[verifier::external_body]
fn base64_encode(data: &[u8]) -> (r: String)
    requires
        4 * ((data@.len() + 2) / 3) <= usize::MAX,
    ensures
        r@ == base64_text(data@),
        r@.len() == 4 * ((data@.len() + 2) / 3),
{
    base64::encode(data)
}

/// Encodes RGBA pixels as a PNG file through `png::Encoder::new`,
/// `Encoder::set_color(ColorType::RGBA)`, `Encoder::set_depth(BitDepth::Eight)`,
/// `Encoder::write_header` and `Writer::write_image_data`; dropping the
/// writer appends the end chunk. The crate refuses a zero width or height,
/// and pixel data whose length is not four bytes a pixel. The file starts
/// with the PNG signature.
#[verifier::external_body]
fn png_encode_rgba(width: u32, height: u32, pixels: &[u8]) -> (r: Option<Vec<u8>>)
    requires
        4 * width * height <= usize::MAX,
    ensures
        r is Some <==> (width > 0 && height > 0 && pixels@.len() == 4 * width * height),
        r is Some ==> r.unwrap()@ == png_rgba8(width, height, pixels@),
        r is Some ==> r.unwrap()@.take(8) == seq![137u8, 80u8, 78u8, 71u8, 13u8, 10u8, 26u8, 10u8],
{
    let mut out: Vec<u8> = Vec::new();
    let mut encoder = png::Encoder::new(&mut out, width, height);
    encoder.set_color(png::ColorType::RGBA);
    encoder.set_depth(png::BitDepth::Eight);
    let written = match encoder.write_header() {
        Ok(mut writer) => writer.write_image_data(pixels).is_ok(),
        Err(_) => false,
    };
    if written { Some(out) } else { None }
}

/// Reads the header of a JPEG stream with `jpeg_decoder::Decoder::new`,
/// `Decoder::read_info` and `Decoder::info`, and gives the frame's width and
/// height; an error of `read_info` becomes `None`. `read_info` refuses
/// frames of other than 1, 3 or 4 components, the only counts that `info`
/// accepts without panicking.
#[verifier::external_body]
fn jpeg_frame_size(data: &[u8]) -> (r: Option<(u16, u16)>)
    ensures
        r == jpeg_size(data@),
{
    let mut decoder = jpeg_decoder::Decoder::new(data);
    match decoder.read_info() {
        Ok(()) => decoder.info().map(|info| (info.width, info.height)),
        Err(_) => None,
    }
}

/// The bytes that the default URL encode set escapes: controls, bytes
/// outside ASCII, space, `"`, `#`, `<`, `>`, `` ` ``, `?`, `{` and `}`.
pub open spec fn in_default_encode_set(b: u8) -> bool {
    ||| b < 0x20 || b > 0x7E
    ||| b == 0x20 || b == 0x22 || b == 0x23 || b == 0x3C || b == 0x3E
    ||| b == 0x60 || b == 0x3F || b == 0x7B || b == 0x7D
}

/// The upper-case hexadecimal digit of a value below 16.
pub open spec fn hex_upper(n: int) -> char {
    if n < 10 {
        (0x30 + n) as char
    } else {
        (0x41 + n - 10) as char
    }
}

/// Percent-encoding of UTF-8 bytes with the default encode set: each
/// escaped byte becomes `%` and two upper-case hexadecimal digits, every
/// other byte the ASCII character it is.
pub open spec fn percent_encoded(bytes: Seq<u8>) -> Seq<char>
    decreases bytes.len(),
{
    if bytes.len() == 0 {
        Seq::empty()
    } else {
        let b = bytes.last();
        percent_encoded(bytes.drop_last()) + if in_default_encode_set(b) {
            seq!['%', hex_upper(b as int / 16), hex_upper(b as int % 16)]
        } else {
            seq![b as char]
        }
    }
}

/// Calls `url::percent_encoding::utf8_percent_encode` with
/// `DEFAULT_ENCODE_SET`, and collects the encoding into a string.
#[verifier::external_body]
fn percent_encode_default(s: &str) -> (r: String)
    ensures
        r@ == percent_encoded(s.spec_bytes()),
{
    url::percent_encoding::utf8_percent_encode(s, url::percent_encoding::DEFAULT_ENCODE_SET).to_string()
}

/// The data URL of an SVG image: its text, percent-encoded.
pub fn svg_data_url(svg: &str) -> (r: String)
    ensures
        r@ == "data:image/svg+xml,"@ + percent_encoded(svg.spec_bytes()),
{
    let encoded = percent_encode_default(svg);
    let mut url = String::from_str("data:image/svg+xml,");
    url.append(encoded.as_str());
    url
}

/// The bytes that SWF files before version 8 could put in front of a JPEG's
/// start-of-image marker: `FF D9 FF D8`.
pub open spec fn has_erroneous_header(data: Seq<u8>) -> bool {
    data.len() >= 4 && data[0] == 0xFFu8 && data[1] == 0xD9u8 && data[2] == 0xFFu8 && data[3] == 0xD8u8
}

/// `data` without the erroneous header, where it has one.
pub open spec fn without_erroneous_header(data: Seq<u8>) -> Seq<u8> {
    if has_erroneous_header(data) {
        data.skip(4)
    } else {
        data
    }
}

/// Slice off the erroneous header of a JPEG stream, if it has one.
pub fn strip_erroneous_header(data: &[u8]) -> (r: &[u8])
    requires
        data@.len() >= 4,
    ensures
        r@ == without_erroneous_header(data@),
{
    if data[0] == 0xFF && data[1] == 0xD9 && data[2] == 0xFF && data[3] == 0xD8 {
        slice_subrange(data, 4, data.len())
    } else {
        data
    }
}

/// A JPEG stream whose tables come from a separate JPEGTables tag: the
/// tables without their end-of-image marker, then the image data without
/// its start-of-image marker.
pub open spec fn jpeg_with_tables(data: Seq<u8>, jpeg_tables: Seq<u8>) -> Seq<u8> {
    let d = without_erroneous_header(data);
    let t = without_erroneous_header(jpeg_tables);
    t.take(t.len() - 2) + d.skip(2)
}

/// The inputs on which [`merge_jpeg_tables`] slices within bounds.
pub open spec fn jpeg_tables_mergeable(data: Seq<u8>, jpeg_tables: Seq<u8>) -> bool {
    &&& data.len() >= 4
    &&& jpeg_tables.len() >= 4
    &&& without_erroneous_header(data).len() >= 2
    &&& without_erroneous_header(jpeg_tables).len() >= 2
}

/// Build the full JPEG stream of a DefineBits tag from its data and the
/// movie's JPEG tables.
pub fn merge_jpeg_tables(data: &[u8], jpeg_tables: &[u8]) -> (r: Vec<u8>)
    requires
        jpeg_tables_mergeable(data@, jpeg_tables@),
    ensures
        r@ == jpeg_with_tables(data@, jpeg_tables@),
{
    let data = strip_erroneous_header(data);
    let jpeg_tables = strip_erroneous_header(jpeg_tables);
    let mut full: Vec<u8> = Vec::new();
    let end = jpeg_tables.len() - 2;
    let mut i: usize = 0;
    while i < end
        invariant
            end == jpeg_tables@.len() - 2,
            i <= end,
            full@ == jpeg_tables@.take(i as int),
        decreases end - i,
    {
        full.push(jpeg_tables[i]);
        i = i + 1;
        assert(full@ =~= jpeg_tables@.take(i as int));
    }
    let ghost head = full@;
    let mut j: usize = 2;
    while j < data.len()
        invariant
            2 <= j <= data@.len(),
            full@ == head + data@.subrange(2, j as int),
        decreases data.len() - j,
    {
        full.push(data[j]);
        j = j + 1;
        assert(full@ =~= head + data@.subrange(2, j as int));
    }
    assert(data@.subrange(2, data@.len() as int) =~= data@.skip(2));
    full
}

/// The data URL of an image: its media type, then the base64 text of its bytes.
pub open spec fn data_url(media_type: Seq<char>, bytes: Seq<u8>) -> Seq<char> {
    "data:"@ + media_type + ";base64,"@ + base64_text(bytes)
}

/// The byte lengths whose base64 text fits in memory.
pub open spec fn base64_encodable(len: nat) -> bool {
    4 * ((len + 2) / 3) <= usize::MAX
}

/// The data URL of a JPEG stream.
pub fn jpeg_data_url(data: &[u8]) -> (r: String)
    requires
        base64_encodable(data@.len()),
    ensures
        r@ == data_url("image/jpeg"@, data@),
{
    let encoded = base64_encode(data);
    let mut url = String::from_str("data:image/jpeg;base64,");
    url.append(encoded.as_str());
    proof {
        reveal_strlit("data:image/jpeg;base64,");
        reveal_strlit("data:");
        reveal_strlit("image/jpeg");
        reveal_strlit(";base64,");
        assert(url@ =~= data_url("image/jpeg"@, data@));
    }
    url
}

/// The data URL of a PNG file.
pub fn png_data_url(png: &[u8]) -> (r: String)
    requires
        base64_encodable(png@.len()),
    ensures
        r@ == data_url("image/png"@, png@),
{
    let encoded = base64_encode(png);
    let mut url = String::from_str("data:image/png;base64,");
    url.append(encoded.as_str());
    proof {
        reveal_strlit("data:image/png;base64,");
        reveal_strlit("data:");
        reveal_strlit("image/png");
        reveal_strlit(";base64,");
        assert(url@ =~= data_url("image/png"@, png@));
    }
    url
}


/// Version 1 lossless 32-bit pixels are stored X, R, G, B: each becomes R,
/// G, B and an opaque alpha.
pub open spec fn xrgb_as_rgba(data: Seq<u8>) -> Seq<u8> {
    Seq::new(data.len(), |k: int| if k % 4 == 3 { 0xFFu8 } else { data[k + 1] })
}

/// Version 2 lossless 32-bit pixels are stored A, R, G, B: the alpha moves
/// to the end.
pub open spec fn argb_as_rgba(data: Seq<u8>) -> Seq<u8> {
    Seq::new(data.len(), |k: int| if k % 4 == 3 { data[k - 3] } else { data[k + 1] })
}

/// Reorder X, R, G, B pixels to R, G, B, A in place, with an opaque alpha.
pub fn xrgb_to_rgba(data: &mut Vec<u8>)
    requires
        old(data)@.len() % 4 == 0,
    ensures
        final(data)@ == xrgb_as_rgba(old(data)@),
{
    let ghost orig = data@;
    let mut i: usize = 0;
    while i < data.len()
        invariant
            data@.len() == orig.len(),
            orig.len() % 4 == 0,
            i % 4 == 0,
            i <= data@.len(),
            forall|k: int| 0 <= k < i ==> data@[k] == #[trigger] xrgb_as_rgba(orig)[k],
            forall|k: int| i <= k < data@.len() ==> #[trigger] data@[k] == orig[k],
        decreases data@.len() - i,
    {
        let r = data[i + 1];
        let g = data[i + 2];
        let b = data[i + 3];
        data.set(i, r);
        data.set(i + 1, g);
        data.set(i + 2, b);
        data.set(i + 3, 0xFF);
        i = i + 4;
    }
    assert(data@ =~= xrgb_as_rgba(orig));
}

/// Reorder A, R, G, B pixels to R, G, B, A in place.
pub fn argb_to_rgba(data: &mut Vec<u8>)
    requires
        old(data)@.len() % 4 == 0,
    ensures
        final(data)@ == argb_as_rgba(old(data)@),
{
    let ghost orig = data@;
    let mut i: usize = 0;
    while i < data.len()
        invariant
            data@.len() == orig.len(),
            orig.len() % 4 == 0,
            i % 4 == 0,
            i <= data@.len(),
            forall|k: int| 0 <= k < i ==> data@[k] == #[trigger] argb_as_rgba(orig)[k],
            forall|k: int| i <= k < data@.len() ==> #[trigger] data@[k] == orig[k],
        decreases data@.len() - i,
    {
        let alpha = data[i];
        let r = data[i + 1];
        let g = data[i + 2];
        let b = data[i + 3];
        data.set(i, r);
        data.set(i + 1, g);
        data.set(i + 2, b);
        data.set(i + 3, alpha);
        i = i + 4;
    }
    assert(data@ =~= argb_as_rgba(orig));
}


/// Rows of colour-mapped pixels are padded to a multiple of four bytes.
pub open spec fn padded_row_width(width: int) -> int {
    (width + 3) / 4 * 4
}

/// Where the pixel indices start: after the palette of `num_colors + 1`
/// entries of four bytes.
pub open spec fn palette_len(num_colors: u8) -> int {
    4 * (num_colors + 1)
}

/// Channel `c` of the colour-mapped pixel at `row` and `col`: that of its
/// palette entry, or transparent black for an index past the palette.
pub open spec fn colormap_channel(data: Seq<u8>, num_colors: u8, width: int, row: int, col: int, c: int) -> u8 {
    let entry = data[palette_len(num_colors) + row * padded_row_width(width) + col];
    if entry < num_colors + 1 {
        data[4 * entry + c]
    } else {
        0u8
    }
}

/// The RGBA pixels of a colour-mapped bitmap, row by row.
pub open spec fn colormap_as_rgba(data: Seq<u8>, num_colors: u8, width: u16, height: u16) -> Seq<u8> {
    Seq::new(
        (4 * width * height) as nat,
        |k: int| colormap_channel(data, num_colors, width as int, (k / 4) / width as int, (k / 4) % width as int, k % 4),
    )
}

/// The decoded lengths from which every palette entry and pixel index of a
/// colour-mapped bitmap can be read.
pub open spec fn colormap_fits(len: int, num_colors: u8, width: u16, height: u16) -> bool {
    &&& palette_len(num_colors) <= len
    &&& (width > 0 && height > 0) ==> palette_len(num_colors) + (height - 1) * padded_row_width(width as int) + width <= len
}

proof fn lemma_pixel_position(width: int, height: int, row: int, col: int, n: int, k: int)
    requires
        0 <= row < height,
        0 <= col < width,
        n == 4 * (row * width + col),
        n <= k < n + 4,
    ensures
        (k / 4) / width == row,
        (k / 4) % width == col,
        k % 4 == k - n,
{
    assert(k / 4 == row * width + col);
    vstd::arithmetic::div_mod::lemma_fundamental_div_mod_converse(k / 4, width, row, col);
}

proof fn lemma_index_in_row(base: int, padded: int, width: int, height: int, row: int, col: int, len: int)
    requires
        0 <= row < height,
        0 <= col < width,
        width <= padded,
        base + (height - 1) * padded + width <= len,
    ensures
        base + row * padded + col < len,
{
    assert(row * padded <= (height - 1) * padded) by (nonlinear_arith)
        requires
            row <= height - 1,
            padded >= 0,
    ;
}

/// Expand colour-mapped pixels to RGBA through their palette. Rows are
/// padded to a multiple of four bytes; an index past the palette gives
/// transparent black.
pub fn expand_color_map(data: &[u8], num_colors: u8, width: u16, height: u16) -> (r: Vec<u8>)
    requires
        num_colors < 255,
        width <= 65532,
        colormap_fits(data@.len() as int, num_colors, width, height),
        4 * width * height <= usize::MAX,
    ensures
        r@ == colormap_as_rgba(data@, num_colors, width, height),
{
    let w: u16 = width;
    let padded_width: u16 = (w + 0b11) & !0b11;
    assert(padded_width == padded_row_width(w as int)) by (bit_vector)
        requires
            padded_width == ((w + 3) as u16) & !3u16,
            w <= 65532,
    ;
    let palette_entries: usize = num_colors as usize + 1;
    let base: usize = 4 * palette_entries;
    let padding: usize = (padded_width - width) as usize;
    let ghost wi = width as int;
    let ghost padded = padded_width as int;
    let ghost expected = colormap_as_rgba(data@, num_colors, width, height);
    let data_len: usize = data.len();
    let mut out: Vec<u8> = Vec::new();
    let mut i: usize = base;
    let mut row: u16 = 0;
    while row < height
        invariant
            wi == width,
            padded == padded_row_width(wi),
            padding == padded - wi,
            base == palette_len(num_colors),
            palette_entries == num_colors + 1,
            colormap_fits(data@.len() as int, num_colors, width, height),
            4 * width * height <= usize::MAX,
            expected == colormap_as_rgba(data@, num_colors, width, height),
            data_len == data@.len(),
            row <= height,
            row < height ==> i == base + row * padded,
            out@.len() == 4 * (row * wi),
            forall|k: int| 0 <= k < out@.len() ==> #[trigger] out@[k] == expected[k],
        decreases height - row,
    {
        let mut col: u16 = 0;
        while col < width
            invariant
                wi == width,
                padded == padded_row_width(wi),
                base == palette_len(num_colors),
                palette_entries == num_colors + 1,
                colormap_fits(data@.len() as int, num_colors, width, height),
                4 * width * height <= usize::MAX,
                expected == colormap_as_rgba(data@, num_colors, width, height),
                row < height,
                col <= width,
                i == base + row * padded + col,
                out@.len() == 4 * (row * wi + col),
                forall|k: int| 0 <= k < out@.len() ==> #[trigger] out@[k] == expected[k],
            decreases width - col,
        {
            proof {
                lemma_index_in_row(base as int, padded, wi, height as int, row as int, col as int, data@.len() as int);
                assert(4 * (row * wi + col) + 4 <= 4 * width * height) by (nonlinear_arith)
                    requires
                        row < height,
                        col < wi,
                        wi == width,
                ;
            }
            let ghost prefix = out@;
            let n: usize = out.len();
            let entry: usize = data[i] as usize;
            let (c0, c1, c2, c3) = if entry < palette_entries {
                (data[4 * entry], data[4 * entry + 1], data[4 * entry + 2], data[4 * entry + 3])
            } else {
                (0u8, 0u8, 0u8, 0u8)
            };
            out.push(c0);
            out.push(c1);
            out.push(c2);
            out.push(c3);
            proof {
                assert(out@ == prefix + seq![c0, c1, c2, c3]);
                assert forall|k: int| n <= k < n + 4 implies #[trigger] out@[k] == expected[k] by {
                    lemma_pixel_position(wi, height as int, row as int, col as int, n as int, k);
                    assert(expected[k] == colormap_channel(data@, num_colors, wi, row as int, col as int, k - n));
                }
            }
            i = i + 1;
            col = col + 1;
        }
        assert(out@.len() == 4 * ((row + 1) * wi)) by (nonlinear_arith)
            requires
                out@.len() == 4 * (row * wi + wi),
        ;
        if row + 1 < height && width > 0 {
            assert(base + (row + 1) * padded <= data@.len()) by (nonlinear_arith)
                requires
                    row + 1 <= height - 1,
                    padded >= 0,
                    wi >= 0,
                    base + (height - 1) * padded + wi <= data@.len(),
            ;
            assert(i + padding == base + (row + 1) * padded) by (nonlinear_arith)
                requires
                    i == base + row * padded + wi,
                    padding == padded - wi,
            ;
            i = i + padding;
        } else if row + 1 < height {
            assert(padded == 0);
            assert(i == base + (row + 1) * padded) by (nonlinear_arith)
                requires
                    i == base + row * padded,
                    padded == 0,
            ;
        }
        row = row + 1;
    }
    assert(out@.len() == 4 * width * height) by (nonlinear_arith)
        requires
            out@.len() == 4 * (height * wi),
            wi == width,
    ;
    assert(out@ =~= colormap_as_rgba(data@, num_colors, width, height));
    out
}


/// The pixel format of a lossless bitmap tag.
#[derive(Clone, Copy, Debug, PartialEq, Eq, Structural)]
pub enum BitmapFormat {
    ColorMap8,
    Rgb15,
    Rgb32,
}

/// A DefineBitsLossless tag (version 1) or DefineBitsLossless2 tag (version 2):
/// zlib-compressed pixels.
#[derive(Clone, Debug)]
pub struct DefineBitsLossless {
    pub version: u8,
    pub id: u16,
    pub format: BitmapFormat,
    pub width: u16,
    pub height: u16,
    pub num_colors: u8,
    pub data: Vec<u8>,
}

/// The tags whose pixels the renderer decodes: 32-bit pixels in either
/// version, and colour-mapped pixels in version 2, with a palette of at most
/// 255 entries and a width whose row padding fits in 16 bits.
pub open spec fn lossless_supported(tag: DefineBitsLossless) -> bool {
    ||| tag.format == BitmapFormat::Rgb32 && (tag.version == 1 || tag.version == 2)
    ||| tag.format == BitmapFormat::ColorMap8 && tag.version == 2 && tag.num_colors < 255 && tag.width <= 65532
}

/// The decoded lengths from which the tag's pixels can be read.
pub open spec fn lossless_fits(tag: DefineBitsLossless, len: int) -> bool {
    if tag.format == BitmapFormat::Rgb32 {
        len % 4 == 0
    } else {
        colormap_fits(len, tag.num_colors, tag.width, tag.height)
    }
}

/// The RGBA pixels of a tag, from its decompressed data.
pub open spec fn lossless_as_rgba(tag: DefineBitsLossless, decoded: Seq<u8>) -> Seq<u8> {
    if tag.format == BitmapFormat::Rgb32 {
        if tag.version == 1 {
            xrgb_as_rgba(decoded)
        } else {
            argb_as_rgba(decoded)
        }
    } else {
        colormap_as_rgba(decoded, tag.num_colors, tag.width, tag.height)
    }
}

/// The PNG file of a tag, where its data decompresses, holds its pixels, and
/// the encoder accepts them.
pub open spec fn lossless_png(tag: DefineBitsLossless) -> Option<Seq<u8>> {
    match zlib_inflated(tag.data@) {
        Some(decoded) => {
            let rgba = lossless_as_rgba(tag, decoded);
            if lossless_fits(tag, decoded.len() as int) && tag.width > 0 && tag.height > 0 && rgba.len() == 4
                * tag.width * tag.height {
                Some(png_rgba8(tag.width as u32, tag.height as u32, rgba))
            } else {
                None
            }
        },
        None => None,
    }
}

/// Convert a tag's decompressed pixels to RGBA.
pub fn lossless_rgba(tag: &DefineBitsLossless, decoded: Vec<u8>) -> (r: Vec<u8>)
    requires
        lossless_supported(*tag),
        lossless_fits(*tag, decoded@.len() as int),
        4 * tag.width * tag.height <= usize::MAX,
    ensures
        r@ == lossless_as_rgba(*tag, decoded@),
{
    let mut decoded = decoded;
    match tag.format {
        BitmapFormat::Rgb32 => {
            if tag.version == 1 {
                xrgb_to_rgba(&mut decoded);
            } else {
                argb_to_rgba(&mut decoded);
            }
            decoded
        },
        _ => expand_color_map(decoded.as_slice(), tag.num_colors, tag.width, tag.height),
    }
}

/// A handle to a registered bitmap: its index among the registered bitmaps.
#[derive(Clone, Copy, Debug, PartialEq, Eq, Structural)]
pub struct BitmapHandle(pub usize);

/// A registered bitmap: its size in pixels and its image as a data URL.
pub struct BitmapData {
    pub width: u32,
    pub height: u32,
    pub data: String,
}

/// The mathematical form of a [`BitmapData`].
pub ghost struct BitmapInfo {
    pub width: u32,
    pub height: u32,
    pub data: Seq<char>,
}

impl View for BitmapData {
    type V = BitmapInfo;

    open spec fn view(&self) -> BitmapInfo {
        BitmapInfo { width: self.width, height: self.height, data: self.data@ }
    }
}

/// The bitmaps registered with a renderer, and the handle registered last
/// for each character id.
pub struct BitmapRegistry {
    bitmaps: Vec<BitmapData>,
    id_to_bitmap: BTreeMap<u16, BitmapHandle>,
}

/// The mathematical form of a [`BitmapRegistry`].
pub ghost struct BitmapRegistryView {
    pub bitmaps: Seq<BitmapInfo>,
    pub ids: Map<u16, BitmapHandle>,
}

impl BitmapRegistryView {
    /// The registry after `bitmap` is added under `id`: it gets the next handle.
    pub open spec fn registered(self, id: u16, bitmap: BitmapInfo) -> BitmapRegistryView {
        BitmapRegistryView {
            bitmaps: self.bitmaps.push(bitmap),
            ids: self.ids.insert(id, BitmapHandle(self.bitmaps.len() as usize)),
        }
    }

    /// Every registered id refers to a registered bitmap.
    pub open spec fn wf(self) -> bool {
        forall|id: u16| #[trigger] self.ids.contains_key(id) ==> self.ids[id].0 < self.bitmaps.len()
    }
}

impl View for BitmapRegistry {
    type V = BitmapRegistryView;

    closed spec fn view(&self) -> BitmapRegistryView {
        BitmapRegistryView { bitmaps: self.bitmaps@.map_values(|b: BitmapData| b@), ids: self.id_to_bitmap@ }
    }
}

impl BitmapRegistry {
    /// An empty registry.
    pub fn new() -> (r: Self)
        ensures
            r@.bitmaps == Seq::<BitmapInfo>::empty(),
            r@.ids == Map::<u16, BitmapHandle>::empty(),
            r@.wf(),
    {
        let r = BitmapRegistry { bitmaps: Vec::new(), id_to_bitmap: BTreeMap::new() };
        assert(r@.bitmaps =~= Seq::<BitmapInfo>::empty());
        r
    }

    /// The number of registered bitmaps.
    pub fn len(&self) -> (r: usize)
        ensures
            r == self@.bitmaps.len(),
    {
        self.bitmaps.len()
    }

    /// The bitmap behind a handle.
    pub fn bitmap(&self, handle: BitmapHandle) -> (r: Option<&BitmapData>)
        ensures
            match r {
                Some(b) => handle.0 < self@.bitmaps.len() && b@ == self@.bitmaps[handle.0 as int],
                None => handle.0 >= self@.bitmaps.len(),
            },
    {
        if handle.0 < self.bitmaps.len() {
            Some(&self.bitmaps[handle.0])
        } else {
            None
        }
    }

    /// The handle last registered for a character id.
    pub fn handle_of(&self, id: u16) -> (r: Option<BitmapHandle>)
        ensures
            match r {
                Some(h) => self@.ids.contains_key(id) && self@.ids[id] == h,
                None => !self@.ids.contains_key(id),
            },
    {
        match self.id_to_bitmap.get(&id) {
            Some(h) => Some(*h),
            None => None,
        }
    }

    /// Add a bitmap under a character id; it gets the next handle.
    pub fn register_bitmap(&mut self, id: u16, width: u32, height: u32, data: String) -> (r: BitmapHandle)
        ensures
            r == BitmapHandle(old(self)@.bitmaps.len() as usize),
            final(self)@ == old(self)@.registered(id, BitmapInfo { width, height, data: data@ }),
            old(self)@.wf() ==> final(self)@.wf(),
    {
        let handle = BitmapHandle(self.bitmaps.len());
        let ghost info = BitmapInfo { width, height, data: data@ };
        self.bitmaps.push(BitmapData { width, height, data });
        self.id_to_bitmap.insert(id, handle);
        proof {
            assert(self@.bitmaps =~= old(self)@.bitmaps.push(info));
            if old(self)@.wf() {
                assert forall|k: u16| #[trigger] self@.ids.contains_key(k) implies self@.ids[k].0 < self@.bitmaps.len() by {
                    if k != id {
                        assert(old(self)@.ids.contains_key(k));
                    }
                }
            }
        }
        handle
    }

    /// Register a JPEG stream whose frame size the decoder has read.
    pub fn register_decoded_jpeg(&mut self, id: u16, data: &[u8], width: u16, height: u16) -> (r: BitmapHandle)
        requires
            base64_encodable(data@.len()),
        ensures
            r == BitmapHandle(old(self)@.bitmaps.len() as usize),
            final(self)@ == old(self)@.registered(
                id,
                BitmapInfo { width: width as u32, height: height as u32, data: data_url("image/jpeg"@, data@) },
            ),
            old(self)@.wf() ==> final(self)@.wf(),
    {
        let url = jpeg_data_url(data);
        self.register_bitmap(id, width as u32, height as u32, url)
    }

    /// Register the JPEG stream of a DefineBitsJPEG2 tag, after slicing off
    /// an erroneous header. `None`, with nothing registered, where the
    /// decoder refuses the stream's header.
    pub fn register_bitmap_jpeg_2(&mut self, id: u16, data: &[u8]) -> (r: Option<BitmapHandle>)
        requires
            data@.len() >= 4,
            base64_encodable(data@.len()),
        ensures
            match jpeg_size(without_erroneous_header(data@)) {
                Some((width, height)) => {
                    &&& r == Some(BitmapHandle(old(self)@.bitmaps.len() as usize))
                    &&& final(self)@ == old(self)@.registered(
                        id,
                        BitmapInfo {
                            width: width as u32,
                            height: height as u32,
                            data: data_url("image/jpeg"@, without_erroneous_header(data@)),
                        },
                    )
                },
                None => r is None && final(self)@ == old(self)@,
            },
            old(self)@.wf() ==> final(self)@.wf(),
    {
        let data = strip_erroneous_header(data);
        match jpeg_frame_size(data) {
            Some((width, height)) => Some(self.register_decoded_jpeg(id, data, width, height)),
            None => None,
        }
    }

    /// Register the JPEG stream of a DefineBits tag, whose tables come from
    /// the movie's JPEGTables tag.
    pub fn register_bitmap_jpeg(&mut self, id: u16, data: &[u8], jpeg_tables: &[u8]) -> (r: Option<BitmapHandle>)
        requires
            jpeg_tables_mergeable(data@, jpeg_tables@),
            jpeg_with_tables(data@, jpeg_tables@).len() >= 4,
            base64_encodable(jpeg_with_tables(data@, jpeg_tables@).len()),
        ensures
            ({
                let full = without_erroneous_header(jpeg_with_tables(data@, jpeg_tables@));
                match jpeg_size(full) {
                    Some((width, height)) => {
                        &&& r == Some(BitmapHandle(old(self)@.bitmaps.len() as usize))
                        &&& final(self)@ == old(self)@.registered(
                            id,
                            BitmapInfo { width: width as u32, height: height as u32, data: data_url("image/jpeg"@, full) },
                        )
                    },
                    None => r is None && final(self)@ == old(self)@,
                }
            }),
            old(self)@.wf() ==> final(self)@.wf(),
    {
        let full = merge_jpeg_tables(data, jpeg_tables);
        self.register_bitmap_jpeg_2(id, full.as_slice())
    }

    /// Register a lossless bitmap tag as a PNG image. `None`, with nothing
    /// registered, where its data does not decompress, does not hold its
    /// pixels, or the PNG encoder refuses them.
    pub fn register_bitmap_png(&mut self, tag: &DefineBitsLossless) -> (r: Option<BitmapHandle>)
        requires
            lossless_supported(*tag),
            4 * tag.width * tag.height <= usize::MAX,
        ensures
            match lossless_png(*tag) {
                Some(png) => if base64_encodable(png.len()) {
                    &&& r == Some(BitmapHandle(old(self)@.bitmaps.len() as usize))
                    &&& final(self)@ == old(self)@.registered(
                        tag.id,
                        BitmapInfo { width: tag.width as u32, height: tag.height as u32, data: data_url("image/png"@, png) },
                    )
                } else {
                    r is None && final(self)@ == old(self)@
                },
                None => r is None && final(self)@ == old(self)@,
            },
            old(self)@.wf() ==> final(self)@.wf(),
    {
        let decoded = match inflate_zlib(tag.data.as_slice()) {
            Some(d) => d,
            None => return None,
        };
        let fits = match tag.format {
            BitmapFormat::Rgb32 => decoded.len() % 4 == 0,
            _ => color_map_fits(decoded.len(), tag.num_colors, tag.width, tag.height),
        };
        if !fits {
            return None;
        }
        let rgba = lossless_rgba(tag, decoded);
        let png = match png_encode_rgba(tag.width as u32, tag.height as u32, rgba.as_slice()) {
            Some(p) => p,
            None => return None,
        };
        if !base64_fits(png.len()) {
            return None;
        }
        let url = png_data_url(png.as_slice());
        Some(self.register_bitmap(tag.id, tag.width as u32, tag.height as u32, url))
    }
}

/// Whether the base64 text of `len` bytes fits in memory.
pub fn base64_fits(len: usize) -> (r: bool)
    ensures
        r == base64_encodable(len as nat),
{
    let groups: usize = if len % 3 == 0 { len / 3 } else { len / 3 + 1 };
    assert(groups == (len + 2) / 3);
    groups <= usize::MAX / 4
}

/// Whether a decoded length holds a colour-mapped bitmap's palette and pixels.
pub fn color_map_fits(len: usize, num_colors: u8, width: u16, height: u16) -> (r: bool)
    requires
        width <= 65532,
    ensures
        r == colormap_fits(len as int, num_colors, width, height),
{
    let palette: u64 = 4 * (num_colors as u64 + 1);
    if (len as u64) < palette {
        return false;
    }
    if width == 0 || height == 0 {
        return true;
    }
    let padded: u64 = (width as u64 + 3) / 4 * 4;
    assert((height - 1) * padded <= 65535 * 65536) by (nonlinear_arith)
        requires
            1 <= height <= 65535,
            padded <= 65536,
    ;
    let needed: u64 = palette + (height as u64 - 1) * padded + width as u64;
    (len as u64) >= needed
}

/// A registered bitmap is found again: its id leads to the new handle,
/// the handle to the bitmap, and the other ids and bitmaps are unchanged.
pub proof fn law_register_then_lookup(registry: BitmapRegistryView, id: u16, bitmap: BitmapInfo, other: u16)
    requires
        registry.wf(),
        registry.bitmaps.len() < usize::MAX,
        other != id,
    ensures
        ({
            let after = registry.registered(id, bitmap);
            &&& after.wf()
            &&& after.ids[id] == BitmapHandle(registry.bitmaps.len() as usize)
            &&& after.bitmaps[after.ids[id].0 as int] == bitmap
            &&& after.ids.contains_key(other) == registry.ids.contains_key(other)
            &&& registry.ids.contains_key(other) ==> after.ids[other] == registry.ids[other]
                && after.bitmaps[after.ids[other].0 as int] == registry.bitmaps[registry.ids[other].0 as int]
        }),
{
    let after = registry.registered(id, bitmap);
    assert forall|k: u16| #[trigger] after.ids.contains_key(k) implies after.ids[k].0 < after.bitmaps.len() by {
        if k != id {
            assert(registry.ids.contains_key(k));
        }
    }
}


/// Each pixel keeps its colour: pixel `p` of the RGBA result has the red,
/// green and blue bytes of pixel `p` of the input, and the input's alpha
/// (the first byte of an A, R, G, B pixel) or full opacity for X, R, G, B.
pub proof fn law_pixels_keep_their_colour(data: Seq<u8>, p: int)
    requires
        data.len() % 4 == 0,
        0 <= p < data.len() / 4,
    ensures
        xrgb_as_rgba(data).len() == data.len() && argb_as_rgba(data).len() == data.len(),
        xrgb_as_rgba(data).subrange(4 * p, 4 * p + 4) == seq![data[4 * p + 1], data[4 * p + 2], data[4 * p + 3], 0xFFu8],
        argb_as_rgba(data).subrange(4 * p, 4 * p + 4) == seq![data[4 * p + 1], data[4 * p + 2], data[4 * p + 3], data[4 * p]],
{
    assert((4 * p) % 4 == 0 && (4 * p + 1) % 4 == 1 && (4 * p + 2) % 4 == 2 && (4 * p + 3) % 4 == 3) by (nonlinear_arith)
        requires
            0 <= p,
    ;
    assert(4 * p + 4 <= data.len()) by (nonlinear_arith)
        requires
            0 <= p < data.len() / 4,
            data.len() % 4 == 0,
    ;
    assert(xrgb_as_rgba(data).subrange(4 * p, 4 * p + 4) =~= seq![data[4 * p + 1], data[4 * p + 2], data[4 * p + 3], 0xFFu8]);
    assert(argb_as_rgba(data).subrange(4 * p, 4 * p + 4) =~= seq![data[4 * p + 1], data[4 * p + 2], data[4 * p + 3], data[4 * p]]);
}

/// A padded row is the smallest multiple of four bytes that holds the row.
pub proof fn law_padded_row_is_least_multiple_of_four(width: int)
    requires
        width >= 0,
    ensures
        padded_row_width(width) % 4 == 0,
        width <= padded_row_width(width) < width + 4,
{
}

/// Base64 turns each three bytes into four characters, padding a last
/// partial group to four: the text of bytes whose length is a multiple of
/// three followed by more bytes is the text of each, one after the other,
/// and the text is four characters for each started group of three bytes.
pub proof fn law_base64_groups(a: Seq<u8>, b: Seq<u8>)
    requires
        a.len() % 3 == 0,
    ensures
        base64_text(a + b) == base64_text(a) + base64_text(b),
        base64_text(a).len() == 4 * ((a.len() + 2) / 3),
    decreases a.len(),
{
    if a.len() == 0 {
        assert(a + b =~= b);
    } else {
        assert((a + b).skip(3) =~= a.skip(3) + b);
        assert((a + b)[0] == a[0] && (a + b)[1] == a[1] && (a + b)[2] == a[2]);
        law_base64_groups(a.skip(3), b);
    }
}
} // verus!
