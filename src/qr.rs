//! The pairing QR code: module grid, raster, PNG container and data URI.
use vstd::prelude::*;
use base64::Engine;
use image::ImageEncoder;
use crate::error::ServerError;

verus! {

#[verifier::external_type_specification]
#[verifier::external_body]
pub struct ExQrError(qr_code::types::QrError);

#[verifier::external_type_specification]
#[verifier::external_body]
pub struct ExImageError(image::ImageError);

/// Width and modules (row-major, `true` for dark) of the smallest QR symbol
/// at medium error correction that encodes the UTF-8 bytes of `text`, or
/// `None` when no symbol can hold them.
pub uninterp spec fn qr_symbol_of(text: Seq<char>) -> Option<(nat, Seq<bool>)>;

/// The PNG file of a `side` by `side` 8-bit grayscale image with the given
/// row-major pixels, or `None` when the encoder refuses it.
pub uninterp spec fn png_gray_of(side: nat, pixels: Seq<u8>) -> Option<Seq<u8>>;

/// The digit of value `v` in the standard base64 alphabet.
pub open spec fn base64_digit(v: int) -> char {
    seq!['A', 'B', 'C', 'D', 'E', 'F', 'G', 'H', 'I', 'J', 'K', 'L', 'M', 'N', 'O', 'P', 'Q', 'R', 'S', 'T', 'U', 'V', 'W', 'X', 'Y', 'Z', 'a', 'b', 'c', 'd', 'e', 'f', 'g', 'h', 'i', 'j', 'k', 'l', 'm', 'n', 'o', 'p', 'q', 'r', 's', 't', 'u', 'v', 'w', 'x', 'y', 'z', '0', '1', '2', '3', '4', '5', '6', '7', '8', '9', '+', '/'][v]
}

/// The standard, padded base64 text of `bytes`: four digits for each group
/// of three bytes, the last group padded with `=`.
pub open spec fn base64_of(bytes: Seq<u8>) -> Seq<char>
    decreases bytes.len(),
{
    if bytes.len() == 0 {
        Seq::empty()
    } else {
        let b0 = bytes[0] as int;
        let b1 = if bytes.len() > 1 { bytes[1] as int } else { 0 };
        let b2 = if bytes.len() > 2 { bytes[2] as int } else { 0 };
        let d0 = base64_digit(b0 / 4);
        let d1 = base64_digit((b0 % 4) * 16 + b1 / 16);
        let d2 = if bytes.len() > 1 { base64_digit((b1 % 16) * 4 + b2 / 64) } else { '=' };
        let d3 = if bytes.len() > 2 { base64_digit(b2 % 64) } else { '=' };
        if bytes.len() <= 3 {
            seq![d0, d1, d2, d3]
        } else {
            seq![d0, d1, d2, d3] + base64_of(bytes.subrange(3, bytes.len() as int))
        }
    }
}

/// Module-to-pixel ratio of the raster.
pub const SCALE: usize = 4;

/// A QR module grid: `dark[y * width + x]` is the module in column `x`, row `y`.
pub struct QrGrid {
    pub width: usize,
    pub dark: Vec<bool>,
}

/// Relies on `qr_code::QrCode::new` (medium error correction, smallest
/// version) and its `width` and `to_vec`: a symbol of version 1 to 40 is at
/// most 177 modules wide and holds `width * width` modules.
#[verifier::external_body]
fn qr_symbol(text: &str) -> (r: Result<QrGrid, qr_code::types::QrError>)
    ensures
        match r {
            Ok(g) => qr_symbol_of(text@) == Some((g.width as nat, g.dark@)) && g.width <= 177
                && g.dark@.len() == g.width * g.width,
            Err(_) => qr_symbol_of(text@) is None,
        },
{
    match qr_code::QrCode::new(text.as_bytes()) {
        Ok(q) => Ok(QrGrid { width: q.width(), dark: q.to_vec() }),
        Err(e) => Err(e),
    }
}

/// Relies on `image::codecs::png::PngEncoder::write_image` with `ColorType::L8`,
/// which panics unless there is one byte per pixel.
#[verifier::external_body]
fn png_gray(pixels: &Vec<u8>, side: u32) -> (r: Result<Vec<u8>, image::ImageError>)
    requires
        pixels@.len() == side * side,
    ensures
        match r {
            Ok(b) => png_gray_of(side as nat, pixels@) == Some(b@),
            Err(_) => png_gray_of(side as nat, pixels@) is None,
        },
{
    let mut out: Vec<u8> = Vec::new();
    match image::codecs::png::PngEncoder::new(&mut out).write_image(pixels, side, side, image::ColorType::L8) {
        Ok(()) => Ok(out),
        Err(e) => Err(e),
    }
}

/// Relies on `base64::engine::general_purpose::STANDARD.encode`: the
/// standard alphabet with `=` padding, four digits for each started group of
/// three bytes. It panics when that length overflows.
#[verifier::external_body]
fn base64_encode(bytes: &Vec<u8>) -> (r: String)
    requires
        bytes@.len() <= usize::MAX / 2,
    ensures
        r@ == base64_of(bytes@),
        r@.len() == (bytes@.len() + 2) / 3 * 4,
{
    base64::engine::general_purpose::STANDARD.encode(bytes)
}

/// The gray level of the pixel in column `x`, row `y` of the raster of a
/// grid `width` modules wide: black on a dark module, white on a light one.
pub open spec fn raster_pixel(width: nat, dark: Seq<bool>, x: int, y: int) -> u8 {
    if dark[(y / (SCALE as int)) * width + x / (SCALE as int)] {
        0
    } else {
        255
    }
}

/// The row-major raster of a grid, `SCALE` pixels per module side.
pub open spec fn raster_of(width: nat, dark: Seq<bool>) -> Seq<u8> {
    let side = (SCALE as int) * width;
    Seq::new((side * side) as nat, |p: int| raster_pixel(width, dark, p % side, p / side))
}

/// The text that leads a data URI of a PNG image in base64.
pub open spec fn data_uri_prefix() -> Seq<char> {
    seq!['d', 'a', 't', 'a', ':', 'i', 'm', 'a', 'g', 'e', '/', 'p', 'n', 'g', ';', 'b', 'a', 's', 'e', '6', '4', ',']
}

proof fn lemma_module_index(width: int, x: int, y: int)
    requires
        0 <= x < SCALE * width,
        0 <= y < SCALE * width,
    ensures
        0 <= x / (SCALE as int) < width,
        0 <= y / (SCALE as int) < width,
        0 <= (y / (SCALE as int)) * width + x / (SCALE as int) < width * width,
{
    let (mx, my) = (x / (SCALE as int), y / (SCALE as int));
    assert(0 <= my < width && 0 <= mx < width);
    assert(my * width + mx < width * width) by (nonlinear_arith)
        requires
            0 <= my < width,
            0 <= mx < width,
    ;
}

proof fn lemma_row_major(side: int, x: int, y: int)
    requires
        0 <= x < side,
        0 <= y < side,
    ensures
        0 <= y * side + x < side * side,
        (y * side + x) % side == x,
        (y * side + x) / side == y,
{
    assert(0 <= y * side + x < side * side) by (nonlinear_arith)
        requires
            0 <= x < side,
            0 <= y < side,
    ;
    vstd::arithmetic::div_mod::lemma_fundamental_div_mod_converse(y * side + x, side, y, x);
}

/// Scales a grid up to a grayscale raster, row-major, `SCALE` pixels per
/// module side: black for a dark module, white for a light one.
pub fn rasterize(grid: &QrGrid) -> (r: Vec<u8>)
    requires
        grid.dark@.len() == grid.width * grid.width,
        SCALE * grid.width * (SCALE * grid.width) <= usize::MAX,
    ensures
        r@ == raster_of(grid.width as nat, grid.dark@),
{
    let w = grid.width;
    assert(SCALE * w <= usize::MAX && w * w <= usize::MAX) by (nonlinear_arith)
        requires
            SCALE * w * (SCALE * w) <= usize::MAX,
            SCALE == 4,
    ;
    let side: usize = SCALE * w;
    let ghost total = side * side;
    let mut r: Vec<u8> = Vec::new();
    let mut y: usize = 0;
    while y < side
        invariant
            side == SCALE * w,
            w == grid.width,
            grid.dark@.len() == w * w,
            side * side <= usize::MAX,
            w * w <= usize::MAX,
            0 <= y <= side,
            r@.len() == y * side,
            forall|p: int| 0 <= p < r@.len() ==> #[trigger] r@[p] == raster_pixel(w as nat, grid.dark@, p % side as int, p / side as int),
        decreases side - y,
    {
        let mut x: usize = 0;
        while x < side
            invariant
                side == SCALE * w,
                w == grid.width,
                grid.dark@.len() == w * w,
                side * side <= usize::MAX,
            w * w <= usize::MAX,
                0 <= y < side,
                0 <= x <= side,
                r@.len() == y * side + x,
                forall|p: int| 0 <= p < r@.len() ==> #[trigger] r@[p] == raster_pixel(w as nat, grid.dark@, p % side as int, p / side as int),
            decreases side - x,
        {
            proof {
                lemma_module_index(w as int, x as int, y as int);
                lemma_row_major(side as int, x as int, y as int);
            }
            let m = (y / SCALE) * w + x / SCALE;
            let level: u8 = if grid.dark[m] { 0 } else { 255 };
            r.push(level);
            x = x + 1;
        }
        assert((y + 1) * side == y * side + side) by (nonlinear_arith);
        y = y + 1;
    }
    assert(r@ =~= raster_of(w as nat, grid.dark@));
    r
}

/// The data URI that carries a PNG image whose base64 text is `b64`.
pub fn png_data_uri(b64: &str) -> (r: String)
    ensures
        r@ == data_uri_prefix() + b64@,
{
    proof {
        reveal_strlit("data:image/png;base64,");
    }
    let mut r = String::from_str("data:image/png;base64,");
    r.append(b64);
    r
}

/// The data URI of the QR image of `text`, or `None` where no symbol holds
/// the text or the image cannot be encoded.
pub open spec fn qr_uri_of(text: Seq<char>) -> Option<Seq<char>> {
    match qr_symbol_of(text) {
        None => None,
        Some((w, d)) => match png_gray_of((SCALE * w) as nat, raster_of(w, d)) {
            None => None,
            Some(png) => if png.len() > usize::MAX / 2 {
                None
            } else {
                Some(data_uri_prefix() + base64_of(png))
            },
        },
    }
}

/// Encodes `text` as a QR code and returns it as a PNG data URI: the grid
/// rasterized at `SCALE` pixels per module, in 8-bit grayscale.
pub fn qr_data_uri(text: &str) -> (r: Result<String, ServerError>)
    ensures
        match qr_uri_of(text@) {
            None => r == Err::<String, ServerError>(ServerError::Encoding),
            Some(u) => r matches Ok(s) && s@ == u,
        },
{
    let grid = match qr_symbol(text) {
        Ok(g) => g,
        Err(_) => { return Err(ServerError::Encoding); },
    };
    assert(SCALE * grid.width * (SCALE * grid.width) <= 708 * 708) by (nonlinear_arith)
        requires
            grid.width <= 177,
    ;
    let pixels = rasterize(&grid);
    let side: u32 = (SCALE * grid.width) as u32;
    let png = match png_gray(&pixels, side) {
        Ok(b) => b,
        Err(_) => { return Err(ServerError::Encoding); },
    };
    if png.len() > usize::MAX / 2 {
        return Err(ServerError::Encoding);
    }
    let b64 = base64_encode(&png);
    Ok(png_data_uri(b64.as_str()))
}

} // verus!
