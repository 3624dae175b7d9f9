//! Pictures as rows of pixels, four bytes each: red, green, blue and opacity.

use vstd::arithmetic::div_mod::lemma_fundamental_div_mod_converse;
use vstd::prelude::*;

use crate::favicon::opt_bytes;

verus! {

/// A picture.
#[derive(Debug)]
pub struct Raster {
    pub width: u32,
    pub height: u32,
    pub rgba: Vec<u8>,
}

impl Raster {
    /// Whether there are as many bytes as the size asks for.
    pub open spec fn wf(&self) -> bool {
        self.rgba@.len() == self.width * self.height * 4
    }

    /// The size and the bytes.
    pub open spec fn parts(&self) -> (u32, u32, Seq<u8>) {
        (self.width, self.height, self.rgba@)
    }
}

/// The size and the bytes of a picture, if there is one.
pub open spec fn opt_parts(r: Option<Raster>) -> Option<(u32, u32, Seq<u8>)> {
    match r {
        Some(r) => Some(r.parts()),
        None => None,
    }
}

/// How a picture is brought to another size.
#[derive(Debug, Clone, Copy, PartialEq, Eq, Structural)]
pub enum Filter {
    Triangle,
    Lanczos,
}

// ---------------------------------------------------------------------------------------------
// Reading, resizing and writing
// ---------------------------------------------------------------------------------------------

/// The size and the bytes of the picture in a file.
pub uninterp spec fn decoded(file: Seq<u8>) -> Option<(u32, u32, Seq<u8>)>;

/// The bytes of a picture brought to another size with the triangle filter.
pub uninterp spec fn triangle_resized(
    width: u32,
    height: u32,
    rgba: Seq<u8>,
    new_width: u32,
    new_height: u32,
) -> Seq<u8>;

/// Whether `out` are the bytes of a picture brought to another size with the Lanczos filter. The
/// filter goes through the machine's sine, so that machines may differ in which they are.
pub uninterp spec fn lanczos_resized_to(
    width: u32,
    height: u32,
    rgba: Seq<u8>,
    new_width: u32,
    new_height: u32,
    out: Seq<u8>,
) -> bool;

/// The PNG file of a picture.
pub uninterp spec fn png_file(width: u32, height: u32, rgba: Seq<u8>) -> Option<Seq<u8>>;

/// `image::load_from_memory` reads a picture file of a known format, and `to_rgba8` gives its
/// pixels. There are none where the bytes are no such file.
#[verifier::external_body]
pub(crate) fn decode(file: &Vec<u8>) -> (r: Option<Raster>)
    ensures
        opt_parts(r) == decoded(file@),
        r is Some ==> r->0.wf(),
{
    let rgba = image::load_from_memory(file).ok()?.to_rgba8();
    let (width, height) = rgba.dimensions();
    Some(Raster { width, height, rgba: rgba.into_raw() })
}

/// The picture in a file, as it is.
pub fn picture_in_file(file: &Vec<u8>) -> (r: Option<Raster>)
    ensures
        opt_parts(r) == decoded(file@),
        r is Some ==> r->0.wf(),
{
    decode(file)
}

/// `image::imageops::resize` brings a picture to another size; one that has the size already is
/// copied. Of the Lanczos filter, which goes through the machine's sine, it is said that the bytes
/// are what it makes of this picture and this size, not that every machine makes the same.
#[verifier::external_body]
pub(crate) fn resize(r: Raster, width: u32, height: u32, filter: Filter) -> (out: Raster)
    requires
        r.wf(),
        width <= 0x4000 && height <= 0x4000,
    ensures
        out.wf(),
        out.width == width && out.height == height,
        (r.width == width && r.height == height) ==> out.rgba@ == r.rgba@,
        filter == Filter::Triangle ==> out.rgba@ == triangle_resized(
            r.width,
            r.height,
            r.rgba@,
            width,
            height,
        ),
        filter == Filter::Lanczos ==> lanczos_resized_to(
            r.width,
            r.height,
            r.rgba@,
            width,
            height,
            out.rgba@,
        ),
{
    let img = image::RgbaImage::from_raw(r.width, r.height, r.rgba).unwrap_or_default();
    let kind = match filter {
        Filter::Triangle => image::imageops::FilterType::Triangle,
        Filter::Lanczos => image::imageops::FilterType::Lanczos3,
    };
    Raster { width, height, rgba: image::imageops::resize(&img, width, height, kind).into_raw() }
}

/// `ImageBuffer::write_to` makes a PNG file of a picture.
#[verifier::external_body]
pub(crate) fn encode_png(r: &Raster) -> (file: Option<Vec<u8>>)
    requires
        r.wf(),
    ensures
        opt_bytes(file) == png_file(r.width, r.height, r.rgba@),
{
    let img = image::RgbaImage::from_raw(r.width, r.height, r.rgba.clone())?;
    let mut cursor = std::io::Cursor::new(Vec::new());
    img.write_to(&mut cursor, image::ImageFormat::Png).ok()?;
    Some(cursor.into_inner())
}

// ---------------------------------------------------------------------------------------------
// Cropping
// ---------------------------------------------------------------------------------------------

/// Which byte of a picture stands at byte `i` of the part that begins at `x`, `y` and has rows
/// of `w` pixels.
pub open spec fn source_byte(width: int, x: int, y: int, w: int, i: int) -> int {
    ((y + (i / 4) / w) * width + x + (i / 4) % w) * 4 + i % 4
}

/// The bytes of the part of a picture that begins at `x`, `y` and is `w` wide and `h` high.
pub open spec fn part_bytes(rgba: Seq<u8>, width: int, x: int, y: int, w: int, h: int) -> Seq<u8> {
    Seq::new((w * h * 4) as nat, |i: int| rgba[source_byte(width, x, y, w, i)])
}

proof fn source_of_pixel(width: int, x: int, y: int, w: int, row: int, col: int, j: int)
    requires
        0 <= col < w,
        0 <= row,
        0 <= j < 4,
    ensures
        source_byte(width, x, y, w, (row * w + col) * 4 + j) == ((y + row) * width + x + col) * 4
            + j,
{
    let p = row * w + col;
    let i = p * 4 + j;
    assert(i / 4 == p && i % 4 == j);
    lemma_fundamental_div_mod_converse(p, w, row, col);
}

proof fn pixel_in_bounds(width: int, height: int, px: int, py: int)
    requires
        0 <= px < width,
        0 <= py < height,
    ensures
        0 <= (py * width + px) * 4,
        (py * width + px) * 4 + 3 < width * height * 4,
{
    assert(py * width + px + 1 <= width * height) by (nonlinear_arith)
        requires
            0 <= px < width,
            0 <= py < height,
    ;
    assert(0 <= py * width) by (nonlinear_arith)
        requires
            0 <= py,
            0 <= width,
    ;
}

/// The part of the picture that begins at `x`, `y` and is `w` wide and `h` high.
fn crop(r: &Raster, x: u32, y: u32, w: u32, h: u32) -> (out: Raster)
    requires
        r.wf(),
        x + w <= r.width,
        y + h <= r.height,
    ensures
        out.parts() == (
            w,
            h,
            part_bytes(r.rgba@, r.width as int, x as int, y as int, w as int, h as int),
        ),
        out.wf(),
{
    let ghost all = part_bytes(
        r.rgba@,
        r.width as int,
        x as int,
        y as int,
        w as int,
        h as int,
    );
    let ghost wi = w as int;
    let ghost hi = h as int;
    assert(0 <= wi * hi) by (nonlinear_arith)
        requires
            0 <= wi,
            0 <= hi,
    ;
    let mut out: Vec<u8> = Vec::new();
    let mut row: u32 = 0;
    assert(out@ =~= all.take(0));
    assert(0 * wi * 4 == 0);
    while row < h
        invariant
            row <= h,
            wi == w,
            hi == h,
            r.wf(),
            x + w <= r.width,
            y + h <= r.height,
            all == part_bytes(
                r.rgba@,
                r.width as int,
                x as int,
                y as int,
                w as int,
                h as int,
            ),
            0 <= wi * hi,
            row * wi * 4 <= all.len(),
            out@ == all.take(row * wi * 4),
        decreases h - row,
    {
        let mut col: u32 = 0;
        let ghost rowi = row as int;
        assert((rowi + 1) * wi <= hi * wi) by (nonlinear_arith)
            requires
                0 <= rowi < hi,
                0 <= wi,
        ;
        assert((rowi + 1) * wi == rowi * wi + wi) by (nonlinear_arith);
        assert(hi * wi == wi * hi) by (nonlinear_arith);
        assert(0 <= rowi * wi) by (nonlinear_arith)
            requires
                0 <= rowi,
                0 <= wi,
        ;
        while col < w
            invariant
                col <= w,
                row < h,
                wi == w,
                hi == h,
                rowi == row,
                r.wf(),
                x + w <= r.width,
                y + h <= r.height,
                all == part_bytes(
                    r.rgba@,
                    r.width as int,
                    x as int,
                    y as int,
                    w as int,
                    h as int,
                ),
                0 <= rowi * wi,
                rowi * wi + wi <= wi * hi,
                all.len() == wi * hi * 4,
                out@ == all.take((rowi * wi + col) * 4),
            decreases w - col,
        {
            let ghost px = x + col;
            let ghost py = y + row;
            let ghost at = (py * r.width + px) * 4;
            let ghost k = (rowi * wi + col) * 4;
            proof {
                pixel_in_bounds(r.width as int, r.height as int, px, py);
                source_of_pixel(r.width as int, x as int, y as int, wi, rowi, col as int, 0);
                source_of_pixel(r.width as int, x as int, y as int, wi, rowi, col as int, 1);
                source_of_pixel(r.width as int, x as int, y as int, wi, rowi, col as int, 2);
                source_of_pixel(r.width as int, x as int, y as int, wi, rowi, col as int, 3);
                assert(py * r.width <= py * r.width + px);
                assert((y + row) * r.width + x + col == py * r.width + px);
            }
            let base: usize = start_of_pixel(r, x + col, y + row);
            out.push(r.rgba[base]);
            out.push(r.rgba[base + 1]);
            out.push(r.rgba[base + 2]);
            out.push(r.rgba[base + 3]);
            col = col + 1;
            assert(out@ =~= all.take((rowi * wi + col) * 4));
        }
        row = row + 1;
        assert(row * wi * 4 == (rowi * wi + wi) * 4);
    }
    assert(row * wi == wi * hi) by (nonlinear_arith)
        requires
            row == hi,
    ;
    assert(all.take(row * wi * 4) =~= all);
    Raster { width: w, height: h, rgba: out }
}

fn start_of_pixel(r: &Raster, px: u32, py: u32) -> (base: usize)
    requires
        r.wf(),
        px < r.width,
        py < r.height,
    ensures
        base == (py * r.width + px) * 4,
        base + 3 < r.rgba@.len(),
{
    proof {
        pixel_in_bounds(r.width as int, r.height as int, px as int, py as int);
        let a = py as int;
        let b = r.width as int;
        assert(0 <= a * b) by (nonlinear_arith)
            requires
                0 <= a,
                0 <= b,
        ;
    }
    let n = r.rgba.len();
    assert((py * r.width + px) * 4 + 3 < n);
    (py as usize * r.width as usize + px as usize) * 4
}

/// The side of the square in the middle of a picture, and where it begins.
pub open spec fn middle_square(width: int, height: int) -> (int, int, int) {
    let side = crate::numbers::larger(crate::numbers::smaller(width, height), 1);
    let x = if width > side {
        (width - side) / 2
    } else {
        0
    };
    let y = if height > side {
        (height - side) / 2
    } else {
        0
    };
    (x, y, side)
}

/// The square in the middle of a picture: its size and its bytes. An empty picture has none.
pub open spec fn square_part(width: u32, height: u32, rgba: Seq<u8>) -> (u32, u32, Seq<u8>) {
    let (x, y, side) = middle_square(width as int, height as int);
    let w = crate::numbers::smaller(side, width - x);
    let h = crate::numbers::smaller(side, height - y);
    (w as u32, h as u32, part_bytes(rgba, width as int, x, y, w, h))
}

/// The square in the middle of the picture.
pub fn crop_square_rgba(r: &Raster) -> (out: Raster)
    requires
        r.wf(),
    ensures
        out.parts() == square_part(r.width, r.height, r.rgba@),
        out.wf(),
{
    let shorter = if r.width < r.height {
        r.width
    } else {
        r.height
    };
    let side: u32 = if shorter < 1 {
        1
    } else {
        shorter
    };
    let x: u32 = r.width.saturating_sub(side) / 2;
    let y: u32 = r.height.saturating_sub(side) / 2;
    let w = if side < r.width - x {
        side
    } else {
        r.width - x
    };
    let h = if side < r.height - y {
        side
    } else {
        r.height - y
    };
    crop(r, x, y, w, h)
}

/// The square in the middle of a picture that is not empty is a square, as large as the picture
/// allows.
pub proof fn middle_square_is_square(width: u32, height: u32, rgba: Seq<u8>)
    requires
        width > 0,
        height > 0,
    ensures
        ({
            let (w, h, bytes) = square_part(width, height, rgba);
            &&& w == h
            &&& w == crate::numbers::smaller(width as int, height as int)
        }),
{
}

// ---------------------------------------------------------------------------------------------
// Pictures that are kept
// ---------------------------------------------------------------------------------------------

/// Why no picture was made.
#[derive(Debug, Clone, Copy, PartialEq, Eq, Structural)]
pub enum PictureError {
    /// The file holds no picture of a known format.
    Unreadable,
    /// No file can be made of the picture.
    Unwritable,
}

/// Whether `png` is the file of the square in the middle of a picture, brought to the side, if
/// one can be made.
pub open spec fn is_square_png(
    png: Option<Seq<u8>>,
    width: u32,
    height: u32,
    rgba: Seq<u8>,
    side: u32,
) -> bool {
    let (w, h, bytes) = square_part(width, height, rgba);
    exists|pixels: Seq<u8>|
        {
            &&& #[trigger] png_file(side, side, pixels) == png
            &&& pixels.len() == side * side * 4
            &&& w == side && h == side ==> pixels == bytes
            &&& lanczos_resized_to(w, h, bytes, side, side, pixels)
        }
}

/// A square PNG file of the given side, made of the middle of the picture in a file.
pub fn square_png(file: &Vec<u8>, side: u32) -> (r: Result<Vec<u8>, PictureError>)
    requires
        side <= 0x4000,
    ensures
        match decoded(file@) {
            None => r == Err::<Vec<u8>, _>(PictureError::Unreadable),
            Some((width, height, rgba)) => match r {
                Ok(png) => is_square_png(Some(png@), width, height, rgba, side),
                Err(e) => e == PictureError::Unwritable && is_square_png(
                    None,
                    width,
                    height,
                    rgba,
                    side,
                ),
            },
        },
{
    match decode(file) {
        None => Err(PictureError::Unreadable),
        Some(picture) => {
            let square = crop_square_rgba(&picture);
            let resized = resize(square, side, side, Filter::Lanczos);
            let png = encode_png(&resized);
            assert(png_file(side, side, resized.rgba@) == opt_bytes(png));
            match png {
                Some(png) => Ok(png),
                None => Err(PictureError::Unwritable),
            }
        },
    }
}

/// The side of the background picture.
pub const BACKGROUND_SIDE: u32 = 1024;

/// The side of an icon that the user chose.
pub const CUSTOM_ICON_SIDE: u32 = 256;

/// The side of the icon in the tray.
pub const TRAY_SIDE: u32 = 64;

/// The icon for the tray, made of the picture in a file; one of the right size stays as it is.
pub fn tray_raster(file: &Vec<u8>) -> (r: Option<Raster>)
    ensures
        r is Some <==> decoded(file@) is Some,
        r matches Some(icon) ==> {
            let (w, h, bytes) = decoded(file@)->0;
            &&& icon.width == TRAY_SIDE && icon.height == TRAY_SIDE
            &&& icon.wf()
            &&& w == TRAY_SIDE && h == TRAY_SIDE ==> icon.rgba@ == bytes
            &&& !(w == TRAY_SIDE && h == TRAY_SIDE) ==> lanczos_resized_to(
                w,
                h,
                bytes,
                TRAY_SIDE,
                TRAY_SIDE,
                icon.rgba@,
            )
        },
{
    match decode(file) {
        None => None,
        Some(picture) => if picture.width == TRAY_SIDE && picture.height == TRAY_SIDE {
            Some(picture)
        } else {
            Some(resize(picture, TRAY_SIDE, TRAY_SIDE, Filter::Lanczos))
        },
    }
}

/// Whether the pixel is of the blue that stands for a missing icon.
pub open spec fn is_blue(rgba: Seq<u8>, p: int) -> bool {
    rgba.subrange(p * 4, p * 4 + 4) == seq![70u8, 125u8, 195u8, 255u8]
}

/// The icon for the tray where no picture can be read: plain blue.
pub fn fallback_blue_tray_icon() -> (r: Raster)
    ensures
        r.wf(),
        r.width == TRAY_SIDE && r.height == TRAY_SIDE,
        forall|p: int| 0 <= p < TRAY_SIDE * TRAY_SIDE ==> #[trigger] is_blue(r.rgba@, p),
{
    let mut rgba: Vec<u8> = Vec::new();
    let mut i: u32 = 0;
    while i < 4096
        invariant
            i <= 4096,
            rgba@.len() == i * 4,
            forall|p: int| 0 <= p < i ==> #[trigger] is_blue(rgba@, p),
        decreases 4096 - i,
    {
        let ghost before = rgba@;
        rgba.push(70);
        rgba.push(125);
        rgba.push(195);
        rgba.push(255);
        assert forall|p: int| 0 <= p < i + 1 implies #[trigger] is_blue(rgba@, p) by {
            if p < i {
                assert(is_blue(before, p));
                assert(rgba@.subrange(p * 4, p * 4 + 4) =~= before.subrange(p * 4, p * 4 + 4));
            } else {
                assert(rgba@.subrange(p * 4, p * 4 + 4) =~= seq![70u8, 125u8, 195u8, 255u8]);
            }
        }
        i = i + 1;
    }
    Raster { width: TRAY_SIDE, height: TRAY_SIDE, rgba }
}

// ---------------------------------------------------------------------------------------------
// Pictures that the system gives
// ---------------------------------------------------------------------------------------------

/// Byte `i` of a picture that is given with blue first, once red is first.
pub open spec fn red_first(bgra: Seq<u8>, i: int) -> u8 {
    if i / 4 * 4 + 4 > bgra.len() {
        bgra[i]
    } else if i % 4 == 0 {
        bgra[i + 2]
    } else if i % 4 == 2 {
        bgra[i - 2]
    } else {
        bgra[i]
    }
}

/// The opacity of a pixel.
pub open spec fn opacity(bgra: Seq<u8>, p: int) -> u8 {
    bgra[p * 4 + 3]
}

/// Whether no pixel of the first `n` bytes has any opacity.
pub open spec fn clear_up_to(bgra: Seq<u8>, n: int) -> bool {
    forall|p: int| 0 <= p && p * 4 + 4 <= n ==> #[trigger] opacity(bgra, p) == 0
}

/// Whether no whole pixel has any opacity.
pub open spec fn all_clear(bgra: Seq<u8>) -> bool {
    clear_up_to(bgra, bgra.len() as int)
}

/// Whether the pixel is not black.
pub open spec fn coloured(bgra: Seq<u8>, p: int) -> bool {
    bgra[p * 4] != 0 || bgra[p * 4 + 1] != 0 || bgra[p * 4 + 2] != 0
}

/// Byte `i` of the picture: red first, and where the picture has no opacity at all, as in old
/// formats, the pixels that are not black made opaque.
pub open spec fn repaired_byte(bgra: Seq<u8>, i: int) -> u8 {
    if i % 4 == 3 && all_clear(bgra) && coloured(bgra, i / 4) {
        255
    } else {
        red_first(bgra, i)
    }
}

/// The picture with red first, and opacity where it has none at all. What is less than a pixel
/// at the end stays as it is.
pub fn bgra_to_rgba(bgra: &Vec<u8>) -> (r: Vec<u8>)
    ensures
        r@.len() == bgra@.len(),
        forall|i: int| 0 <= i < r@.len() ==> #[trigger] r@[i] == repaired_byte(bgra@, i),
{
    let n = bgra.len();
    let mut clear = true;
    let mut k: usize = 0;
    while n - k >= 4
        invariant
            k <= n,
            k % 4 == 0,
            n == bgra@.len(),
            clear == clear_up_to(bgra@, k as int),
        decreases n - k,
    {
        let ghost q = k as int / 4;
        assert(q * 4 == k);
        assert(opacity(bgra@, q) == bgra@[k + 3]);
        if bgra[k + 3] != 0 {
            clear = false;
        }
        k = k + 4;
    }
    assert(clear == all_clear(bgra@));
    let mut r: Vec<u8> = Vec::new();
    k = 0;
    while n - k >= 4
        invariant
            k <= n,
            k % 4 == 0,
            n == bgra@.len(),
            r@.len() == k,
            clear == all_clear(bgra@),
            forall|i: int| 0 <= i < k ==> #[trigger] r@[i] == repaired_byte(bgra@, i),
        decreases n - k,
    {
        let b = bgra[k];
        let g = bgra[k + 1];
        let red = bgra[k + 2];
        let a = bgra[k + 3];
        let ghost q = k as int / 4;
        assert(q * 4 == k);
        r.push(red);
        r.push(g);
        r.push(b);
        if clear && (b != 0 || g != 0 || red != 0) {
            r.push(255);
        } else {
            r.push(a);
        }
        assert forall|i: int| 0 <= i < k + 4 implies #[trigger] r@[i] == repaired_byte(
            bgra@,
            i,
        ) by {
            if k <= i {
                assert(i / 4 == q);
            }
        }
        k = k + 4;
    }
    while k < n
        invariant
            k <= n,
            n == bgra@.len(),
            r@.len() == k,
            n / 4 * 4 <= k,
            forall|i: int| 0 <= i < k ==> #[trigger] r@[i] == repaired_byte(bgra@, i),
        decreases n - k,
    {
        assert(k as int / 4 * 4 + 4 > n);
        assert(k % 4 != 3);
        r.push(bgra[k]);
        k = k + 1;
    }
    r
}

/// How many bytes the pixels of a bitmap take; none where it is empty.
pub fn bitmap_bytes(width: i32, height: i32) -> (r: Option<usize>)
    requires
        width > 0 && height > 0 ==> width * height <= i32::MAX && width * height * 4 <= usize::MAX,
    ensures
        r == (if width <= 0 || height <= 0 {
            None
        } else {
            Some((width * height * 4) as usize)
        }),
{
    if width <= 0 || height <= 0 {
        return None;
    }
    assert(0 <= width * height) by (nonlinear_arith)
        requires
            width > 0,
            height > 0,
    ;
    let pixels = (width * height) as usize;
    Some(pixels * 4)
}

} // verus!
