//! Pixel grids and the work that the `image` crate does on them: decoding,
//! orientation transforms, resampling, grayscale conversion and PNG encoding.

use vstd::prelude::*;
use crate::exif::Orientation;

verus! {

/// An 8-bit RGBA grid in row-major order, four bytes per pixel.
#[derive(Debug, Clone)]
pub struct RgbaGrid {
    pub width: u32,
    pub height: u32,
    pub pixels: Vec<u8>,
}

/// An 8-bit single-channel grid in row-major order.
#[derive(Debug, Clone)]
pub struct GrayGrid {
    pub width: u32,
    pub height: u32,
    pub pixels: Vec<u8>,
}

impl RgbaGrid {
    pub open spec fn wf(&self) -> bool {
        self.pixels@.len() == self.width * self.height * 4
    }

    /// Channel `c` of the pixel at `(x, y)`.
    pub open spec fn at(&self, x: int, y: int, c: int) -> u8 {
        self.pixels@[(y * self.width + x) * 4 + c]
    }
}

/// What a grayscale grid holds: its size and its values.
pub ghost struct GrayView {
    pub width: nat,
    pub height: nat,
    pub pixels: Seq<u8>,
}

impl GrayView {
    /// The value at `(x, y)`.
    pub open spec fn at(&self, x: int, y: int) -> u8 {
        self.pixels[y * self.width + x]
    }
}

impl View for GrayGrid {
    type V = GrayView;

    open spec fn view(&self) -> GrayView {
        GrayView { width: self.width as nat, height: self.height as nat, pixels: self.pixels@ }
    }
}

impl GrayGrid {
    pub open spec fn wf(&self) -> bool {
        self.pixels@.len() == self.width * self.height
    }

    /// The value at `(x, y)`.
    pub fn get(&self, x: u32, y: u32) -> (v: u8)
        requires
            self.wf(),
            x < self.width,
            y < self.height,
        ensures
            v == self@.at(x as int, y as int),
    {
        let n = self.pixels.len();
        proof {
            lemma_index_in_grid(x as int, y as int, self.width as int, self.height as int);
        }
        self.pixels[(y as usize) * (self.width as usize) + x as usize]
    }
}

/// A position inside a `width` x `height` grid has a row-major index inside it.
pub proof fn lemma_index_in_grid(x: int, y: int, width: int, height: int)
    requires
        0 <= x < width,
        0 <= y < height,
    ensures
        0 <= y * width + x < width * height,
        y * width + x + 1 <= width * height,
{
    assert(y * width + x < width * height) by (nonlinear_arith)
        requires
            0 <= x < width,
            0 <= y < height,
    ;
    assert(0 <= y * width) by (nonlinear_arith)
        requires
            0 <= y,
            0 <= width,
    ;
}

/// The sizes of an image after applying an orientation transform.
pub open spec fn oriented_size(width: u32, height: u32, o: Orientation) -> (u32, u32) {
    match o {
        Orientation::Rotate90FlipH | Orientation::Rotate90 | Orientation::Rotate270FlipH
        | Orientation::Rotate270 => (height, width),
        _ => (width, height),
    }
}

/// Luma of each RGBA pixel, as the `image` crate converts it.
pub uninterp spec fn luma_of(rgba: Seq<u8>) -> Seq<u8>;

/// Pixels of a grid resampled with the `image` crate's Lanczos-3 filter.
pub uninterp spec fn lanczos_resized(pixels: Seq<u8>, width: u32, height: u32, new_width: u32, new_height: u32) -> Seq<u8>;

/// Pixels of a grayscale grid resampled with the `image` crate's triangle filter.
pub uninterp spec fn triangle_resized(pixels: Seq<u8>, width: u32, height: u32, new_width: u32, new_height: u32) -> Seq<u8>;

/// A big-endian 32-bit value at `off`.
pub open spec fn be32(bytes: Seq<u8>, off: int) -> nat {
    16777216 * bytes[off] as nat + 65536 * bytes[off + 1] as nat + 256 * bytes[off + 2] as nat
        + bytes[off + 3] as nat
}

/// The width and height that a PNG stream declares in its IHDR chunk.
pub open spec fn png_declared_size(bytes: Seq<u8>) -> (nat, nat) {
    (be32(bytes, 16), be32(bytes, 20))
}

/// Whether the `image` crate decodes `bytes` (format detected from them).
pub uninterp spec fn decodable(bytes: Seq<u8>) -> bool;

/// Width and height of the image that the `image` crate decodes from `bytes`.
pub uninterp spec fn decoded_size(bytes: Seq<u8>) -> (u32, u32);

/// RGBA8 pixels of the image that the `image` crate decodes from `bytes`.
pub uninterp spec fn decoded_pixels(bytes: Seq<u8>) -> Seq<u8>;

/// Relies on `image::ImageReader::with_guessed_format` and `decode`: the
/// format is detected from the bytes, and a decoded image is converted to
/// RGBA8 with `DynamicImage::into_rgba8`, which keeps its size.
#[verifier::external_body]
pub(crate) fn decode_image(bytes: &[u8]) -> (r: Result<RgbaGrid, String>)
    ensures
        r is Ok <==> decodable(bytes@),
        r matches Ok(g) ==> g.wf() && (g.width, g.height) == decoded_size(bytes@),
        r matches Ok(g) ==> g.pixels@ == decoded_pixels(bytes@),
{
    let reader = image::ImageReader::new(std::io::Cursor::new(bytes)).with_guessed_format();
    let decoded = reader.map_err(|e| e.to_string())?.decode().map_err(|e| e.to_string())?;
    let img = decoded.into_rgba8();
    Ok(RgbaGrid { width: img.width(), height: img.height(), pixels: img.into_raw() })
}

/// Relies on `image::imageops::flip_horizontal`: each row mirrored.
#[verifier::external_body]
fn flip_horizontal(g: &RgbaGrid) -> (r: RgbaGrid)
    requires
        g.wf(),
    ensures
        r.wf(),
        r.width == g.width,
        r.height == g.height,
        forall|x: int, y: int, c: int|
            0 <= x < g.width && 0 <= y < g.height && 0 <= c < 4 ==> #[trigger] r.at(x, y, c) == g.at(
                g.width - 1 - x,
                y,
                c,
            ),
{
    let img = image::RgbaImage::from_raw(g.width, g.height, g.pixels.clone()).unwrap();
    let out = image::imageops::flip_horizontal(&img);
    RgbaGrid { width: out.width(), height: out.height(), pixels: out.into_raw() }
}

/// Relies on `image::imageops::flip_vertical`: the rows in reverse order.
#[verifier::external_body]
fn flip_vertical(g: &RgbaGrid) -> (r: RgbaGrid)
    requires
        g.wf(),
    ensures
        r.wf(),
        r.width == g.width,
        r.height == g.height,
        forall|x: int, y: int, c: int|
            0 <= x < g.width && 0 <= y < g.height && 0 <= c < 4 ==> #[trigger] r.at(x, y, c) == g.at(
                x,
                g.height - 1 - y,
                c,
            ),
{
    let img = image::RgbaImage::from_raw(g.width, g.height, g.pixels.clone()).unwrap();
    let out = image::imageops::flip_vertical(&img);
    RgbaGrid { width: out.width(), height: out.height(), pixels: out.into_raw() }
}

/// Relies on `image::imageops::rotate90`: a quarter turn clockwise.
#[verifier::external_body]
fn rotate90(g: &RgbaGrid) -> (r: RgbaGrid)
    requires
        g.wf(),
    ensures
        r.wf(),
        r.width == g.height,
        r.height == g.width,
        forall|x: int, y: int, c: int|
            0 <= x < g.height && 0 <= y < g.width && 0 <= c < 4 ==> #[trigger] r.at(x, y, c) == g.at(
                y,
                g.height - 1 - x,
                c,
            ),
{
    let img = image::RgbaImage::from_raw(g.width, g.height, g.pixels.clone()).unwrap();
    let out = image::imageops::rotate90(&img);
    RgbaGrid { width: out.width(), height: out.height(), pixels: out.into_raw() }
}

/// Relies on `image::imageops::rotate180`: a half turn.
#[verifier::external_body]
fn rotate180(g: &RgbaGrid) -> (r: RgbaGrid)
    requires
        g.wf(),
    ensures
        r.wf(),
        r.width == g.width,
        r.height == g.height,
        forall|x: int, y: int, c: int|
            0 <= x < g.width && 0 <= y < g.height && 0 <= c < 4 ==> #[trigger] r.at(x, y, c) == g.at(
                g.width - 1 - x,
                g.height - 1 - y,
                c,
            ),
{
    let img = image::RgbaImage::from_raw(g.width, g.height, g.pixels.clone()).unwrap();
    let out = image::imageops::rotate180(&img);
    RgbaGrid { width: out.width(), height: out.height(), pixels: out.into_raw() }
}

/// Relies on `image::imageops::rotate270`: a quarter turn counter-clockwise.
#[verifier::external_body]
fn rotate270(g: &RgbaGrid) -> (r: RgbaGrid)
    requires
        g.wf(),
    ensures
        r.wf(),
        r.width == g.height,
        r.height == g.width,
        forall|x: int, y: int, c: int|
            0 <= x < g.height && 0 <= y < g.width && 0 <= c < 4 ==> #[trigger] r.at(x, y, c) == g.at(
                g.width - 1 - y,
                x,
                c,
            ),
{
    let img = image::RgbaImage::from_raw(g.width, g.height, g.pixels.clone()).unwrap();
    let out = image::imageops::rotate270(&img);
    RgbaGrid { width: out.width(), height: out.height(), pixels: out.into_raw() }
}

/// The source pixel that lands at `(x, y)` when an image `w` wide and `h`
/// tall is turned upright according to `o`.
pub open spec fn upright_source(o: Orientation, w: int, h: int, x: int, y: int) -> (int, int) {
    match o {
        Orientation::Normal => (x, y),
        Orientation::FlipHorizontal => (w - 1 - x, y),
        Orientation::Rotate180 => (w - 1 - x, h - 1 - y),
        Orientation::FlipVertical => (x, h - 1 - y),
        Orientation::Rotate90FlipH => (y, x),
        Orientation::Rotate90 => (y, h - 1 - x),
        Orientation::Rotate270FlipH => (w - 1 - y, h - 1 - x),
        Orientation::Rotate270 => (w - 1 - y, x),
    }
}

/// The bytes of a grid `width` wide whose channel `c` at `(x, y)` is `f(x, y, c)`.
pub open spec fn bytes_by_pixel(width: int, height: int, f: spec_fn(int, int, int) -> u8) -> Seq<u8> {
    Seq::new((width * height * 4) as nat, |k: int| f((k / 4) % width, (k / 4) / width, k % 4))
}

/// A well-formed grid is the bytes of its pixels, row by row.
pub proof fn lemma_bytes_by_pixel(g: RgbaGrid, f: spec_fn(int, int, int) -> u8)
    requires
        g.wf(),
        forall|x: int, y: int, c: int|
            0 <= x < g.width && 0 <= y < g.height && 0 <= c < 4 ==> #[trigger] g.at(x, y, c) == f(x, y, c),
    ensures
        g.pixels@ == bytes_by_pixel(g.width as int, g.height as int, f),
{
    let w = g.width as int;
    let h = g.height as int;
    let m = bytes_by_pixel(w, h, f);
    assert forall|i: int| 0 <= i < g.pixels@.len() implies g.pixels@[i] == #[trigger] m[i] by {
        let k = i / 4;
        let c = i % 4;
        vstd::arithmetic::div_mod::lemma_fundamental_div_mod(i, 4);
        vstd::arithmetic::div_mod::lemma_fundamental_div_mod(k, w);
        let x = k % w;
        let y = k / w;
        assert(0 <= k < w * h) by (nonlinear_arith)
            requires
                k == i / 4,
                0 <= i < w * h * 4,
        ;
        vstd::arithmetic::div_mod::lemma_mod_pos_bound(k, w);
        assert(0 <= y < h) by (nonlinear_arith)
            requires
                0 <= k < w * h,
                k == w * y + x,
                0 <= x < w,
        ;
        assert(i == (y * w + x) * 4 + c) by (nonlinear_arith)
            requires
                i == 4 * k + c,
                k == w * y + x,
        ;
        assert(g.at(x, y, c) == f(x, y, c));
    }
    assert(g.pixels@ =~= m);
}

/// The bytes of an image `w` x `h` with bytes `pixels` once turned upright.
pub open spec fn upright_pixels(pixels: Seq<u8>, w: u32, h: u32, o: Orientation) -> Seq<u8> {
    let (ow, oh) = oriented_size(w, h, o);
    bytes_by_pixel(
        ow as int,
        oh as int,
        |x: int, y: int, c: int|
            {
                let (sx, sy) = upright_source(o, w as int, h as int, x, y);
                pixels[(sy * w + sx) * 4 + c]
            },
    )
}

/// Applies the transform that an EXIF orientation calls for, so that the
/// image displays upright. `Normal` leaves the image as it is.
pub fn normalize_orientation(img: RgbaGrid, orientation: Orientation) -> (r: RgbaGrid)
    requires
        img.wf(),
    ensures
        r.wf(),
        (r.width, r.height) == oriented_size(img.width, img.height, orientation),
        orientation == Orientation::Normal ==> r == img,
        r.pixels@ == upright_pixels(img.pixels@, img.width, img.height, orientation),
        forall|x: int, y: int, c: int|
            0 <= x < r.width && 0 <= y < r.height && 0 <= c < 4 ==> #[trigger] r.at(x, y, c) == img.at(
                upright_source(orientation, img.width as int, img.height as int, x, y).0,
                upright_source(orientation, img.width as int, img.height as int, x, y).1,
                c,
            ),
{
    let r = match orientation {
        Orientation::Normal => img,
        Orientation::FlipHorizontal => flip_horizontal(&img),
        Orientation::Rotate180 => rotate180(&img),
        Orientation::FlipVertical => flip_vertical(&img),
        Orientation::Rotate90FlipH => flip_horizontal(&rotate90(&img)),
        Orientation::Rotate90 => rotate90(&img),
        Orientation::Rotate270FlipH => flip_horizontal(&rotate270(&img)),
        Orientation::Rotate270 => rotate270(&img),
    };
    proof {
        let f = |x: int, y: int, c: int|
            {
                let (sx, sy) = upright_source(orientation, img.width as int, img.height as int, x, y);
                img.pixels@[(sy * img.width + sx) * 4 + c]
            };
        lemma_bytes_by_pixel(r, f);
    }
    r
}

/// Relies on `image::imageops::resize` with `FilterType::Lanczos3`: the
/// result has exactly the requested size.
#[verifier::external_body]
fn resize_lanczos(g: &RgbaGrid, new_width: u32, new_height: u32) -> (r: RgbaGrid)
    requires
        g.wf(),
    ensures
        r.wf(),
        r.width == new_width,
        r.height == new_height,
        r.pixels@ == lanczos_resized(g.pixels@, g.width, g.height, new_width, new_height),
{
    let img = image::RgbaImage::from_raw(g.width, g.height, g.pixels.clone()).unwrap();
    let out = image::imageops::resize(&img, new_width, new_height, image::imageops::FilterType::Lanczos3);
    RgbaGrid { width: out.width(), height: out.height(), pixels: out.into_raw() }
}

/// Scales an image to exactly `new_width` x `new_height`; an image that
/// already has that size is returned as it is.
pub fn scale_image(img: &RgbaGrid, new_width: u32, new_height: u32) -> (r: RgbaGrid)
    requires
        img.wf(),
        new_width > 0,
        new_height > 0,
    ensures
        r.wf(),
        r.width == new_width,
        r.height == new_height,
        img.width == new_width && img.height == new_height ==> r.pixels@ == img.pixels@,
        !(img.width == new_width && img.height == new_height) ==> r.pixels@ == lanczos_resized(
            img.pixels@,
            img.width,
            img.height,
            new_width,
            new_height,
        ),
{
    if img.width == new_width && img.height == new_height {
        return RgbaGrid { width: img.width, height: img.height, pixels: copy_bytes(&img.pixels) };
    }
    resize_lanczos(img, new_width, new_height)
}

/// A copy of `v`.
fn copy_bytes(v: &Vec<u8>) -> (r: Vec<u8>)
    ensures
        r@ == v@,
{
    let mut r: Vec<u8> = Vec::with_capacity(v.len());
    let mut i: usize = 0;
    while i < v.len()
        invariant
            i <= v@.len(),
            r@ == v@.subrange(0, i as int),
        decreases v@.len() - i,
    {
        r.push(v[i]);
        i = i + 1;
    }
    assert(r@ =~= v@);
    r
}

/// Relies on `image::DynamicImage::to_luma8`: one luma byte per pixel.
#[verifier::external_body]
pub(crate) fn to_gray(g: &RgbaGrid) -> (r: GrayGrid)
    requires
        g.wf(),
    ensures
        r.wf(),
        r.width == g.width,
        r.height == g.height,
        r.pixels@ == luma_of(g.pixels@),
        r@ == luma_view(*g),
{
    let img = image::RgbaImage::from_raw(g.width, g.height, g.pixels.clone()).unwrap();
    let out = image::DynamicImage::ImageRgba8(img).to_luma8();
    GrayGrid { width: out.width(), height: out.height(), pixels: out.into_raw() }
}

/// Relies on `image::imageops::resize` with `FilterType::Triangle` on a
/// grayscale image: the result has exactly the requested size.
#[verifier::external_body]
pub(crate) fn resize_gray_triangle(g: &GrayGrid, new_width: u32, new_height: u32) -> (r: GrayGrid)
    requires
        g.wf(),
    ensures
        r.wf(),
        r.width == new_width,
        r.height == new_height,
        r.pixels@ == triangle_resized(g.pixels@, g.width, g.height, new_width, new_height),
{
    let img = image::GrayImage::from_raw(g.width, g.height, g.pixels.clone()).unwrap();
    let out = image::imageops::resize(&img, new_width, new_height, image::imageops::FilterType::Triangle);
    GrayGrid { width: out.width(), height: out.height(), pixels: out.into_raw() }
}

/// The PNG stream that the `image` crate writes for an RGBA8 canvas.
pub uninterp spec fn png_encoding(pixels: Seq<u8>, width: u32, height: u32) -> Seq<u8>;

/// Relies on `image::codecs::png::PngEncoder::write_image` (through the
/// `png` crate's `Writer::encode_header`): the stream starts with the PNG
/// signature and an IHDR chunk that holds the width and the height; a zero
/// width or height is refused, and otherwise writing into a `Vec` succeeds.
#[verifier::external_body]
pub(crate) fn encode_png(g: &RgbaGrid) -> (r: Result<Vec<u8>, String>)
    requires
        g.wf(),
    ensures
        r matches Ok(bytes) ==> bytes@.len() >= 24 && png_declared_size(bytes@) == (g.width as nat, g.height as nat),
        r matches Ok(bytes) ==> bytes@ == png_encoding(g.pixels@, g.width, g.height),
        r matches Ok(_) ==> g.width > 0 && g.height > 0,
        g.width > 0 && g.height > 0 ==> r is Ok,
{
    let mut out: Vec<u8> = Vec::new();
    let encoder = image::codecs::png::PngEncoder::new(&mut out);
    image::ImageEncoder::write_image(encoder, &g.pixels, g.width, g.height, image::ExtendedColorType::Rgba8)
        .map_err(|e| e.to_string())?;
    Ok(out)
}

/// The window of `g` at `(x, y)` of size `w` x `h`.
pub open spec fn is_window(r: GrayView, g: GrayView, x: int, y: int, w: nat, h: nat) -> bool {
    &&& r.width == w
    &&& r.height == h
    &&& forall|i: int, j: int| 0 <= i < w && 0 <= j < h ==> #[trigger] r.at(i, j) == g.at(x + i, y + j)
}

proof fn lemma_mul_succ(j: int, w: int)
    requires
        0 <= j,
        0 <= w,
    ensures
        (j + 1) * w == j * w + w,
        0 <= j * w,
{
    assert((j + 1) * w == j * w + w) by (nonlinear_arith);
    assert(0 <= j * w) by (nonlinear_arith)
        requires
            0 <= j,
            0 <= w,
    ;
}

proof fn lemma_row_major_step(i: int, j: int, w: int)
    requires
        0 <= i < w,
        0 <= j,
    ensures
        j * w + i < (j + 1) * w,
        (j + 1) * w == j * w + w,
        0 <= j * w,
{
    assert((j + 1) * w == j * w + w) by (nonlinear_arith);
    assert(0 <= j * w) by (nonlinear_arith)
        requires
            0 <= j,
            0 <= w,
    ;
}

/// The `w` x `h` window of `g` whose top-left corner is `(x, y)`.
pub open spec fn window(g: GrayView, x: int, y: int, w: nat, h: nat) -> GrayView {
    GrayView {
        width: w,
        height: h,
        pixels: Seq::new(w * h, |k: int| g.at(x + k % (w as int), y + k / (w as int))),
    }
}

/// The grayscale view of an RGBA grid, as the `image` crate converts it.
pub open spec fn luma_view(img: RgbaGrid) -> GrayView {
    GrayView { width: img.width as nat, height: img.height as nat, pixels: luma_of(img.pixels@) }
}

proof fn lemma_window_exact(r: GrayGrid, g: GrayView, x: int, y: int, w: nat, h: nat)
    requires
        r.wf(),
        is_window(r@, g, x, y, w, h),
    ensures
        r@ == window(g, x, y, w, h),
{
    let win = window(g, x, y, w, h);
    assert forall|k: int| 0 <= k < r.pixels@.len() implies r.pixels@[k] == #[trigger] win.pixels[k] by {
        let wi = w as int;
        assert(wi > 0) by (nonlinear_arith)
            requires
                0 <= k < wi * (h as int),
                h >= 0,
        ;
        vstd::arithmetic::div_mod::lemma_fundamental_div_mod(k, wi);
        vstd::arithmetic::div_mod::lemma_mod_pos_bound(k, wi);
        let i = k % wi;
        let j = k / wi;
        assert(0 <= j < h) by (nonlinear_arith)
            requires
                0 <= k < wi * (h as int),
                k == wi * j + i,
                0 <= i < wi,
        ;
        assert(r@.at(i, j) == g.at(x + i, y + j));
        assert(j * wi + i == k) by (nonlinear_arith)
            requires
                k == wi * j + i,
        ;
    }
    assert(r@.pixels =~= win.pixels);
}

/// Copies the `w` x `h` window of `g` whose top-left corner is `(x, y)`.
pub fn crop_gray(g: &GrayGrid, x: u32, y: u32, w: u32, h: u32) -> (r: GrayGrid)
    requires
        g.wf(),
        x + w <= g.width,
        y + h <= g.height,
    ensures
        r.wf(),
        is_window(r@, g@, x as int, y as int, w as nat, h as nat),
        r@ == window(g@, x as int, y as int, w as nat, h as nat),
{
    let mut pixels: Vec<u8> = Vec::new();
    let mut j: u32 = 0;
    while j < h
        invariant
            g.wf(),
            x + w <= g.width,
            y + h <= g.height,
            j <= h,
            pixels@.len() == j * w,
            forall|ii: int, jj: int|
                0 <= ii < w && 0 <= jj < j ==> #[trigger] pixels@[jj * w + ii] == g@.at(x + ii, y + jj),
        decreases h - j,
    {
        let mut i: u32 = 0;
        let ghost start = pixels@.len();
        proof {
            lemma_mul_succ(j as int, w as int);
        }
        while i < w
            invariant
                g.wf(),
                x + w <= g.width,
                y + h <= g.height,
                j < h,
                i <= w,
                start == j * w,
                pixels@.len() == start + i,
                forall|ii: int, jj: int|
                    0 <= ii < w && 0 <= jj < j ==> #[trigger] pixels@[jj * w + ii] == g@.at(x + ii, y + jj),
                forall|ii: int| 0 <= ii < i ==> #[trigger] pixels@[start + ii] == g@.at(x + ii, y + j),
            decreases w - i,
        {
            let v = g.get(x + i, y + j);
            proof {
                assert forall|ii: int, jj: int| 0 <= ii < w && 0 <= jj < j implies #[trigger] pixels@.push(v)[jj * w + ii]
                    == g@.at(x + ii, y + jj) by {
                    lemma_row_major_step(ii, jj, w as int);
                    assert(jj + 1 <= j);
                    assert((jj + 1) * w <= j * w) by (nonlinear_arith)
                        requires
                            jj + 1 <= j,
                            0 <= w,
                    ;
                }
            }
            pixels.push(v);
            i = i + 1;
        }
        proof {
            assert forall|ii: int, jj: int| 0 <= ii < w && 0 <= jj < j + 1 implies #[trigger] pixels@[jj * w + ii]
                == g@.at(x + ii, y + jj) by {
                if jj == j {
                    assert(pixels@[start + ii] == g@.at(x + ii, y + j));
                }
            }
            lemma_mul_succ(j as int, w as int);
        }
        j = j + 1;
    }
    assert(h * w == w * h) by (nonlinear_arith);
    let r = GrayGrid { width: w, height: h, pixels };
    proof {
        assert forall|i: int, jj: int| 0 <= i < w && 0 <= jj < h implies #[trigger] r@.at(i, jj) == g@.at(x + i, y + jj) by {
            assert(r@.at(i, jj) == pixels@[jj * w + i]);
        }
        lemma_window_exact(r, g@, x as int, y as int, w as nat, h as nat);
    }
    r
}

} // verus!
