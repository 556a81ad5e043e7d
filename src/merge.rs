//! The merge pipeline: decoding, orientation, planning and scaling
//! (`prepare_merge`), then compositing onto the canvas and PNG encoding
//! (`compose_merge`). Smart merges find the overlap of each adjacent pair in
//! between, through `pair_overlap_search` and `accept_match`.

use vstd::prelude::*;
use crate::chrome::{ChromeTrim, MIN_CONTENT_PX, chrome_trim_at, compute_chrome_trims};
use crate::dimension::{
    compute_output_size, compute_scaled_dimensions, compute_target_dimension, lemma_single_image_size, output_size,
    scaled_all, target_dimension,
};
use crate::error::MergeError;
use crate::exif::{extract_orientation, orientation_in};
use crate::grid::{
    RgbaGrid, decodable, decode_image, decoded_size, encode_png, lemma_index_in_grid, normalize_orientation,
    oriented_size, png_declared_size, png_encoding, scale_image, decoded_pixels, upright_pixels, lanczos_resized,
};
use crate::overlap::{MIN_OVERLAP_PIXELS, OverlapSearch, is_search_of, overlap_search, trimmed_gray, trimmed_view};
use crate::types::{BackgroundColor, Direction, MergeOptions};

verus! {

/// One channel of `fg` over `bg` at opacity `alpha` / 255, rounded half up.
pub open spec fn blend_channel(fg: u8, bg: u8, alpha: u8) -> u8 {
    ((2 * (fg as nat * alpha as nat + bg as nat * (255 - alpha as nat)) + 255) / 510) as u8
}

/// An RGBA pixel over the background: opaque pixels stay, fully transparent
/// ones become the background, others blend their color and take the
/// background's alpha.
pub open spec fn blended(p: Seq<u8>, bg: BackgroundColor) -> Seq<u8> {
    if p[3] == 255 {
        p
    } else if p[3] == 0 {
        seq![bg.r, bg.g, bg.b, bg.a]
    } else {
        seq![blend_channel(p[0], bg.r, p[3]), blend_channel(p[1], bg.g, p[3]), blend_channel(p[2], bg.b, p[3]), bg.a]
    }
}

fn blend_one(fg: u8, bg: u8, alpha: u8) -> (r: u8)
    ensures
        r == blend_channel(fg, bg, alpha),
{
    let f = fg as u32;
    let b = bg as u32;
    let a = alpha as u32;
    assert(f * a + b * (255 - a) <= 255 * 255) by (nonlinear_arith)
        requires
            f <= 255,
            b <= 255,
            a <= 255,
    ;
    assert(f * a <= 255 * 255) by (nonlinear_arith)
        requires
            f <= 255,
            a <= 255,
    ;
    let num: u32 = 2 * (f * a + b * (255 - a)) + 255;
    (num / 510) as u8
}

/// Blends a pixel with the background color according to its alpha.
pub fn blend_with_background(pixel: [u8; 4], background: &BackgroundColor) -> (r: [u8; 4])
    ensures
        r@ == blended(pixel@, *background),
        pixel[3] == 0 ==> r@ == seq![background.r, background.g, background.b, background.a],
        pixel[3] == 255 ==> r == pixel,
{
    let alpha = pixel[3];
    if alpha == 255 {
        return pixel;
    }
    if alpha == 0 {
        let r = [background.r, background.g, background.b, background.a];
        assert(r@ =~= seq![background.r, background.g, background.b, background.a]);
        return r;
    }
    let r = [
        blend_one(pixel[0], background.r, alpha),
        blend_one(pixel[1], background.g, alpha),
        blend_one(pixel[2], background.b, alpha),
        background.a,
    ];
    assert(r@ =~= blended(pixel@, *background));
    r
}

/// The four channels of the pixel at `(x, y)`.
pub open spec fn pixel_of(g: RgbaGrid, x: int, y: int) -> Seq<u8> {
    seq![g.at(x, y, 0), g.at(x, y, 1), g.at(x, y, 2), g.at(x, y, 3)]
}

/// Every pixel of `g` is the background color.
pub open spec fn is_filled(g: RgbaGrid, bg: BackgroundColor) -> bool {
    forall|x: int, y: int| 0 <= x < g.width && 0 <= y < g.height ==> #[trigger] pixel_of(g, x, y) == seq![bg.r, bg.g, bg.b, bg.a]
}

/// A canvas of `width` x `height` filled with the background color.
fn filled_canvas(width: u32, height: u32, background: &BackgroundColor) -> (r: RgbaGrid)
    requires
        width * height * 4 <= usize::MAX,
    ensures
        r.wf(),
        r.width == width,
        r.height == height,
        is_filled(r, *background),
{
    let n: usize = (width as usize) * (height as usize);
    let mut pixels: Vec<u8> = Vec::with_capacity(n * 4);
    let mut k: usize = 0;
    while k < n
        invariant
            n == width * height,
            n * 4 <= usize::MAX,
            k <= n,
            pixels@.len() == 4 * k,
            forall|j: int| 0 <= j < k ==> #[trigger] pixels@[4 * j] == background.r && pixels@[4 * j + 1]
                == background.g && pixels@[4 * j + 2] == background.b && pixels@[4 * j + 3] == background.a,
        decreases n - k,
    {
        let ghost before = pixels@;
        pixels.push(background.r);
        pixels.push(background.g);
        pixels.push(background.b);
        pixels.push(background.a);
        assert(pixels@ == before + seq![background.r, background.g, background.b, background.a]);
        assert forall|j: int| 0 <= j < k + 1 implies #[trigger] pixels@[4 * j] == background.r && pixels@[4 * j + 1]
            == background.g && pixels@[4 * j + 2] == background.b && pixels@[4 * j + 3] == background.a by {
            if j < k {
                assert(pixels@[4 * j] == before[4 * j]);
            }
        }
        k = k + 1;
    }
    let r = RgbaGrid { width, height, pixels };
    assert forall|x: int, y: int| 0 <= x < r.width && 0 <= y < r.height implies #[trigger] pixel_of(r, x, y)
        == seq![background.r, background.g, background.b, background.a] by {
        lemma_index_in_grid(x, y, width as int, height as int);
        let j = y * width + x;
        assert(0 <= j < n);
        assert((y * width + x) * 4 == 4 * j);
        assert(pixels@[4 * j] == background.r);
        assert(r.at(x, y, 0) == pixels@[4 * j]);
        assert(r.at(x, y, 1) == pixels@[4 * j + 1]);
        assert(r.at(x, y, 2) == pixels@[4 * j + 2]);
        assert(r.at(x, y, 3) == pixels@[4 * j + 3]);
        assert(pixel_of(r, x, y) =~= seq![background.r, background.g, background.b, background.a]);
    }
    r
}

fn read_pixel(g: &RgbaGrid, x: u32, y: u32) -> (p: [u8; 4])
    requires
        g.wf(),
        x < g.width,
        y < g.height,
    ensures
        p@ == pixel_of(*g, x as int, y as int),
{
    let len = g.pixels.len();
    proof {
        lemma_index_in_grid(x as int, y as int, g.width as int, g.height as int);
    }
    let base = ((y as usize) * (g.width as usize) + x as usize) * 4;
    let p = [g.pixels[base], g.pixels[base + 1], g.pixels[base + 2], g.pixels[base + 3]];
    assert(p@ =~= seq![g.at(x as int, y as int, 0), g.at(x as int, y as int, 1), g.at(x as int, y as int, 2), g.at(x as int, y as int, 3)]);
    p
}

/// Distinct positions of a grid own distinct runs of four bytes.
proof fn lemma_distinct_pixels(x1: int, y1: int, x2: int, y2: int, w: int, h: int, c1: int, c2: int)
    requires
        0 <= x1 < w,
        0 <= x2 < w,
        0 <= y1 < h,
        0 <= y2 < h,
        0 <= c1 < 4,
        0 <= c2 < 4,
        x1 != x2 || y1 != y2,
    ensures
        (y1 * w + x1) * 4 + c1 != (y2 * w + x2) * 4 + c2,
{
    let k1 = y1 * w + x1;
    let k2 = y2 * w + x2;
    if k1 == k2 {
        vstd::arithmetic::div_mod::lemma_fundamental_div_mod_converse(k1, w, y1, x1);
        vstd::arithmetic::div_mod::lemma_fundamental_div_mod_converse(k2, w, y2, x2);
    }
}

fn write_pixel(g: &mut RgbaGrid, x: u32, y: u32, p: [u8; 4])
    requires
        old(g).wf(),
        x < old(g).width,
        y < old(g).height,
    ensures
        final(g).wf(),
        final(g).width == old(g).width,
        final(g).height == old(g).height,
        forall|xx: int, yy: int|
            0 <= xx < old(g).width && 0 <= yy < old(g).height ==> #[trigger] pixel_of(*final(g), xx, yy) == if xx == x
                && yy == y {
                p@
            } else {
                pixel_of(*old(g), xx, yy)
            },
{
    let len = g.pixels.len();
    proof {
        lemma_index_in_grid(x as int, y as int, g.width as int, g.height as int);
    }
    let base = ((y as usize) * (g.width as usize) + x as usize) * 4;
    let ghost before = *g;
    g.pixels[base] = p[0];
    g.pixels[base + 1] = p[1];
    g.pixels[base + 2] = p[2];
    g.pixels[base + 3] = p[3];
    proof {
        assert forall|xx: int, yy: int| 0 <= xx < before.width && 0 <= yy < before.height implies #[trigger] pixel_of(
            *g,
            xx,
            yy,
        ) == if xx == x && yy == y {
            p@
        } else {
            pixel_of(before, xx, yy)
        } by {
            lemma_index_in_grid(xx, yy, before.width as int, before.height as int);
            if xx == x && yy == y {
                assert(pixel_of(*g, xx, yy) =~= p@);
            } else {
                assert forall|c: int| 0 <= c < 4 implies #[trigger] g.at(xx, yy, c) == before.at(xx, yy, c) by {
                    let (w, h) = (before.width as int, before.height as int);
                    lemma_distinct_pixels(xx, yy, x as int, y as int, w, h, c, 0);
                    lemma_distinct_pixels(xx, yy, x as int, y as int, w, h, c, 1);
                    lemma_distinct_pixels(xx, yy, x as int, y as int, w, h, c, 2);
                    lemma_distinct_pixels(xx, yy, x as int, y as int, w, h, c, 3);
                    assert((y * before.width + x) * 4 == base);
                }
                assert(g.at(xx, yy, 0) == before.at(xx, yy, 0));
                assert(g.at(xx, yy, 1) == before.at(xx, yy, 1));
                assert(g.at(xx, yy, 2) == before.at(xx, yy, 2));
                assert(g.at(xx, yy, 3) == before.at(xx, yy, 3));
                assert(pixel_of(*g, xx, yy) =~= pixel_of(before, xx, yy));
            }
        }
    }
}

/// Rows of a source `height` tall that remain after cropping `crop_top`
/// and `crop_bottom`, each clamped to what is left: `top .. end`.
pub open spec fn crop_rows(height: nat, crop_top: nat, crop_bottom: nat) -> (nat, nat) {
    let top = if crop_top <= height { crop_top } else { height };
    let bottom = if crop_bottom <= height - top { crop_bottom } else { (height - top) as nat };
    (top, (height - bottom) as nat)
}

/// Canvas position `(x, y)` is painted by a source `width` wide placed at
/// `(xo, yo)` whose rows `top .. end` are kept.
pub open spec fn covers(x: int, y: int, xo: int, yo: int, width: int, top: int, end: int) -> bool {
    xo <= x < xo + width && yo <= y < yo + (end - top)
}

/// The pixel at `(x, y)` after pasting `src`, cropped, at `(xo, yo)` over
/// a canvas whose pixel there was `before`.
pub open spec fn pasted_pixel(
    before: Seq<u8>,
    src: RgbaGrid,
    x: int,
    y: int,
    xo: int,
    yo: int,
    crop_top: nat,
    crop_bottom: nat,
    bg: BackgroundColor,
) -> Seq<u8> {
    let (top, end) = crop_rows(src.height as nat, crop_top, crop_bottom);
    if covers(x, y, xo, yo, src.width as int, top as int, end as int) {
        blended(pixel_of(src, x - xo, y - yo + top), bg)
    } else {
        before
    }
}

/// Paints rows `crop_top .. height - crop_bottom` of `src` onto `dest` with
/// their top-left corner at `(x_offset, y_offset)`, each pixel blended over
/// the background; writes outside the canvas are dropped.
fn composite_image_with_vertical_crop(
    dest: &mut RgbaGrid,
    src: &RgbaGrid,
    x_offset: u64,
    y_offset: u64,
    crop_top: u32,
    crop_bottom: u32,
    background: &BackgroundColor,
)
    requires
        old(dest).wf(),
        src.wf(),
    ensures
        final(dest).wf(),
        final(dest).width == old(dest).width,
        final(dest).height == old(dest).height,
        forall|x: int, y: int|
            0 <= x < old(dest).width && 0 <= y < old(dest).height ==> #[trigger] pixel_of(*final(dest), x, y)
                == pasted_pixel(
                pixel_of(*old(dest), x, y),
                *src,
                x,
                y,
                x_offset as int,
                y_offset as int,
                crop_top as nat,
                crop_bottom as nat,
                *background,
            ),
{
    let ghost start = *dest;
    let src_h = src.height;
    let top = if crop_top <= src_h { crop_top } else { src_h };
    let bottom = if crop_bottom <= src_h - top { crop_bottom } else { src_h - top };
    let end = src_h - bottom;
    assert((top as nat, end as nat) == crop_rows(src.height as nat, crop_top as nat, crop_bottom as nat));
    if src_h == 0 || x_offset >= dest.width as u64 || y_offset >= dest.height as u64 {
        return;
    }
    let mut y: u32 = top;
    while y < end
        invariant
            dest.wf(),
            dest.width == start.width,
            dest.height == start.height,
            src.wf(),
            top <= y <= end,
            end <= src.height,
            (top as nat, end as nat) == crop_rows(src.height as nat, crop_top as nat, crop_bottom as nat),
            x_offset < dest.width,
            y_offset < dest.height,
            forall|xx: int, yy: int|
                0 <= xx < start.width && 0 <= yy < start.height ==> #[trigger] pixel_of(*dest, xx, yy) == if covers(
                    xx,
                    yy,
                    x_offset as int,
                    y_offset as int,
                    src.width as int,
                    top as int,
                    y as int,
                ) {
                    blended(pixel_of(*src, xx - x_offset, yy - y_offset + top), *background)
                } else {
                    pixel_of(start, xx, yy)
                },
        decreases end - y,
    {
        let dest_y: u64 = y_offset + (y - top) as u64;
        let mut x: u32 = 0;
        while x < src.width
            invariant
                dest.wf(),
                dest.width == start.width,
                dest.height == start.height,
                src.wf(),
                top <= y < end,
                end <= src.height,
                x_offset < dest.width,
                y_offset < dest.height,
                dest_y == y_offset + (y - top),
                x <= src.width,
                forall|xx: int, yy: int|
                    0 <= xx < start.width && 0 <= yy < start.height ==> #[trigger] pixel_of(*dest, xx, yy) == if covers(
                        xx,
                        yy,
                        x_offset as int,
                        y_offset as int,
                        src.width as int,
                        top as int,
                        y as int,
                    ) || (yy == dest_y && x_offset <= xx < x_offset + x) {
                        blended(pixel_of(*src, xx - x_offset, yy - y_offset + top), *background)
                    } else {
                        pixel_of(start, xx, yy)
                    },
            decreases src.width - x,
        {
            let dest_x: u64 = x_offset + x as u64;
            if dest_x < dest.width as u64 && dest_y < dest.height as u64 {
                let p = blend_with_background(read_pixel(src, x, y), background);
                assert(p@ == blended(pixel_of(*src, dest_x - x_offset, dest_y - y_offset + top), *background)) by {
                    assert(pixel_of(*src, x as int, y as int) =~= seq![src.at(x as int, y as int, 0), src.at(x as int, y as int, 1), src.at(x as int, y as int, 2), src.at(x as int, y as int, 3)]);
                }
                write_pixel(dest, dest_x as u32, dest_y as u32, p);
            }
            x = x + 1;
        }
        y = y + 1;
    }
}

/// Sizes of the images behind `data`, once decoded and turned upright.
pub open spec fn source_sizes(data: Seq<Vec<u8>>) -> Seq<(u32, u32)> {
    data.map_values(
        |b: Vec<u8>|
            {
                let (w, h) = decoded_size(b@);
                oriented_size(w, h, orientation_in(b@))
            },
    )
}

/// The pixels of the image behind `bytes` once decoded, turned upright and
/// scaled to `size` (left as they are when the size already matches).
pub open spec fn prepared_pixels(bytes: Seq<u8>, size: (u32, u32)) -> Seq<u8> {
    let (w, h) = decoded_size(bytes);
    let o = orientation_in(bytes);
    let upright = upright_pixels(decoded_pixels(bytes), w, h, o);
    let (ow, oh) = oriented_size(w, h, o);
    if size.0 == 0 || size.1 == 0 {
        Seq::empty()
    } else if ow == size.0 && oh == size.1 {
        upright
    } else {
        lanczos_resized(upright, ow, oh, size.0, size.1)
    }
}

proof fn lemma_zero_scaled_sizes(s: Seq<(u32, u32)>, direction: Direction)
    ensures
        crate::dimension::max_width(scaled_all(s, 0, direction)) == 0,
        crate::dimension::max_height(scaled_all(s, 0, direction)) == 0,
        crate::dimension::sum_widths(scaled_all(s, 0, direction)) == 0,
        crate::dimension::sum_heights(scaled_all(s, 0, direction)) == 0,
    decreases s.len(),
{
    if s.len() > 0 {
        assert(scaled_all(s.drop_last(), 0, direction) =~= scaled_all(s, 0, direction).drop_last());
        lemma_zero_scaled_sizes(s.drop_last(), direction);
    }
}

/// With a zero target every image scales to nothing and so does the canvas.
proof fn lemma_zero_target_plans_nothing(sizes: Seq<(u32, u32)>, direction: Direction)
    requires
        target_dimension(sizes, direction) == 0,
    ensures
        planned_size(sizes, direction) == (0nat, 0nat),
{
    lemma_zero_scaled_sizes(sizes, direction);
}

/// The canvas size planned for images of sizes `sizes`, before smart trims.
pub open spec fn planned_size(sizes: Seq<(u32, u32)>, direction: Direction) -> (nat, nat) {
    output_size(scaled_all(sizes, target_dimension(sizes, direction), direction), direction)
}

/// Largest number of canvas pixels: four bytes each must be addressable.
pub open spec fn pixel_cap() -> nat {
    (usize::MAX / 4) as nat
}

/// Images decoded, upright and scaled, with the canvas planned for them.
pub struct PreparedMerge {
    pub direction: Direction,
    /// Size of each image once decoded and turned upright.
    pub sizes: Vec<(u32, u32)>,
    /// Size of each image once scaled.
    pub scaled: Vec<(u32, u32)>,
    /// The scaled images.
    pub images: Vec<RgbaGrid>,
    /// Chrome trims of each image for smart merges; empty otherwise.
    pub trims: Vec<ChromeTrim>,
    /// Canvas width.
    pub width: u32,
    /// Canvas height before smart trims and overlaps.
    pub height: u32,
}

impl PreparedMerge {
    pub open spec fn wf(&self) -> bool {
        let n = self.images@.len();
        &&& 1 <= n <= u32::MAX
        &&& self.sizes@.len() == n
        &&& self.scaled@.len() == n
        &&& forall|i: int|
            0 <= i < n ==> (#[trigger] self.images@[i]).wf() && (self.images@[i].width, self.images@[i].height)
                == self.scaled@[i]
        &&& self.scaled@ == scaled_all(self.sizes@, target_dimension(self.sizes@, self.direction), self.direction)
        &&& (self.width as nat, self.height as nat) == output_size(self.scaled@, self.direction)
        &&& self.width * self.height <= pixel_cap()
        &&& self.direction == Direction::Smart ==> {
            &&& self.trims@.len() == n
            &&& forall|i: int| 0 <= i < n ==> #[trigger] self.trims@[i] == chrome_trim_at(self.images@, i)
            &&& forall|i: int|
                0 <= i < n ==> #[trigger] self.trims@[i] == (ChromeTrim { top: 0, bottom: 0 }) || self.trims@[i].top
                    + self.trims@[i].bottom <= self.images@[i].height - MIN_CONTENT_PX
        }
        &&& self.direction != Direction::Smart ==> self.trims@.len() == 0
    }
}

/// Decodes each image, turns it upright, plans the canvas and scales each
/// image to its planned size; smart merges also get their chrome trims.
///
/// Fails with `NoImages` on an empty list, with `DecodeError` at the first
/// image that does not decode, with `EncodeError` when the canvas would not
/// fit 32-bit sizes and with `TooLarge` when its pixels exceed the cap.
pub fn prepare_merge(images_data: &Vec<Vec<u8>>, options: &MergeOptions) -> (r: Result<PreparedMerge, MergeError>)
    requires
        images_data@.len() <= u32::MAX,
    ensures
        images_data@.len() == 0 ==> r matches Err(MergeError::NoImages),
        r matches Err(MergeError::NoImages) ==> images_data@.len() == 0 || target_dimension(
            source_sizes(images_data@),
            options.direction,
        ) == 0,
        r matches Err(MergeError::DecodeError { index, file_name, .. }) ==> {
            &&& index < images_data@.len()
            &&& !decodable(images_data@[index as int]@)
            &&& forall|j: int| 0 <= j < index ==> decodable(#[trigger] images_data@[j]@)
            &&& file_name is None
        },
        (exists|j: int| 0 <= j < images_data@.len() && !decodable(#[trigger] images_data@[j]@)) ==> r matches Err(
            MergeError::DecodeError { .. },
        ),
        r matches Err(MergeError::EncodeError { .. }) ==> planned_size(source_sizes(images_data@), options.direction).0
            > u32::MAX || planned_size(source_sizes(images_data@), options.direction).1 > u32::MAX,
        r matches Err(MergeError::TooLarge { width, height, pixels, max }) ==> {
            &&& (width as nat, height as nat) == planned_size(source_sizes(images_data@), options.direction)
            &&& pixels == width * height
            &&& max == pixel_cap()
            &&& pixels > max
        },
        r is Err ==> !(r matches Err(MergeError::InvalidInput { .. })),
        (images_data@.len() > 0 && (forall|j: int| 0 <= j < images_data@.len() ==> decodable(#[trigger] images_data@[j]@))
            && (planned_size(source_sizes(images_data@), options.direction).0 > u32::MAX || planned_size(
            source_sizes(images_data@),
            options.direction,
        ).1 > u32::MAX)) ==> r matches Err(MergeError::EncodeError { .. }),
        r matches Ok(p) ==> {
            &&& p.wf()
            &&& p.direction == options.direction
            &&& p.sizes@ == source_sizes(images_data@)
            &&& p.images@.len() == images_data@.len()
            &&& forall|i: int|
                0 <= i < images_data@.len() ==> (#[trigger] p.images@[i]).pixels@ == prepared_pixels(
                    images_data@[i]@,
                    p.scaled@[i],
                )
        },
        (images_data@.len() > 0 && (forall|j: int| 0 <= j < images_data@.len() ==> decodable(#[trigger] images_data@[j]@))
            && target_dimension(source_sizes(images_data@), options.direction) > 0
            && planned_size(source_sizes(images_data@), options.direction).0 <= u32::MAX
            && planned_size(source_sizes(images_data@), options.direction).1 <= u32::MAX && planned_size(
            source_sizes(images_data@),
            options.direction,
        ).0 * planned_size(source_sizes(images_data@), options.direction).1 <= pixel_cap()) ==> r is Ok,
{
    let n = images_data.len();
    if n == 0 {
        return Err(MergeError::NoImages);
    }
    let direction = options.direction;
    let mut images: Vec<RgbaGrid> = Vec::with_capacity(n);
    let mut sizes: Vec<(u32, u32)> = Vec::with_capacity(n);
    let mut i: usize = 0;
    while i < n
        invariant
            n == images_data@.len(),
            i <= n,
            images@.len() == i,
            sizes@.len() == i,
            forall|j: int| 0 <= j < i ==> decodable(#[trigger] images_data@[j]@),
            forall|j: int|
                0 <= j < i ==> (#[trigger] images@[j]).wf() && sizes@[j] == (images@[j].width, images@[j].height),
            forall|j: int| 0 <= j < i ==> #[trigger] sizes@[j] == source_sizes(images_data@)[j],
            forall|j: int|
                0 <= j < i ==> (#[trigger] images@[j]).pixels@ == upright_pixels(
                    decoded_pixels(images_data@[j]@),
                    decoded_size(images_data@[j]@).0,
                    decoded_size(images_data@[j]@).1,
                    orientation_in(images_data@[j]@),
                ),
        decreases n - i,
    {
        let data = images_data[i].as_slice();
        match decode_image(data) {
            Ok(img) => {
                let orientation = extract_orientation(data);
                let upright = normalize_orientation(img, orientation);
                sizes.push((upright.width, upright.height));
                images.push(upright);
            },
            Err(message) => {
                return Err(MergeError::DecodeError { index: i, file_name: None, message });
            },
        }
        i = i + 1;
    }
    assert(sizes@ =~= source_sizes(images_data@));
    let target = compute_target_dimension(sizes.as_slice(), direction);
    if target == 0 {
        proof {
            lemma_zero_target_plans_nothing(sizes@, direction);
        }
        return Err(MergeError::NoImages);
    }
    let mut scaled: Vec<(u32, u32)> = Vec::with_capacity(n);
    let mut i: usize = 0;
    while i < n
        invariant
            n == sizes@.len(),
            i <= n,
            scaled@.len() == i,
            target == target_dimension(sizes@, direction),
            forall|j: int| 0 <= j < i ==> #[trigger] scaled@[j] == scaled_all(sizes@, target as nat, direction)[j],
        decreases n - i,
    {
        let (w, h) = sizes[i];
        let s = compute_scaled_dimensions(w, h, target, direction);
        scaled.push(s);
        i = i + 1;
    }
    assert(scaled@ =~= scaled_all(sizes@, target as nat, direction));
    let (out_w, out_h) = compute_output_size(scaled.as_slice(), direction);
    if out_w > u32::MAX as u64 || out_h > u32::MAX as u64 {
        return Err(MergeError::EncodeError { message: String::from_str("Output dimensions exceed supported size") });
    }
    let cap: u64 = (usize::MAX / 4) as u64;
    assert(out_w * out_h <= u64::MAX) by (nonlinear_arith)
        requires
            out_w <= u32::MAX,
            out_h <= u32::MAX,
    ;
    if out_w * out_h > cap {
        return Err(MergeError::TooLarge { width: out_w, height: out_h, pixels: out_w * out_h, max: cap });
    }
    let mut scaled_images: Vec<RgbaGrid> = Vec::with_capacity(n);
    let mut i: usize = 0;
    while i < n
        invariant
            n == images@.len(),
            n == scaled@.len(),
            n == images_data@.len(),
            i <= n,
            scaled_images@.len() == i,
            forall|j: int| 0 <= j < n ==> (#[trigger] images@[j]).wf(),
            forall|j: int| 0 <= j < n ==> #[trigger] sizes@[j] == (images@[j].width, images@[j].height),
            sizes@ == source_sizes(images_data@),
            forall|j: int|
                0 <= j < n ==> (#[trigger] images@[j]).pixels@ == upright_pixels(
                    decoded_pixels(images_data@[j]@),
                    decoded_size(images_data@[j]@).0,
                    decoded_size(images_data@[j]@).1,
                    orientation_in(images_data@[j]@),
                ),
            forall|j: int|
                0 <= j < i ==> (#[trigger] scaled_images@[j]).pixels@ == prepared_pixels(images_data@[j]@, scaled@[j]),
            forall|j: int|
                0 <= j < i ==> (#[trigger] scaled_images@[j]).wf() && (scaled_images@[j].width, scaled_images@[j].height)
                    == scaled@[j],
        decreases n - i,
    {
        let (w, h) = scaled[i];
        let img = if w == 0 || h == 0 {
            RgbaGrid { width: w, height: h, pixels: Vec::new() }
        } else {
            scale_image(&images[i], w, h)
        };
        proof {
            if w == 0 || h == 0 {
                assert(w * h * 4 == 0) by (nonlinear_arith)
                    requires
                        w == 0 || h == 0,
                ;
                assert(img.pixels@ =~= Seq::<u8>::empty());
            }
            assert(images@[i as int].wf());
            assert(sizes@[i as int] == source_sizes(images_data@)[i as int]);
        }
        scaled_images.push(img);
        i = i + 1;
    }
    let trims = if direction == Direction::Smart {
        compute_chrome_trims(scaled_images.as_slice())
    } else {
        Vec::new()
    };
    Ok(PreparedMerge {
        direction,
        sizes,
        scaled,
        images: scaled_images,
        trims,
        width: out_w as u32,
        height: out_h as u32,
    })
}

/// Prepares the overlap search between image `i` and image `i + 1` of a
/// smart merge, on their rows left after chrome trims.
pub fn pair_overlap_search(p: &PreparedMerge, i: usize, sensitivity: u8) -> (r: Option<OverlapSearch>)
    requires
        p.wf(),
        p.direction == Direction::Smart,
        i + 1 < p.images@.len(),
    ensures
        is_search_of(
            r,
            trimmed_view(p.images@[i as int], p.trims@[i as int]),
            trimmed_view(p.images@[i + 1], p.trims@[i + 1]),
            sensitivity,
        ),
        r matches Some(s) ==> {
            &&& s.top_height == p.images@[i as int].height - p.trims@[i as int].top - p.trims@[i as int].bottom
            &&& s.bottom_height == p.images@[i + 1].height - p.trims@[i + 1].top - p.trims@[i + 1].bottom
        },
{
    assert(p.trims@[i as int] == (ChromeTrim { top: 0, bottom: 0 }) || p.trims@[i as int].top + p.trims@[i as int].bottom
        <= p.images@[i as int].height - MIN_CONTENT_PX);
    assert(p.trims@[i + 1] == (ChromeTrim { top: 0, bottom: 0 }) || p.trims@[i + 1].top + p.trims@[i + 1].bottom
        <= p.images@[i + 1].height - MIN_CONTENT_PX);
    let top = trimmed_gray(&p.images[i], p.trims[i]);
    let bottom = trimmed_gray(&p.images[i + 1], p.trims[i + 1]);
    overlap_search(&top, &bottom, sensitivity)
}

/// Overlap between image `i` and image `i + 1`: the one given, where it
/// is at least 5 rows and fits the rows left of image `i + 1` after its
/// chrome trims; 0 otherwise.
pub open spec fn overlap_at(sizes: Seq<(u32, u32)>, trims: Seq<ChromeTrim>, overlaps: Seq<u32>, i: int) -> nat {
    if 0 <= i < overlaps.len() && i + 1 < sizes.len() && MIN_OVERLAP_PIXELS <= overlaps[i] && overlaps[i] + trims[i
        + 1].top + trims[i + 1].bottom <= sizes[i + 1].1 {
        overlaps[i] as nat
    } else {
        0
    }
}

/// Sum of the overlaps of the first `k` pairs.
pub open spec fn sum_overlaps(sizes: Seq<(u32, u32)>, trims: Seq<ChromeTrim>, overlaps: Seq<u32>, k: nat) -> nat
    decreases k,
{
    if k == 0 {
        0
    } else {
        sum_overlaps(sizes, trims, overlaps, (k - 1) as nat) + overlap_at(sizes, trims, overlaps, k - 1)
    }
}

/// Sum of the top and bottom trims of the first `k` images.
pub open spec fn sum_trims(trims: Seq<ChromeTrim>, k: nat) -> nat
    decreases k,
{
    if k == 0 { 0 } else { sum_trims(trims, (k - 1) as nat) + trims[k - 1].top as nat + trims[k - 1].bottom as nat }
}

/// `a - b`, or 0 when `b` exceeds `a`.
pub open spec fn sat_sub(a: nat, b: nat) -> nat {
    if a >= b { (a - b) as nat } else { 0 }
}

/// Canvas height of a merge: smart merges drop all trims and overlaps.
pub open spec fn final_height(p: PreparedMerge, overlaps: Seq<u32>) -> nat {
    let n = p.images@.len();
    if p.direction == Direction::Smart {
        sat_sub(p.height as nat, sum_trims(p.trims@, n) + sum_overlaps(p.scaled@, p.trims@, overlaps, (n - 1) as nat))
    } else {
        p.height as nat
    }
}

/// Rows cropped from the top of image `i` of a smart merge: its top trim and
/// the overlap with the image before it.
pub open spec fn crop_top_at(sizes: Seq<(u32, u32)>, trims: Seq<ChromeTrim>, overlaps: Seq<u32>, i: int) -> nat {
    trims[i].top as nat + if i > 0 { overlap_at(sizes, trims, overlaps, i - 1) } else { 0 }
}

/// Rows that image `i` of a smart merge leaves on the canvas.
pub open spec fn rendered_rows(sizes: Seq<(u32, u32)>, trims: Seq<ChromeTrim>, overlaps: Seq<u32>, i: int) -> nat {
    sat_sub(sat_sub(sizes[i].1 as nat, crop_top_at(sizes, trims, overlaps, i)), trims[i].bottom as nat)
}

/// Rows that the first `k` images of a smart merge leave on the canvas.
pub open spec fn rendered_sum(sizes: Seq<(u32, u32)>, trims: Seq<ChromeTrim>, overlaps: Seq<u32>, k: nat) -> nat
    decreases k,
{
    if k == 0 { 0 } else { rendered_sum(sizes, trims, overlaps, (k - 1) as nat) + rendered_rows(sizes, trims, overlaps, k - 1) }
}

/// Heights of the first `k` images less their trims.
pub open spec fn trimmed_sum(sizes: Seq<(u32, u32)>, trims: Seq<ChromeTrim>, k: nat) -> nat
    decreases k,
{
    if k == 0 {
        0
    } else {
        trimmed_sum(sizes, trims, (k - 1) as nat) + sat_sub(sizes[k - 1].1 as nat, trims[k - 1].top as nat + trims[k - 1].bottom as nat)
    }
}


proof fn lemma_height_sums(s: Seq<(u32, u32)>, k: nat)
    requires
        k <= s.len(),
    ensures
        crate::dimension::sum_heights(s.subrange(0, k as int)) == height_prefix(s, k),
    decreases k,
{
    if k > 0 {
        assert(s.subrange(0, k as int).drop_last() =~= s.subrange(0, k - 1));
        lemma_height_sums(s, (k - 1) as nat);
    }
}

/// Sum of the heights of the first `k` sizes.
pub open spec fn height_prefix(s: Seq<(u32, u32)>, k: nat) -> nat
    decreases k,
{
    if k == 0 { 0 } else { height_prefix(s, (k - 1) as nat) + s[k - 1].1 as nat }
}

proof fn lemma_rendered_prefix(sizes: Seq<(u32, u32)>, trims: Seq<ChromeTrim>, overlaps: Seq<u32>, k: nat)
    requires
        1 <= k <= sizes.len(),
        trims.len() == sizes.len(),
        forall|i: int| 0 <= i < sizes.len() ==> #[trigger] trims[i].top + trims[i].bottom <= sizes[i].1,
    ensures
        rendered_sum(sizes, trims, overlaps, k) + sum_trims(trims, k) + sum_overlaps(sizes, trims, overlaps, (k - 1) as nat)
            == height_prefix(sizes, k),
        trimmed_sum(sizes, trims, k) + sum_trims(trims, k) == height_prefix(sizes, k),
    decreases k,
{
    let i = k - 1;
    assert(trims[i].top + trims[i].bottom <= sizes[i].1);
    assert(sum_trims(trims, k) == sum_trims(trims, (k - 1) as nat) + trims[i].top + trims[i].bottom);
    assert(height_prefix(sizes, k) == height_prefix(sizes, (k - 1) as nat) + sizes[i].1);
    assert(trimmed_sum(sizes, trims, k) == trimmed_sum(sizes, trims, (k - 1) as nat) + sizes[i].1 - trims[i].top
        - trims[i].bottom);
    assert(rendered_sum(sizes, trims, overlaps, k) == rendered_sum(sizes, trims, overlaps, (k - 1) as nat)
        + rendered_rows(sizes, trims, overlaps, i));
    if k > 1 {
        lemma_rendered_prefix(sizes, trims, overlaps, (k - 1) as nat);
        assert(overlap_at(sizes, trims, overlaps, i - 1) + trims[i].top + trims[i].bottom <= sizes[i].1);
        assert(rendered_rows(sizes, trims, overlaps, i) == sizes[i].1 - trims[i].top - overlap_at(sizes, trims, overlaps, i - 1)
            - trims[i].bottom);
        assert(sum_overlaps(sizes, trims, overlaps, (k - 1) as nat) == sum_overlaps(sizes, trims, overlaps, (k - 2) as nat) + overlap_at(
            sizes,
            trims,
            overlaps,
            i - 1,
        ));
    } else {
        assert(rendered_rows(sizes, trims, overlaps, i) == sizes[i].1 - trims[i].top - trims[i].bottom);
        assert(sum_overlaps(sizes, trims, overlaps, 0) == 0);
        assert(rendered_sum(sizes, trims, overlaps, 0) == 0);
        assert(trimmed_sum(sizes, trims, 0) == 0);
        assert(sum_trims(trims, 0) == 0);
        assert(height_prefix(sizes, 0) == 0);
    }
}

/// In a smart merge, whatever overlaps are given, the overlaps that count
/// sum to no more than the trimmed heights, and the images leave on the
/// canvas exactly as many rows as the canvas is tall.
pub proof fn lemma_smart_rows(p: PreparedMerge, overlaps: Seq<u32>)
    requires
        p.wf(),
        p.direction == Direction::Smart,
    ensures
        sum_overlaps(p.scaled@, p.trims@, overlaps, (p.images@.len() - 1) as nat) <= trimmed_sum(p.scaled@, p.trims@, p.images@.len()),
        final_height(p, overlaps) == rendered_sum(p.scaled@, p.trims@, overlaps, p.images@.len()),
{
    let n = p.images@.len();
    assert forall|i: int| 0 <= i < n implies #[trigger] p.trims@[i].top + p.trims@[i].bottom <= p.scaled@[i].1 by {
        assert(p.trims@[i] == (ChromeTrim { top: 0, bottom: 0 }) || p.trims@[i].top + p.trims@[i].bottom
            <= p.images@[i].height - MIN_CONTENT_PX);
        assert(p.images@[i].wf());
    }
    lemma_rendered_prefix(p.scaled@, p.trims@, overlaps, n);
    lemma_height_sums(p.scaled@, n);
    assert(p.scaled@.subrange(0, n as int) =~= p.scaled@);
}

/// The overlap that counts between image `k` and image `k + 1`.
fn fitted_overlap(p: &PreparedMerge, overlaps: &Vec<u32>, k: usize) -> (o: u32)
    requires
        p.wf(),
        p.direction == Direction::Smart,
        k + 1 < p.images@.len(),
    ensures
        o == overlap_at(p.scaled@, p.trims@, overlaps@, k as int),
{
    if k >= overlaps.len() {
        return 0;
    }
    let o = overlaps[k];
    let (_, h) = p.scaled[k + 1];
    let trim = p.trims[k + 1];
    if MIN_OVERLAP_PIXELS <= o && (o as u64) + (trim.top as u64) + (trim.bottom as u64) <= h as u64 {
        o
    } else {
        0
    }
}

/// Paints each prepared image onto a canvas of the background color and
/// encodes it as PNG. Vertical merges center each image horizontally and
/// stack them; horizontal ones center vertically and line them up; smart
/// ones stack each image less its trims and its overlap with the one before
/// (`overlaps[i]` is between image `i` and image `i + 1`).
#[verifier::rlimit(40)]
pub fn compose_merge(p: &PreparedMerge, overlaps: &Vec<u32>, background: &BackgroundColor) -> (r: Result<Vec<u8>, MergeError>)
    requires
        p.wf(),
    ensures
        r matches Ok(bytes) ==> bytes@.len() >= 24 && png_declared_size(bytes@) == (p.width as nat, final_height(*p, overlaps@)),
        r matches Ok(_) ==> p.width > 0 && final_height(*p, overlaps@) > 0,
        p.width > 0 && final_height(*p, overlaps@) > 0 ==> r is Ok,
        r matches Ok(bytes) ==> bytes@ == png_encoding(
            merged_canvas(*p, overlaps@, *background),
            p.width,
            final_height(*p, overlaps@) as u32,
        ),
        r matches Err(e) ==> e is EncodeError,
{
    let n = p.images.len();
    let mut height: u32 = p.height;
    if p.direction == Direction::Smart {
        let mut total: u128 = 0;
        let mut i: usize = 0;
        while i < n
            invariant
                n == p.images@.len(),
                p.wf(),
                p.direction == Direction::Smart,
                i <= n,
                total == sum_trims(p.trims@, i as nat),
                total <= i * 0x1_ffff_fffe,
            decreases n - i,
        {
            assert(i * 0x1_ffff_fffe + 0x1_ffff_fffe <= 0xffff_ffff * 0x1_ffff_fffe) by (nonlinear_arith)
                requires
                    i < 0xffff_ffff,
            ;
            total = total + p.trims[i].top as u128 + p.trims[i].bottom as u128;
            i = i + 1;
        }
        let mut k: usize = 0;
        while k + 1 < n
            invariant
                n == p.images@.len(),
                p.wf(),
                p.direction == Direction::Smart,
                1 <= n <= u32::MAX,
                k < n,
                total == sum_trims(p.trims@, n as nat) + sum_overlaps(p.scaled@, p.trims@, overlaps@, k as nat),
                total <= n * 0x1_ffff_fffe + k * 0xffff_ffff,
            decreases n - k,
        {
            assert(n * 0x1_ffff_fffe + k * 0xffff_ffff + 0xffff_ffff <= 0xffff_ffff * 0x1_ffff_fffe + 0xffff_ffff
                * 0xffff_ffff) by (nonlinear_arith)
                requires
                    n <= 0xffff_ffff,
                    k + 1 < n,
            ;
            let o: u128 = fitted_overlap(p, overlaps, k) as u128;
            total = total + o;
            k = k + 1;
        }
        height = if total >= p.height as u128 { 0 } else { (p.height as u128 - total) as u32 };
    }
    assert(height == final_height(*p, overlaps@));
    assert(p.width * height <= p.width * p.height) by (nonlinear_arith)
        requires
            height <= p.height,
    ;
    let mut canvas = filled_canvas(p.width, height, background);
    let mut offset: u64 = 0;
    let mut i: usize = 0;
    assert forall|x: int, y: int| 0 <= x < canvas.width && 0 <= y < canvas.height implies #[trigger] pixel_of(canvas, x, y)
        == canvas_pixel(*p, overlaps@, *background, 0, x, y) by {
        assert(pixel_of(canvas, x, y) == seq![background.r, background.g, background.b, background.a]);
    }
    while i < n
        invariant
            n == p.images@.len(),
            p.wf(),
            i <= n,
            canvas.wf(),
            canvas.width == p.width,
            canvas.height == height,
            height == final_height(*p, overlaps@),
            offset <= i * 0xffff_ffff,
            p.direction == Direction::Vertical ==> offset == height_prefix(p.scaled@, i as nat),
            p.direction == Direction::Horizontal ==> offset == width_prefix(p.scaled@, i as nat),
            p.direction == Direction::Smart ==> offset == rendered_sum(p.scaled@, p.trims@, overlaps@, i as nat),
            forall|x: int, y: int|
                0 <= x < canvas.width && 0 <= y < canvas.height ==> #[trigger] pixel_of(canvas, x, y) == canvas_pixel(
                    *p,
                    overlaps@,
                    *background,
                    i as nat,
                    x,
                    y,
                ),
        decreases n - i,
    {
        let img = &p.images[i];
        assert(p.images@[i as int].wf());
        assert(n <= u32::MAX);
        assert(i * 0xffff_ffff + 0xffff_ffff <= 0xffff_ffff * 0xffff_ffff) by (nonlinear_arith)
            requires
                i < 0xffff_ffff,
        ;
        let x_center: u64 = if img.width <= p.width { ((p.width - img.width) / 2) as u64 } else { 0 };
        let (xo, yo, ct, cb, advance): (u64, u64, u32, u32, u64) = match p.direction {
            Direction::Horizontal => {
                let y_center: u64 = if img.height <= height { ((height - img.height) / 2) as u64 } else { 0 };
                (offset, y_center, 0, 0, img.width as u64)
            },
            Direction::Vertical => (x_center, offset, 0, 0, img.height as u64),
            Direction::Smart => {
                let trim = p.trims[i];
                let from_prev: u32 = if i > 0 { fitted_overlap(p, overlaps, i - 1) } else { 0 };
                let crop_top: u64 = trim.top as u64 + from_prev as u64;
                let crop_top32: u32 = if crop_top > img.height as u64 { img.height } else { crop_top as u32 };
                let after_top: u32 = img.height - crop_top32;
                let rendered: u32 = if trim.bottom <= after_top { after_top - trim.bottom } else { 0 };
                (x_center, offset, crop_top32, trim.bottom, rendered as u64)
            },
        };
        assert(p.scaled@[i as int] == (img.width, img.height));
        assert((xo as int, yo as int, ct as nat, cb as nat) == placement(*p, overlaps@, i as int));
        let ghost before = canvas;
        composite_image_with_vertical_crop(&mut canvas, img, xo, yo, ct, cb, background);
        proof {
            assert forall|x: int, y: int| 0 <= x < canvas.width && 0 <= y < canvas.height implies #[trigger] pixel_of(
                canvas,
                x,
                y,
            ) == canvas_pixel(*p, overlaps@, *background, (i + 1) as nat, x, y) by {
                assert(pixel_of(before, x, y) == canvas_pixel(*p, overlaps@, *background, i as nat, x, y));
            }
            assert(advance <= 0xffff_ffff);
        }
        offset = offset + advance;
        i = i + 1;
    }
    proof {
        lemma_canvas_bytes(canvas, *p, overlaps@, *background);
    }
    match encode_png(&canvas) {
        Ok(bytes) => Ok(bytes),
        Err(message) => Err(MergeError::EncodeError { message }),
    }
}

/// Sum of the widths of the first `k` sizes.
pub open spec fn width_prefix(s: Seq<(u32, u32)>, k: nat) -> nat
    decreases k,
{
    if k == 0 { 0 } else { width_prefix(s, (k - 1) as nat) + s[k - 1].0 as nat }
}

/// Offset that centers a length `len` within `total`.
pub open spec fn centered(total: nat, len: nat) -> int {
    if len <= total { ((total - len) / 2) as int } else { 0 }
}

/// Where image `i` goes on the canvas: its top-left corner, and the rows
/// cropped from its top and its bottom.
pub open spec fn placement(p: PreparedMerge, overlaps: Seq<u32>, i: int) -> (int, int, nat, nat) {
    let img = p.images@[i];
    match p.direction {
        Direction::Vertical => (centered(p.width as nat, img.width as nat), height_prefix(p.scaled@, i as nat) as int, 0, 0),
        Direction::Horizontal => (
            width_prefix(p.scaled@, i as nat) as int,
            centered(final_height(p, overlaps), img.height as nat),
            0,
            0,
        ),
        Direction::Smart => {
            let ct = crop_top_at(p.scaled@, p.trims@, overlaps, i);
            (
                centered(p.width as nat, img.width as nat),
                rendered_sum(p.scaled@, p.trims@, overlaps, i as nat) as int,
                if ct <= img.height { ct } else { img.height as nat },
                p.trims@[i].bottom as nat,
            )
        },
    }
}

/// The canvas pixel at `(x, y)` once the first `k` images are pasted on the
/// background.
pub open spec fn canvas_pixel(p: PreparedMerge, overlaps: Seq<u32>, bg: BackgroundColor, k: nat, x: int, y: int) -> Seq<u8>
    decreases k,
{
    if k == 0 {
        seq![bg.r, bg.g, bg.b, bg.a]
    } else {
        let (xo, yo, ct, cb) = placement(p, overlaps, k - 1);
        pasted_pixel(canvas_pixel(p, overlaps, bg, (k - 1) as nat, x, y), p.images@[k - 1], x, y, xo, yo, ct, cb, bg)
    }
}

/// The merged canvas, row by row, four bytes per pixel.
pub open spec fn merged_canvas(p: PreparedMerge, overlaps: Seq<u32>, bg: BackgroundColor) -> Seq<u8> {
    let w = p.width as int;
    let h = final_height(p, overlaps) as int;
    Seq::new(
        (w * h * 4) as nat,
        |i: int| canvas_pixel(p, overlaps, bg, p.images@.len(), (i / 4) % w, (i / 4) / w)[i % 4],
    )
}

proof fn lemma_canvas_bytes(g: RgbaGrid, p: PreparedMerge, overlaps: Seq<u32>, bg: BackgroundColor)
    requires
        g.wf(),
        g.width == p.width,
        g.height == final_height(p, overlaps),
        forall|x: int, y: int|
            0 <= x < g.width && 0 <= y < g.height ==> #[trigger] pixel_of(g, x, y) == canvas_pixel(
                p,
                overlaps,
                bg,
                p.images@.len(),
                x,
                y,
            ),
    ensures
        g.pixels@ == merged_canvas(p, overlaps, bg),
{
    let w = g.width as int;
    let h = g.height as int;
    let m = merged_canvas(p, overlaps, bg);
    assert forall|i: int| 0 <= i < g.pixels@.len() implies g.pixels@[i] == #[trigger] m[i] by {
        let k = i / 4;
        let c = i % 4;
        vstd::arithmetic::div_mod::lemma_fundamental_div_mod(i, 4);
        vstd::arithmetic::div_mod::lemma_fundamental_div_mod(k, w);
        let x = k % w;
        let y = k / w;
        assert(0 <= k < w * h) by (nonlinear_arith)
            requires
                k == i / 4,
                0 <= i < w * h * 4,
        ;
        vstd::arithmetic::div_mod::lemma_mod_pos_bound(k, w);
        assert(0 <= y < h) by (nonlinear_arith)
            requires
                0 <= k < w * h,
                k == w * y + x,
                0 <= x < w,
        ;
        assert(i == (y * w + x) * 4 + c) by (nonlinear_arith)
            requires
                i == 4 * k + c,
                k == w * y + x,
        ;
        assert(pixel_of(g, x, y)[c] == g.at(x, y, c));
    }
    assert(g.pixels@ =~= m);
}

/// Merging one image of positive size vertically or horizontally plans a
/// canvas of exactly its size, leaves the image unscaled, and paints every
/// canvas pixel with the image's pixel blended over the background.
pub proof fn lemma_single_image_merge(p: PreparedMerge, overlaps: Seq<u32>, bg: BackgroundColor)
    requires
        p.wf(),
        p.images@.len() == 1,
        p.direction != Direction::Smart,
        p.sizes@[0].0 > 0,
        p.sizes@[0].1 > 0,
    ensures
        p.scaled@[0] == p.sizes@[0],
        (p.width, p.height) == p.sizes@[0],
        final_height(p, overlaps) == p.height,
        forall|x: int, y: int|
            0 <= x < p.width && 0 <= y < p.height ==> #[trigger] canvas_pixel(p, overlaps, bg, 1, x, y) == blended(
                pixel_of(p.images@[0], x, y),
                bg,
            ),
{
    let (w, h) = p.sizes@[0];
    assert(p.sizes@ =~= seq![(w, h)]);
    lemma_single_image_size(w, h, p.direction);
    let img = p.images@[0];
    assert(img.wf() && (img.width, img.height) == p.scaled@[0]);
    assert forall|x: int, y: int| 0 <= x < p.width && 0 <= y < p.height implies #[trigger] canvas_pixel(
        p,
        overlaps,
        bg,
        1,
        x,
        y,
    ) == blended(pixel_of(img, x, y), bg) by {
        let (xo, yo, ct, cb) = placement(p, overlaps, 0);
        assert(xo == 0 && yo == 0 && ct == 0 && cb == 0);
        assert(crop_rows(img.height as nat, 0, 0) == (0nat, img.height as nat));
        assert(canvas_pixel(p, overlaps, bg, 1, x, y) == pasted_pixel(
            canvas_pixel(p, overlaps, bg, 0, x, y),
            img,
            x,
            y,
            xo,
            yo,
            ct,
            cb,
            bg,
        ));
    }
}

proof fn lemma_rendered_monotone(sizes: Seq<(u32, u32)>, trims: Seq<ChromeTrim>, overlaps: Seq<u32>, a: nat, b: nat)
    requires
        a <= b,
    ensures
        rendered_sum(sizes, trims, overlaps, a) <= rendered_sum(sizes, trims, overlaps, b),
    decreases b - a,
{
    if a < b {
        lemma_rendered_monotone(sizes, trims, overlaps, a, (b - 1) as nat);
    }
}

proof fn lemma_find_row(sizes: Seq<(u32, u32)>, trims: Seq<ChromeTrim>, overlaps: Seq<u32>, y: int, k: nat) -> (i: nat)
    requires
        0 <= y < rendered_sum(sizes, trims, overlaps, k),
    ensures
        i < k,
        rendered_sum(sizes, trims, overlaps, i) <= y < rendered_sum(sizes, trims, overlaps, i + 1),
    decreases k,
{
    if rendered_sum(sizes, trims, overlaps, (k - 1) as nat) <= y {
        (k - 1) as nat
    } else {
        lemma_find_row(sizes, trims, overlaps, y, (k - 1) as nat)
    }
}

/// In a smart merge the images fill the canvas row by row: image `i` owns
/// rows `rendered_sum(i) .. rendered_sum(i + 1)`, the first starting at
/// row 0 and the last ending at the canvas height, and every canvas row
/// belongs to exactly one image.
pub proof fn lemma_smart_row_partition(p: PreparedMerge, overlaps: Seq<u32>, y: int) -> (i: nat)
    requires
        p.wf(),
        p.direction == Direction::Smart,
        0 <= y < final_height(p, overlaps),
    ensures
        rendered_sum(p.scaled@, p.trims@, overlaps, 0) == 0,
        rendered_sum(p.scaled@, p.trims@, overlaps, p.images@.len()) == final_height(p, overlaps),
        i < p.images@.len(),
        rendered_sum(p.scaled@, p.trims@, overlaps, i) <= y < rendered_sum(p.scaled@, p.trims@, overlaps, i + 1),
        forall|j: nat|
            j < p.images@.len() && rendered_sum(p.scaled@, p.trims@, overlaps, j) <= y < #[trigger] rendered_sum(
                p.scaled@,
                p.trims@,
                overlaps,
                j + 1,
            ) ==> j == i,
{
    lemma_smart_rows(p, overlaps);
    let i = lemma_find_row(p.scaled@, p.trims@, overlaps, y, p.images@.len());
    assert forall|j: nat|
        j < p.images@.len() && rendered_sum(p.scaled@, p.trims@, overlaps, j) <= y < #[trigger] rendered_sum(
            p.scaled@,
            p.trims@,
            overlaps,
            j + 1,
        ) implies j == i by {
        if j < i {
            lemma_rendered_monotone(p.scaled@, p.trims@, overlaps, j + 1, i);
        } else if i < j {
            lemma_rendered_monotone(p.scaled@, p.trims@, overlaps, i + 1, j);
        }
    }
    i
}

proof fn lemma_later_images_keep_row(p: PreparedMerge, overlaps: Seq<u32>, bg: BackgroundColor, i: nat, k: nat, x: int, y: int)
    requires
        p.wf(),
        p.direction == Direction::Smart,
        i < k <= p.images@.len(),
        0 <= y < rendered_sum(p.scaled@, p.trims@, overlaps, i + 1),
    ensures
        canvas_pixel(p, overlaps, bg, k, x, y) == canvas_pixel(p, overlaps, bg, i + 1, x, y),
    decreases k,
{
    if k > i + 1 {
        lemma_later_images_keep_row(p, overlaps, bg, i, (k - 1) as nat, x, y);
        lemma_rendered_monotone(p.scaled@, p.trims@, overlaps, i + 1, (k - 1) as nat);
    }
}

/// In a smart merge, row `k` of the rows that image `i` leaves on the
/// canvas holds row `crop + k` of that image (`crop` its top trim plus its
/// overlap with the image before), blended over the background, across the
/// image's columns.
pub proof fn lemma_smart_row_content(p: PreparedMerge, overlaps: Seq<u32>, bg: BackgroundColor, i: nat, k: int, x: int)
    requires
        p.wf(),
        p.direction == Direction::Smart,
        i < p.images@.len(),
        0 <= k < rendered_rows(p.scaled@, p.trims@, overlaps, i as int),
        placement(p, overlaps, i as int).0 <= x < placement(p, overlaps, i as int).0 + p.images@[i as int].width,
    ensures
        placement(p, overlaps, i as int).1 == rendered_sum(p.scaled@, p.trims@, overlaps, i),
        canvas_pixel(p, overlaps, bg, p.images@.len(), x, rendered_sum(p.scaled@, p.trims@, overlaps, i) + k)
            == blended(
            pixel_of(
                p.images@[i as int],
                x - placement(p, overlaps, i as int).0,
                placement(p, overlaps, i as int).2 + k,
            ),
            bg,
        ),
{
    let img = p.images@[i as int];
    assert(img.wf() && (img.width, img.height) == p.scaled@[i as int]);
    let y = rendered_sum(p.scaled@, p.trims@, overlaps, i) + k;
    let (xo, yo, ct, cb) = placement(p, overlaps, i as int);
    let (top, end) = crop_rows(img.height as nat, ct, cb);
    assert(end - top == rendered_rows(p.scaled@, p.trims@, overlaps, i as int));
    assert(top == ct);
    assert(canvas_pixel(p, overlaps, bg, i + 1, x, y) == pasted_pixel(
        canvas_pixel(p, overlaps, bg, i, x, y),
        img,
        x,
        y,
        xo,
        yo,
        ct,
        cb,
        bg,
    ));
    lemma_later_images_keep_row(p, overlaps, bg, i, p.images@.len(), x, y);
}

} // verus!
