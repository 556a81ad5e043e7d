//! Chrome-strip pre-pass of smart merges.
//!
//! Screenshots often repeat the same header and footer bars. Such bars make
//! strong false matches for overlap detection, so near-identical bands at the
//! top and bottom of adjacent images are found first and trimmed.

use vstd::prelude::*;
use crate::grid::{GrayGrid, GrayView, RgbaGrid, luma_of, resize_gray_triangle, to_gray, triangle_resized};

verus! {

/// Pixels to trim from the top and the bottom of one image.
#[derive(Debug, Clone, Copy, PartialEq, Eq, Structural)]
pub struct ChromeTrim {
    pub top: u32,
    pub bottom: u32,
}

impl Default for ChromeTrim {
    fn default() -> (t: Self)
        ensures
            t == (ChromeTrim { top: 0, bottom: 0 }),
    {
        ChromeTrim { top: 0, bottom: 0 }
    }
}

/// Width of the grayscale proxies that rows are compared on.
pub const PROXY_WIDTH: u32 = 320;
/// Largest luma difference of two pixels that still count as alike.
pub const PIXEL_DELTA: u8 = 12;
/// Percentage of alike pixels that makes two rows similar.
pub const ROW_MATCH_PERCENT: u64 = 97;
/// Largest mean absolute luma difference of two similar rows.
pub const ROW_MEAN_ABS_DELTA_MAX: u64 = 6;
/// Largest trim of one edge in pixels.
pub const MAX_TRIM_PX: u32 = 240;
/// A trim is at most a fifth of the image height.
pub const MAX_TRIM_DIVISOR: u32 = 5;
/// Rows of content that must survive the trims of one image.
pub const MIN_CONTENT_PX: u32 = 50;
/// The side margins are a fortieth (2.5%) of the width each.
pub const MARGIN_DIVISOR: u32 = 40;

pub open spec fn min_nat(a: nat, b: nat) -> nat {
    if a <= b { a } else { b }
}

/// `num / den` rounded half up; 0 when `den` is 0.
pub open spec fn round_div(num: nat, den: nat) -> nat {
    if den == 0 { 0 } else { (num + den / 2) / den }
}

/// `num / den` rounded half up; 0 when `den` is 0.
pub fn round_half_up_u64(num: u64, den: u64) -> (r: u64)
    requires
        num + den / 2 <= u64::MAX,
    ensures
        r == round_div(num as nat, den as nat),
{
    if den == 0 {
        return 0;
    }
    (num + den / 2) / den
}

/// Side margin of a span `width` wide: 2.5% of it, rounded half up.
pub open spec fn margin_of(width: nat) -> nat {
    round_div(width, MARGIN_DIVISOR as nat)
}

/// Start and width of the columns that two rows of widths `wa` and `wb`
/// are compared on: their common width less a margin on each side.
pub open spec fn span_of(wa: nat, wb: nat) -> (nat, nat) {
    let common = min_nat(wa, wb);
    let m = margin_of(common);
    if common == 0 {
        (0, 0)
    } else if common >= 2 * m {
        (m, (common - 2 * m) as nat)
    } else {
        (m, 0)
    }
}

/// The common column span of two widths.
pub fn common_span(wa: u32, wb: u32) -> (r: (u32, u32))
    ensures
        (r.0 as nat, r.1 as nat) == span_of(wa as nat, wb as nat),
        r.0 + r.1 <= wa,
        r.0 + r.1 <= wb,
{
    let common = if wa <= wb { wa } else { wb };
    if common == 0 {
        return (0, 0);
    }
    let c64 = common as u64;
    assert(MARGIN_DIVISOR == 40);
    let m64: u64 = (c64 + 20) / 40;
    assert(m64 <= c64) by (nonlinear_arith)
        requires
            m64 == (c64 + 20) / 40,
            c64 >= 1,
    ;
    let m = m64 as u32;
    if common as u64 >= 2 * m64 {
        (m, (common as u64 - 2 * m64) as u32)
    } else {
        (m, 0)
    }
}

pub open spec fn abs_diff(a: u8, b: u8) -> nat {
    if a >= b { (a - b) as nat } else { (b - a) as nat }
}

/// Among the first `k` columns of the span from `x0`, those where row `ay`
/// of `a` and row `by` of `b` differ by at most the pixel delta.
pub open spec fn close_count(a: GrayView, b: GrayView, x0: int, ay: int, by: int, k: nat) -> nat
    decreases k,
{
    if k == 0 {
        0
    } else {
        close_count(a, b, x0, ay, by, (k - 1) as nat) + if abs_diff(a.at(x0 + k - 1, ay), b.at(x0 + k - 1, by))
            <= PIXEL_DELTA as nat {
            1nat
        } else {
            0nat
        }
    }
}

/// Sum of the absolute differences over the first `k` columns from `x0`.
pub open spec fn diff_sum(a: GrayView, b: GrayView, x0: int, ay: int, by: int, k: nat) -> nat
    decreases k,
{
    if k == 0 {
        0
    } else {
        diff_sum(a, b, x0, ay, by, (k - 1) as nat) + abs_diff(a.at(x0 + k - 1, ay), b.at(x0 + k - 1, by))
    }
}

/// Row `ay` of `a` and row `by` of `b` are similar over `w` columns from
/// `x0`: at least 97% of the pixel pairs are alike, and the mean absolute
/// difference is at most 6.
pub open spec fn rows_alike(a: GrayView, b: GrayView, x0: int, w: nat, ay: int, by: int) -> bool {
    &&& w > 0
    &&& 100 * close_count(a, b, x0, ay, by, w) >= ROW_MATCH_PERCENT * w
    &&& diff_sum(a, b, x0, ay, by, w) <= ROW_MEAN_ABS_DELTA_MAX * w
}

/// Number of similar rows from row `y` on, counting down from the top.
pub open spec fn top_run(a: GrayView, b: GrayView, x0: int, w: nat, y: nat, max: nat) -> nat
    decreases max - y,
{
    if y >= max || !rows_alike(a, b, x0, w, y as int, y as int) {
        y
    } else {
        top_run(a, b, x0, w, y + 1, max)
    }
}

/// Number of similar rows from the `i`-th last row on, counting up from the bottom.
pub open spec fn bottom_run(a: GrayView, b: GrayView, x0: int, w: nat, i: nat, max: nat) -> nat
    decreases max - i,
{
    if i >= max || !rows_alike(a, b, x0, w, a.height - 1 - i, b.height - 1 - i) {
        i
    } else {
        bottom_run(a, b, x0, w, i + 1, max)
    }
}

/// Rows shared at the top of two proxies.
pub open spec fn common_rows_top(a: GrayView, b: GrayView) -> nat {
    let (x0, w) = span_of(a.width, b.width);
    top_run(a, b, x0 as int, w, 0, min_nat(a.height, b.height))
}

/// Rows shared at the bottom of two proxies.
pub open spec fn common_rows_bottom(a: GrayView, b: GrayView) -> nat {
    let (x0, w) = span_of(a.width, b.width);
    bottom_run(a, b, x0 as int, w, 0, min_nat(a.height, b.height))
}

/// Whether two rows are similar over the span `x0..x0 + w`.
fn rows_similar(a: &GrayGrid, b: &GrayGrid, x0: u32, w: u32, ay: u32, by: u32) -> (r: bool)
    requires
        a.wf(),
        b.wf(),
        w > 0 ==> x0 + w <= a.width && x0 + w <= b.width && ay < a.height && by < b.height,
    ensures
        r == rows_alike(a@, b@, x0 as int, w as nat, ay as int, by as int),
{
    if w == 0 {
        return false;
    }
    let mut match_count: u64 = 0;
    let mut sum_abs: u64 = 0;
    let mut k: u32 = 0;
    while k < w
        invariant
            a.wf(),
            b.wf(),
            x0 + w <= a.width,
            x0 + w <= b.width,
            ay < a.height,
            by < b.height,
            k <= w,
            match_count == close_count(a@, b@, x0 as int, ay as int, by as int, k as nat),
            sum_abs == diff_sum(a@, b@, x0 as int, ay as int, by as int, k as nat),
            match_count <= k,
            sum_abs <= 255 * k,
        decreases w - k,
    {
        let av = a.get(x0 + k, ay);
        let bv = b.get(x0 + k, by);
        let diff = if av >= bv { av - bv } else { bv - av };
        if diff <= PIXEL_DELTA {
            match_count = match_count + 1;
        }
        sum_abs = sum_abs + diff as u64;
        k = k + 1;
    }
    100 * match_count >= ROW_MATCH_PERCENT * (w as u64) && sum_abs <= ROW_MEAN_ABS_DELTA_MAX * (w as u64)
}

proof fn lemma_top_run_bounds(a: GrayView, b: GrayView, x0: int, w: nat, y: nat, max: nat)
    requires
        y <= max,
    ensures
        y <= top_run(a, b, x0, w, y, max) <= max,
    decreases max - y,
{
    if y < max && rows_alike(a, b, x0, w, y as int, y as int) {
        lemma_top_run_bounds(a, b, x0, w, y + 1, max);
    }
}

proof fn lemma_bottom_run_bounds(a: GrayView, b: GrayView, x0: int, w: nat, i: nat, max: nat)
    requires
        i <= max,
    ensures
        i <= bottom_run(a, b, x0, w, i, max) <= max,
    decreases max - i,
{
    if i < max && rows_alike(a, b, x0, w, a.height - 1 - i, b.height - 1 - i) {
        lemma_bottom_run_bounds(a, b, x0, w, i + 1, max);
    }
}

/// Counts the similar rows shared at the top of two proxies.
fn count_common_rows_top(a: &GrayGrid, b: &GrayGrid) -> (r: u32)
    requires
        a.wf(),
        b.wf(),
    ensures
        r == common_rows_top(a@, b@),
        r <= a.height,
        r <= b.height,
{
    let max_rows = if a.height <= b.height { a.height } else { b.height };
    let (x0, w) = common_span(a.width, b.width);
    let mut y: u32 = 0;
    while y < max_rows
        invariant
            a.wf(),
            b.wf(),
            max_rows == min_nat(a.height as nat, b.height as nat),
            (x0 as nat, w as nat) == span_of(a.width as nat, b.width as nat),
            x0 + w <= a.width,
            x0 + w <= b.width,
            y <= max_rows,
            top_run(a@, b@, x0 as int, w as nat, 0, max_rows as nat) == top_run(
                a@,
                b@,
                x0 as int,
                w as nat,
                y as nat,
                max_rows as nat,
            ),
        ensures
            top_run(a@, b@, x0 as int, w as nat, y as nat, max_rows as nat) == y,
        decreases max_rows - y,
    {
        if !rows_similar(a, b, x0, w, y, y) {
            break;
        }
        y = y + 1;
    }
    y
}

/// Counts the similar rows shared at the bottom of two proxies.
fn count_common_rows_bottom(a: &GrayGrid, b: &GrayGrid) -> (r: u32)
    requires
        a.wf(),
        b.wf(),
    ensures
        r == common_rows_bottom(a@, b@),
        r <= a.height,
        r <= b.height,
{
    let max_rows = if a.height <= b.height { a.height } else { b.height };
    let (x0, w) = common_span(a.width, b.width);
    let mut i: u32 = 0;
    while i < max_rows
        invariant
            a.wf(),
            b.wf(),
            max_rows == min_nat(a.height as nat, b.height as nat),
            (x0 as nat, w as nat) == span_of(a.width as nat, b.width as nat),
            x0 + w <= a.width,
            x0 + w <= b.width,
            i <= max_rows,
            bottom_run(a@, b@, x0 as int, w as nat, 0, max_rows as nat) == bottom_run(
                a@,
                b@,
                x0 as int,
                w as nat,
                i as nat,
                max_rows as nat,
            ),
        ensures
            bottom_run(a@, b@, x0 as int, w as nat, i as nat, max_rows as nat) == i,
        decreases max_rows - i,
    {
        if !rows_similar(a, b, x0, w, a.height - 1 - i, b.height - 1 - i) {
            break;
        }
        i = i + 1;
    }
    i
}

/// Proxy rows converted to pixels of the full-size image, rounded half up.
pub open spec fn rows_to_pixels(rows: nat, orig_h: nat, proxy_h: nat) -> nat {
    if rows == 0 || orig_h == 0 || proxy_h == 0 { 0 } else { round_div(rows * orig_h, proxy_h) }
}

fn proxy_rows_to_pixels(rows: u32, orig_h: u32, proxy_h: u32) -> (r: u32)
    requires
        rows <= proxy_h,
    ensures
        r == rows_to_pixels(rows as nat, orig_h as nat, proxy_h as nat),
        r <= orig_h,
{
    if rows == 0 || orig_h == 0 || proxy_h == 0 {
        return 0;
    }
    assert((rows as nat) * (orig_h as nat) <= 0xffff_ffff * 0xffff_ffff) by (nonlinear_arith)
        requires
            rows <= 0xffff_ffffu32,
            orig_h <= 0xffff_ffffu32,
    ;
    let num = (rows as u64) * (orig_h as u64);
    assert(num <= (proxy_h as nat) * (orig_h as nat)) by (nonlinear_arith)
        requires
            num == (rows as nat) * (orig_h as nat),
            rows <= proxy_h,
    ;
    assert((proxy_h as nat) * (orig_h as nat) <= 0xffff_ffff * 0xffff_ffff) by (nonlinear_arith)
        requires
            proxy_h <= 0xffff_ffffu32,
            orig_h <= 0xffff_ffffu32,
    ;
    let r = round_half_up_u64(num, proxy_h as u64);
    assert(r <= orig_h) by (nonlinear_arith)
        requires
            r as int == (num as int + proxy_h as int / 2) / (proxy_h as int),
            num <= (proxy_h as nat) * (orig_h as nat),
            proxy_h > 0,
    ;
    r as u32
}

/// Largest trim of one edge of an image `height` rows tall: 240 pixels, a
/// fifth of the height rounded half up, and the height itself.
pub open spec fn trim_limit(height: nat) -> nat {
    min_nat(min_nat(MAX_TRIM_PX as nat, round_div(height, MAX_TRIM_DIVISOR as nat)), height)
}

fn clamp_trim(trim: u32, height: u32) -> (r: u32)
    ensures
        r == min_nat(trim as nat, trim_limit(height as nat)),
{
    if height == 0 {
        return 0;
    }
    let by_fraction = ((height as u64 + (MAX_TRIM_DIVISOR / 2) as u64) / MAX_TRIM_DIVISOR as u64) as u32;
    let mut r = trim;
    if r > MAX_TRIM_PX {
        r = MAX_TRIM_PX;
    }
    if r > by_fraction {
        r = by_fraction;
    }
    if r > height {
        r = height;
    }
    r
}

/// The trims of an image `height` rows tall once at least 50 rows of content
/// (or all of a shorter image) are kept: trims that would leave less are
/// dropped together.
pub open spec fn enforced(t: ChromeTrim, height: nat) -> ChromeTrim {
    let min_content = min_nat(MIN_CONTENT_PX as nat, height);
    if height == 0 || t.top + t.bottom > height - min_content {
        ChromeTrim { top: 0, bottom: 0 }
    } else {
        t
    }
}

/// Drops both trims of an image when together they would leave fewer than
/// 50 rows of content.
pub fn enforce_min_content(trim: ChromeTrim, height: u32) -> (r: ChromeTrim)
    ensures
        r == enforced(trim, height as nat),
        trim.top + trim.bottom > height - MIN_CONTENT_PX ==> r == (ChromeTrim { top: 0, bottom: 0 }),
        trim.top + trim.bottom <= height - MIN_CONTENT_PX ==> r == trim,
{
    if height == 0 {
        return ChromeTrim::default();
    }
    let total: u64 = trim.top as u64 + trim.bottom as u64;
    let min_content = if MIN_CONTENT_PX <= height { MIN_CONTENT_PX } else { height };
    if total > (height - min_content) as u64 {
        ChromeTrim { top: 0, bottom: 0 }
    } else {
        trim
    }
}

/// Size of the proxy of an image: at most 320 wide, height scaled in
/// proportion and rounded half up, at least 1 and at most the height.
pub open spec fn proxy_size(width: nat, height: nat) -> (nat, nat) {
    let w = if width == 0 { 1 } else { width };
    let h = if height == 0 { 1 } else { height };
    let tw = min_nat(PROXY_WIDTH as nat, w);
    let th = round_div(h * tw, w);
    (tw, if th < 1 { 1 } else if th > h { h } else { th })
}

/// The grayscale proxy of an image.
pub open spec fn proxy_view(img: RgbaGrid) -> GrayView {
    let (tw, th) = proxy_size(img.width as nat, img.height as nat);
    let gray = luma_of(img.pixels@);
    GrayView {
        width: tw,
        height: th,
        pixels: if img.width == tw && img.height == th {
            gray
        } else {
            triangle_resized(gray, img.width, img.height, tw as u32, th as u32)
        },
    }
}

fn build_proxy(img: &RgbaGrid) -> (r: GrayGrid)
    requires
        img.wf(),
    ensures
        r.wf(),
        r@ == proxy_view(*img),
{
    let w = if img.width == 0 { 1 } else { img.width };
    let h = if img.height == 0 { 1 } else { img.height };
    let target_w = if PROXY_WIDTH <= w { PROXY_WIDTH } else { w };
    assert((h as nat) * (target_w as nat) <= 0xffff_ffff * 320) by (nonlinear_arith)
        requires
            h <= 0xffff_ffffu32,
            target_w <= 320,
    ;
    let scaled = round_half_up_u64((h as u64) * (target_w as u64), w as u64);
    let target_h: u32 = if scaled < 1 { 1 } else if scaled > h as u64 { h } else { scaled as u32 };
    let gray = to_gray(img);
    if gray.width == target_w && gray.height == target_h {
        return gray;
    }
    resize_gray_triangle(&gray, target_w, target_h)
}

/// Top trim of image `i` from the rows it shares with image `i - 1`.
pub open spec fn raw_top_trim(images: Seq<RgbaGrid>, i: int) -> nat {
    if i <= 0 {
        0
    } else {
        let prev = proxy_view(images[i - 1]);
        let curr = proxy_view(images[i]);
        let h = images[i].height as nat;
        min_nat(rows_to_pixels(common_rows_top(prev, curr), h, curr.height), trim_limit(h))
    }
}

/// Bottom trim of image `i` from the rows it shares with image `i + 1`.
pub open spec fn raw_bottom_trim(images: Seq<RgbaGrid>, i: int) -> nat {
    if i + 1 >= images.len() {
        0
    } else {
        let prev = proxy_view(images[i]);
        let curr = proxy_view(images[i + 1]);
        let h = images[i].height as nat;
        min_nat(rows_to_pixels(common_rows_bottom(prev, curr), h, prev.height), trim_limit(h))
    }
}

/// The chrome trim of image `i` of a sequence.
pub open spec fn chrome_trim_at(images: Seq<RgbaGrid>, i: int) -> ChromeTrim {
    let t = enforced(
        ChromeTrim { top: raw_top_trim(images, i) as u32, bottom: raw_bottom_trim(images, i) as u32 },
        images[i].height as nat,
    );
    ChromeTrim {
        top: if i == 0 { 0 } else { t.top },
        bottom: if i == images.len() - 1 { 0 } else { t.bottom },
    }
}

/// Computes the chrome trims of each image of a sequence: the top of each
/// image is trimmed by the rows it shares with the top of the one before,
/// the bottom by the rows it shares with the bottom of the one after.
pub fn compute_chrome_trims(images: &[RgbaGrid]) -> (trims: Vec<ChromeTrim>)
    requires
        forall|i: int| 0 <= i < images@.len() ==> (#[trigger] images@[i]).wf(),
    ensures
        trims@.len() == images@.len(),
        forall|i: int| 0 <= i < images@.len() ==> #[trigger] trims@[i] == chrome_trim_at(images@, i),
        images@.len() >= 1 ==> trims@[0].top == 0 && trims@[images@.len() - 1].bottom == 0,
        forall|i: int|
            0 <= i < images@.len() ==> #[trigger] trims@[i] == (ChromeTrim { top: 0, bottom: 0 }) || trims@[i].top
                + trims@[i].bottom <= images@[i].height - MIN_CONTENT_PX,
{
    let n = images.len();
    let mut proxies: Vec<GrayGrid> = Vec::with_capacity(n);
    let mut i: usize = 0;
    while i < n
        invariant
            n == images@.len(),
            i <= n,
            proxies@.len() == i,
            forall|j: int| 0 <= j < images@.len() ==> (#[trigger] images@[j]).wf(),
            forall|j: int| 0 <= j < i ==> (#[trigger] proxies@[j]).wf() && proxies@[j]@ == proxy_view(images@[j]),
        decreases n - i,
    {
        proxies.push(build_proxy(&images[i]));
        i = i + 1;
    }
    let mut trims: Vec<ChromeTrim> = Vec::with_capacity(n);
    let mut i: usize = 0;
    while i < n
        invariant
            n == images@.len(),
            i <= n,
            proxies@.len() == n,
            trims@.len() == i,
            forall|j: int| 0 <= j < images@.len() ==> (#[trigger] images@[j]).wf(),
            forall|j: int| 0 <= j < n ==> (#[trigger] proxies@[j]).wf() && proxies@[j]@ == proxy_view(images@[j]),
            forall|j: int| 0 <= j < i ==> #[trigger] trims@[j] == chrome_trim_at(images@, j),
        decreases n - i,
    {
        let h = images[i].height;
        let mut top: u32 = 0;
        if i > 0 {
            let rows = count_common_rows_top(&proxies[i - 1], &proxies[i]);
            top = clamp_trim(proxy_rows_to_pixels(rows, h, proxies[i].height), h);
        }
        let mut bottom: u32 = 0;
        if i + 1 < n {
            let rows = count_common_rows_bottom(&proxies[i], &proxies[i + 1]);
            bottom = clamp_trim(proxy_rows_to_pixels(rows, h, proxies[i].height), h);
        }
        let mut t = enforce_min_content(ChromeTrim { top, bottom }, h);
        if i == 0 {
            t.top = 0;
        }
        if i == n - 1 {
            t.bottom = 0;
        }
        trims.push(t);
        i = i + 1;
    }
    proof {
        assert forall|j: int| 0 <= j < images@.len() implies #[trigger] trims@[j] == (ChromeTrim { top: 0, bottom: 0 })
            || trims@[j].top + trims@[j].bottom <= images@[j].height - MIN_CONTENT_PX by {
            assert(trims@[j] == chrome_trim_at(images@, j));
        }
    }
    trims
}

} // verus!
