//! Overlap detection between consecutive captures of smart merges.
//!
//! A strip from the top of the lower image (the template) is searched for in
//! the upper image. This module states which templates are tried, in which
//! order, on which region, and which match positions make an acceptable
//! overlap. The correlation scores themselves are computed by the caller.

use vstd::prelude::*;
use crate::chrome::{ChromeTrim, margin_of, min_nat};
use crate::grid::{GrayGrid, GrayView, RgbaGrid, crop_gray, luma_view, to_gray, window};

verus! {

/// Base template height in pixels.
pub const TEMPLATE_HEIGHT_PX: u32 = 80;
/// Largest template height in pixels.
pub const TEMPLATE_HEIGHT_PX_MAX: u32 = 240;
/// Step between candidate template heights.
pub const TEMPLATE_HEIGHT_STEP_PX: u32 = 40;
/// Smallest template height in pixels.
pub const MIN_TEMPLATE_HEIGHT: u32 = 30;
/// Smallest template width in pixels.
pub const MIN_TEMPLATE_WIDTH: u32 = 50;
/// Smallest overlap that is accepted.
pub const MIN_OVERLAP_PIXELS: u32 = 5;
/// The fallback template start is at a fiftieth (2%) of the lower image.
pub const TEMPLATE_START_FALLBACK_DIVISOR: u32 = 50;
/// Sensitivity from which smaller templates are tried first.
pub const PREFER_SMALLER_FROM: u8 = 50;
/// Smallest template variance at sensitivity 0 and at 100.
pub const MIN_VARIANCE_CONSERVATIVE: u64 = 50;
pub const MIN_VARIANCE_AGGRESSIVE: u64 = 10;

/// Two widths are close enough for stitching: the smaller is at least 90%
/// of the larger.
pub open spec fn widths_compatible(a: nat, b: nat) -> bool {
    let lo = if a <= b { a } else { b };
    let hi = if a <= b { b } else { a };
    10 * lo >= 9 * hi
}

pub fn width_ratio_ok(a: u32, b: u32) -> (r: bool)
    ensures
        r == widths_compatible(a as nat, b as nat),
{
    let (lo, hi) = if a <= b { (a as u64, b as u64) } else { (b as u64, a as u64) };
    10 * lo >= 9 * hi
}

/// Sensitivity clamped to 100.
pub open spec fn clamped_sensitivity(sensitivity: u8) -> nat {
    if sensitivity > 100 { 100 } else { sensitivity as nat }
}

/// Whether smaller templates are tried before larger ones.
pub fn prefer_smaller_templates(sensitivity: u8) -> (r: bool)
    ensures
        r == (clamped_sensitivity(sensitivity) >= PREFER_SMALLER_FROM),
{
    sensitivity >= PREFER_SMALLER_FROM
}

/// Heights below `h` down to `lo`, one step apart.
pub open spec fn heights_down(h: nat, lo: nat) -> Seq<u32>
    decreases h,
{
    if h >= lo + TEMPLATE_HEIGHT_STEP_PX {
        seq![(h - TEMPLATE_HEIGHT_STEP_PX) as u32] + heights_down((h - TEMPLATE_HEIGHT_STEP_PX) as nat, lo)
    } else {
        seq![]
    }
}

/// Heights above `h` up to `hi`, one step apart.
pub open spec fn heights_up(h: nat, hi: nat) -> Seq<u32>
    decreases hi - h,
{
    if h + TEMPLATE_HEIGHT_STEP_PX <= hi {
        seq![(h + TEMPLATE_HEIGHT_STEP_PX) as u32] + heights_up((h + TEMPLATE_HEIGHT_STEP_PX) as nat, hi)
    } else {
        seq![]
    }
}

/// Candidate template heights in the order they are tried: the base first,
/// then the smaller ones and the larger ones, smaller first or larger first.
pub open spec fn template_heights(base: nat, lo: nat, hi: nat, prefer_smaller: bool) -> Seq<u32> {
    if prefer_smaller {
        seq![base as u32] + heights_down(base, lo) + heights_up(base, hi)
    } else {
        seq![base as u32] + heights_up(base, hi) + heights_down(base, lo)
    }
}

fn push_heights_down(heights: &mut Vec<u32>, base: u32, lo: u32)
    ensures
        final(heights)@ == old(heights)@ + heights_down(base as nat, lo as nat),
{
    let mut h = base;
    while h >= lo && h - lo >= TEMPLATE_HEIGHT_STEP_PX
        invariant
            old(heights)@ + heights_down(base as nat, lo as nat) == heights@ + heights_down(h as nat, lo as nat),
        decreases h,
    {
        let next = h - TEMPLATE_HEIGHT_STEP_PX;
        assert(heights_down(h as nat, lo as nat) =~= seq![next] + heights_down(next as nat, lo as nat));
        heights.push(next);
        assert(heights@ + heights_down(next as nat, lo as nat) =~= old(heights)@ + heights_down(
            base as nat,
            lo as nat,
        ));
        h = next;
    }
    assert(heights_down(h as nat, lo as nat) == Seq::<u32>::empty());
    assert(heights@ =~= heights@ + heights_down(h as nat, lo as nat));
}

fn push_heights_up(heights: &mut Vec<u32>, base: u32, hi: u32)
    ensures
        final(heights)@ == old(heights)@ + heights_up(base as nat, hi as nat),
{
    let mut h = base;
    while h <= hi && hi - h >= TEMPLATE_HEIGHT_STEP_PX
        invariant
            old(heights)@ + heights_up(base as nat, hi as nat) == heights@ + heights_up(h as nat, hi as nat),
        decreases hi - h,
    {
        let next = h + TEMPLATE_HEIGHT_STEP_PX;
        assert(heights_up(h as nat, hi as nat) =~= seq![next] + heights_up(next as nat, hi as nat));
        heights.push(next);
        assert(heights@ + heights_up(next as nat, hi as nat) =~= old(heights)@ + heights_up(base as nat, hi as nat));
        h = next;
    }
    assert(heights_up(h as nat, hi as nat) == Seq::<u32>::empty());
    assert(heights@ =~= heights@ + heights_up(h as nat, hi as nat));
}

/// Builds the candidate template heights: `base`, then the heights one step
/// apart down to `min_height` and up to `max_height`, smaller ones first
/// when `prefer_smaller`, larger ones first otherwise.
pub fn build_template_heights(base: u32, min_height: u32, max_height: u32, prefer_smaller: bool) -> (r: Vec<u32>)
    ensures
        r@ == template_heights(base as nat, min_height as nat, max_height as nat, prefer_smaller),
{
    let mut heights: Vec<u32> = Vec::new();
    heights.push(base);
    if prefer_smaller {
        push_heights_down(&mut heights, base, min_height);
        push_heights_up(&mut heights, base, max_height);
    } else {
        push_heights_up(&mut heights, base, max_height);
        push_heights_down(&mut heights, base, min_height);
    }
    heights
}

/// Sum of the values of `s`.
pub open spec fn value_sum(s: Seq<u8>) -> nat
    decreases s.len(),
{
    if s.len() == 0 { 0 } else { value_sum(s.drop_last()) + s.last() as nat }
}

/// Sum of the squared values of `s`.
pub open spec fn square_sum(s: Seq<u8>) -> nat
    decreases s.len(),
{
    if s.len() == 0 { 0 } else { square_sum(s.drop_last()) + (s.last() as nat) * (s.last() as nat) }
}

/// The variance of the values of `s`, E[X^2] - E[X]^2, is at least
/// `50 - 0.4 * sensitivity`: the minimum interpolated from 50 at sensitivity
/// 0 to 10 at 100. Both sides are scaled by `100 * n^2` to stay in integers.
pub open spec fn variance_sufficient(s: Seq<u8>, sensitivity: u8) -> bool {
    let n = s.len() as int;
    let k = clamped_sensitivity(sensitivity) as int;
    let min_scaled = 100 * MIN_VARIANCE_CONSERVATIVE - (MIN_VARIANCE_CONSERVATIVE - MIN_VARIANCE_AGGRESSIVE) * k;
    n > 0 && 100 * (n * square_sum(s) - value_sum(s) * value_sum(s)) >= min_scaled * n * n
}

/// Whether a template varies enough to be matched: flat templates match
/// anything and are skipped.
pub fn template_variance_ok(template: &GrayGrid, sensitivity: u8) -> (r: bool)
    requires
        template.pixels@.len() <= 0x100_0000_0000,
    ensures
        r == variance_sufficient(template.pixels@, sensitivity),
{
    let n = template.pixels.len();
    let mut sum: u128 = 0;
    let mut sq: u128 = 0;
    let mut i: usize = 0;
    while i < n
        invariant
            n == template.pixels@.len(),
            n <= 0x100_0000_0000,
            i <= n,
            sum == value_sum(template.pixels@.subrange(0, i as int)),
            sq == square_sum(template.pixels@.subrange(0, i as int)),
            sum <= 255 * i,
            sq <= 65025 * i,
        decreases n - i,
    {
        let v = template.pixels[i] as u128;
        assert(template.pixels@.subrange(0, i + 1).drop_last() =~= template.pixels@.subrange(0, i as int));
        assert(v * v <= 65025) by (nonlinear_arith)
            requires
                v <= 255,
        ;
        sum = sum + v;
        sq = sq + v * v;
        i = i + 1;
    }
    assert(template.pixels@.subrange(0, n as int) =~= template.pixels@);
    if n == 0 {
        return false;
    }
    let k: u128 = if sensitivity > 100 { 100 } else { sensitivity as u128 };
    let nn = n as u128;
    assert(nn * sq <= 0x100_0000_0000 * (65025 * 0x100_0000_0000)) by (nonlinear_arith)
        requires
            nn <= 0x100_0000_0000,
            sq <= 65025 * nn,
    ;
    assert(sum * sum <= (255 * 0x100_0000_0000) * (255 * 0x100_0000_0000)) by (nonlinear_arith)
        requires
            sum <= 255 * nn,
            nn <= 0x100_0000_0000,
    ;
    assert(nn * nn <= 0x100_0000_0000 * 0x100_0000_0000) by (nonlinear_arith)
        requires
            nn <= 0x100_0000_0000,
    ;
    assert(k <= 100);
    let conservative = MIN_VARIANCE_CONSERVATIVE as u128;
    let aggressive = MIN_VARIANCE_AGGRESSIVE as u128;
    assert(conservative == 50 && aggressive == 10);
    assert((conservative - aggressive) * k <= 4000) by (nonlinear_arith)
        requires
            conservative == 50 && aggressive == 10,
            k <= 100,
    ;
    let min_scaled: u128 = 100 * conservative - (conservative - aggressive) * k;
    let lhs_pos = nn * sq;
    assert(sum * sum <= 0x1_0000_0000_0000_0000_0000_0000) by (nonlinear_arith)
        requires
            sum <= 255 * nn,
            nn <= 0x100_0000_0000,
    ;
    let lhs_neg = sum * sum;
    let nn2 = nn * nn;
    assert(min_scaled * nn2 <= 5000 * 0x1_0000_0000_0000_0000_0000) by (nonlinear_arith)
        requires
            min_scaled <= 5000,
            nn2 <= 0x1_0000_0000_0000_0000_0000,
    ;
    let rhs = min_scaled * nn2;
    assert(min_scaled * (nn * nn) == min_scaled * nn * nn) by (nonlinear_arith);
    if lhs_pos < lhs_neg {
        return false;
    }
    100 * (lhs_pos - lhs_neg) >= rhs
}

/// The overlap implied by a match at row `match_y` of a search region
/// `top_height` rows tall, if it lies between 5 rows and the height of the
/// lower image.
pub open spec fn overlap_of_match(top_height: nat, match_y: nat, bottom_height: nat) -> Option<nat> {
    let overlap = if match_y <= top_height { (top_height - match_y) as nat } else { 0 };
    if MIN_OVERLAP_PIXELS <= overlap <= bottom_height { Some(overlap) } else { None }
}

/// The overlap that a match position gives, or `None` when it is out of
/// bounds: the rows from the match to the bottom of the upper image.
pub fn overlap_from_match(top_height: u32, match_y: u32, bottom_height: u32) -> (r: Option<u32>)
    ensures
        r matches Some(o) ==> overlap_of_match(top_height as nat, match_y as nat, bottom_height as nat) == Some(
            o as nat,
        ),
        r is None ==> overlap_of_match(top_height as nat, match_y as nat, bottom_height as nat) is None,
        r matches Some(o) ==> MIN_OVERLAP_PIXELS <= o <= bottom_height,
{
    let overlap = if match_y <= top_height { top_height - match_y } else { 0 };
    if MIN_OVERLAP_PIXELS <= overlap && overlap <= bottom_height {
        Some(overlap)
    } else {
        None
    }
}

/// What a pair of images is searched with: the region of the upper image,
/// and the templates from the lower image in the order they are tried.
pub struct OverlapSearch {
    pub region: GrayGrid,
    pub templates: Vec<GrayGrid>,
    /// Height of the upper image: overlaps are measured from its bottom.
    pub top_height: u32,
    /// Height of the lower image: the largest overlap.
    pub bottom_height: u32,
}

/// Side margin and width of the columns searched for two images, and
/// whether the pair can be searched at all.
pub open spec fn search_columns(top_w: nat, bottom_w: nat) -> (nat, nat) {
    let common = min_nat(top_w, bottom_w);
    let m = margin_of(common);
    (m, if common >= 2 * m { (common - 2 * m) as nat } else { 0 })
}

/// A pair can be searched: close widths, a search span at least 50 wide and
/// an upper image at least 30 rows tall.
pub open spec fn searchable(top: GrayView, bottom: GrayView) -> bool {
    &&& widths_compatible(top.width, bottom.width)
    &&& search_columns(top.width, bottom.width).1 >= MIN_TEMPLATE_WIDTH
    &&& top.height >= MIN_TEMPLATE_HEIGHT
}

/// Row where the `k`-th template start (0 or 1) lies in a lower image `h` rows tall.
pub open spec fn template_start(h: nat, k: nat) -> nat {
    if k == 0 { 0 } else { h / TEMPLATE_START_FALLBACK_DIVISOR as nat }
}

/// Largest template height at a start row: 240, the rows of the lower
/// image from the start, and one less than the search height.
pub open spec fn max_template_height(top: GrayView, bottom: GrayView, start: int) -> int {
    let available = bottom.height - start;
    let m1 = if available < TEMPLATE_HEIGHT_PX_MAX { available } else { TEMPLATE_HEIGHT_PX_MAX as int };
    if top.height - 1 < m1 { top.height - 1 } else { m1 }
}

/// The templates kept among the candidate heights `hs`: each a window of
/// the lower image at `(m, start)`, `w` wide, tried when its height is in
/// `30 ..= max_h` and kept when it varies enough.
pub open spec fn kept_templates(
    bottom: GrayView,
    m: int,
    start: int,
    w: nat,
    max_h: int,
    hs: Seq<u32>,
    sensitivity: u8,
) -> Seq<GrayView>
    decreases hs.len(),
{
    if hs.len() == 0 {
        seq![]
    } else {
        let prev = kept_templates(bottom, m, start, w, max_h, hs.drop_last(), sensitivity);
        let h = hs.last();
        let t = window(bottom, m, start, w, h as nat);
        if MIN_TEMPLATE_HEIGHT <= h && h <= max_h && variance_sufficient(t.pixels, sensitivity) {
            prev.push(t)
        } else {
            prev
        }
    }
}

/// The templates tried from the `k`-th start row (0% or 2% of the lower
/// image), in order: none when fewer than 30 rows are usable.
pub open spec fn start_templates(top: GrayView, bottom: GrayView, sensitivity: u8, k: nat) -> Seq<GrayView> {
    let (m, w) = search_columns(top.width, bottom.width);
    let start = template_start(bottom.height, k) as int;
    let max_h = max_template_height(top, bottom, start);
    if bottom.height - start < MIN_TEMPLATE_HEIGHT || max_h < MIN_TEMPLATE_HEIGHT {
        seq![]
    } else {
        let base = if TEMPLATE_HEIGHT_PX <= max_h { TEMPLATE_HEIGHT_PX as nat } else { max_h as nat };
        let heights = template_heights(
            base,
            MIN_TEMPLATE_HEIGHT as nat,
            max_h as nat,
            clamped_sensitivity(sensitivity) >= PREFER_SMALLER_FROM,
        );
        kept_templates(bottom, m as int, start, w, max_h, heights, sensitivity)
    }
}

/// All templates of a search, in the order they are tried.
pub open spec fn search_templates(top: GrayView, bottom: GrayView, sensitivity: u8) -> Seq<GrayView> {
    start_templates(top, bottom, sensitivity, 0) + start_templates(top, bottom, sensitivity, 1)
}

/// `r` is the overlap search of `top` over `bottom`: present exactly when
/// the pair can be searched, with the upper image less its side margins as
/// region, and the templates of `search_templates` in order.
pub open spec fn is_search_of(r: Option<OverlapSearch>, top: GrayView, bottom: GrayView, sensitivity: u8) -> bool {
    &&& r is Some <==> searchable(top, bottom)
    &&& r matches Some(s) ==> {
        let (m, w) = search_columns(top.width, bottom.width);
        let ts = search_templates(top, bottom, sensitivity);
        &&& s.top_height as nat == top.height
        &&& s.bottom_height as nat == bottom.height
        &&& s.region.wf()
        &&& s.region@ == window(top, m as int, 0, w, top.height)
        &&& s.templates@.len() == ts.len()
        &&& forall|i: int| 0 <= i < ts.len() ==> (#[trigger] s.templates@[i]).wf() && s.templates@[i]@ == ts[i]
    }
}

/// Prepares the overlap search of the grayscale upper image `top` and lower
/// image `bottom`: the search region is the upper image less its side
/// margins, and the templates are strips of the lower image starting at 0%
/// and 2% of its height, of the candidate heights, less those too flat.
pub fn overlap_search(top: &GrayGrid, bottom: &GrayGrid, sensitivity: u8) -> (r: Option<OverlapSearch>)
    requires
        top.wf(),
        bottom.wf(),
    ensures
        is_search_of(r, top@, bottom@, sensitivity),
        bottom.height < MIN_TEMPLATE_HEIGHT ==> (r matches Some(s) ==> s.templates@.len() == 0),
{
    if !width_ratio_ok(top.width, bottom.width) {
        return None;
    }
    let common = if top.width <= bottom.width { top.width } else { bottom.width };
    let margin = ((common as u64 + 20) / 40) as u32;
    let cropped_width = if common >= 2 * margin { common - 2 * margin } else { 0 };
    if cropped_width < MIN_TEMPLATE_WIDTH {
        return None;
    }
    let search_height = top.height;
    if search_height < MIN_TEMPLATE_HEIGHT {
        return None;
    }
    let region = crop_gray(top, margin, 0, cropped_width, search_height);
    let prefer_smaller = prefer_smaller_templates(sensitivity);
    let bottom_h = bottom.height;
    let mut templates: Vec<GrayGrid> = Vec::new();
    let ghost done: Seq<GrayView> = seq![];
    let mut k: u32 = 0;
    while k < 2
        invariant
            top.wf(),
            bottom.wf(),
            (margin as nat, cropped_width as nat) == search_columns(top.width as nat, bottom.width as nat),
            margin + cropped_width <= bottom.width,
            search_height == top.height,
            search_height >= MIN_TEMPLATE_HEIGHT,
            bottom_h == bottom.height,
            prefer_smaller == (clamped_sensitivity(sensitivity) >= PREFER_SMALLER_FROM),
            k <= 2,
            k == 0 ==> done == Seq::<GrayView>::empty(),
            k == 1 ==> done == start_templates(top@, bottom@, sensitivity, 0),
            k == 2 ==> done == search_templates(top@, bottom@, sensitivity),
            templates@.len() == done.len(),
            forall|i: int| 0 <= i < done.len() ==> (#[trigger] templates@[i]).wf() && templates@[i]@ == done[i],
        decreases 2 - k,
    {
        let start = if k == 0 { 0 } else { bottom_h / TEMPLATE_START_FALLBACK_DIVISOR };
        let available = bottom_h - start;
        let mut max_height = TEMPLATE_HEIGHT_PX_MAX;
        if available < max_height {
            max_height = available;
        }
        if search_height - 1 < max_height {
            max_height = search_height - 1;
        }
        assert(start == template_start(bottom.height as nat, k as nat));
        assert(max_height == max_template_height(top@, bottom@, start as int));
        let ghost before = done;
        if available >= MIN_TEMPLATE_HEIGHT && max_height >= MIN_TEMPLATE_HEIGHT {
            let base = if TEMPLATE_HEIGHT_PX <= max_height { TEMPLATE_HEIGHT_PX } else { max_height };
            let heights = build_template_heights(base, MIN_TEMPLATE_HEIGHT, max_height, prefer_smaller);
            let mut j: usize = 0;
            while j < heights.len()
                invariant
                    top.wf(),
                    bottom.wf(),
                    (margin as nat, cropped_width as nat) == search_columns(top.width as nat, bottom.width as nat),
                    margin + cropped_width <= bottom.width,
                    search_height == top.height,
                    bottom_h == bottom.height,
                    start + max_height <= bottom_h,
                    MIN_TEMPLATE_HEIGHT <= max_height <= TEMPLATE_HEIGHT_PX_MAX,
                    j <= heights@.len(),
                    done == before + kept_templates(
                        bottom@,
                        margin as int,
                        start as int,
                        cropped_width as nat,
                        max_height as int,
                        heights@.subrange(0, j as int),
                        sensitivity,
                    ),
                    templates@.len() == done.len(),
                    forall|i: int| 0 <= i < done.len() ==> (#[trigger] templates@[i]).wf() && templates@[i]@ == done[i],
                decreases heights@.len() - j,
            {
                let h = heights[j];
                let ghost prev = done;
                let ghost hs = heights@.subrange(0, j + 1);
                assert(hs.drop_last() =~= heights@.subrange(0, j as int));
                assert(hs.last() == h);
                if MIN_TEMPLATE_HEIGHT <= h && h <= max_height {
                    let template = crop_gray(bottom, margin, start, cropped_width, h);
                    assert(template.pixels@.len() <= 0x100_0000_0000) by (nonlinear_arith)
                        requires
                            template.pixels@.len() == cropped_width as nat * h as nat,
                            cropped_width <= 0xffff_ffffu32,
                            h <= 240,
                    ;
                    if template_variance_ok(&template, sensitivity) {
                        templates.push(template);
                        proof {
                            done = prev.push(template@);
                            assert(done =~= before + kept_templates(
                                bottom@,
                                margin as int,
                                start as int,
                                cropped_width as nat,
                                max_height as int,
                                hs,
                                sensitivity,
                            ));
                        }
                    } else {
                        assert(done =~= before + kept_templates(
                            bottom@,
                            margin as int,
                            start as int,
                            cropped_width as nat,
                            max_height as int,
                            hs,
                            sensitivity,
                        ));
                    }
                } else {
                    assert(done =~= before + kept_templates(
                        bottom@,
                        margin as int,
                        start as int,
                        cropped_width as nat,
                        max_height as int,
                        hs,
                        sensitivity,
                    ));
                }
                j = j + 1;
            }
            assert(heights@.subrange(0, heights@.len() as int) =~= heights@);
        }
        assert(done =~= before + start_templates(top@, bottom@, sensitivity, k as nat));
        k = k + 1;
    }
    Some(OverlapSearch { region, templates, top_height: top.height, bottom_height: bottom.height })
}

/// The grayscale view of the rows of `img` that remain after `trim`.
pub open spec fn trimmed_view(img: RgbaGrid, trim: ChromeTrim) -> GrayView {
    window(luma_view(img), 0, trim.top as int, img.width as nat, (img.height - trim.top - trim.bottom) as nat)
}

/// The grayscale rows of an image that remain after its chrome trims.
pub fn trimmed_gray(img: &RgbaGrid, trim: ChromeTrim) -> (r: GrayGrid)
    requires
        img.wf(),
        trim.top + trim.bottom <= img.height,
    ensures
        r.wf(),
        r.width == img.width,
        r.height == img.height - trim.top - trim.bottom,
        r@ == trimmed_view(*img, trim),
{
    let gray = to_gray(img);
    crop_gray(&gray, 0, trim.top, img.width, img.height - trim.top - trim.bottom)
}

/// Match threshold in millionths at sensitivity 0 (0.86) and its drop per
/// sensitivity point (to 0.76 at 100).
pub const MATCH_THRESHOLD_CONSERVATIVE: i64 = 860000;
pub const MATCH_THRESHOLD_STEP: i64 = 1000;
/// Ambiguity gap in millionths at sensitivity 0 (0.04) and its drop per
/// sensitivity point (to 0.01 at 100).
pub const AMBIGUITY_GAP_CONSERVATIVE: i64 = 40000;
pub const AMBIGUITY_GAP_STEP: i64 = 300;

/// The score that stands for a non-finite correlation.
pub open spec fn non_finite() -> i64 {
    i64::MIN
}

/// Smallest best score that is accepted, in millionths.
pub open spec fn match_threshold(sensitivity: u8) -> int {
    MATCH_THRESHOLD_CONSERVATIVE - MATCH_THRESHOLD_STEP * clamped_sensitivity(sensitivity)
}

/// Smallest margin of the best score over the second best, in millionths.
pub open spec fn ambiguity_gap(sensitivity: u8) -> int {
    AMBIGUITY_GAP_CONSERVATIVE - AMBIGUITY_GAP_STEP * clamped_sensitivity(sensitivity)
}

/// Index of the first largest of the first `k` scores (`k >= 1`).
pub open spec fn best_index(s: Seq<i64>, k: nat) -> nat
    decreases k,
{
    if k <= 1 {
        0
    } else {
        let m = best_index(s, (k - 1) as nat);
        if s[k - 1] > s[m as int] { (k - 1) as nat } else { m }
    }
}

/// Position `i` of a row-major result `w` wide lies within `ex` columns and
/// `ey` rows of `(bx, by)`.
pub open spec fn in_exclusion_zone(i: int, w: int, bx: int, by: int, ex: int, ey: int) -> bool {
    let x = i % w;
    let y = i / w;
    (if x >= bx { x - bx } else { bx - x }) <= ex && (if y >= by { y - by } else { by - y }) <= ey
}

/// Largest of the first `k` scores outside the exclusion zone, or the
/// non-finite score when there is none.
pub open spec fn second_best(s: Seq<i64>, k: nat, w: int, bx: int, by: int, ex: int, ey: int) -> i64
    decreases k,
{
    if k == 0 {
        non_finite()
    } else {
        let prev = second_best(s, (k - 1) as nat, w, bx, by, ex, ey);
        if in_exclusion_zone(k - 1, w, bx, by, ex, ey) || s[k - 1] <= prev { prev } else { s[k - 1] }
    }
}

/// Half-size of the exclusion zone along a template side `len` long.
pub open spec fn exclusion(len: nat) -> nat {
    if len / 4 >= 2 { len / 4 } else { 2 }
}

/// The overlap that a correlation result gives, if its match is accepted:
/// the best score is finite and reaches the threshold, it beats every score
/// outside the exclusion zone around it by the ambiguity gap, and the
/// overlap it implies is in bounds.
pub open spec fn accepted_overlap(
    s: Seq<i64>,
    w: nat,
    template_width: nat,
    template_height: nat,
    top_height: nat,
    bottom_height: nat,
    sensitivity: u8,
) -> Option<nat> {
    let bi = best_index(s, s.len());
    let best = s[bi as int];
    let bx = bi as int % w as int;
    let by = bi as int / w as int;
    let second = second_best(s, s.len(), w as int, bx, by, exclusion(template_width) as int, exclusion(template_height) as int);
    if best == non_finite() || best < match_threshold(sensitivity) {
        None
    } else if best - second < ambiguity_gap(sensitivity) {
        None
    } else {
        overlap_of_match(top_height, by as nat, bottom_height)
    }
}

/// Decides whether the correlation result of one template accepts a match,
/// and returns the overlap it gives. `scores` holds the result row by row,
/// `result_width` per row, in millionths; `i64::MIN` marks a non-finite
/// score.
pub fn accept_match(
    scores: &Vec<i64>,
    result_width: u32,
    template_width: u32,
    template_height: u32,
    top_height: u32,
    bottom_height: u32,
    sensitivity: u8,
) -> (r: Option<u32>)
    requires
        scores@.len() >= 1,
        result_width >= 1,
    ensures
        r matches Some(o) ==> accepted_overlap(
            scores@,
            result_width as nat,
            template_width as nat,
            template_height as nat,
            top_height as nat,
            bottom_height as nat,
            sensitivity,
        ) == Some(o as nat),
        r is None ==> accepted_overlap(
            scores@,
            result_width as nat,
            template_width as nat,
            template_height as nat,
            top_height as nat,
            bottom_height as nat,
            sensitivity,
        ) is None,
        r matches Some(o) ==> {
            let s = scores@;
            let bi = best_index(s, s.len());
            let best = s[bi as int];
            let second = second_best(
                s,
                s.len(),
                result_width as int,
                bi as int % result_width as int,
                bi as int / result_width as int,
                exclusion(template_width as nat) as int,
                exclusion(template_height as nat) as int,
            );
            &&& best >= match_threshold(sensitivity)
            &&& best - second >= ambiguity_gap(sensitivity)
            &&& MIN_OVERLAP_PIXELS <= o <= bottom_height
        },
{
    let n = scores.len();
    let w = result_width as usize;
    let mut bi: usize = 0;
    let mut i: usize = 1;
    while i < n
        invariant
            n == scores@.len(),
            1 <= i <= n,
            bi == best_index(scores@, i as nat),
            bi < i,
        decreases n - i,
    {
        if scores[i] > scores[bi] {
            bi = i;
        }
        i = i + 1;
    }
    let best = scores[bi];
    let bx = bi % w;
    let by = bi / w;
    let k: i64 = if sensitivity > 100 { 100 } else { sensitivity as i64 };
    let threshold = MATCH_THRESHOLD_CONSERVATIVE - MATCH_THRESHOLD_STEP * k;
    let gap = AMBIGUITY_GAP_CONSERVATIVE - AMBIGUITY_GAP_STEP * k;
    if best == i64::MIN || best < threshold {
        return None;
    }
    let ex: usize = if template_width / 4 >= 2 { (template_width / 4) as usize } else { 2 };
    let ey: usize = if template_height / 4 >= 2 { (template_height / 4) as usize } else { 2 };
    let mut second: i64 = i64::MIN;
    let mut j: usize = 0;
    let mut x: usize = 0;
    let mut y: usize = 0;
    while j < n
        invariant
            n == scores@.len(),
            w == result_width,
            w >= 1,
            j <= n,
            x < w,
            j == y * w + x,
            bx == bi as int % w as int,
            by == bi as int / w as int,
            ex == exclusion(template_width as nat),
            ey == exclusion(template_height as nat),
            second == second_best(scores@, j as nat, w as int, bx as int, by as int, ex as int, ey as int),
        decreases n - j,
    {
        proof {
            vstd::arithmetic::div_mod::lemma_fundamental_div_mod_converse(j as int, w as int, y as int, x as int);
        }
        let dx = if x >= bx { x - bx } else { bx - x };
        let dy = if y >= by { y - by } else { by - y };
        let excluded = dx <= ex && dy <= ey;
        if !excluded && scores[j] > second {
            second = scores[j];
        }
        j = j + 1;
        if x + 1 < w {
            x = x + 1;
        } else {
            assert((y + 1) * w == y * w + w) by (nonlinear_arith);
            x = 0;
            y = y + 1;
        }
    }
    if (best as i128) - (second as i128) < gap as i128 {
        return None;
    }
    assert(by <= bi);
    let by32: u32 = if by <= u32::MAX as usize { by as u32 } else { u32::MAX };
    if by > u32::MAX as usize {
        assert(overlap_of_match(top_height as nat, by as nat, bottom_height as nat) is None);
        return None;
    }
    overlap_from_match(top_height, by32, bottom_height)
}

} // verus!
