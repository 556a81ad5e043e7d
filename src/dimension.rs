//! Dimension planning: the common target extent, each image's scaled size,
//! and the size of the output canvas.

use vstd::prelude::*;
use crate::types::Direction;

verus! {

/// Largest width in `d`, 0 when empty.
pub open spec fn max_width(d: Seq<(u32, u32)>) -> nat
    decreases d.len(),
{
    if d.len() == 0 {
        0
    } else {
        let m = max_width(d.drop_last());
        if d.last().0 as nat > m { d.last().0 as nat } else { m }
    }
}

/// Largest height in `d`, 0 when empty.
pub open spec fn max_height(d: Seq<(u32, u32)>) -> nat
    decreases d.len(),
{
    if d.len() == 0 {
        0
    } else {
        let m = max_height(d.drop_last());
        if d.last().1 as nat > m { d.last().1 as nat } else { m }
    }
}

/// Sum of the widths in `d`.
pub open spec fn sum_widths(d: Seq<(u32, u32)>) -> nat
    decreases d.len(),
{
    if d.len() == 0 { 0 } else { sum_widths(d.drop_last()) + d.last().0 as nat }
}

/// Sum of the heights in `d`.
pub open spec fn sum_heights(d: Seq<(u32, u32)>) -> nat
    decreases d.len(),
{
    if d.len() == 0 { 0 } else { sum_heights(d.drop_last()) + d.last().1 as nat }
}

/// `len * target / base` rounded half up.
pub open spec fn round_ratio(len: nat, target: nat, base: nat) -> nat
    recommends
        base > 0,
{
    ((2 * len * target + base) / (2 * base)) as nat
}

/// The scaled extent: the ratio rounded half up. A result beyond `u32`
/// cannot be held by a `u32` size and saturates to `u32::MAX`; the planned
/// canvas is then beyond 32 bits as well.
pub open spec fn scaled_extent(len: nat, target: nat, base: nat) -> nat {
    let r = round_ratio(len, target, base);
    if r > u32::MAX {
        u32::MAX as nat
    } else {
        r
    }
}

/// The extent that all images share: widths for vertical layouts, heights
/// for horizontal ones.
pub open spec fn target_dimension(d: Seq<(u32, u32)>, direction: Direction) -> nat {
    match direction {
        Direction::Horizontal => max_height(d),
        _ => max_width(d),
    }
}

/// Size of one image scaled to the target extent, each side rounded half up.
pub open spec fn scaled_size(width: nat, height: nat, target: nat, direction: Direction) -> (nat, nat) {
    if width == 0 || height == 0 || target == 0 {
        (0, 0)
    } else {
        match direction {
            Direction::Horizontal => (scaled_extent(width, target, height), target),
            _ => (target, scaled_extent(height, target, width)),
        }
    }
}

/// Canvas size for images of sizes `d` laid out along `direction`.
pub open spec fn output_size(d: Seq<(u32, u32)>, direction: Direction) -> (nat, nat) {
    match direction {
        Direction::Horizontal => (sum_widths(d), max_height(d)),
        _ => (max_width(d), sum_heights(d)),
    }
}

/// Computes the target dimension for scaling: the maximum width for
/// vertical and smart merges, the maximum height for horizontal ones.
pub fn compute_target_dimension(dimensions: &[(u32, u32)], direction: Direction) -> (t: u32)
    ensures
        t as nat == target_dimension(dimensions@, direction),
{
    let mut best: u32 = 0;
    let mut i: usize = 0;
    while i < dimensions.len()
        invariant
            0 <= i <= dimensions@.len(),
            best as nat == target_dimension(dimensions@.subrange(0, i as int), direction),
        decreases dimensions@.len() - i,
    {
        let (w, h) = dimensions[i];
        let v = match direction {
            Direction::Horizontal => h,
            _ => w,
        };
        if v > best {
            best = v;
        }
        assert(dimensions@.subrange(0, i + 1).drop_last() =~= dimensions@.subrange(0, i as int));
        i = i + 1;
    }
    assert(dimensions@.subrange(0, i as int) =~= dimensions@);
    best
}

/// Computes the size of an image of `width` x `height` scaled to `target`:
/// to the target width for vertical and smart merges, to the target height
/// for horizontal ones, keeping the aspect ratio with half-up rounding.
/// A zero input yields `(0, 0)`.
pub fn compute_scaled_dimensions(width: u32, height: u32, target: u32, direction: Direction) -> (r: (u32, u32))
    ensures
        (r.0 as nat, r.1 as nat) == scaled_size(width as nat, height as nat, target as nat, direction),
{
    if width == 0 || height == 0 || target == 0 {
        return (0, 0);
    }
    match direction {
        Direction::Horizontal => (round_extent(width, target, height), target),
        _ => (target, round_extent(height, target, width)),
    }
}

/// `scaled_extent` computed without overflow.
fn round_extent(len: u32, target: u32, base: u32) -> (r: u32)
    requires
        base > 0,
    ensures
        r as nat == scaled_extent(len as nat, target as nat, base as nat),
{
    let l = len as u128;
    let t = target as u128;
    assert(l * t <= 0xffff_ffff * 0xffff_ffff) by (nonlinear_arith)
        requires
            l <= 0xffff_ffff,
            t <= 0xffff_ffff,
    ;
    let num: u128 = 2 * (l * t) + base as u128;
    assert(num == 2 * (len as nat) * (target as nat) + base as nat) by (nonlinear_arith)
        requires
            num == 2 * (l * t) + base as u128,
            l == len,
            t == target,
    ;
    let q: u128 = num / (2 * base as u128);
    if q > u32::MAX as u128 {
        u32::MAX
    } else {
        q as u32
    }
}

/// Computes the output canvas size from the scaled image sizes: for
/// vertical and smart merges the widest width and the sum of the heights,
/// for horizontal ones the sum of the widths and the tallest height.
pub fn compute_output_size(scaled_dimensions: &[(u32, u32)], direction: Direction) -> (r: (u64, u64))
    requires
        scaled_dimensions@.len() <= u32::MAX,
    ensures
        (r.0 as nat, r.1 as nat) == output_size(scaled_dimensions@, direction),
{
    let n = scaled_dimensions.len();
    let mut max_w: u64 = 0;
    let mut max_h: u64 = 0;
    let mut sum_w: u64 = 0;
    let mut sum_h: u64 = 0;
    let mut i: usize = 0;
    while i < n
        invariant
            n == scaled_dimensions@.len(),
            n <= u32::MAX,
            0 <= i <= n,
            max_w as nat == max_width(scaled_dimensions@.subrange(0, i as int)),
            max_h as nat == max_height(scaled_dimensions@.subrange(0, i as int)),
            sum_w as nat == sum_widths(scaled_dimensions@.subrange(0, i as int)),
            sum_h as nat == sum_heights(scaled_dimensions@.subrange(0, i as int)),
            sum_w <= i * 0xffff_ffff,
            sum_h <= i * 0xffff_ffff,
        decreases n - i,
    {
        let (w, h) = scaled_dimensions[i];
        assert(scaled_dimensions@.subrange(0, i + 1).drop_last() =~= scaled_dimensions@.subrange(0, i as int));
        assert(i * 0xffff_ffff + 0xffff_ffff <= 0xffff_ffff * 0xffff_ffff) by (nonlinear_arith)
            requires
                i < 0xffff_ffff,
        ;
        if w as u64 > max_w {
            max_w = w as u64;
        }
        if h as u64 > max_h {
            max_h = h as u64;
        }
        sum_w = sum_w + w as u64;
        sum_h = sum_h + h as u64;
        i = i + 1;
    }
    assert(scaled_dimensions@.subrange(0, i as int) =~= scaled_dimensions@);
    match direction {
        Direction::Horizontal => (sum_w, max_h),
        _ => (max_w, sum_h),
    }
}

/// Every image of `d` scaled to the target `t` along `direction`.
pub open spec fn scaled_all(d: Seq<(u32, u32)>, t: nat, direction: Direction) -> Seq<(u32, u32)> {
    d.map_values(|p: (u32, u32)| {
        let s = scaled_size(p.0 as nat, p.1 as nat, t, direction);
        (s.0 as u32, s.1 as u32)
    })
}

/// Sum over `d` of each height scaled to width `t`, rounded half up.
pub open spec fn sum_rounded_heights(d: Seq<(u32, u32)>, t: nat) -> nat
    decreases d.len(),
{
    if d.len() == 0 {
        0
    } else {
        sum_rounded_heights(d.drop_last(), t) + round_ratio(d.last().1 as nat, t, d.last().0 as nat)
    }
}

/// Sum over `d` of each width scaled to height `t`, rounded half up.
pub open spec fn sum_rounded_widths(d: Seq<(u32, u32)>, t: nat) -> nat
    decreases d.len(),
{
    if d.len() == 0 {
        0
    } else {
        sum_rounded_widths(d.drop_last(), t) + round_ratio(d.last().0 as nat, t, d.last().1 as nat)
    }
}

proof fn lemma_max_bounds(d: Seq<(u32, u32)>)
    ensures
        max_width(d) <= u32::MAX,
        max_height(d) <= u32::MAX,
        forall|i: int| 0 <= i < d.len() ==> d[i].0 <= max_width(d) && d[i].1 <= max_height(d),
    decreases d.len(),
{
    if d.len() > 0 {
        lemma_max_bounds(d.drop_last());
        assert forall|i: int| 0 <= i < d.len() implies d[i].0 <= max_width(d) && d[i].1 <= max_height(d) by {
            if i < d.len() - 1 {
                assert(d[i] == d.drop_last()[i]);
            }
        }
    }
}

proof fn lemma_round_in_range(len: nat, t: nat, base: nat)
    requires
        0 < base <= t,
        len > 0,
        round_ratio(len, t, base) <= u32::MAX,
    ensures
        scaled_extent(len, t, base) == round_ratio(len, t, base),
{
}

proof fn lemma_scaled_sums(d: Seq<(u32, u32)>, t: nat, direction: Direction)
    requires
        t <= u32::MAX,
        direction != Direction::Horizontal ==> forall|i: int|
            0 <= i < d.len() ==> 0 < d[i].0 <= t && d[i].1 > 0 && round_ratio(d[i].1 as nat, t, d[i].0 as nat) <= u32::MAX,
        direction == Direction::Horizontal ==> forall|i: int|
            0 <= i < d.len() ==> 0 < d[i].1 <= t && d[i].0 > 0 && round_ratio(d[i].0 as nat, t, d[i].1 as nat) <= u32::MAX,
    ensures
        direction != Direction::Horizontal ==> sum_heights(scaled_all(d, t, direction)) == sum_rounded_heights(d, t),
        direction != Direction::Horizontal && d.len() > 0 ==> max_width(scaled_all(d, t, direction)) == t,
        direction == Direction::Horizontal ==> sum_widths(scaled_all(d, t, direction)) == sum_rounded_widths(d, t),
        direction == Direction::Horizontal && d.len() > 0 ==> max_height(scaled_all(d, t, direction)) == t,
    decreases d.len(),
{
    if d.len() > 0 {
        let s = scaled_all(d, t, direction);
        assert(scaled_all(d.drop_last(), t, direction) =~= s.drop_last());
        lemma_scaled_sums(d.drop_last(), t, direction);
        let last = d.last();
        assert(last == d[d.len() - 1]);
        if direction == Direction::Horizontal {
            lemma_round_in_range(last.0 as nat, t, last.1 as nat);
        } else {
            lemma_round_in_range(last.1 as nat, t, last.0 as nat);
        }
        if d.len() == 1 {
            assert(s.drop_last().len() == 0);
        }
    }
}

/// A vertical merge of one or more images of positive size yields a canvas
/// as wide as the widest input and as tall as the sum of each height scaled
/// to that width, rounded half up (each rounded height fitting in `u32`).
pub proof fn lemma_vertical_output_size(d: Seq<(u32, u32)>)
    requires
        d.len() >= 1,
        forall|i: int| 0 <= i < d.len() ==> d[i].0 > 0 && d[i].1 > 0,
        forall|i: int| 0 <= i < d.len() ==> round_ratio(d[i].1 as nat, max_width(d), d[i].0 as nat) <= u32::MAX,
    ensures
        output_size(scaled_all(d, target_dimension(d, Direction::Vertical), Direction::Vertical), Direction::Vertical)
            == (max_width(d), sum_rounded_heights(d, max_width(d))),
{
    lemma_max_bounds(d);
    lemma_scaled_sums(d, max_width(d), Direction::Vertical);
}

/// A horizontal merge of one or more images of positive size yields a
/// canvas as tall as the tallest input and as wide as the sum of each width
/// scaled to that height, rounded half up (each fitting in `u32`).
pub proof fn lemma_horizontal_output_size(d: Seq<(u32, u32)>)
    requires
        d.len() >= 1,
        forall|i: int| 0 <= i < d.len() ==> d[i].0 > 0 && d[i].1 > 0,
        forall|i: int| 0 <= i < d.len() ==> round_ratio(d[i].0 as nat, max_height(d), d[i].1 as nat) <= u32::MAX,
    ensures
        output_size(scaled_all(d, target_dimension(d, Direction::Horizontal), Direction::Horizontal), Direction::Horizontal)
            == (sum_rounded_widths(d, max_height(d)), max_height(d)),
{
    lemma_max_bounds(d);
    lemma_scaled_sums(d, max_height(d), Direction::Horizontal);
}

/// Merging a single image of positive size, vertically or horizontally,
/// plans a canvas of exactly that image's size.
pub proof fn lemma_single_image_size(width: u32, height: u32, direction: Direction)
    requires
        width > 0,
        height > 0,
        direction != Direction::Smart,
    ensures
        output_size(
            scaled_all(seq![(width, height)], target_dimension(seq![(width, height)], direction), direction),
            direction,
        ) == (width as nat, height as nat),
        scaled_all(seq![(width, height)], target_dimension(seq![(width, height)], direction), direction)[0] == (
            width,
            height,
        ),
{
    let d = seq![(width, height)];
    assert(d.drop_last() =~= Seq::<(u32, u32)>::empty());
    let s = scaled_all(d, target_dimension(d, direction), direction);
    assert(s.drop_last() =~= Seq::<(u32, u32)>::empty());
    let (w, h) = (width as nat, height as nat);
    assert((2 * h * w + w) / (2 * w) == h) by (nonlinear_arith)
        requires
            w > 0,
    {
        assert(2 * h * w + w == h * (2 * w) + w);
        vstd::arithmetic::div_mod::lemma_fundamental_div_mod_converse((2 * h * w + w) as int, (2 * w) as int, h as int, w as int);
    }
    assert((2 * w * h + h) / (2 * h) == w) by (nonlinear_arith)
        requires
            h > 0,
    {
        assert(2 * w * h + h == w * (2 * h) + h);
        vstd::arithmetic::div_mod::lemma_fundamental_div_mod_converse((2 * w * h + h) as int, (2 * h) as int, w as int, h as int);
    }
    assert(d.last() == (width, height));
    assert(max_width(d.drop_last()) == 0);
    assert(max_height(d.drop_last()) == 0);
    assert(max_width(d) == w);
    assert(max_height(d) == h);
    assert(round_ratio(h, w, w) == h);
    assert(round_ratio(w, h, h) == w);
    assert(s.len() == 1);
    if direction == Direction::Horizontal {
        assert(s[0] == (width, height));
    } else {
        assert(s[0] == (width, height));
    }
    assert(s.last() == s[0]);
    assert(max_width(s.drop_last()) == 0 && max_height(s.drop_last()) == 0);
    assert(sum_widths(s.drop_last()) == 0 && sum_heights(s.drop_last()) == 0);
    assert(max_width(s) == w && max_height(s) == h);
    assert(sum_widths(s) == w && sum_heights(s) == h);
}

} // verus!
