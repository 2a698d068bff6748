//! What holds of the resolution that is chosen.

use crate::quality;
use crate::quality::AtlasNavigation;
use crate::render::ViewportRect;
use vstd::prelude::*;

verus! {

/// How many bytes a frame is taken to need at a tier, where it took `encoded` bytes at another: as
/// many for each pixel.
pub open spec fn projected(limits: Seq<(u32, u32)>, from: int, to: int, encoded: int) -> int {
    encoded * (limits[to].0 * limits[to].1) / (limits[from].0 * limits[from].1)
}

/// A frame that is over its budget falls to the first tier below at which it is taken to fit:
/// every tier that is passed over would not do, the one that is chosen does or is the last, and
/// where there is a tier below, one is chosen.
pub proof fn lemma_first_fit(limits: Seq<(u32, u32)>, from: int, encoded: int, budget: int)
    requires
        0 <= from < limits.len(),
    ensures
        ({
            let tier = quality::budget_tier(limits, from, from, encoded, budget);
            &&& from <= tier < limits.len()
            &&& from + 1 < limits.len() ==> from < tier
            &&& forall|passed: int|
                from < passed < tier ==> #[trigger] projected(limits, from, passed, encoded)
                    > budget
            &&& from < tier ==> projected(limits, from, tier, encoded) <= budget || tier + 1
                == limits.len()
        }),
{
    lemma_first_fit_from(limits, from, from, encoded, budget);
}

proof fn lemma_first_fit_from(
    limits: Seq<(u32, u32)>,
    from: int,
    at: int,
    encoded: int,
    budget: int,
)
    requires
        0 <= from <= at < limits.len(),
    ensures
        ({
            let tier = quality::budget_tier(limits, from, at, encoded, budget);
            &&& at <= tier < limits.len()
            &&& at + 1 < limits.len() ==> at < tier
            &&& forall|passed: int|
                at < passed < tier ==> #[trigger] projected(limits, from, passed, encoded) > budget
            &&& at < tier ==> projected(limits, from, tier, encoded) <= budget || tier + 1
                == limits.len()
        }),
    decreases limits.len() - at,
{
    if at + 1 < limits.len() && projected(limits, from, at + 1, encoded) > budget {
        lemma_first_fit_from(limits, from, at + 1, encoded, budget);
    }
}

/// The share of a resolution that a fraction is: rounded down, and never empty.
pub open spec fn share_of(width: u32, height: u32, n: int, d: int) -> (u32, u32) {
    (
        (if width * n / d > 0 {
            width * n / d
        } else {
            1
        }) as u32,
        (if height * n / d > 0 {
            height * n / d
        } else {
            1
        }) as u32,
    )
}

proof fn lemma_share(value: u32, n: u32, d: u32)
    requires
        value > 0,
        0 < n <= d,
    ensures
        quality::fraction_of(value, n, d) == (if value * n / d as int > 0 {
            value * n / d as int
        } else {
            1
        }),
        0 <= value * n / d as int <= value,
{
    let (v, a, b) = (value as int, n as int, d as int);
    vstd::arithmetic::div_mod::lemma_fundamental_div_mod(v * a, b);
    let q = v * a / b;
    assert(0 <= v * a <= v * b) by (nonlinear_arith)
        requires
            0 < v,
            0 < a <= b,
    ;
    assert(0 <= q <= v) by (nonlinear_arith)
        requires
            v * a == b * q + v * a % b,
            0 <= v * a % b < b,
            0 <= v * a <= v * b,
            0 < b,
    ;
}

/// The full resolution, five sixths, two thirds, a half and a third of it are offered wherever they
/// are tall enough, and the smallest height that is allowed is offered too.
pub proof fn lemma_tiers_offered(width: u32, height: u32, least: u32)
    requires
        width > 0,
        0 < least <= height,
    ensures
        ({
            let sizes = quality::tiers(width, height, least);
            &&& sizes[0] == (width, height)
            &&& height * 5 / 6 >= least ==> sizes.contains(share_of(width, height, 5, 6))
            &&& height * 2 / 3 >= least ==> sizes.contains(share_of(width, height, 2, 3))
            &&& height * 1 / 2 >= least ==> sizes.contains(share_of(width, height, 1, 2))
            &&& height * 1 / 3 >= least ==> sizes.contains(share_of(width, height, 1, 3))
            &&& sizes.last().1 == least
        }),
{
    quality::lemma_tiers_within(width, height, least);
    lemma_fraction_kept(width, height, least, 2, 5, 6);
    lemma_fraction_kept(width, height, least, 3, 2, 3);
    lemma_fraction_kept(width, height, least, 4, 1, 2);
    lemma_fraction_kept(width, height, least, 5, 1, 3);
}

proof fn lemma_fraction_kept(width: u32, height: u32, least: u32, count: int, n: u32, d: u32)
    requires
        width > 0,
        0 < least <= height,
        1 <= count <= 5,
        0 < n <= d,
        quality::tier_fractions()[count - 1] == (n, d),
    ensures
        height * n / d as int >= least ==> quality::tiers(width, height, least).contains(
            share_of(width, height, n as int, d as int),
        ),
{
    lemma_share(width, n, d);
    lemma_share(height, n, d);
    if height * n / d as int >= least {
        let size = share_of(width, height, n as int, d as int);
        let now = quality::fraction_tiers(width, height, least, count);
        assert(now.len() > 0 && now.last() == size);
        assert(now[now.len() - 1] == size);
        lemma_kept(width, height, least, count, 5, size);
        let all = quality::fraction_tiers(width, height, least, 5);
        let i = choose|i: int| 0 <= i < all.len() && all[i] == size;
        assert(quality::tiers(width, height, least)[i] == size);
    }
}

proof fn lemma_kept(width: u32, height: u32, least: u32, count: int, all: int, size: (u32, u32))
    requires
        0 <= count <= all,
        quality::fraction_tiers(width, height, least, count).contains(size),
    ensures
        quality::fraction_tiers(width, height, least, all).contains(size),
    decreases all,
{
    if count < all {
        lemma_kept(width, height, least, count, all - 1, size);
        let before = quality::fraction_tiers(width, height, least, all - 1);
        let i = choose|i: int| 0 <= i < before.len() && before[i] == size;
        assert(quality::fraction_tiers(width, height, least, all)[i] == size);
    }
}

/// Every tier has the shape of the full resolution, to the pixel.
pub proof fn lemma_tiers_keep_shape(width: u32, height: u32, least: u32, i: int)
    requires
        width > 0,
        0 < least <= height,
        0 <= i < quality::tiers(width, height, least).len(),
    ensures
        ({
            let size = quality::tiers(width, height, least)[i];
            -(width + height) <= size.0 * height - size.1 * width <= width + height
        }),
{
    let fractions = quality::fraction_tiers(width, height, least, 5);
    if i < fractions.len() {
        lemma_fraction_shape(width, height, least, 5, i);
    } else {
        lemma_share(width, least, height);
        let (w, h, l) = (width as int, height as int, least as int);
        vstd::arithmetic::div_mod::lemma_fundamental_div_mod(w * l, h);
        let q = w * l / h;
        assert(-h < q * h - l * w < w) by (nonlinear_arith)
            requires
                w * l == h * q + w * l % h,
                0 <= w * l % h < h,
                0 < w,
        ;
        lemma_near(w, h, q, l);
        let size = quality::tiers(width, height, least)[i];
        assert(size.1 == l && size.0 == (if q > 0 {
            q
        } else {
            1
        }));
    }
}

proof fn lemma_near(w: int, h: int, p: int, q: int)
    requires
        0 < w,
        0 < h,
        0 <= p,
        0 <= q,
        -h < p * h - q * w < w,
    ensures
        ({
            let a = if p > 0 {
                p
            } else {
                1
            };
            let b = if q > 0 {
                q
            } else {
                1
            };
            -(w + h) <= a * h - b * w <= w + h
        }),
{
    assert(0 <= p * h && 0 <= q * w) by (nonlinear_arith)
        requires
            0 <= p,
            0 <= q,
            0 < w,
            0 < h,
    ;
    assert(p == 0 ==> p * h == 0) by (nonlinear_arith);
    assert(q == 0 ==> q * w == 0) by (nonlinear_arith);
}

proof fn lemma_fraction_shape(width: u32, height: u32, least: u32, count: int, i: int)
    requires
        width > 0,
        0 < least <= height,
        0 <= count <= 5,
        0 <= i < quality::fraction_tiers(width, height, least, count).len(),
    ensures
        ({
            let size = quality::fraction_tiers(width, height, least, count)[i];
            -(width + height) <= size.0 * height - size.1 * width <= width + height
        }),
    decreases count,
{
    let before = quality::fraction_tiers(width, height, least, count - 1);
    if i < before.len() {
        lemma_fraction_shape(width, height, least, count - 1, i);
    } else {
        let (n, d) = quality::tier_fractions()[count - 1];
        assert(0 < n <= d);
        lemma_share(width, n, d);
        lemma_share(height, n, d);
        let (w, h, a, b) = (width as int, height as int, n as int, d as int);
        vstd::arithmetic::div_mod::lemma_fundamental_div_mod(w * a, b);
        vstd::arithmetic::div_mod::lemma_fundamental_div_mod(h * a, b);
        let (p, q) = (w * a / b, h * a / b);
        let (r, t) = (w * a % b, h * a % b);
        let gap = p * h - q * w;
        assert(b * gap == t * w - r * h) by (nonlinear_arith)
            requires
                w * a == b * p + r,
                h * a == b * q + t,
                gap == p * h - q * w,
        ;
        assert(0 <= t * w < b * w && 0 <= r * h < b * h) by (nonlinear_arith)
            requires
                0 <= r < b,
                0 <= t < b,
                0 < w,
                0 < h,
        ;
        assert(-h < gap < w) by (nonlinear_arith)
            requires
                -(b * h) < b * gap < b * w,
                0 < b,
        ;
        lemma_near(w, h, p, q);
        let size = quality::fraction_tiers(width, height, least, count)[i];
        assert(size.0 == quality::fraction_of(width, n, d));
        assert(size.1 == quality::fraction_of(height, n, d));
    }
}

/// Frames that follow each other within the window are counted one after the other; the first one,
/// and one after a longer pause, counts as one.
pub proof fn lemma_streak(current: u32, previous: u128, now: u128, window: u128)
    ensures
        quality::streak_after(current, None, now, window) == 1,
        now > previous + window ==> quality::streak_after(current, Some(previous), now, window)
            == 1,
        now <= previous + window && current < u32::MAX ==> quality::streak_after(
            current,
            Some(previous),
            now,
            window,
        ) == current + 1,
{
}

/// A crop of the atlas is shown at once only where the atlas has arrived and still shows the
/// desktop; one that is out of date never makes navigation wait.
pub proof fn lemma_navigation(ready: bool, stale: bool)
    ensures
        quality::navigation(ready, stale) is Preview <==> ready && !stale,
        quality::navigation(ready, stale) is RefineCurrentFrame <==> stale,
        quality::navigation(ready, stale) is WaitForUpload <==> !ready && !stale,
{
}

/// Tiles may cover a crop of an atlas that is up to date only where they have more pixels.
pub proof fn lemma_improvement(stale: bool, crop: ViewportRect, raster: (u32, u32))
    ensures
        stale ==> quality::improves(stale, Some(crop), raster),
        quality::improves(stale, None, raster),
        !stale ==> (quality::improves(stale, Some(crop), raster) <==> crop.width * crop.height
            < raster.0 * raster.1),
{
}

proof fn lemma_fractions_apart(width: u32, height: u32, least: u32, count: int)
    ensures
        ({
            let sizes = quality::fraction_tiers(width, height, least, count);
            forall|i: int| 0 < i < sizes.len() ==> sizes[i - 1] != #[trigger] sizes[i]
        }),
    decreases count,
{
    if count > 0 {
        lemma_fractions_apart(width, height, least, count - 1);
        let before = quality::fraction_tiers(width, height, least, count - 1);
        let sizes = quality::fraction_tiers(width, height, least, count);
        assert forall|i: int| 0 < i < sizes.len() implies sizes[i - 1] != #[trigger] sizes[i] by {
            if i < before.len() {
                assert(sizes[i] == before[i]);
                assert(sizes[i - 1] == before[i - 1]);
            }
        }
    }
}

/// No size is offered twice in a row.
pub proof fn lemma_tiers_apart(width: u32, height: u32, least: u32, i: int)
    requires
        0 < i < quality::tiers(width, height, least).len(),
    ensures
        quality::tiers(width, height, least)[i - 1] != quality::tiers(width, height, least)[i],
{
    lemma_fractions_apart(width, height, least, 5);
    let fractions = quality::fraction_tiers(width, height, least, 5);
    let sizes = quality::tiers(width, height, least);
    assert(sizes[i - 1] == fractions[i - 1]);
    if i < fractions.len() {
        assert(sizes[i] == fractions[i]);
    }
}

} // verus!
