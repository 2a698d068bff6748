//! How much detail is sent, and when the cached atlas may stand in for it.

use crate::arith;
use crate::arith::{max32, scaled, truncate32};
use crate::render::ViewportRect;
use crate::text;
use crate::text::push_decimal;
use vstd::prelude::*;

verus! {

/// The value reduced by a fraction, and at least one.
pub open spec fn fraction_of(value: u32, numerator: u32, denominator: u32) -> int {
    arith::max_of(arith::low32(value * numerator / denominator as int), 1)
}

/// The value reduced by a fraction, and at least one.
pub fn scale_dimension(value: u32, numerator: u32, denominator: u32) -> (scaled_value: u32)
    requires
        denominator > 0,
    ensures
        scaled_value == fraction_of(value, numerator, denominator),
{
    max32(truncate32(scaled(value, numerator, denominator)), 1)
}

/// The fractions of the full resolution that become tiers.
pub open spec fn tier_fractions() -> Seq<(u32, u32)> {
    seq![(1u32, 1u32), (5u32, 6u32), (2u32, 3u32), (1u32, 2u32), (1u32, 3u32)]
}

/// The tiers that the first `count` fractions give: those that are tall enough, without
/// repetition.
pub open spec fn fraction_tiers(
    max_width: u32,
    max_height: u32,
    min_height: u32,
    count: int,
) -> Seq<(u32, u32)>
    decreases count,
{
    if count <= 0 {
        seq![]
    } else {
        let before = fraction_tiers(max_width, max_height, min_height, count - 1);
        let (numerator, denominator) = tier_fractions()[count - 1];
        let size = (
            fraction_of(max_width, numerator, denominator) as u32,
            fraction_of(max_height, numerator, denominator) as u32,
        );
        if size.1 >= min_height && !(before.len() > 0 && before.last() == size) {
            before.push(size)
        } else {
            before
        }
    }
}

/// The tiers from the most detail to the least: the fractions, and then the smallest height that
/// is allowed.
pub open spec fn tiers(max_width: u32, max_height: u32, min_height: u32) -> Seq<(u32, u32)> {
    let fractions = fraction_tiers(max_width, max_height, min_height, 5);
    if fractions.len() > 0 && fractions.last().1 > min_height {
        fractions.push((fraction_of(max_width, min_height, max_height) as u32, min_height))
    } else {
        fractions
    }
}

/// The resolution in use: a tier at or below the ceiling that the user set.
pub struct KittyQuality {
    pub tier: usize,
    pub ceiling: usize,
    pub limits: Vec<(u32, u32)>,
}

/// The name of a size: its height where it has the usual shape.
pub open spec fn size_name(size: (u32, u32)) -> Seq<char> {
    if size.0 * 9 == size.1 * 16 {
        text::decimal(size.1 as nat) + "p"@
    } else {
        text::decimal(size.0 as nat) + "x"@ + text::decimal(size.1 as nat)
    }
}

fn size_text(size: (u32, u32)) -> (label: String)
    ensures
        label@ == size_name(size),
{
    let mut label = String::new();
    if size.0 as u64 * 9 == size.1 as u64 * 16 {
        push_decimal(&mut label, size.1 as u64);
        label.append("p");
    } else {
        push_decimal(&mut label, size.0 as u64);
        label.append("x");
        push_decimal(&mut label, size.1 as u64);
    }
    assert(label@ =~= size_name(size));
    label
}

/// The tier that a frame of `encoded` bytes at tier `from` should fall to from tier `at`: the
/// first whose share of the pixels fits the budget, or the last.
pub open spec fn budget_tier(
    limits: Seq<(u32, u32)>,
    from: int,
    at: int,
    encoded: int,
    budget: int,
) -> int
    decreases limits.len() - at,
{
    if at + 1 >= limits.len() || at < 0 {
        at
    } else {
        let pixels = limits[at + 1].0 * limits[at + 1].1;
        let from_pixels = limits[from].0 * limits[from].1;
        if encoded * pixels / from_pixels <= budget {
            at + 1
        } else {
            budget_tier(limits, from, at + 1, encoded, budget)
        }
    }
}

impl KittyQuality {
    /// There is a tier, the ceiling is one, the tier in use is one, and none is empty.
    pub open spec fn wf(&self) -> bool {
        &&& self.ceiling < self.limits@.len()
        &&& self.tier < self.limits@.len()
        &&& forall|i: int|
            0 <= i < self.limits@.len() ==> (#[trigger] self.limits@[i]).0 > 0
                && self.limits@[i].1 > 0
    }

    pub fn new(max_width: u32, max_height: u32, min_height: u32) -> (quality: KittyQuality)
        requires
            max_width > 0,
            0 < min_height <= max_height,
        ensures
            quality.wf(),
            quality.tier == 0,
            quality.ceiling == 0,
            quality.limits@ == tiers(max_width, max_height, min_height),
    {
        let mut limits: Vec<(u32, u32)> = Vec::new();
        let fractions: [(u32, u32); 5] = [(1, 1), (5, 6), (2, 3), (1, 2), (1, 3)];
        assert(fractions@ =~= tier_fractions());
        let mut i: usize = 0;
        assert(limits@ =~= fraction_tiers(max_width, max_height, min_height, 0));
        while i < 5
            invariant
                i <= 5,
                max_width > 0,
                0 < min_height <= max_height,
                fractions@ == tier_fractions(),
                limits@ == fraction_tiers(max_width, max_height, min_height, i as int),
                i > 0 ==> limits@.len() > 0,
                forall|j: int|
                    0 <= j < limits@.len() ==> (#[trigger] limits@[j]).0 > 0 && limits@[j].1 > 0,
            decreases 5 - i,
        {
            let (numerator, denominator) = fractions[i];
            assert(fractions@[i as int] == tier_fractions()[i as int]);
            let width: u32 = scale_dimension(max_width, numerator, denominator);
            let height: u32 = scale_dimension(max_height, numerator, denominator);
            let repeated = limits.len() > 0 && limits[limits.len() - 1].0 == width
                && limits[limits.len() - 1].1 == height;
            proof {
                if i == 0 {
                    assert(max_height * 1 / 1int == max_height);
                    assert(arith::low32(max_height as int) == max_height);
                }
            }
            if height >= min_height && !repeated {
                limits.push((width, height));
            }
            i = i + 1;
        }
        let last = limits[limits.len() - 1];
        if last.1 > min_height {
            let width: u32 = scale_dimension(max_width, min_height, max_height);
            limits.push((width, min_height));
        }
        KittyQuality { tier: 0, ceiling: 0, limits }
    }

    /// The size in use.
    pub fn limits(&self) -> (size: (u32, u32))
        requires
            self.wf(),
        ensures
            size == self.limits@[self.tier as int],
    {
        self.limits[self.tier]
    }

    /// The name of the size in use.
    pub fn label(&self) -> (label: String)
        requires
            self.wf(),
        ensures
            label@ == size_name(self.limits@[self.tier as int]),
    {
        size_text(self.limits())
    }

    /// The largest size that the user allows.
    pub fn ceiling_limits(&self) -> (size: (u32, u32))
        requires
            self.wf(),
        ensures
            size == self.limits@[self.ceiling as int],
    {
        self.limits[self.ceiling]
    }

    /// The name of the largest size that the user allows.
    pub fn ceiling_label(&self) -> (label: String)
        requires
            self.wf(),
        ensures
            label@ == size_name(self.limits@[self.ceiling as int]),
    {
        size_text(self.ceiling_limits())
    }

    /// Allows one tier less, where there is one, and uses it.
    pub fn lower_ceiling(&mut self) -> (lowered: bool)
        requires
            old(self).wf(),
        ensures
            final(self).wf(),
            final(self).limits == old(self).limits,
            lowered == (old(self).ceiling + 1 < old(self).limits@.len()),
            lowered ==> final(self).ceiling == old(self).ceiling + 1 && final(self).tier
                == final(self).ceiling,
            !lowered ==> *final(self) == *old(self),
    {
        if self.limits.len() - self.ceiling <= 1 {
            return false;
        }
        self.ceiling = self.ceiling + 1;
        self.tier = self.ceiling;
        true
    }

    /// Allows one tier more, where there is one, and uses it.
    pub fn raise_ceiling(&mut self) -> (raised: bool)
        requires
            old(self).wf(),
        ensures
            final(self).wf(),
            final(self).limits == old(self).limits,
            raised == (old(self).ceiling > 0),
            raised ==> final(self).ceiling == old(self).ceiling - 1 && final(self).tier
                == final(self).ceiling,
            !raised ==> *final(self) == *old(self),
    {
        if self.ceiling == 0 {
            return false;
        }
        self.ceiling = self.ceiling - 1;
        self.tier = self.ceiling;
        true
    }

    /// Whether the most detail that is allowed is in use.
    pub fn is_maximum(&self) -> (maximum: bool)
        ensures
            maximum == (self.tier == self.ceiling),
    {
        self.tier == self.ceiling
    }

    /// Uses the most detail that is allowed.
    pub fn reset(&mut self)
        requires
            old(self).wf(),
        ensures
            final(self).wf(),
            final(self).limits == old(self).limits,
            final(self).ceiling == old(self).ceiling,
            final(self).tier == old(self).ceiling,
    {
        self.tier = self.ceiling;
    }

    /// Uses the least detail.
    pub fn select_lowest(&mut self)
        requires
            old(self).wf(),
        ensures
            final(self).wf(),
            final(self).limits == old(self).limits,
            final(self).ceiling == old(self).ceiling,
            final(self).tier == old(self).limits@.len() - 1,
    {
        self.tier = self.limits.len() - 1;
    }

    /// Uses less detail so that a frame that took `encoded_bytes` fits the budget. Says whether
    /// there was less to use.
    pub fn reduce_for(&mut self, encoded_bytes: usize, frame_budget_bytes: usize) -> (reduced: bool)
        requires
            old(self).wf(),
        ensures
            final(self).wf(),
            final(self).limits == old(self).limits,
            final(self).ceiling == old(self).ceiling,
            final(self).tier == budget_tier(
                old(self).limits@,
                old(self).tier as int,
                old(self).tier as int,
                encoded_bytes as int,
                frame_budget_bytes as int,
            ),
            final(self).tier >= old(self).tier,
            reduced == (final(self).tier != old(self).tier),
            reduced == (old(self).tier + 1 < old(self).limits@.len()),
    {
        let initial: usize = self.tier;
        let (initial_width, initial_height) = self.limits[initial];
        proof {
            arith::lemma_product(initial_width, initial_height);
            assert(initial_width * initial_height > 0) by (nonlinear_arith)
                requires
                    initial_width > 0,
                    initial_height > 0,
            ;
        }
        let initial_pixels: u64 = initial_width as u64 * initial_height as u64;
        let mut fits = false;
        while !fits && self.limits.len() - self.tier > 1
            invariant
                self.wf(),
                self.limits == old(self).limits,
                self.ceiling == old(self).ceiling,
                initial == old(self).tier,
                initial <= self.tier,
                initial_pixels > 0,
                initial_pixels == self.limits@[initial as int].0 * self.limits@[initial as int].1,
                !fits ==> budget_tier(
                    old(self).limits@,
                    initial as int,
                    self.tier as int,
                    encoded_bytes as int,
                    frame_budget_bytes as int,
                ) == budget_tier(
                    old(self).limits@,
                    initial as int,
                    initial as int,
                    encoded_bytes as int,
                    frame_budget_bytes as int,
                ),
                fits ==> self.tier == budget_tier(
                    old(self).limits@,
                    initial as int,
                    initial as int,
                    encoded_bytes as int,
                    frame_budget_bytes as int,
                ),
                fits ==> self.tier > initial,
                self.tier > initial ==> initial + 1 < self.limits@.len(),
            decreases self.limits@.len() - self.tier,
        {
            let (width, height) = self.limits[self.tier + 1];
            proof {
                arith::lemma_product(width, height);
                assert(self.limits@[self.tier + 1] == (width, height));
                assert(0 <= encoded_bytes * (width * height) <= u64::MAX * u64::MAX)
                    by (nonlinear_arith)
                    requires
                        0 <= encoded_bytes <= u64::MAX,
                        0 <= width * height <= u64::MAX,
                ;
            }
            let pixels: u64 = width as u64 * height as u64;
            let projected: u128 = encoded_bytes as u128 * pixels as u128 / initial_pixels as u128;
            self.tier = self.tier + 1;
            if projected <= frame_budget_bytes as u128 {
                fits = true;
            }
        }
        self.tier != initial
    }
}

/// Whether the resolution may be lowered for a frame.
pub fn should_adapt_quality(
    adaptive_quality: bool,
    adaptive_navigation: bool,
    navigation_refine: bool,
    adaptive_damage: bool,
    force_max_quality: bool,
) -> (adapt: bool)
    ensures
        adapt == (adaptive_quality && !force_max_quality && if navigation_refine {
            adaptive_navigation
        } else {
            adaptive_damage
        }),
{
    adaptive_quality && !force_max_quality && if navigation_refine {
        adaptive_navigation
    } else {
        adaptive_damage
    }
}

/// The number of frames in a row that followed each other within a window. Times and the window
/// are in nanoseconds.
pub open spec fn streak_after(
    current: u32,
    previous_at: Option<u128>,
    now: u128,
    window: u128,
) -> int {
    match previous_at {
        Some(previous) => if now - previous <= window {
            arith::min_of(current + 1, u32::MAX as int)
        } else {
            1
        },
        None => 1,
    }
}

/// Counts a damaged frame.
pub fn next_damage_streak(
    current: u32,
    previous_at: Option<u128>,
    now: u128,
    window: u128,
) -> (streak: u32)
    ensures
        streak == streak_after(current, previous_at, now, window),
{
    match previous_at {
        Some(previous) => if now <= previous || now - previous <= window {
            current.saturating_add(1)
        } else {
            1
        },
        None => 1,
    }
}

/// What navigation may show at once.
#[derive(Debug, Clone, Copy, PartialEq, Eq, Structural)]
pub enum AtlasNavigation {
    /// A crop of the cached atlas.
    Preview,
    /// Nothing new until the atlas has arrived.
    WaitForUpload,
    /// Tiles of the current frame.
    RefineCurrentFrame,
}

/// What navigation may show at once.
pub open spec fn navigation(atlas_ready: bool, atlas_stale: bool) -> AtlasNavigation {
    if atlas_stale {
        AtlasNavigation::RefineCurrentFrame
    } else if atlas_ready {
        AtlasNavigation::Preview
    } else {
        AtlasNavigation::WaitForUpload
    }
}

/// Decides what navigation may show at once.
pub fn atlas_navigation(atlas_ready: bool, atlas_stale: bool) -> (shown: AtlasNavigation)
    ensures
        shown == navigation(atlas_ready, atlas_stale),
        atlas_stale ==> shown != AtlasNavigation::Preview,
{
    if atlas_stale {
        AtlasNavigation::RefineCurrentFrame
    } else if atlas_ready {
        AtlasNavigation::Preview
    } else {
        AtlasNavigation::WaitForUpload
    }
}

/// Whether tiles would show something that a crop of the atlas does not.
pub open spec fn improves(
    atlas_stale: bool,
    atlas_crop: Option<ViewportRect>,
    raster: (u32, u32),
) -> bool {
    atlas_stale || match atlas_crop {
        Some(crop) => raster.0 * raster.1 > crop.width * crop.height,
        None => true,
    }
}

/// Decides whether tiles may cover the atlas: never where it is fresh and has as many pixels.
pub fn refine_improves_atlas(
    atlas_stale: bool,
    atlas_crop: Option<ViewportRect>,
    raster_dimensions: (u32, u32),
) -> (better: bool)
    ensures
        better == improves(atlas_stale, atlas_crop, raster_dimensions),
{
    if atlas_stale {
        return true;
    }
    match atlas_crop {
        None => true,
        Some(crop) => {
            proof {
                arith::lemma_product(raster_dimensions.0, raster_dimensions.1);
                arith::lemma_product(crop.width, crop.height);
            }
            raster_dimensions.0 as u64 * raster_dimensions.1 as u64 > crop.width as u64
                * crop.height as u64
        },
    }
}

/// The larger the fraction, the larger the value.
proof fn lemma_fraction_at_most(value: u32, numerator: u32, denominator: u32)
    requires
        value > 0,
        denominator > 0,
        numerator <= denominator,
    ensures
        1 <= fraction_of(value, numerator, denominator) <= value,
        fraction_of(value, numerator, denominator) == arith::max_of(
            value * numerator / denominator as int,
            1,
        ),
{
    let (v, n, d) = (value as int, numerator as int, denominator as int);
    vstd::arithmetic::div_mod::lemma_fundamental_div_mod(v * n, d);
    let q = v * n / d;
    assert(0 <= v * n <= v * d) by (nonlinear_arith)
        requires
            0 < v,
            0 <= n <= d,
    ;
    assert(0 <= q <= v) by (nonlinear_arith)
        requires
            v * n == d * q + v * n % d,
            0 <= v * n % d < d,
            0 <= v * n <= v * d,
            0 < d,
    ;
}

/// The fractions of a size, from the largest on.
proof fn lemma_fractions_descend(value: u32)
    requires
        value > 0,
    ensures
        fraction_of(value, 1, 1) == value,
        fraction_of(value, 5, 6) <= fraction_of(value, 1, 1),
        fraction_of(value, 2, 3) <= fraction_of(value, 5, 6),
        fraction_of(value, 1, 2) <= fraction_of(value, 2, 3),
        fraction_of(value, 1, 3) <= fraction_of(value, 1, 2),
        1 <= fraction_of(value, 1, 3),
{
    lemma_fraction_at_most(value, 1, 1);
    lemma_fraction_at_most(value, 5, 6);
    lemma_fraction_at_most(value, 2, 3);
    lemma_fraction_at_most(value, 1, 2);
    lemma_fraction_at_most(value, 1, 3);
}

/// Each tier is no larger than those before it, no larger than the full resolution, and tall
/// enough.
pub open spec fn descending(
    sizes: Seq<(u32, u32)>,
    max_width: u32,
    max_height: u32,
    min_height: u32,
) -> bool {
    &&& forall|i: int, j: int|
        0 <= i <= j < sizes.len() ==> (#[trigger] sizes[j]).0 <= (#[trigger] sizes[i]).0
            && sizes[j].1 <= sizes[i].1
    &&& forall|i: int|
        0 <= i < sizes.len() ==> 1 <= (#[trigger] sizes[i]).0 <= max_width && min_height
            <= sizes[i].1 <= max_height
}

/// The share of a resolution that a fraction gives.
#[verifier::opaque]
spec fn share(max_width: u32, max_height: u32, numerator: u32, denominator: u32) -> (u32, u32) {
    (
        fraction_of(max_width, numerator, denominator) as u32,
        fraction_of(max_height, numerator, denominator) as u32,
    )
}

/// Tiers down to a fraction: the last one is a fraction that is no smaller.
spec fn down_to(
    sizes: Seq<(u32, u32)>,
    max_width: u32,
    max_height: u32,
    min_height: u32,
    fraction: (u32, u32),
) -> bool {
    let smallest = share(max_width, max_height, fraction.0, fraction.1);
    &&& descending(sizes, max_width, max_height, min_height)
    &&& sizes.len() > 0
    &&& sizes[0] == (max_width, max_height)
    &&& smallest.0 <= sizes.last().0
    &&& smallest.1 <= sizes.last().1
    &&& exists|n: u32, d: u32|
        0 < n <= d && sizes.last() == #[trigger] share(max_width, max_height, n, d)
}

proof fn lemma_smaller_tier(
    sizes: Seq<(u32, u32)>,
    size: (u32, u32),
    max_width: u32,
    max_height: u32,
    min_height: u32,
)
    requires
        descending(sizes, max_width, max_height, min_height),
        sizes.len() > 0,
        1 <= size.0 <= sizes.last().0,
        min_height <= size.1 <= sizes.last().1,
    ensures
        descending(sizes.push(size), max_width, max_height, min_height),
{
    let more = sizes.push(size);
    let last = sizes[sizes.len() - 1];
    assert forall|i: int, j: int| 0 <= i <= j < more.len() implies (#[trigger] more[j]).0 <= (
    #[trigger] more[i]).0 && more[j].1 <= more[i].1 by {
        if i < sizes.len() {
            assert(more[i] == sizes[i]);
            if j < sizes.len() {
                assert(more[j] == sizes[j]);
            } else {
                assert(last.0 <= sizes[i].0);
            }
        }
    }
    assert forall|i: int| 0 <= i < more.len() implies 1 <= (#[trigger] more[i]).0 <= max_width
        && min_height <= more[i].1 <= max_height by {
        if i < sizes.len() {
            assert(more[i] == sizes[i]);
        }
    }
}

proof fn lemma_next_fraction(max_width: u32, max_height: u32, min_height: u32, count: int)
    requires
        max_width > 0,
        0 < min_height <= max_height,
        1 <= count < 5,
        down_to(
            fraction_tiers(max_width, max_height, min_height, count),
            max_width,
            max_height,
            min_height,
            tier_fractions()[count - 1],
        ),
        ({
            let (n, d) = tier_fractions()[count];
            let (larger_n, larger_d) = tier_fractions()[count - 1];
            let size = share(max_width, max_height, n, d);
            let larger = share(max_width, max_height, larger_n, larger_d);
            1 <= size.0 <= larger.0 && size.1 <= larger.1
        }),
    ensures
        down_to(
            fraction_tiers(max_width, max_height, min_height, count + 1),
            max_width,
            max_height,
            min_height,
            tier_fractions()[count],
        ),
{
    let before = fraction_tiers(max_width, max_height, min_height, count);
    let now = fraction_tiers(max_width, max_height, min_height, count + 1);
    let (n, d) = tier_fractions()[count];
    let size = share(max_width, max_height, n, d);
    assert(0 < n <= d);
    assert(now == if size.1 >= min_height && before.last() != size {
        before.push(size)
    } else {
        before
    }) by {
        reveal(share);
    }
    if size.1 >= min_height && before.last() != size {
        lemma_smaller_tier(before, size, max_width, max_height, min_height);
    }
}

/// The shares of a resolution, from the largest on.
proof fn lemma_shares_descend(max_width: u32, max_height: u32)
    requires
        max_width > 0,
        max_height > 0,
    ensures
        share(max_width, max_height, 1, 1) == (max_width, max_height),
        share(max_width, max_height, 5, 6).0 <= max_width,
        share(max_width, max_height, 5, 6).1 <= max_height,
        share(max_width, max_height, 2, 3).0 <= share(max_width, max_height, 5, 6).0,
        share(max_width, max_height, 2, 3).1 <= share(max_width, max_height, 5, 6).1,
        share(max_width, max_height, 1, 2).0 <= share(max_width, max_height, 2, 3).0,
        share(max_width, max_height, 1, 2).1 <= share(max_width, max_height, 2, 3).1,
        share(max_width, max_height, 1, 3).0 <= share(max_width, max_height, 1, 2).0,
        share(max_width, max_height, 1, 3).1 <= share(max_width, max_height, 1, 2).1,
        1 <= share(max_width, max_height, 1, 3).0,
{
    lemma_fractions_descend(max_width);
    lemma_fractions_descend(max_height);
    reveal(share);
}

/// Tiers descend from the full resolution to the smallest height that is allowed.
pub proof fn lemma_tiers_within(max_width: u32, max_height: u32, min_height: u32)
    requires
        max_width > 0,
        0 < min_height <= max_height,
    ensures
        ({
            let sizes = tiers(max_width, max_height, min_height);
            &&& sizes.len() > 0
            &&& sizes[0] == (max_width, max_height)
            &&& sizes.last().1 == min_height
            &&& descending(sizes, max_width, max_height, min_height)
        }),
{
    lemma_shares_descend(max_width, max_height);
    let first = fraction_tiers(max_width, max_height, min_height, 1);
    assert(first =~= seq![(max_width, max_height)]) by {
        assert(fraction_tiers(max_width, max_height, min_height, 0) =~= seq![]);
        reveal(share);
    }
    assert(tier_fractions()[0] == (1u32, 1u32));
    lemma_next_fraction(max_width, max_height, min_height, 1);
    lemma_next_fraction(max_width, max_height, min_height, 2);
    lemma_next_fraction(max_width, max_height, min_height, 3);
    lemma_next_fraction(max_width, max_height, min_height, 4);
    let fractions = fraction_tiers(max_width, max_height, min_height, 5);
    if fractions.last().1 > min_height {
        lemma_fraction_at_most(max_width, min_height, max_height);
        let (n, d) = choose|n: u32, d: u32|
            0 < n <= d && fractions.last() == #[trigger] share(max_width, max_height, n, d);
        lemma_fraction_at_most(max_width, n, d);
        lemma_fraction_at_most(max_height, n, d);
        reveal(share);
        lemma_smaller_share(
            max_width as int,
            max_height as int,
            min_height as int,
            n as int,
            d as int,
        );
        let size = (fraction_of(max_width, min_height, max_height) as u32, min_height);
        lemma_smaller_tier(fractions, size, max_width, max_height, min_height);
    }
}

proof fn lemma_smaller_share(width: int, height: int, smaller: int, n: int, d: int)
    requires
        width > 0,
        height > 0,
        0 < n <= d,
        0 < smaller <= height * n / d,
    ensures
        width * smaller / height <= width * n / d,
{
    vstd::arithmetic::div_mod::lemma_fundamental_div_mod(height * n, d);
    vstd::arithmetic::div_mod::lemma_fundamental_div_mod(width * smaller, height);
    vstd::arithmetic::div_mod::lemma_fundamental_div_mod(width * n, d);
    let a = height * n / d;
    let b = width * smaller / height;
    let c = width * n / d;
    assert(d * smaller <= height * n) by (nonlinear_arith)
        requires
            height * n == d * a + height * n % d,
            0 <= height * n % d,
            smaller <= a,
            0 < d,
    ;
    assert(d * b <= width * n) by (nonlinear_arith)
        requires
            width * smaller == height * b + width * smaller % height,
            0 <= width * smaller % height,
            d * smaller <= height * n,
            0 < width,
            0 < height,
            0 < d,
    ;
    assert(b <= c) by (nonlinear_arith)
        requires
            d * b <= width * n,
            width * n == d * c + width * n % d,
            width * n % d < d,
            0 < d,
    ;
}

/// The tier that a budget asks for never has more detail, and its share of the bytes fits the
/// budget unless it is the last.
pub proof fn lemma_budget_tier(
    limits: Seq<(u32, u32)>,
    from: int,
    at: int,
    encoded: int,
    budget: int,
)
    requires
        0 <= from <= at < limits.len(),
    ensures
        ({
            let tier = budget_tier(limits, from, at, encoded, budget);
            let pixels = limits[tier].0 * limits[tier].1;
            let from_pixels = limits[from].0 * limits[from].1;
            &&& at <= tier < limits.len()
            &&& at + 1 < limits.len() ==> at < tier
            &&& at < tier && tier + 1 < limits.len() ==> encoded * pixels / from_pixels <= budget
        }),
    decreases limits.len() - at,
{
    if at + 1 < limits.len() {
        let pixels = limits[at + 1].0 * limits[at + 1].1;
        let from_pixels = limits[from].0 * limits[from].1;
        if encoded * pixels / from_pixels > budget {
            lemma_budget_tier(limits, from, at + 1, encoded, budget);
            let tier = budget_tier(limits, from, at + 1, encoded, budget);
            if tier == at + 1 {
                assert(tier + 1 >= limits.len());
            }
        }
    }
}

} // verus!
