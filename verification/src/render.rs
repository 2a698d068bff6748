//! Raster sizes, raster tiles and crops.

use crate::arith;
use crate::arith::{ceil_div, gcd, max32, min32, scaled, scaled_up, truncate32};
use crate::pixels;
use crate::pixels::{Pixels, RgbImage};
use vstd::prelude::*;

verus! {

/// A part of the desktop: a magnification and the point in the middle, as fractions of the width
/// and height. Each field holds the bits of a single-precision number.
#[derive(Debug, Clone, Copy, PartialEq, Eq, Structural)]
pub struct Viewport {
    pub zoom: u32,
    pub center_x: u32,
    pub center_y: u32,
}

/// The bits of 0.5 and of 1.0, and those from which on a number is not finite.
pub const HALF_BITS: u32 = 0x3f00_0000;

pub const ONE_BITS: u32 = 0x3f80_0000;

pub const INFINITY_BITS: u32 = 0x7f80_0000;

/// The bits of negative zero.
pub const NEGATIVE_ZERO_BITS: u32 = 0x8000_0000;

impl Default for Viewport {
    /// The whole desktop.
    fn default() -> (viewport: Self)
        ensures
            viewport == (Viewport { zoom: ONE_BITS, center_x: HALF_BITS, center_y: HALF_BITS }),
    {
        Viewport { zoom: ONE_BITS, center_x: HALF_BITS, center_y: HALF_BITS }
    }
}

/// Which field of a viewport is out of its range.
#[derive(Debug, Clone, Copy, PartialEq, Eq, Structural)]
pub enum ViewportError {
    Zoom,
    CenterX,
    CenterY,
}

impl ViewportError {
    /// The error in words.
    pub open spec fn words(self) -> Seq<char> {
        match self {
            ViewportError::Zoom => "zoom must be a finite number greater than or equal to 1.0"@,
            ViewportError::CenterX => "center-x must be between 0.0 and 1.0"@,
            ViewportError::CenterY => "center-y must be between 0.0 and 1.0"@,
        }
    }

    /// The error in words.
    pub fn message(&self) -> (message: String)
        ensures
            message@ == self.words(),
    {
        match self {
            ViewportError::Zoom =>
                "zoom must be a finite number greater than or equal to 1.0".to_owned(),
            ViewportError::CenterX => "center-x must be between 0.0 and 1.0".to_owned(),
            ViewportError::CenterY => "center-y must be between 0.0 and 1.0".to_owned(),
        }
    }
}

/// The bits of a finite number that is at least one. Positive numbers are ordered as their bits.
pub open spec fn is_zoom(bits: u32) -> bool {
    ONE_BITS <= bits < INFINITY_BITS
}

/// The bits of a number from zero to one.
pub open spec fn is_fraction(bits: u32) -> bool {
    bits <= ONE_BITS || bits == NEGATIVE_ZERO_BITS
}

/// The first field of a viewport that is out of its range.
pub open spec fn viewport_fault(viewport: Viewport) -> Option<ViewportError> {
    if !is_zoom(viewport.zoom) {
        Some(ViewportError::Zoom)
    } else if !is_fraction(viewport.center_x) {
        Some(ViewportError::CenterX)
    } else if !is_fraction(viewport.center_y) {
        Some(ViewportError::CenterY)
    } else {
        None
    }
}

/// Checks a viewport.
pub fn validate_viewport(viewport: Viewport) -> (result: Result<(), ViewportError>)
    ensures
        match viewport_fault(viewport) {
            Some(fault) => result == Err::<(), ViewportError>(fault),
            None => result is Ok,
        },
{
    if !(ONE_BITS <= viewport.zoom && viewport.zoom < INFINITY_BITS) {
        return Err(ViewportError::Zoom);
    }
    if !(viewport.center_x <= ONE_BITS || viewport.center_x == NEGATIVE_ZERO_BITS) {
        return Err(ViewportError::CenterX);
    }
    if !(viewport.center_y <= ONE_BITS || viewport.center_y == NEGATIVE_ZERO_BITS) {
        return Err(ViewportError::CenterY);
    }
    Ok(())
}

/// A rectangle of image pixels.
#[derive(Debug, Clone, Copy, PartialEq, Eq, Structural)]
pub struct ViewportRect {
    pub x: u32,
    pub y: u32,
    pub width: u32,
    pub height: u32,
}

impl ViewportRect {
    /// Whether the rectangle holds a pixel and lies inside an image of the given size.
    pub open spec fn inside(self, width: u32, height: u32) -> bool {
        0 < self.width && 0 < self.height && self.x + self.width <= width && self.y + self.height
            <= height
    }
}

/// What `length` becomes when `from` becomes `to`: at least one, and reduced to 32 bits.
pub open spec fn limited(length: u32, to: u32, from: u32) -> int {
    arith::low32(arith::max_of(length * to / from as int, 1))
}

/// The size of the same shape that fills a box in one direction.
pub open spec fn fitted(width: u32, height: u32, max_width: u32, max_height: u32) -> (int, int) {
    if limited(height, max_width, width) <= max_height {
        (max_width as int, limited(height, max_width, width))
    } else {
        (limited(width, max_height, height), max_height as int)
    }
}

fn limit(length: u32, to: u32, from: u32) -> (size: u32)
    requires
        from > 0,
    ensures
        size == limited(length, to, from),
{
    let value: u64 = scaled(length, to, from);
    truncate32(
        if value >= 1 {
            value
        } else {
            1
        },
    )
}

/// The size of the same shape that fills a box in one direction.
pub fn fitted_sample_size(width: u32, height: u32, max_width: u32, max_height: u32) -> (size: (
    u32,
    u32,
))
    requires
        width > 0,
        height > 0,
        max_width > 0,
        max_height > 0,
    ensures
        (size.0 as int, size.1 as int) == fitted(width, height, max_width, max_height),
{
    let width_limited_height: u32 = limit(height, max_width, width);
    if width_limited_height <= max_height {
        (max_width, width_limited_height)
    } else {
        (limit(width, max_height, height), max_height)
    }
}

/// A fitted size never leaves its box, and is never without width.
pub proof fn lemma_fitted_at_most(width: u32, height: u32, max_width: u32, max_height: u32)
    requires
        width > 0,
        height > 0,
        max_width > 0,
        max_height > 0,
    ensures
        0 < fitted(width, height, max_width, max_height).0 <= max_width,
        0 <= fitted(width, height, max_width, max_height).1 <= max_height,
{
    let (w, h, mw, mh) = (width as int, height as int, max_width as int, max_height as int);
    let high = h * mw / w;
    vstd::arithmetic::div_mod::lemma_fundamental_div_mod(h * mw, w);
    assert(0 <= h * mw && 0 <= w * mh) by (nonlinear_arith)
        requires
            0 < h,
            0 < mw,
            0 < w,
            0 < mh,
    ;
    assert(0 <= high) by (nonlinear_arith)
        requires
            h * mw == w * high + h * mw % w,
            0 <= h * mw % w < w,
            0 <= h * mw,
    ;
    if limited(height, max_width, width) > mh {
        vstd::arithmetic::div_mod::lemma_mod_decreases(
            arith::max_of(high, 1) as nat,
            0x1_0000_0000nat,
        );
        assert(high >= mh + 1);
        let wide = w * mh / h;
        vstd::arithmetic::div_mod::lemma_fundamental_div_mod(w * mh, h);
        assert(h * mw >= w * (mh + 1)) by (nonlinear_arith)
            requires
                h * mw == w * high + h * mw % w,
                0 <= h * mw % w,
                high >= mh + 1,
                0 < w,
        ;
        assert(0 <= wide <= mw) by (nonlinear_arith)
            requires
                w * mh == h * wide + w * mh % h,
                0 <= w * mh % h < h,
                0 <= w * mh,
                h * mw >= w * (mh + 1),
                0 < h,
                0 < w,
        ;
        vstd::arithmetic::div_mod::lemma_mod_decreases(
            arith::max_of(wide, 1) as nat,
            0x1_0000_0000nat,
        );
    }
}

/// The size of the same shape that fills a box in one direction, where an empty box counts as one
/// pixel.
pub fn fit_dimensions(width: u32, height: u32, max_width: u32, max_height: u32) -> (size: (
    u32,
    u32,
))
    requires
        width > 0,
        height > 0,
    ensures
        (size.0 as int, size.1 as int) == fitted(
            width,
            height,
            arith::max_of(max_width as int, 1) as u32,
            arith::max_of(max_height as int, 1) as u32,
        ),
{
    fitted_sample_size(width, height, max32(max_width, 1), max32(max_height, 1))
}

/// Where a lower edge comes to lie in a raster: rounded down, and on a pixel of it.
pub open spec fn mapped_low(edge: u32, source: u32, raster: u32) -> int {
    arith::min_of(arith::low32(edge * raster / source as int), raster - 1)
}

/// Where an upper edge comes to lie in a raster: rounded up.
pub open spec fn mapped_high(edge: int, source: u32, raster: u32) -> int {
    arith::min_of(arith::low32(arith::ceiling(edge * raster, source as int)), raster as int)
}

/// One direction of a crop of a raster: its lower edge and its length.
pub open spec fn mapped_span(start: u32, length: u32, source: u32, raster: u32) -> (int, int) {
    let low = mapped_low(start, source, raster);
    let high = mapped_high(start + length, source, raster);
    (low, arith::max_of(high - low, 1))
}

fn map_span(start: u32, length: u32, source: u32, raster: u32) -> (span: (u32, u32))
    requires
        source > 0,
        raster > 0,
        start + length <= u32::MAX,
    ensures
        (span.0 as int, span.1 as int) == mapped_span(start, length, source, raster),
{
    let low: u32 = min32(truncate32(scaled(start, raster, source)), raster - 1);
    let high: u32 = min32(truncate32(scaled_up(start + length, raster, source)), raster);
    (low, max32(high.saturating_sub(low), 1))
}

/// Maps a crop of the source image to the same crop of a raster of another size. Outward rounding
/// keeps even a crop of one pixel visible.
pub fn map_viewport_to_raster(
    viewport: ViewportRect,
    source_width: u32,
    source_height: u32,
    raster_width: u32,
    raster_height: u32,
) -> (crop: ViewportRect)
    requires
        source_width > 0,
        source_height > 0,
        raster_width > 0,
        raster_height > 0,
        viewport.x + viewport.width <= u32::MAX,
        viewport.y + viewport.height <= u32::MAX,
    ensures
        (crop.x as int, crop.width as int) == mapped_span(
            viewport.x,
            viewport.width,
            source_width,
            raster_width,
        ),
        (crop.y as int, crop.height as int) == mapped_span(
            viewport.y,
            viewport.height,
            source_height,
            raster_height,
        ),
{
    let (x, width) = map_span(viewport.x, viewport.width, source_width, raster_width);
    let (y, height) = map_span(viewport.y, viewport.height, source_height, raster_height);
    ViewportRect { x, y, width, height }
}

/// The value of the bits that stay zero at a precision of `bits`.
pub open spec fn colour_step(bits: u8) -> int {
    match bits {
        8 => 1,
        7 => 2,
        6 => 4,
        5 => 8,
        4 => 16,
        3 => 32,
        2 => 64,
        _ => 128,
    }
}

/// A channel value rounded down to a precision.
pub open spec fn reduced(channel: u8, bits: u8) -> int {
    channel - channel as int % colour_step(bits)
}

proof fn lemma_masked(channel: u8, bits: u8)
    requires
        1 <= bits <= 8,
    ensures
        (channel & (0xffu8 << (8 - bits) as u8)) == reduced(channel, bits),
{
    assert(channel & (0xffu8 << 0u8) == channel) by (bit_vector);
    assert(channel & (0xffu8 << 1u8) == channel - channel % 2) by (bit_vector);
    assert(channel & (0xffu8 << 2u8) == channel - channel % 4) by (bit_vector);
    assert(channel & (0xffu8 << 3u8) == channel - channel % 8) by (bit_vector);
    assert(channel & (0xffu8 << 4u8) == channel - channel % 16) by (bit_vector);
    assert(channel & (0xffu8 << 5u8) == channel - channel % 32) by (bit_vector);
    assert(channel & (0xffu8 << 6u8) == channel - channel % 64) by (bit_vector);
    assert(channel & (0xffu8 << 7u8) == channel - channel % 128) by (bit_vector);
    assert(channel as int % 1 == 0);
}

/// Drops low channel bits before lossless compression. At seven bits the error is at most one
/// step, while screenshots compress materially better.
pub fn reduce_color_precision(image: &mut RgbImage, bits: u8)
    requires
        1 <= bits <= 8,
    ensures
        final(image)@ == reduced_pixels(old(image)@, bits),
        old(image).wf() ==> final(image).wf(),
{
    let mask: u8 = 0xffu8 << (8 - bits);
    let mut i: usize = 0;
    while i < image.data.len()
        invariant
            1 <= bits <= 8,
            mask == 0xffu8 << (8 - bits) as u8,
            i <= image.data@.len(),
            image.width == old(image).width,
            image.height == old(image).height,
            image.data@.len() == old(image).data@.len(),
            forall|j: int|
                0 <= j < i ==> #[trigger] image.data@[j] == reduced(old(image).data@[j], bits),
            forall|j: int|
                i <= j < image.data@.len() ==> #[trigger] image.data@[j] == old(image).data@[j],
        decreases image.data@.len() - i,
    {
        let channel: u8 = image.data[i];
        proof {
            lemma_masked(channel, bits);
        }
        image.data.set(i, channel & mask);
        i = i + 1;
    }
    assert(image@ =~= reduced_pixels(old(image)@, bits));
}

/// A raster and the pixels of the desktop that it shows.
pub struct RasterFrame {
    pub image: RgbImage,
    pub viewport: ViewportRect,
}

/// A crop of an image, brought to a size.
pub open spec fn raster_of(source: Pixels, rect: ViewportRect, width: u32, height: u32) -> Pixels {
    let cropped = source.crop(
        rect.x as int,
        rect.y as int,
        rect.width as nat,
        rect.height as nat,
    );
    if width == rect.width && height == rect.height {
        cropped
    } else {
        cropped.resized(width as nat, height as nat)
    }
}

/// Renders the pixels `rect` that a viewport shows at the given size.
pub fn render_raster_viewport(
    source: &RgbImage,
    viewport: Viewport,
    rect: ViewportRect,
    width: u32,
    height: u32,
) -> (frame: Result<RasterFrame, ViewportError>)
    requires
        source.wf(),
        viewport_fault(viewport) is None ==> rect.inside(source.width, source.height)
            && pixels::resizable(
            rect.width as int,
            rect.height as int,
            width as int,
            height as int,
        ),
    ensures
        match viewport_fault(viewport) {
            Some(fault) => frame == Err::<RasterFrame, ViewportError>(fault),
            None => frame is Ok && frame->Ok_0.viewport == rect && frame->Ok_0.image.wf()
                && frame->Ok_0.image@ == raster_of(source@, rect, width, height),
        },
{
    match validate_viewport(viewport) {
        Ok(()) => {},
        Err(fault) => return Err(fault),
    }
    let cropped = source.crop(rect.x, rect.y, rect.width, rect.height);
    let image = if width == rect.width && height == rect.height {
        cropped
    } else {
        cropped.resize(width, height)
    };
    Ok(RasterFrame { image, viewport: rect })
}

/// The smallest raster whose pixels are square on `cells` cells of `cell` pixels, in one
/// direction.
pub open spec fn grid_base(cells: u16, cell: u32, divisor: u32) -> int {
    cells * (cell as int / divisor as int)
}

/// Whether `divisor` is the greatest common divisor of two numbers.
pub open spec fn is_gcd(divisor: u32, left: u32, right: u32) -> bool {
    &&& divisor > 0
    &&& arith::divides(divisor as int, left as int)
    &&& arith::divides(divisor as int, right as int)
    &&& forall|d: int|
        d > 0 && #[trigger] arith::divides(d, left as int) && arith::divides(d, right as int)
            ==> d <= divisor
}

/// The greatest common divisor of two positive numbers.
pub open spec fn common(left: u32, right: u32) -> u32 {
    choose|divisor: u32| is_gcd(divisor, left, right)
}

/// How many times the smallest raster fits the box, and at least once, but no more than brings it
/// nearest to the image.
pub open spec fn grid_scale(
    size: (u32, u32),
    base: (int, int),
    max_width: u32,
    max_height: u32,
) -> int {
    let most = arith::max_of(
        arith::min_of(max_width as int / base.0, max_height as int / base.1),
        1,
    );
    let nearest = arith::max_of(
        arith::min_of(
            arith::rounded(size.0 as int, base.0),
            arith::rounded(size.1 as int, base.1),
        ),
        1,
    );
    arith::min_of(nearest, most)
}

/// The size of a raster that fills `cols` by `rows` cells with square pixels.
pub open spec fn aligned_size(
    size: (u32, u32),
    cols: u16,
    rows: u16,
    cell_width: u32,
    cell_height: u32,
    max_width: u32,
    max_height: u32,
) -> (int, int) {
    let divisor = common(cell_width, cell_height);
    let base = (grid_base(cols, cell_width, divisor), grid_base(rows, cell_height, divisor));
    let scale = grid_scale(size, base, max_width, max_height);
    (base.0 * scale, base.1 * scale)
}

proof fn lemma_common(divisor: u32, left: u32, right: u32)
    requires
        is_gcd(divisor, left, right),
    ensures
        common(left, right) == divisor,
{
    let chosen = common(left, right);
    assert(is_gcd(chosen, left, right));
    assert(arith::divides(chosen as int, left as int));
    assert(arith::divides(divisor as int, left as int));
}

fn round_div(a: u32, b: u32) -> (q: u32)
    requires
        b > 0,
    ensures
        q == arith::rounded(a as int, b as int),
{
    let q: u64 = (2 * a as u64 + b as u64) / (2 * b as u64);
    proof {
        assert((2 * a + b) / (2 * b) <= a + 1) by (nonlinear_arith)
            requires
                0 <= a,
                0 < b,
        ;
        if b == 1 {
            assert((2 * a + 1) / 2 == a);
        } else {
            assert((2 * a + b) / (2 * b) <= u32::MAX) by (nonlinear_arith)
                requires
                    0 <= a <= u32::MAX,
                    2 <= b <= u32::MAX,
            ;
        }
    }
    q as u32
}

/// Brings a raster to a size that fills the cells with square pixels, so that every cell boundary
/// is a pixel boundary.
pub fn align_raster_to_cell_grid(
    image: &RgbImage,
    cols: u16,
    rows: u16,
    cell_width: u32,
    cell_height: u32,
    max_width: u32,
    max_height: u32,
) -> (aligned: RgbImage)
    requires
        image.wf(),
        cols > 0,
        rows > 0,
        cell_width > 0,
        cell_height > 0,
        grid_base(cols, cell_width, common(cell_width, cell_height)) <= u32::MAX,
        grid_base(rows, cell_height, common(cell_width, cell_height)) <= u32::MAX,
        ({
            let size = aligned_size(
                (image.width, image.height),
                cols,
                rows,
                cell_width,
                cell_height,
                max_width,
                max_height,
            );
            pixels::resizable(image.width as int, image.height as int, size.0, size.1)
        }),
    ensures
        aligned.wf(),
        aligned@ == aligned_pixels(
            image@,
            cols,
            rows,
            cell_width,
            cell_height,
            max_width,
            max_height,
        ),
{
    let divisor: u32 = gcd(cell_width, cell_height);
    proof {
        lemma_common(divisor, cell_width, cell_height);
        lemma_quotient(cols, cell_width, divisor);
        lemma_quotient(rows, cell_height, divisor);
    }
    let base_width: u32 = cols as u32 * (cell_width / divisor);
    let base_height: u32 = rows as u32 * (cell_height / divisor);
    let maximum_scale: u32 = max32(min32(max_width / base_width, max_height / base_height), 1);
    let source_scale: u32 = max32(
        min32(round_div(image.width, base_width), round_div(image.height, base_height)),
        1,
    );
    let scale: u32 = min32(source_scale, maximum_scale);
    proof {
        lemma_scaled_fits(
            base_width as int,
            max_width as int,
            scale as int,
            maximum_scale as int,
        );
        lemma_scaled_fits(
            base_height as int,
            max_height as int,
            scale as int,
            maximum_scale as int,
        );
    }
    let width: u32 = base_width * scale;
    let height: u32 = base_height * scale;
    if image.width == width && image.height == height {
        image.duplicate()
    } else {
        image.resize(width, height)
    }
}

proof fn lemma_quotient(cells: u16, cell: u32, divisor: u32)
    requires
        cells > 0,
        cell > 0,
        divisor > 0,
        arith::divides(divisor as int, cell as int),
    ensures
        cell as int / divisor as int > 0,
        grid_base(cells, cell, divisor) > 0,
{
    let q = cell as int / divisor as int;
    vstd::arithmetic::div_mod::lemma_fundamental_div_mod(cell as int, divisor as int);
    assert(q > 0) by (nonlinear_arith)
        requires
            cell == divisor * q,
            cell > 0,
            divisor > 0,
    ;
    assert(cells * q > 0) by (nonlinear_arith)
        requires
            cells > 0,
            q > 0,
    ;
}

/// A raster that fills cells is no larger than the limit, unless the smallest one is.
pub proof fn lemma_scaled_fits(base: int, limit: int, scale: int, most: int)
    requires
        base > 0,
        0 <= limit,
        1 <= scale <= most,
        most == 1 || most <= limit / base,
    ensures
        0 < base * scale <= arith::max_of(base, limit),
{
    if most > 1 {
        vstd::arithmetic::div_mod::lemma_fundamental_div_mod(limit, base);
        let q = limit / base;
        assert(0 < base * scale <= base * q) by (nonlinear_arith)
            requires
                0 < base,
                1 <= scale <= q,
        ;
    } else {
        assert(base * scale == base) by (nonlinear_arith)
            requires
                scale == 1,
        ;
    }
}

/// An aligned raster is not empty, and no larger than the limit or the cells.
pub proof fn lemma_aligned_bounds(
    size: (u32, u32),
    cols: u16,
    rows: u16,
    cell_width: u32,
    cell_height: u32,
    max_width: u32,
    max_height: u32,
)
    requires
        cols > 0,
        rows > 0,
        cell_width > 0,
        cell_height > 0,
    ensures
        0 < grid_base(cols, cell_width, common(cell_width, cell_height)) <= cols * cell_width,
        0 < grid_base(rows, cell_height, common(cell_width, cell_height)) <= rows * cell_height,
        ({
            let aligned = aligned_size(
                size,
                cols,
                rows,
                cell_width,
                cell_height,
                max_width,
                max_height,
            );
            &&& 0 < aligned.0 <= arith::max_of(cols * cell_width, max_width as int)
            &&& 0 < aligned.1 <= arith::max_of(rows * cell_height, max_height as int)
        }),
{
    let greatest = arith::lemma_gcd_exists(cell_width as int, cell_height as int);
    assert(is_gcd(greatest as u32, cell_width, cell_height));
    let divisor = common(cell_width, cell_height);
    assert(is_gcd(divisor, cell_width, cell_height));
    lemma_quotient(cols, cell_width, divisor);
    lemma_quotient(rows, cell_height, divisor);
    lemma_base_bound(cols, cell_width, divisor);
    lemma_base_bound(rows, cell_height, divisor);
    let base = (grid_base(cols, cell_width, divisor), grid_base(rows, cell_height, divisor));
    let scale = grid_scale(size, base, max_width, max_height);
    let most = arith::max_of(
        arith::min_of(max_width as int / base.0, max_height as int / base.1),
        1,
    );
    lemma_scaled_fits(base.0, max_width as int, scale, most);
    lemma_scaled_fits(base.1, max_height as int, scale, most);
}

proof fn lemma_base_bound(cells: u16, cell: u32, divisor: u32)
    requires
        divisor > 0,
        cell > 0,
    ensures
        grid_base(cells, cell, divisor) <= cells * cell,
{
    let q = cell as int / divisor as int;
    vstd::arithmetic::div_mod::lemma_div_is_ordered_by_denominator(cell as int, 1, divisor as int);
    assert(cell as int / 1 == cell);
    assert(cells * q <= cells * cell) by (nonlinear_arith)
        requires
            0 <= cells,
            q <= cell,
    ;
}

/// A raster brought to a size that fills the cells with square pixels.
pub open spec fn aligned_pixels(
    image: Pixels,
    cols: u16,
    rows: u16,
    cell_width: u32,
    cell_height: u32,
    max_width: u32,
    max_height: u32,
) -> Pixels {
    let size = aligned_size(
        (image.width as u32, image.height as u32),
        cols,
        rows,
        cell_width,
        cell_height,
        max_width,
        max_height,
    );
    if image.width == size.0 && image.height == size.1 {
        image
    } else {
        image.resized(size.0 as nat, size.1 as nat)
    }
}

/// An image with its channels rounded down to a precision.
pub open spec fn reduced_pixels(image: Pixels, bits: u8) -> Pixels {
    Pixels {
        width: image.width,
        height: image.height,
        data: image.data.map_values(|channel: u8| reduced(channel, bits) as u8),
    }
}

/// A part of a raster, and the terminal cells that it covers.
pub struct RasterTile {
    pub image: RgbImage,
    pub index: u32,
    pub col: u16,
    pub row: u16,
    pub cols: u16,
    pub rows: u16,
}

/// What a tile shows, and where.
#[verifier::ext_equal]
pub struct TileView {
    pub image: Pixels,
    pub index: u32,
    pub col: u16,
    pub row: u16,
    pub cols: u16,
    pub rows: u16,
}

impl View for RasterTile {
    type V = TileView;

    open spec fn view(&self) -> TileView {
        TileView {
            image: self.image@,
            index: self.index,
            col: self.col,
            row: self.row,
            cols: self.cols,
            rows: self.rows,
        }
    }
}

/// How many cells a tile takes in one direction so that it has at least `target` pixels.
pub open spec fn tile_cells(target: u32, pixels: u32, cells: u16) -> int {
    arith::clamped(
        arith::low32(arith::ceiling(target * cells, pixels as int)),
        1,
        cells as int,
    )
}

/// The pixel at which a cell begins.
pub open spec fn boundary(cell: int, pixels: int, cells: u16) -> int {
    cell * pixels / cells as int
}

/// How many cells a tile takes in one direction.
pub fn cells_for_target_pixels(target: u32, pixels: u32, cells: u16) -> (count: u16)
    requires
        pixels > 0,
        cells > 0,
    ensures
        count == tile_cells(target, pixels, cells),
{
    let wanted: u32 = truncate32(scaled_up(target, cells as u32, pixels));
    if wanted < 1 {
        1
    } else if wanted > cells as u32 {
        cells
    } else {
        wanted as u16
    }
}

/// The pixel at which a cell begins.
pub fn pixel_boundary(cell: u32, pixels: u32, cells: u16) -> (pixel: u32)
    requires
        cells > 0,
        cell <= cells,
    ensures
        pixel == boundary(cell as int, pixels as int, cells),
        pixel <= pixels,
{
    proof {
        lemma_boundary(cell as int, cells as int, pixels as int, cells);
    }
    scaled(cell, pixels, cells as u32) as u32
}

/// Later cells begin at later pixels, and the cells end where the pixels do.
pub proof fn lemma_boundary(cell: int, later: int, pixels: int, cells: u16)
    requires
        cells > 0,
        0 <= cell <= later <= cells,
        0 <= pixels,
    ensures
        0 <= boundary(cell, pixels, cells) <= boundary(later, pixels, cells) <= pixels,
        boundary(0, pixels, cells) == 0,
        boundary(cells as int, pixels, cells) == pixels,
{
    let c = cells as int;
    assert(0 <= cell * pixels <= later * pixels <= c * pixels) by (nonlinear_arith)
        requires
            0 <= cell <= later <= c,
            0 <= pixels,
    ;
    vstd::arithmetic::div_mod::lemma_div_is_ordered(0, cell * pixels, c);
    vstd::arithmetic::div_mod::lemma_div_is_ordered(cell * pixels, later * pixels, c);
    vstd::arithmetic::div_mod::lemma_div_is_ordered(later * pixels, c * pixels, c);
    vstd::arithmetic::div_mod::lemma_div_multiples_vanish(pixels, c);
    assert(0 * pixels == 0) by (nonlinear_arith);
    assert(0int / c == 0) by {
        vstd::arithmetic::div_mod::lemma_div_basics(c);
    }
}

/// How many tiles stand beside each other in one direction.
pub open spec fn tile_count(target: u32, pixels: u32, cells: u16) -> int {
    arith::ceiling(cells as int, tile_cells(target, pixels, cells))
}

/// The first cell of a tile, and how many it takes, in one direction.
pub open spec fn tile_span(at: int, target: u32, pixels: u32, cells: u16) -> (int, int) {
    let each = tile_cells(target, pixels, cells);
    (at * each, arith::min_of(each, cells - at * each))
}

/// The first pixel of a tile, and the pixel after its last one, in one direction.
pub open spec fn tile_pixels(at: int, target: u32, pixels: u32, cells: u16) -> (int, int) {
    let span = tile_span(at, target, pixels, cells);
    (
        boundary(span.0, pixels as int, cells),
        boundary(span.0 + span.1, pixels as int, cells),
    )
}

/// The grid that divides a raster: its size, the cells that it covers and the wanted tile size.
pub struct TileGrid {
    pub width: u32,
    pub height: u32,
    pub cols: u16,
    pub rows: u16,
    pub target: u32,
}

impl TileGrid {
    pub open spec fn wf(self) -> bool {
        self.width > 0 && self.height > 0 && self.cols > 0 && self.rows > 0 && self.target > 0
    }

    pub open spec fn across(self) -> int {
        tile_count(self.target, self.width, self.cols)
    }

    pub open spec fn down(self) -> int {
        tile_count(self.target, self.height, self.rows)
    }

    /// The pixels of the tile at `index`, counted row by row.
    pub open spec fn rect(self, index: int) -> (int, int, int, int) {
        let h = tile_pixels(index % self.across(), self.target, self.width, self.cols);
        let v = tile_pixels(index / self.across(), self.target, self.height, self.rows);
        (h.0, v.0, h.1 - h.0, v.1 - v.0)
    }

    /// The pixels that an image has in the tile at `index`.
    pub open spec fn part(self, image: Pixels, index: int) -> Pixels {
        let rect = self.rect(index);
        image.crop(rect.0, rect.1, rect.2 as nat, rect.3 as nat)
    }

    /// The tile at `index`.
    pub open spec fn tile(self, image: Pixels, index: int) -> TileView {
        let h = tile_span(index % self.across(), self.target, self.width, self.cols);
        let v = tile_span(index / self.across(), self.target, self.height, self.rows);
        TileView {
            image: self.part(image, index),
            index: index as u32,
            col: h.0 as u16,
            row: v.0 as u16,
            cols: h.1 as u16,
            rows: v.1 as u16,
        }
    }

    /// Whether the tile at `index` must be sent.
    pub open spec fn changed(self, previous: Option<Pixels>, current: Pixels, index: int) -> bool {
        match previous {
            Some(previous) => self.part(previous, index) != self.part(current, index),
            None => true,
        }
    }

    /// Those of the first `count` tiles that must be sent.
    pub open spec fn changed_tiles(
        self,
        previous: Option<Pixels>,
        current: Pixels,
        count: int,
    ) -> Seq<TileView>
        decreases count,
    {
        if count <= 0 {
            seq![]
        } else if self.changed(previous, current, count - 1) {
            self.changed_tiles(previous, current, count - 1).push(self.tile(current, count - 1))
        } else {
            self.changed_tiles(previous, current, count - 1)
        }
    }
}

/// What tiles show, and where.
pub open spec fn tile_views(tiles: Seq<RasterTile>) -> Seq<TileView> {
    tiles.map_values(|tile: RasterTile| tile@)
}

/// A tile of the grid lies inside the cells and takes at least one.
pub proof fn lemma_tile_span(at: int, target: u32, pixels: u32, cells: u16)
    requires
        pixels > 0,
        cells > 0,
        0 <= at < tile_count(target, pixels, cells),
    ensures
        1 <= tile_cells(target, pixels, cells) <= cells,
        1 <= tile_count(target, pixels, cells) <= cells,
        0 <= tile_span(at, target, pixels, cells).0 < cells,
        1 <= tile_span(at, target, pixels, cells).1,
        tile_span(at, target, pixels, cells).0 + tile_span(at, target, pixels, cells).1 <= cells,
        0 <= tile_pixels(at, target, pixels, cells).0 <= tile_pixels(at, target, pixels, cells).1
            <= pixels,
{
    let each = tile_cells(target, pixels, cells);
    let c = cells as int;
    lemma_count(c, each);
    assert(at * each <= (arith::ceiling(c, each) - 1) * each) by (nonlinear_arith)
        requires
            at <= arith::ceiling(c, each) - 1,
            0 < each,
    ;
    assert(0 <= at * each) by (nonlinear_arith)
        requires
            0 <= at,
            0 < each,
    ;
    let span = tile_span(at, target, pixels, cells);
    lemma_boundary(span.0, span.0 + span.1, pixels as int, cells);
}

/// How many tiles of `each` cells cover `cells` cells.
pub proof fn lemma_count(cells: int, each: int)
    requires
        1 <= each <= cells,
    ensures
        1 <= arith::ceiling(cells, each) <= cells,
        (arith::ceiling(cells, each) - 1) * each < cells,
        cells <= arith::ceiling(cells, each) * each,
{
    vstd::arithmetic::div_mod::lemma_fundamental_div_mod(cells, each);
    let q = cells / each;
    let r = cells % each;
    assert(q >= 1) by (nonlinear_arith)
        requires
            cells == each * q + r,
            0 <= r < each,
            1 <= each <= cells,
    ;
    assert(each * q >= q) by (nonlinear_arith)
        requires
            1 <= each,
            1 <= q,
    ;
    assert((q - 1) * each == each * q - each) by (nonlinear_arith);
    assert(q * each == each * q) by (nonlinear_arith);
    assert((q + 1) * each == each * q + each) by (nonlinear_arith);
}

/// The tiles of a raster that differ from the raster before, or all of them.
pub fn changed_raster_tiles(
    previous: Option<&RgbImage>,
    current: &RgbImage,
    display_cols: u16,
    display_rows: u16,
    target_tile_size: u32,
) -> (tiles: Vec<RasterTile>)
    requires
        current.wf(),
        current.width > 0,
        current.height > 0,
        previous matches Some(previous) ==> previous.wf() && previous.width == current.width
            && previous.height == current.height,
        display_cols > 0,
        display_rows > 0,
        target_tile_size > 0,
    ensures
        ({
            let grid = TileGrid {
                width: current.width,
                height: current.height,
                cols: display_cols,
                rows: display_rows,
                target: target_tile_size,
            };
            tile_views(tiles@) == grid.changed_tiles(
                match previous {
                    Some(previous) => Some(previous@),
                    None => None,
                },
                current@,
                grid.across() * grid.down(),
            )
        }),
        forall|i: int| 0 <= i < tiles@.len() ==> (#[trigger] tiles@[i]).image.wf(),
{
    let width: u32 = current.width;
    let height: u32 = current.height;
    let ghost grid = TileGrid {
        width,
        height,
        cols: display_cols,
        rows: display_rows,
        target: target_tile_size,
    };
    let ghost before: Option<Pixels> = match previous {
        Some(previous) => Some(previous@),
        None => None,
    };
    let each_cols: u16 = cells_for_target_pixels(target_tile_size, width, display_cols);
    let each_rows: u16 = cells_for_target_pixels(target_tile_size, height, display_rows);
    proof {
        lemma_count(display_cols as int, each_cols as int);
        lemma_count(display_rows as int, each_rows as int);
    }
    let grid_cols: u32 = ceil_div(display_cols as u64, each_cols as u64) as u32;
    let grid_rows: u32 = ceil_div(display_rows as u64, each_rows as u64) as u32;
    let mut tiles: Vec<RasterTile> = Vec::new();
    let mut tile_row: u32 = 0;
    assert(0 * grid.across() == 0) by (nonlinear_arith);
    assert(tile_views(tiles@) =~= grid.changed_tiles(before, current@, 0));
    while tile_row < grid_rows
        invariant
            current.wf(),
            current.width == width,
            current.height == height,
            width > 0,
            height > 0,
            display_cols > 0,
            display_rows > 0,
            target_tile_size > 0,
            previous matches Some(previous) ==> previous.wf() && previous.width == current.width
                && previous.height == current.height,
            before == (match previous {
                Some(previous) => Some(previous@),
                None => None,
            }),
            grid == (TileGrid {
                width,
                height,
                cols: display_cols,
                rows: display_rows,
                target: target_tile_size,
            }),
            each_cols == tile_cells(target_tile_size, width, display_cols),
            each_rows == tile_cells(target_tile_size, height, display_rows),
            grid_cols == grid.across(),
            grid_rows == grid.down(),
            1 <= grid_cols <= display_cols,
            1 <= grid_rows <= display_rows,
            tile_row <= grid_rows,
            tile_views(tiles@) == grid.changed_tiles(before, current@, tile_row * grid.across()),
            forall|i: int| 0 <= i < tiles@.len() ==> (#[trigger] tiles@[i]).image.wf(),
        decreases grid_rows - tile_row,
    {
        proof {
            lemma_tile_span(tile_row as int, target_tile_size, height, display_rows);
        }
        let row: u32 = tile_row * each_rows as u32;
        let rows: u32 = min32(each_rows as u32, display_rows as u32 - row);
        let y: u32 = pixel_boundary(row, height, display_rows);
        let bottom: u32 = pixel_boundary(row + rows, height, display_rows);
        let mut tile_col: u32 = 0;
        while tile_col < grid_cols
            invariant
                current.wf(),
                current.width == width,
                current.height == height,
                width > 0,
                height > 0,
                display_cols > 0,
                display_rows > 0,
                target_tile_size > 0,
                previous matches Some(previous) ==> previous.wf() && previous.width
                    == current.width && previous.height == current.height,
                before == (match previous {
                    Some(previous) => Some(previous@),
                    None => None,
                }),
                grid == (TileGrid {
                    width,
                    height,
                    cols: display_cols,
                    rows: display_rows,
                    target: target_tile_size,
                }),
                each_cols == tile_cells(target_tile_size, width, display_cols),
                grid_cols == grid.across(),
                grid_rows == grid.down(),
                1 <= grid_cols <= display_cols,
                1 <= grid_rows <= display_rows,
                tile_row < grid_rows,
                tile_col <= grid_cols,
                (row as int, rows as int) == tile_span(
                    tile_row as int,
                    target_tile_size,
                    height,
                    display_rows,
                ),
                row + rows <= display_rows,
                (y as int, bottom as int) == tile_pixels(
                    tile_row as int,
                    target_tile_size,
                    height,
                    display_rows,
                ),
                y <= bottom <= height,
                tile_views(tiles@) == grid.changed_tiles(
                    before,
                    current@,
                    tile_row * grid.across() + tile_col,
                ),
                forall|i: int| 0 <= i < tiles@.len() ==> (#[trigger] tiles@[i]).image.wf(),
            decreases grid_cols - tile_col,
        {
            proof {
                lemma_tile_span(tile_col as int, target_tile_size, width, display_cols);
            }
            let col: u32 = tile_col * each_cols as u32;
            let cols: u32 = min32(each_cols as u32, display_cols as u32 - col);
            let x: u32 = pixel_boundary(col, width, display_cols);
            let right: u32 = pixel_boundary(col + cols, width, display_cols);
            let tile_width: u32 = right - x;
            let tile_height: u32 = bottom - y;
            let ghost index = tile_row * grid.across() + tile_col;
            proof {
                vstd::arithmetic::div_mod::lemma_fundamental_div_mod_converse(
                    index,
                    grid.across(),
                    tile_row as int,
                    tile_col as int,
                );
                assert(0 <= index <= 65535 * 65535 + 65535) by (nonlinear_arith)
                    requires
                        index == tile_row * grid_cols + tile_col,
                        0 <= tile_row < grid_rows,
                        0 <= tile_col < grid_cols,
                        grid_cols <= 65535,
                        grid_rows <= 65535,
                ;
                assert(0 <= tile_row * grid_cols <= index);
                assert(grid.rect(index) == (
                    x as int,
                    y as int,
                    tile_width as int,
                    tile_height as int,
                ));
            }
            let unchanged = match previous {
                Some(previous) => !previous.differs_in(current, x, y, tile_width, tile_height),
                None => false,
            };
            if !unchanged {
                let ghost old_tiles = tiles@;
                tiles.push(
                    RasterTile {
                        image: current.crop(x, y, tile_width, tile_height),
                        index: tile_row * grid_cols + tile_col,
                        col: col as u16,
                        row: row as u16,
                        cols: cols as u16,
                        rows: rows as u16,
                    },
                );
                proof {
                    assert(tiles@.last()@ =~= grid.tile(current@, index));
                    assert(tile_views(tiles@) =~= tile_views(old_tiles).push(
                        grid.tile(current@, index),
                    ));
                }
            }
            tile_col = tile_col + 1;
        }
        assert((tile_row + 1) * grid.across() == tile_row * grid.across() + grid.across())
            by (nonlinear_arith);
        tile_row = tile_row + 1;
    }
    assert(grid.down() * grid.across() == grid.across() * grid.down()) by (nonlinear_arith);
    tiles
}

} // verus!
