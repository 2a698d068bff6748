//! How a frame becomes terminal output: the layout, the atlas, its previews and the tiles over it.

use crate::arith;
use crate::arith::{ceil_div, max32, min32};
use crate::kitty;
use crate::kitty::{KittyError, Renderer, RendererState};
use crate::layout;
use crate::layout::{clear_stale_kitty_cells, DrawLayout};
use crate::pixels;
use crate::pixels::{Pixels, RgbImage, MAX_EXTENT};
use crate::pump;
use crate::pump::PumpState;
use crate::quality;
use crate::quality::{atlas_navigation, refine_improves_atlas, should_adapt_quality, AtlasNavigation};
use crate::render;
use crate::render::{
    align_raster_to_cell_grid, changed_raster_tiles, fit_dimensions, map_viewport_to_raster,
    reduce_color_precision, render_raster_viewport, validate_viewport, TileGrid, TileView, Viewport,
    ViewportError, ViewportRect,
};
use crate::terminal;
use crate::terminal::{later, KittyAtlasCache, KittyImageCache, Terminal, TerminalModel};
use crate::text;
use crate::viewer::LATEST;
use vstd::prelude::*;

verus! {

/// The size that tiles are meant to have, in pixels.
pub const KITTY_TILE_SIZE: u32 = 128;

/// The precision of each channel that is sent.
pub const KITTY_COLOR_BITS: u8 = 7;

/// The size of a terminal window in pixels and in cells.
#[derive(Debug, Clone, Copy, PartialEq, Eq, Structural)]
pub struct WindowSize {
    pub width: u16,
    pub height: u16,
    pub columns: u16,
    pub rows: u16,
}

/// The pixels of a cell in one direction, at least one, and a usual number where they are unknown.
pub open spec fn cell_extent(pixels: u16, cells: u16, usual: u32) -> u32 {
    if pixels > 0 && cells > 0 {
        arith::max_of(pixels as int / cells as int, 1) as u32
    } else {
        usual
    }
}

/// The pixels of a cell.
pub open spec fn cell_of(window: Option<WindowSize>) -> (u32, u32) {
    match window {
        Some(size) => (
            cell_extent(size.width, size.columns, 10),
            cell_extent(size.height, size.rows, 20),
        ),
        None => (10, 20),
    }
}

fn extent(pixels: u16, cells: u16, usual: u32) -> (size: u32)
    requires
        0 < usual <= 65535,
    ensures
        size == cell_extent(pixels, cells, usual),
        0 < size <= 65535,
{
    if pixels > 0 && cells > 0 {
        max32(pixels as u32 / cells as u32, 1)
    } else {
        usual
    }
}

/// The pixels of a cell.
pub fn cell_size(window: Option<WindowSize>) -> (cell: (u32, u32))
    ensures
        cell == cell_of(window),
        0 < cell.0 <= 65535,
        0 < cell.1 <= 65535,
{
    match window {
        Some(size) => (
            extent(size.width, size.columns, 10),
            extent(size.height, size.rows, 20),
        ),
        None => (10, 20),
    }
}

/// The columns for the image.
pub open spec fn cols_for(cols: u16) -> u16 {
    if cols > 0 {
        cols
    } else {
        1
    }
}

/// The columns for the image.
pub fn image_cols(cols: u16) -> (count: u16)
    ensures
        count == cols_for(cols),
        0 < count,
{
    if cols > 0 {
        cols
    } else {
        1
    }
}

/// The rows for the image: two are kept for the lines at the bottom.
pub open spec fn rows_for(rows: u16) -> u16 {
    if rows > 3 {
        (rows - 2) as u16
    } else {
        1
    }
}

/// The rows for the image.
pub fn image_rows(rows: u16) -> (count: u16)
    ensures
        count == rows_for(rows),
        0 < count,
{
    if rows > 3 {
        rows - 2
    } else {
        1
    }
}

/// The box that a raster is fitted into: the pixels of the cells for the image, and no more than a
/// limit.
pub open spec fn box_of(
    cols: u16,
    rows: u16,
    window: Option<WindowSize>,
    limits: (u32, u32),
) -> (int, int) {
    let cell = cell_of(window);
    (
        arith::min_of(cols_for(cols) * cell.0, limits.0 as int),
        arith::min_of(rows_for(rows) * cell.1, limits.1 as int),
    )
}

/// The box that a raster is fitted into.
pub fn raster_box(cols: u16, rows: u16, window: Option<WindowSize>, limits: (u32, u32)) -> (size: (
    u32,
    u32,
))
    ensures
        (size.0 as int, size.1 as int) == box_of(cols, rows, window, limits),
{
    let image_cols: u16 = image_cols(cols);
    let image_rows: u16 = image_rows(rows);
    let (cell_width, cell_height) = cell_size(window);
    assert(0 <= image_cols * cell_width <= u32::MAX && 0 <= image_rows * cell_height <= u32::MAX)
        by (nonlinear_arith)
        requires
            0 <= image_cols <= 65535,
            0 <= image_rows <= 65535,
            0 <= cell_width <= 65535,
            0 <= cell_height <= 65535,
    ;
    (
        min32(image_cols as u32 * cell_width, limits.0),
        min32(image_rows as u32 * cell_height, limits.1),
    )
}

/// Whether pixels of a shape may become a raster of a size: it is no larger than what fills its
/// box, nor than the pixels are, and never empty.
pub open spec fn scaled_into(size: (u32, u32), shape: (u32, u32), room: (int, int)) -> bool {
    let most = render::fitted(
        shape.0,
        shape.1,
        arith::max_of(room.0, 1) as u32,
        arith::max_of(room.1, 1) as u32,
    );
    &&& 1 <= size.0 <= arith::min_of(arith::max_of(most.0, 1), shape.0 as int)
    &&& 1 <= size.1 <= arith::min_of(arith::max_of(most.1, 1), shape.1 as int)
}

fn is_scaled_into(size: (u32, u32), shape: (u32, u32), room: (u32, u32)) -> (scaled: bool)
    requires
        0 < shape.0,
        0 < shape.1,
    ensures
        scaled == scaled_into(size, shape, (room.0 as int, room.1 as int)),
{
    let most = fit_dimensions(shape.0, shape.1, room.0, room.1);
    1 <= size.0 && size.0 <= max32(most.0, 1) && size.0 <= shape.0 && 1 <= size.1 && size.1
        <= max32(most.1, 1) && size.1 <= shape.1
}

/// What is known when a frame is drawn: the pixels of it that show, the size of the terminal, and
/// the size of the raster of the whole frame and of the visible pixels at each tier.
pub struct DrawRequest {
    pub rect: ViewportRect,
    pub cols: u16,
    pub rows: u16,
    pub window: Option<WindowSize>,
    pub atlas_size: (u32, u32),
    pub tier_sizes: Vec<(u32, u32)>,
    pub now: u128,
}

impl DrawRequest {
    /// The columns for the image.
    pub open spec fn max_cols(&self) -> u16 {
        cols_for(self.cols)
    }

    /// The rows for the image.
    pub open spec fn max_rows(&self) -> u16 {
        rows_for(self.rows)
    }

    /// The pixels of a cell.
    pub open spec fn cell(&self) -> (u32, u32) {
        cell_of(self.window)
    }

    /// The frame leaves room for the sampler.
    pub open spec fn shows(&self, frame: Pixels) -> bool {
        &&& 16 * MAX_EXTENT * MAX_EXTENT <= isize::MAX
        &&& 0 < frame.width <= MAX_EXTENT
        &&& 0 < frame.height <= MAX_EXTENT
        &&& self.rect.inside(frame.width as u32, frame.height as u32)
    }

    /// The frame and the terminal leave room for the sampler.
    pub open spec fn spreads(&self, frame: Pixels) -> bool {
        &&& self.shows(frame)
        &&& self.max_cols() * self.cell().0 <= MAX_EXTENT
        &&& self.max_rows() * self.cell().1 <= MAX_EXTENT
        &&& self.now <= LATEST
    }

    /// The box of a raster with a limit.
    pub open spec fn room(&self, limits: (u32, u32)) -> (int, int) {
        box_of(self.cols, self.rows, self.window, limits)
    }

    /// Each raster lies in its box: that of the whole frame in the one of the ceiling, that of the
    /// visible pixels at each tier in the one of the tier.
    pub open spec fn sized(&self, frame: Pixels, limits: Seq<(u32, u32)>, ceiling: int) -> bool {
        &&& scaled_into(
            self.atlas_size,
            (frame.width as u32, frame.height as u32),
            self.room(limits[ceiling]),
        )
        &&& self.tier_sizes@.len() == limits.len()
        &&& forall|i: int|
            0 <= i < limits.len() ==> scaled_into(
                #[trigger] self.tier_sizes@[i],
                (self.rect.width, self.rect.height),
                self.room(limits[i]),
            )
    }

    /// The frame, the terminal and the rasters go together.
    pub open spec fn fits(&self, frame: Pixels, limits: Seq<(u32, u32)>, ceiling: int) -> bool {
        self.spreads(frame) && self.sized(frame, limits, ceiling)
    }

    /// Whether each raster lies in its box.
    pub fn is_sized(&self, frame: &RgbImage, limits: &[(u32, u32)], ceiling: usize) -> (sized: bool)
        requires
            self.shows(frame@),
            ceiling < limits@.len(),
        ensures
            sized == self.sized(frame@, limits@, ceiling as int),
    {
        if self.tier_sizes.len() != limits.len() {
            return false;
        }
        let room = raster_box(self.cols, self.rows, self.window, limits[ceiling]);
        if !is_scaled_into(self.atlas_size, (frame.width, frame.height), room) {
            return false;
        }
        let mut i: usize = 0;
        while i < limits.len()
            invariant
                i <= limits@.len(),
                self.tier_sizes@.len() == limits@.len(),
                0 < self.rect.width,
                0 < self.rect.height,
                forall|j: int|
                    0 <= j < i ==> scaled_into(
                        #[trigger] self.tier_sizes@[j],
                        (self.rect.width, self.rect.height),
                        self.room(limits@[j]),
                    ),
            decreases limits@.len() - i,
        {
            let room = raster_box(self.cols, self.rows, self.window, limits[i]);
            if !is_scaled_into(self.tier_sizes[i], (self.rect.width, self.rect.height), room) {
                assert(!scaled_into(
                    self.tier_sizes@[i as int],
                    (self.rect.width, self.rect.height),
                    self.room(limits@[i as int]),
                ));
                return false;
            }
            i = i + 1;
        }
        true
    }

    /// The cells that the image takes.
    pub open spec fn layout(&self, frame: Pixels) -> DrawLayout {
        let cell = self.cell();
        let size = render::fitted(
            self.rect.width,
            self.rect.height,
            (self.max_cols() * cell.0) as u32,
            (self.max_rows() * cell.1) as u32,
        );
        let cols = taken(size.0, cell.0, self.max_cols());
        let rows = taken(size.1, cell.1, self.max_rows());
        DrawLayout {
            cols: cols as u16,
            rows: rows as u16,
            sample_height: arith::min_of(rows * 2, u16::MAX as int) as u16,
            viewport: self.rect,
            source_width: frame.width as u32,
            source_height: frame.height as u32,
        }
    }
}

/// The cells that pixels take in one direction: at least one, and no more than there are.
pub open spec fn taken(pixels: int, cell: u32, cells: u16) -> int {
    arith::max_of(arith::min_of(arith::ceiling(pixels, cell as int), cells as int), 1)
}

fn cells_taken(pixels: u32, cell: u32, cells: u16) -> (count: u16)
    requires
        cell > 0,
        cells > 0,
    ensures
        count == taken(pixels as int, cell, cells),
        0 < count <= cells,
{
    let needed: u64 = ceil_div(pixels as u64, cell as u64);
    if needed > cells as u64 {
        cells
    } else if needed > 0 {
        needed as u16
    } else {
        1
    }
}

/// The cells that an image takes.
fn layout_for(frame: &RgbImage, request: &DrawRequest) -> (layout: DrawLayout)
    requires
        request.spreads(frame@),
    ensures
        layout == request.layout(frame@),
        0 < layout.cols <= request.max_cols(),
        0 < layout.rows <= request.max_rows(),
{
    let max_cols: u16 = image_cols(request.cols);
    let max_rows: u16 = image_rows(request.rows);
    let (cell_width, cell_height) = cell_size(request.window);
    proof {
        assert(0 < max_cols * cell_width && 0 < max_rows * cell_height) by (nonlinear_arith)
            requires
                0 < max_cols,
                0 < max_rows,
                0 < cell_width,
                0 < cell_height,
        ;
    }
    let (display_width, display_height) = fit_dimensions(
        request.rect.width,
        request.rect.height,
        max_cols as u32 * cell_width,
        max_rows as u32 * cell_height,
    );
    let cols: u16 = cells_taken(display_width, cell_width, max_cols);
    let rows: u16 = cells_taken(display_height, cell_height, max_rows);
    DrawLayout {
        cols,
        rows,
        sample_height: rows.saturating_add(rows),
        viewport: request.rect,
        source_width: frame.width,
        source_height: frame.height,
    }
}

/// A raster as it is sent: brought to the cells, and with fewer colours.
#[verifier::opaque]
pub open spec fn prepared(
    frame: Pixels,
    rect: ViewportRect,
    size: (u32, u32),
    layout: DrawLayout,
    cell: (u32, u32),
    limits: (u32, u32),
) -> Pixels {
    render::reduced_pixels(
        render::aligned_pixels(
            render::raster_of(frame, rect, size.0, size.1),
            layout.cols,
            layout.rows,
            cell.0,
            cell.1,
            limits.0,
            limits.1,
        ),
        KITTY_COLOR_BITS,
    )
}

/// The size of a prepared raster, which its pixels do not influence.
pub proof fn lemma_prepared_size(
    frame: Pixels,
    rect: ViewportRect,
    size: (u32, u32),
    layout: DrawLayout,
    cell: (u32, u32),
    limits: (u32, u32),
)
    requires
        layout.cols > 0,
        layout.rows > 0,
        cell.0 > 0,
        cell.1 > 0,
    ensures
        ({
            let image = prepared(frame, rect, size, layout, cell, limits);
            &&& 0 < image.width <= arith::max_of(layout.cols * cell.0, limits.0 as int)
            &&& 0 < image.height <= arith::max_of(layout.rows * cell.1, limits.1 as int)
        }),
{
    reveal(prepared);
    render::lemma_aligned_bounds(
        size,
        layout.cols,
        layout.rows,
        cell.0,
        cell.1,
        limits.0,
        limits.1,
    );
}

/// Prepares a raster.
fn prepare(
    frame: &RgbImage,
    viewport: Viewport,
    rect: ViewportRect,
    size: (u32, u32),
    layout: &DrawLayout,
    cell: (u32, u32),
    limits: (u32, u32),
) -> (image: RgbImage)
    requires
        frame.wf(),
        render::viewport_fault(viewport) is None,
        16 * MAX_EXTENT * MAX_EXTENT <= isize::MAX,
        frame.width <= MAX_EXTENT,
        frame.height <= MAX_EXTENT,
        rect.inside(frame.width, frame.height),
        size.0 <= MAX_EXTENT,
        size.1 <= MAX_EXTENT,
        layout.cols > 0,
        layout.rows > 0,
        cell.0 > 0,
        cell.1 > 0,
        layout.cols * cell.0 <= MAX_EXTENT,
        layout.rows * cell.1 <= MAX_EXTENT,
        limits.0 <= MAX_EXTENT,
        limits.1 <= MAX_EXTENT,
    ensures
        image.wf(),
        image@ == prepared(frame@, rect, size, *layout, cell, limits),
        0 < image.width <= MAX_EXTENT,
        0 < image.height <= MAX_EXTENT,
{
    proof {
        lemma_resizable(rect.width as int, rect.height as int, size.0 as int, size.1 as int);
        let aligned = render::aligned_size(
            size,
            layout.cols,
            layout.rows,
            cell.0,
            cell.1,
            limits.0,
            limits.1,
        );
        render::lemma_aligned_bounds(
            size,
            layout.cols,
            layout.rows,
            cell.0,
            cell.1,
            limits.0,
            limits.1,
        );
        lemma_resizable(size.0 as int, size.1 as int, aligned.0, aligned.1);
        lemma_prepared_size(frame@, rect, size, *layout, cell, limits);
        reveal(prepared);
    }
    let raster = render_raster_viewport(frame, viewport, rect, size.0, size.1).unwrap();
    let mut image = align_raster_to_cell_grid(
        &raster.image,
        layout.cols,
        layout.rows,
        cell.0,
        cell.1,
        limits.0,
        limits.1,
    );
    reduce_color_precision(&mut image, KITTY_COLOR_BITS);
    image
}

/// Sizes within the limits of the sampler.
pub proof fn lemma_resizable(width: int, height: int, new_width: int, new_height: int)
    requires
        0 <= width <= MAX_EXTENT,
        0 <= height <= MAX_EXTENT,
        0 <= new_width <= MAX_EXTENT,
        0 <= new_height <= MAX_EXTENT,
        16 * MAX_EXTENT * MAX_EXTENT <= isize::MAX,
    ensures
        pixels::resizable(width, height, new_width, new_height),
{
    assert(width * new_height * 16 <= 16 * MAX_EXTENT * MAX_EXTENT) by (nonlinear_arith)
        requires
            0 <= width <= MAX_EXTENT,
            0 <= new_height <= MAX_EXTENT,
    ;
    assert(new_width * new_height * 3 <= 16 * MAX_EXTENT * MAX_EXTENT) by (nonlinear_arith)
        requires
            0 <= new_width <= MAX_EXTENT,
            0 <= new_height <= MAX_EXTENT,
    ;
}

/// Why a frame cannot be drawn.
#[derive(Debug, Clone, Copy, PartialEq, Eq, Structural)]
pub enum DrawError {
    Viewport(ViewportError),
    Kitty(KittyError),
}

impl DrawError {
    /// The error in words.
    pub open spec fn words(self) -> Seq<char> {
        match self {
            DrawError::Viewport(error) => error.words(),
            DrawError::Kitty(error) => error.words(),
        }
    }

    /// The error in words.
    pub fn message(&self) -> (message: String)
        ensures
            message@ == self.words(),
    {
        match self {
            DrawError::Viewport(error) => error.message(),
            DrawError::Kitty(error) => error.message(),
        }
    }
}

/// The crop of a raster that shows the same pixels.
pub open spec fn crop_of(
    viewport: ViewportRect,
    source_width: u32,
    source_height: u32,
    raster_width: u32,
    raster_height: u32,
) -> ViewportRect {
    let h = render::mapped_span(viewport.x, viewport.width, source_width, raster_width);
    let v = render::mapped_span(viewport.y, viewport.height, source_height, raster_height);
    ViewportRect { x: h.0 as u32, y: v.0 as u32, width: h.1 as u32, height: v.1 as u32 }
}

/// The crop of an atlas that shows the same pixels.
pub open spec fn atlas_crop(viewport: ViewportRect, atlas: KittyAtlasCache) -> ViewportRect {
    crop_of(
        viewport,
        atlas.source_width,
        atlas.source_height,
        atlas.image_width,
        atlas.image_height,
    )
}

/// All pixels of a frame.
pub open spec fn whole(frame: Pixels) -> ViewportRect {
    ViewportRect { x: 0, y: 0, width: frame.width as u32, height: frame.height as u32 }
}

/// Whether the atlas was made for the present frame and terminal.
pub open spec fn compatible(atlas: KittyAtlasCache, frame: Pixels, request: &DrawRequest) -> bool {
    &&& atlas.source_width == frame.width
    &&& atlas.source_height == frame.height
    &&& atlas.max_cols == request.max_cols()
    &&& atlas.max_rows == request.max_rows()
    &&& atlas.cell_width == request.cell().0
    &&& atlas.cell_height == request.cell().1
}

/// Whether the atlas must be sent anew.
pub open spec fn must_rebuild(model: TerminalModel, frame: Pixels, request: &DrawRequest) -> bool {
    ||| model.force_kitty_redraw
    ||| !(model.kitty_atlas matches Some(atlas) && compatible(atlas, frame, request))
    ||| !(model.kitty matches Some(kitty) && kitty.atlas is Some)
}

/// The atlas for a frame.
pub open spec fn atlas_image(model: TerminalModel, frame: Pixels, request: &DrawRequest) -> Pixels {
    prepared(
        frame,
        whole(frame),
        request.atlas_size,
        request.layout(frame),
        request.cell(),
        model.limits[model.ceiling as int],
    )
}

/// A terminal after the atlas is sent anew.
pub open spec fn rebuilt(model: TerminalModel, frame: Pixels, request: &DrawRequest) -> (
    TerminalModel,
    Result<DrawLayout, DrawError>,
) {
    let layout = request.layout(frame);
    let image = atlas_image(model, frame, request);
    let crop = crop_of(
        layout.viewport,
        layout.source_width,
        layout.source_height,
        image.width as u32,
        image.height as u32,
    );
    let full = layout.viewport == whole(frame);
    match kitty::atlas_outcome(model.kitty->0, image, crop, layout.cols, layout.rows) {
        Err(error) => (model, Err(DrawError::Kitty(error))),
        Ok((segments, state)) => (
            TerminalModel {
                kitty: Some(state),
                output: pump::replaced(model.output, segments),
                last_image: None,
                last_kitty_image: if full {
                    Some((layout, image))
                } else {
                    None
                },
                kitty_atlas: Some(
                    KittyAtlasCache {
                        source_width: layout.source_width,
                        source_height: layout.source_height,
                        image_width: image.width as u32,
                        image_height: image.height as u32,
                        max_cols: request.max_cols(),
                        max_rows: request.max_rows(),
                        cell_width: request.cell().0,
                        cell_height: request.cell().1,
                    },
                ),
                kitty_atlas_ready: false,
                kitty_atlas_stale: false,
                kitty_atlas_refresh_at: None,
                kitty_layout: Some(layout),
                kitty_refine_at: if full {
                    None
                } else {
                    Some(
                        terminal::after_ms(
                            request.now,
                            model.graphics_config.advanced.preview_ms,
                        ),
                    )
                },
                kitty_previewing: !full,
                kitty_force_max_quality: false,
                force_kitty_redraw: false,
                deferred_kitty_redraw: false,
                ..model
            },
            Ok(layout),
        ),
    }
}

/// A terminal after another crop of the atlas is shown.
pub open spec fn previewed(model: TerminalModel, frame: Pixels, request: &DrawRequest) -> (
    TerminalModel,
    Result<DrawLayout, DrawError>,
) {
    let layout = request.layout(frame);
    let crop = atlas_crop(layout.viewport, model.kitty_atlas->0);
    match kitty::preview_outcome(model.kitty->0, crop, layout.cols, layout.rows) {
        Err(error) => (model, Err(DrawError::Kitty(error))),
        Ok((segments, state)) => (
            TerminalModel {
                kitty: Some(state),
                output: pump::replaced(model.output, segments),
                last_kitty_image: None,
                kitty_layout: Some(layout),
                kitty_refine_at: Some(
                    terminal::after_ms(request.now, model.graphics_config.advanced.preview_ms),
                ),
                kitty_previewing: true,
                deferred_kitty_redraw: false,
                ..model
            },
            Ok(layout),
        ),
    }
}

impl Terminal {
    /// The atlas for a frame.
    fn atlas_raster(&self, frame: &RgbImage, request: &DrawRequest, layout: &DrawLayout) -> (image:
        RgbImage)
        requires
            self.wf(),
            frame.wf(),
            request.fits(frame@, self@.limits, self@.ceiling as int),
            *layout == request.layout(frame@),
            0 < layout.cols <= request.max_cols(),
            0 < layout.rows <= request.max_rows(),
        ensures
            image.wf(),
            image@ == atlas_image(self@, frame@, request),
            0 < image.width,
            0 < image.height,
    {
        let cell = cell_size(request.window);
        proof {
            terminal::lemma_tiers_usable(self);
            reveal(terminal::usable);
            lemma_cells_fit(layout.cols, request.max_cols(), cell.0);
            lemma_cells_fit(layout.rows, request.max_rows(), cell.1);
        }
        let limits = self.kitty_quality.ceiling_limits();
        let rect = ViewportRect { x: 0, y: 0, width: frame.width, height: frame.height };
        prepare(frame, Viewport::default(), rect, request.atlas_size, layout, cell, limits)
    }

    /// Sends an atlas in the place of graphics that wait.
    fn upload_atlas(&mut self, image: &RgbImage, crop: ViewportRect, cols: u16, rows: u16) -> (sent:
        Result<(), KittyError>)
        requires
            old(self).wf(),
            old(self)@.kitty is Some,
            image.wf(),
        ensures
            final(self).wf(),
            match kitty::atlas_outcome(old(self)@.kitty->0, image@, crop, cols, rows) {
                Err(error) => sent == Err::<(), KittyError>(error) && final(self)@ == old(self)@,
                Ok((segments, state)) => sent is Ok && final(self)@ == (TerminalModel {
                    kitty: Some(state),
                    output: pump::replaced(old(self)@.output, segments),
                    ..old(self)@
                }),
            },
    {
        proof {
            reveal(terminal::held);
        }
        let mut renderer = self.kitty.take().unwrap();
        let encoded = renderer.encode_atlas(image, crop, cols, rows);
        self.kitty = Some(renderer);
        match encoded {
            Ok(segments) => {
                self.output.replace_graphics(segments);
                Ok(())
            },
            Err(error) => Err(error),
        }
    }

    /// Sends the atlas anew.
    fn rebuild_atlas(&mut self, frame: &RgbImage, request: &DrawRequest, layout: DrawLayout) -> (
        drawn: Result<DrawLayout, DrawError>)
        requires
            old(self).wf(),
            old(self)@.kitty is Some,
            frame.wf(),
            request.fits(frame@, old(self)@.limits, old(self)@.ceiling as int),
            layout == request.layout(frame@),
            0 < layout.cols <= request.max_cols(),
            0 < layout.rows <= request.max_rows(),
        ensures
            final(self).wf(),
            (final(self)@, drawn) == rebuilt(old(self)@, frame@, request),
    {
        let image = self.atlas_raster(frame, request, &layout);
        let crop = map_viewport_to_raster(
            layout.viewport,
            frame.width,
            frame.height,
            image.width,
            image.height,
        );
        match self.upload_atlas(&image, crop, layout.cols, layout.rows) {
            Ok(()) => {},
            Err(error) => return Err(DrawError::Kitty(error)),
        }
        let full_viewport = layout.viewport.x == 0 && layout.viewport.y == 0
            && layout.viewport.width == frame.width && layout.viewport.height == frame.height;
        let cell = cell_size(request.window);
        self.kitty_atlas = Some(
            KittyAtlasCache {
                source_width: frame.width,
                source_height: frame.height,
                image_width: image.width,
                image_height: image.height,
                max_cols: image_cols(request.cols),
                max_rows: image_rows(request.rows),
                cell_width: cell.0,
                cell_height: cell.1,
            },
        );
        self.last_image = None;
        self.last_kitty_image = if full_viewport {
            Some(KittyImageCache { layout, image })
        } else {
            None
        };
        proof {
            reveal(terminal::remembered);
        }
        self.kitty_atlas_ready = false;
        self.kitty_atlas_stale = false;
        self.kitty_atlas_refresh_at = None;
        self.kitty_layout = Some(layout);
        self.kitty_refine_at = if full_viewport {
            None
        } else {
            Some(later(request.now, self.graphics_config.advanced.preview_ms))
        };
        self.kitty_previewing = !full_viewport;
        self.kitty_force_max_quality = false;
        self.force_kitty_redraw = false;
        self.deferred_kitty_redraw = false;
        Ok(layout)
    }

    /// Shows another crop of the atlas.
    fn preview_atlas(&mut self, frame: &RgbImage, request: &DrawRequest, layout: DrawLayout) -> (
        drawn: Result<DrawLayout, DrawError>)
        requires
            old(self).wf(),
            old(self)@.kitty is Some,
            old(self)@.kitty_atlas is Some,
            request.spreads(frame@),
            layout == request.layout(frame@),
        ensures
            final(self).wf(),
            (final(self)@, drawn) == previewed(old(self)@, frame@, request),
    {
        proof {
            reveal(terminal::held);
            reveal(terminal::remembered);
        }
        let atlas = self.kitty_atlas.unwrap();
        let crop = map_viewport_to_raster(
            layout.viewport,
            atlas.source_width,
            atlas.source_height,
            atlas.image_width,
            atlas.image_height,
        );
        let mut renderer = self.kitty.take().unwrap();
        let encoded = renderer.encode_atlas_placement(crop, layout.cols, layout.rows);
        self.kitty = Some(renderer);
        let segments = match encoded {
            Ok(segments) => segments,
            Err(error) => return Err(DrawError::Kitty(error)),
        };
        self.output.replace_graphics(segments);
        self.last_kitty_image = None;
        self.kitty_layout = Some(layout);
        self.kitty_refine_at = Some(later(request.now, self.graphics_config.advanced.preview_ms));
        self.kitty_previewing = true;
        self.deferred_kitty_redraw = false;
        Ok(layout)
    }
}

/// What encoding the tiles of a frame yields.
pub enum TierOutcome {
    /// The tiles cannot be encoded.
    Failed(KittyError),
    /// A crop of the atlas already shows as much.
    NotBetter,
    /// The raster, the segments, and what the terminal holds after them.
    Tiles(Pixels, Seq<Seq<u8>>, RendererState),
}

/// The raster that was sent last, where tiles can be compared with it.
pub open spec fn comparable(
    last: Option<(DrawLayout, Pixels)>,
    layout: DrawLayout,
    image: Pixels,
) -> Option<Pixels> {
    match last {
        Some((before, pixels)) => if before == layout && pixels.width == image.width
            && pixels.height == image.height {
            Some(pixels)
        } else {
            None
        },
        None => None,
    }
}

/// The tiles of a raster that must be sent.
pub open spec fn tiles_of(previous: Option<Pixels>, image: Pixels, layout: DrawLayout) -> Seq<
    TileView,
> {
    let grid = TileGrid {
        width: image.width as u32,
        height: image.height as u32,
        cols: layout.cols,
        rows: layout.rows,
        target: KITTY_TILE_SIZE,
    };
    grid.changed_tiles(previous, image, grid.across() * grid.down())
}

/// What encoding the tiles of a frame at a tier yields.
#[verifier::opaque]
pub open spec fn tier_outcome(
    model: TerminalModel,
    frame: Pixels,
    request: &DrawRequest,
    crop: Option<ViewportRect>,
    tier: int,
) -> TierOutcome {
    let layout = request.layout(frame);
    let image = prepared(
        frame,
        request.rect,
        request.tier_sizes@[tier],
        layout,
        request.cell(),
        model.limits[tier],
    );
    if !quality::improves(
        model.kitty_atlas_stale,
        crop,
        (image.width as u32, image.height as u32),
    ) {
        TierOutcome::NotBetter
    } else {
        let previous = comparable(model.last_kitty_image, layout, image);
        let reset = model.force_kitty_redraw || previous is None;
        let tiles = tiles_of(
            if reset {
                None
            } else {
                previous
            },
            image,
            layout,
        );
        let (error, segments, state) = kitty::tiles_outcome(model.kitty->0, tiles, reset);
        match error {
            Some(error) => TierOutcome::Failed(error),
            None => TierOutcome::Tiles(image, segments, state),
        }
    }
}

/// The number of bytes of segments, as far as it can be counted.
pub open spec fn byte_count(segments: Seq<Seq<u8>>) -> usize {
    arith::min_of(text::joined(segments).len() as int, usize::MAX as int) as usize
}

/// The tier at which a frame is sent, and what encoding it there yields. Behind tmux an adaptive
/// frame that is over the budget falls to a lower tier.
pub open spec fn refined(
    model: TerminalModel,
    frame: Pixels,
    request: &DrawRequest,
    crop: Option<ViewportRect>,
    adaptive: bool,
    tier: int,
) -> (int, TierOutcome)
    decreases model.limits.len() - tier,
{
    let outcome = tier_outcome(model, frame, request, crop, tier);
    match outcome {
        TierOutcome::Tiles(_, segments, state) => {
            let bytes = byte_count(segments);
            if adaptive && state.transport is Tmux && bytes > model.kitty_frame_budget_bytes && 0
                <= tier && tier + 1 < model.limits.len() {
                proof {
                    quality::lemma_budget_tier(
                        model.limits,
                        tier,
                        tier,
                        bytes as int,
                        model.kitty_frame_budget_bytes as int,
                    );
                }
                refined(
                    model,
                    frame,
                    request,
                    crop,
                    adaptive,
                    quality::budget_tier(
                        model.limits,
                        tier,
                        tier,
                        bytes as int,
                        model.kitty_frame_budget_bytes as int,
                    ),
                )
            } else {
                (tier, outcome)
            }
        },
        _ => (tier, outcome),
    }
}

/// Tiles that were encoded.
enum Encoded {
    Failed(KittyError),
    NotBetter,
    Tiles(RgbImage, Vec<Vec<u8>>, Renderer),
}

impl Encoded {
    /// Whether these are the tiles that an outcome says.
    spec fn is(self, outcome: TierOutcome) -> bool {
        match self {
            Encoded::Failed(error) => outcome == TierOutcome::Failed(error),
            Encoded::NotBetter => outcome == TierOutcome::NotBetter,
            Encoded::Tiles(image, segments, renderer) => {
                &&& outcome matches TierOutcome::Tiles(pixels, bytes, state)
                &&& image.wf()
                &&& 0 < image.width
                &&& 0 < image.height
                &&& pixels == image@
                &&& bytes == text::contents(segments@)
                &&& state == renderer@
                &&& renderer.wf()
            },
        }
    }
}

fn count_bytes(segments: &Vec<Vec<u8>>) -> (count: usize)
    ensures
        count == byte_count(text::contents(segments@)),
{
    let mut count: usize = 0;
    let mut i: usize = 0;
    let ghost all = text::contents(segments@);
    assert(all.take(0) =~= seq![]);
    while i < segments.len()
        invariant
            i <= segments@.len(),
            all == text::contents(segments@),
            count == byte_count(all.take(i as int)),
        decreases segments@.len() - i,
    {
        proof {
            let next = all.take(i + 1);
            assert(next.drop_last() =~= all.take(i as int));
            assert(next.last() == segments@[i as int]@);
        }
        count = count.saturating_add(segments[i].len());
        i = i + 1;
    }
    assert(all.take(all.len() as int) =~= all);
    count
}

impl Terminal {
    /// Encodes the tiles of a frame at the tier in use.
    fn encode_tier(
        &self,
        frame: &RgbImage,
        viewport: Viewport,
        request: &DrawRequest,
        layout: DrawLayout,
        crop: Option<ViewportRect>,
    ) -> (encoded: Encoded)
        requires
            self.wf(),
            self@.kitty is Some,
            frame.wf(),
            render::viewport_fault(viewport) is None,
            request.fits(frame@, self@.limits, self@.ceiling as int),
            layout == request.layout(frame@),
            0 < layout.cols <= request.max_cols(),
            0 < layout.rows <= request.max_rows(),
        ensures
            encoded.is(tier_outcome(self@, frame@, request, crop, self@.tier as int)),
    {
        let cell = cell_size(request.window);
        proof {
            terminal::lemma_tiers_usable(self);
            reveal(terminal::usable);
            lemma_cells_fit(layout.cols, request.max_cols(), cell.0);
            lemma_cells_fit(layout.rows, request.max_rows(), cell.1);
        }
        let limits = self.kitty_quality.limits();
        let size = request.tier_sizes[self.kitty_quality.tier];
        let image = prepare(frame, viewport, request.rect, size, &layout, cell, limits);
        proof {
            reveal(tier_outcome);
            reveal(terminal::remembered);
            reveal(terminal::held);
        }
        if !refine_improves_atlas(self.kitty_atlas_stale, crop, (image.width, image.height)) {
            return Encoded::NotBetter;
        }
        let previous: Option<&RgbImage> = match &self.last_kitty_image {
            Some(last) => if last.layout == layout && last.image.width == image.width
                && last.image.height == image.height {
                Some(&last.image)
            } else {
                None
            },
            None => None,
        };
        let reset = self.force_kitty_redraw || previous.is_none();
        let tiles = changed_raster_tiles(
            if reset {
                None
            } else {
                previous
            },
            &image,
            layout.cols,
            layout.rows,
            KITTY_TILE_SIZE,
        );
        let mut candidate = match &self.kitty {
            Some(renderer) => renderer.duplicate(),
            None => return Encoded::NotBetter,
        };
        match candidate.encode_tiles(tiles.as_slice(), reset) {
            Ok(segments) => Encoded::Tiles(image, segments, candidate),
            Err(error) => Encoded::Failed(error),
        }
    }

    /// Encodes the tiles of a frame, at a lower tier where the budget asks for it.
    fn encode_frame(
        &mut self,
        frame: &RgbImage,
        viewport: Viewport,
        request: &DrawRequest,
        layout: DrawLayout,
        crop: Option<ViewportRect>,
        adaptive: bool,
    ) -> (encoded: Encoded)
        requires
            old(self).wf(),
            old(self)@.kitty is Some,
            frame.wf(),
            render::viewport_fault(viewport) is None,
            request.fits(frame@, old(self)@.limits, old(self)@.ceiling as int),
            layout == request.layout(frame@),
            0 < layout.cols <= request.max_cols(),
            0 < layout.rows <= request.max_rows(),
        ensures
            final(self).wf(),
            ({
                let (tier, outcome) = refined(
                    old(self)@,
                    frame@,
                    request,
                    crop,
                    adaptive,
                    old(self)@.tier as int,
                );
                &&& encoded.is(outcome)
                &&& final(self)@ == (TerminalModel { tier: tier as usize, ..old(self)@ })
                &&& 0 <= tier < old(self)@.limits.len()
            }),
    {
        let ghost model = self@;
        loop
            invariant
                self.wf(),
                self@.kitty is Some,
                model == old(self)@,
                self@ == (TerminalModel { tier: self@.tier, ..model }),
                frame.wf(),
                render::viewport_fault(viewport) is None,
                request.fits(frame@, self@.limits, self@.ceiling as int),
                layout == request.layout(frame@),
                0 < layout.cols <= request.max_cols(),
                0 < layout.rows <= request.max_rows(),
                refined(model, frame@, request, crop, adaptive, self@.tier as int) == refined(
                    model,
                    frame@,
                    request,
                    crop,
                    adaptive,
                    model.tier as int,
                ),
            decreases self@.limits.len() - self@.tier,
        {
            let encoded = self.encode_tier(frame, viewport, request, layout, crop);
            proof {
                terminal::lemma_tiers_usable(&*self);
                assert(tier_outcome(self@, frame@, request, crop, self@.tier as int)
                    == tier_outcome(model, frame@, request, crop, self@.tier as int)) by {
                    reveal(tier_outcome);
                }
            }
            if let Encoded::Tiles(image, segments, renderer) = encoded {
                let bytes: usize = count_bytes(&segments);
                let over = adaptive && renderer.is_tmux() && bytes > self.kitty_frame_budget_bytes;
                if over && self.kitty_quality.reduce_for(bytes, self.kitty_frame_budget_bytes) {
                    continue;
                }
                return Encoded::Tiles(image, segments, renderer);
            }
            return encoded;
        }
    }
}

/// Whether the resolution may be lowered for a frame.
pub open spec fn may_adapt(model: TerminalModel, navigation: bool) -> bool {
    let policy = model.graphics_config.quality;
    !(policy is Sharp) && !model.kitty_force_max_quality && if navigation {
        policy is Fast
    } else {
        model.kitty_adaptive_damage
    }
}

/// The model with the most detail in use, unless the resolution may be lowered.
pub open spec fn before_tiles(model: TerminalModel, adaptive: bool) -> TerminalModel {
    TerminalModel {
        tier: if adaptive {
            model.tier
        } else {
            model.ceiling
        },
        kitty_quality_upgrade_at: if !adaptive && model.tier != model.ceiling {
            None
        } else {
            model.kitty_quality_upgrade_at
        },
        ..model
    }
}

/// What clears the cells that the raster before took and the present one does not.
pub open spec fn cleanup(last: Option<(DrawLayout, Pixels)>, current: DrawLayout, rows: u16) -> Seq<
    u8,
> {
    match last {
        Some((before, _)) => if before != current {
            layout::stale_cells(before, current, rows)
        } else {
            seq![]
        },
        None => seq![],
    }
}

/// A terminal after a crop of the atlas proved to show as much as tiles would.
pub open spec fn kept(model: TerminalModel, layout: DrawLayout) -> TerminalModel {
    TerminalModel {
        tier: model.ceiling,
        kitty_quality_upgrade_at: None,
        last_image: None,
        last_kitty_image: None,
        kitty_layout: Some(layout),
        kitty_refine_at: None,
        kitty_previewing: false,
        force_kitty_redraw: false,
        deferred_kitty_redraw: false,
        kitty_force_max_quality: false,
        ..model
    }
}

/// A terminal after tiles are sent.
pub open spec fn covered(
    model: TerminalModel,
    layout: DrawLayout,
    request: &DrawRequest,
    tier: usize,
    image: Pixels,
    segments: Seq<Seq<u8>>,
    state: RendererState,
) -> TerminalModel {
    TerminalModel {
        kitty: Some(state),
        output: PumpState {
            graphics: model.output.graphics + pump::not_empty(
                segments.push(cleanup(model.last_kitty_image, layout, request.rows)),
            ),
            ..model.output
        },
        tier,
        kitty_quality_upgrade_at: if tier != model.tier {
            Some(terminal::after_ms(request.now, model.graphics_config.advanced.recovery_ms))
        } else {
            model.kitty_quality_upgrade_at
        },
        last_image: None,
        last_kitty_image: Some((layout, image)),
        kitty_layout: Some(layout),
        kitty_refine_at: None,
        kitty_previewing: false,
        kitty_atlas_refresh_at: if model.kitty_atlas_stale {
            Some(terminal::after_ms(request.now, model.graphics_config.advanced.atlas_refresh_ms))
        } else {
            model.kitty_atlas_refresh_at
        },
        force_kitty_redraw: false,
        deferred_kitty_redraw: false,
        kitty_force_max_quality: false,
        ..model
    }
}

/// A terminal after the tiles of a frame are drawn.
pub open spec fn tiled(
    model: TerminalModel,
    frame: Pixels,
    request: &DrawRequest,
    navigation: bool,
) -> (TerminalModel, Result<DrawLayout, DrawError>) {
    let layout = request.layout(frame);
    let adaptive = may_adapt(model, navigation);
    let ready = before_tiles(model, adaptive);
    let crop = match model.kitty_atlas {
        Some(atlas) => Some(atlas_crop(layout.viewport, atlas)),
        None => None,
    };
    let (tier, outcome) = refined(ready, frame, request, crop, adaptive, ready.tier as int);
    match outcome {
        TierOutcome::Failed(error) => (
            TerminalModel { tier: tier as usize, ..ready },
            Err(DrawError::Kitty(error)),
        ),
        TierOutcome::NotBetter => (kept(ready, layout), Ok(layout)),
        TierOutcome::Tiles(image, segments, state) => (
            covered(ready, layout, request, tier as usize, image, segments, state),
            Ok(layout),
        ),
    }
}

impl Terminal {
    /// Takes over tiles.
    fn cover(
        &mut self,
        request: &DrawRequest,
        layout: DrawLayout,
        before: usize,
        image: RgbImage,
        segments: Vec<Vec<u8>>,
        renderer: Renderer,
    )
        requires
            old(self).wf(),
            request.now <= LATEST,
            image.wf(),
            0 < image.width,
            0 < image.height,
            renderer.wf(),
        ensures
            final(self).wf(),
            final(self)@ == covered(
                TerminalModel { tier: before, ..old(self)@ },
                layout,
                request,
                old(self)@.tier,
                image@,
                text::contents(segments@),
                renderer@,
            ),
    {
        let mut segments = segments;
        let ghost sent = text::contents(segments@);
        let ghost cleared = cleanup(self@.last_kitty_image, layout, request.rows);
        let bytes = match &self.last_kitty_image {
            Some(previous) => if previous.layout == layout {
                Vec::new()
            } else {
                clear_stale_kitty_cells(previous.layout, layout, request.rows)
            },
            None => Vec::new(),
        };
        assert(bytes@ =~= cleared);
        segments.push(bytes);
        assert(text::contents(segments@) =~= sent.push(cleared));
        self.output.enqueue_graphics(segments);
        if self.kitty_quality.tier != before {
            self.kitty_quality_upgrade_at = Some(
                later(request.now, self.graphics_config.advanced.recovery_ms),
            );
        }
        if self.kitty_atlas_stale {
            self.kitty_atlas_refresh_at = Some(
                later(request.now, self.graphics_config.advanced.atlas_refresh_ms),
            );
        }
        self.kitty = Some(renderer);
        self.last_image = None;
        self.last_kitty_image = Some(KittyImageCache { layout, image });
        self.kitty_layout = Some(layout);
        self.kitty_refine_at = None;
        self.kitty_previewing = false;
        self.force_kitty_redraw = false;
        self.deferred_kitty_redraw = false;
        self.kitty_force_max_quality = false;
        proof {
            reveal(terminal::held);
            reveal(terminal::remembered);
        }
    }

    /// Keeps to the atlas.
    fn keep_atlas(&mut self, layout: DrawLayout)
        requires
            old(self).wf(),
        ensures
            final(self).wf(),
            final(self)@ == kept(old(self)@, layout),
    {
        proof {
            terminal::lemma_tiers_usable(&*self);
            reveal(terminal::remembered);
        }
        self.kitty_quality.reset();
        self.kitty_quality_upgrade_at = None;
        self.last_image = None;
        self.last_kitty_image = None;
        self.kitty_layout = Some(layout);
        self.kitty_refine_at = None;
        self.kitty_previewing = false;
        self.force_kitty_redraw = false;
        self.deferred_kitty_redraw = false;
        self.kitty_force_max_quality = false;
    }

    /// Uses the most detail, unless the resolution may be lowered.
    #[verifier::spinoff_prover]
    #[verifier::rlimit(50)]
    fn prepare_tier(&mut self, adaptive: bool)
        requires
            old(self).wf(),
        ensures
            final(self).wf(),
            final(self)@ == before_tiles(old(self)@, adaptive),
    {
        proof {
            terminal::lemma_tiers_usable(&*self);
        }
        if !adaptive && !self.kitty_quality.is_maximum() {
            self.kitty_quality.reset();
            self.kitty_quality_upgrade_at = None;
        }
    }

    /// Draws the tiles of a frame.
    #[verifier::spinoff_prover]
    #[verifier::rlimit(50)]
    fn draw_tiles(
        &mut self,
        frame: &RgbImage,
        viewport: Viewport,
        request: &DrawRequest,
        layout: DrawLayout,
        navigation: bool,
    ) -> (drawn: Result<DrawLayout, DrawError>)
        requires
            old(self).wf(),
            old(self)@.kitty is Some,
            frame.wf(),
            render::viewport_fault(viewport) is None,
            request.fits(frame@, old(self)@.limits, old(self)@.ceiling as int),
            layout == request.layout(frame@),
            0 < layout.cols <= request.max_cols(),
            0 < layout.rows <= request.max_rows(),
        ensures
            final(self).wf(),
            (final(self)@, drawn) == tiled(old(self)@, frame@, request, navigation),
    {
        let policy = self.graphics_config.quality;
        let adaptive = should_adapt_quality(
            policy.adaptive_quality(),
            policy.adaptive_navigation(),
            navigation,
            self.kitty_adaptive_damage,
            self.kitty_force_max_quality,
        );
        self.prepare_tier(adaptive);
        let crop = match self.kitty_atlas {
            Some(atlas) => Some(
                map_viewport_to_raster(
                    layout.viewport,
                    atlas.source_width,
                    atlas.source_height,
                    atlas.image_width,
                    atlas.image_height,
                ),
            ),
            None => None,
        };
        let before: usize = self.kitty_quality.tier;
        match self.encode_frame(frame, viewport, request, layout, crop, adaptive) {
            Encoded::Failed(error) => Err(DrawError::Kitty(error)),
            Encoded::NotBetter => {
                // The terminal already shows an atlas with as much detail as this raster has, so
                // that blurrier tiles must not cover it.
                self.keep_atlas(layout);
                Ok(layout)
            },
            Encoded::Tiles(image, segments, renderer) => {
                self.cover(request, layout, before, image, segments, renderer);
                Ok(layout)
            },
        }
    }
}

/// A terminal that no longer waits to refine a preview, where the view left the one that is shown.
pub open spec fn settled(model: TerminalModel, changed: bool) -> TerminalModel {
    TerminalModel {
        kitty_refine_at: if changed {
            None
        } else {
            model.kitty_refine_at
        },
        kitty_previewing: !changed && model.kitty_previewing,
        ..model
    }
}

/// A terminal after a frame is drawn with Kitty graphics.
pub open spec fn kitty_outcome(
    model: TerminalModel,
    frame: Pixels,
    viewport: Viewport,
    request: &DrawRequest,
) -> (TerminalModel, Result<DrawLayout, DrawError>) {
    let layout = request.layout(frame);
    let changed = model.kitty_layout != Some(layout);
    let shown = quality::navigation(model.kitty_atlas_ready, model.kitty_atlas_stale);
    let ready = settled(model, changed);
    if render::viewport_fault(viewport) is Some {
        (model, Err(DrawError::Viewport(render::viewport_fault(viewport)->0)))
    } else if must_rebuild(model, frame, request) {
        rebuilt(model, frame, request)
    } else if changed && shown == AtlasNavigation::Preview {
        previewed(model, frame, request)
    } else if changed && shown == AtlasNavigation::WaitForUpload {
        (TerminalModel { deferred_kitty_redraw: true, ..model }, Ok(layout))
    } else if ready.kitty_refine_at is Some && request.now < ready.kitty_refine_at->0 {
        (ready, Ok(layout))
    } else if ready.output.busy() {
        (TerminalModel { deferred_kitty_redraw: true, ..ready }, Ok(layout))
    } else {
        tiled(ready, frame, request, changed || model.kitty_previewing)
    }
}

impl Terminal {
    /// Whether the atlas must be sent anew.
    fn needs_atlas(&self, frame: &RgbImage, request: &DrawRequest) -> (needed: bool)
        ensures
            needed == must_rebuild(self@, frame@, request),
    {
        let max_cols: u16 = image_cols(request.cols);
        let max_rows: u16 = image_rows(request.rows);
        let (cell_width, cell_height) = cell_size(request.window);
        let atlas_compatible = match self.kitty_atlas {
            Some(atlas) => atlas.source_width == frame.width && atlas.source_height == frame.height
                && atlas.max_cols == max_cols && atlas.max_rows == max_rows && atlas.cell_width
                == cell_width && atlas.cell_height == cell_height,
            None => false,
        };
        let has_atlas = match &self.kitty {
            Some(renderer) => renderer.has_atlas(),
            None => false,
        };
        self.force_kitty_redraw || !atlas_compatible || !has_atlas
    }

    /// Draws a frame with Kitty graphics.
    pub fn draw_kitty(&mut self, frame: &RgbImage, viewport: Viewport, request: &DrawRequest) -> (
        drawn: Result<DrawLayout, DrawError>)
        requires
            old(self).wf(),
            old(self)@.kitty is Some,
            frame.wf(),
            render::viewport_fault(viewport) is None ==> request.fits(
                frame@,
                old(self)@.limits,
                old(self)@.ceiling as int,
            ),
        ensures
            final(self).wf(),
            (final(self)@, drawn) == kitty_outcome(old(self)@, frame@, viewport, request),
    {
        match validate_viewport(viewport) {
            Ok(()) => {},
            Err(fault) => return Err(DrawError::Viewport(fault)),
        }
        let layout = layout_for(frame, request);
        if self.needs_atlas(frame, request) {
            return self.rebuild_atlas(frame, request, layout);
        }
        let viewport_changed = match self.kitty_layout {
            Some(shown) => shown != layout,
            None => true,
        };
        // A preview of a fresh atlas records the new layout before it is refined, so that the
        // flag is also needed to tell that one frame from damage under an unchanged view.
        let navigation_refine = viewport_changed || self.kitty_previewing;
        if viewport_changed {
            match atlas_navigation(self.kitty_atlas_ready, self.kitty_atlas_stale) {
                AtlasNavigation::Preview => return self.preview_atlas(frame, request, layout),
                AtlasNavigation::WaitForUpload => {
                    // A placement of the atlas is valid once its whole upload has arrived.
                    self.deferred_kitty_redraw = true;
                    return Ok(layout);
                },
                AtlasNavigation::RefineCurrentFrame => {
                    // A crop of the atlas is fast only while it is also true. Once damage makes
                    // it stale, tiles of the latest frame take the place of what is shown.
                    self.kitty_refine_at = None;
                    self.kitty_previewing = false;
                },
            }
        }
        if let Some(deadline) = self.kitty_refine_at {
            if request.now < deadline {
                return Ok(layout);
            }
        }
        if self.output.graphics_busy() {
            self.deferred_kitty_redraw = true;
            return Ok(layout);
        }
        self.draw_tiles(frame, viewport, request, layout, navigation_refine)
    }
}

/// Fewer cells take no more pixels.
proof fn lemma_cells_fit(cells: u16, most: u16, cell: u32)
    requires
        cells <= most,
        most * cell <= MAX_EXTENT,
    ensures
        cells * cell <= MAX_EXTENT,
{
    assert(cells * cell <= most * cell) by (nonlinear_arith)
        requires
            cells <= most,
            0 <= cell,
    ;
}

} // verus!
