//! What the terminal shows, and what is sent to it next. Times are nanoseconds since a fixed
//! moment.

use crate::cells::Cell;
use crate::config;
use crate::config::{GraphicsConfig, QualityMode};
use crate::kitty;
use crate::kitty::{Renderer, RendererState};
use crate::layout::DrawLayout;
use crate::pixels::{Pixels, RgbImage, MAX_EXTENT};
use crate::pump;
use crate::pump::{OutputKind, OutputPump, PumpError, PumpState, WriteOutcome};
use crate::quality;
use crate::quality::{next_damage_streak, KittyQuality};
use crate::text;
use crate::viewer;
use crate::viewer::{earliest_timeout, until, Backend, GraphicsCommand, LATEST};
use vstd::prelude::*;

verus! {

/// The cells that were drawn last, where they begin and where the lines below them begin.
pub struct ImageCache {
    pub layout: DrawLayout,
    pub mode_y: u16,
    pub cells: Vec<Cell>,
}

/// The raster that was sent last as tiles.
pub struct KittyImageCache {
    pub layout: DrawLayout,
    pub image: RgbImage,
}

/// What the atlas in the terminal was made for.
#[derive(Debug, Clone, Copy, PartialEq, Eq, Structural)]
pub struct KittyAtlasCache {
    pub source_width: u32,
    pub source_height: u32,
    pub image_width: u32,
    pub image_height: u32,
    pub max_cols: u16,
    pub max_rows: u16,
    pub cell_width: u32,
    pub cell_height: u32,
}

/// The terminal.
pub struct Terminal {
    pub kitty: Option<Renderer>,
    pub output: OutputPump,
    pub fallback_reason: Option<String>,
    pub last_image: Option<ImageCache>,
    pub last_kitty_image: Option<KittyImageCache>,
    pub kitty_atlas: Option<KittyAtlasCache>,
    pub kitty_atlas_ready: bool,
    pub kitty_layout: Option<DrawLayout>,
    pub kitty_refine_at: Option<u128>,
    pub graphics_config: GraphicsConfig,
    pub kitty_quality: KittyQuality,
    pub kitty_frame_budget_bytes: usize,
    pub kitty_quality_upgrade_at: Option<u128>,
    pub kitty_force_max_quality: bool,
    pub kitty_damage_streak: u32,
    pub kitty_last_visible_damage_at: Option<u128>,
    pub kitty_adaptive_damage: bool,
    pub kitty_atlas_refresh_at: Option<u128>,
    pub kitty_atlas_stale: bool,
    pub kitty_previewing: bool,
    pub force_kitty_redraw: bool,
    pub deferred_kitty_redraw: bool,
    pub last_mode_line: Option<(u16, String, bool)>,
    pub last_echo: Option<(u16, String)>,
}

/// What is known of the terminal.
pub struct TerminalModel {
    pub kitty: Option<RendererState>,
    pub output: PumpState,
    pub fallback_reason: Option<Seq<char>>,
    pub last_image: Option<(DrawLayout, u16, Seq<Cell>)>,
    pub last_kitty_image: Option<(DrawLayout, Pixels)>,
    pub kitty_atlas: Option<KittyAtlasCache>,
    pub kitty_atlas_ready: bool,
    pub kitty_layout: Option<DrawLayout>,
    pub kitty_refine_at: Option<u128>,
    pub graphics_config: GraphicsConfig,
    pub tier: usize,
    pub ceiling: usize,
    pub limits: Seq<(u32, u32)>,
    pub kitty_frame_budget_bytes: usize,
    pub kitty_quality_upgrade_at: Option<u128>,
    pub kitty_force_max_quality: bool,
    pub kitty_damage_streak: u32,
    pub kitty_last_visible_damage_at: Option<u128>,
    pub kitty_adaptive_damage: bool,
    pub kitty_atlas_refresh_at: Option<u128>,
    pub kitty_atlas_stale: bool,
    pub kitty_previewing: bool,
    pub force_kitty_redraw: bool,
    pub deferred_kitty_redraw: bool,
    pub last_mode_line: Option<(u16, Seq<char>, bool)>,
    pub last_echo: Option<(u16, Seq<char>)>,
}

impl View for Terminal {
    type V = TerminalModel;

    open spec fn view(&self) -> TerminalModel {
        TerminalModel {
            kitty: match self.kitty {
                Some(kitty) => Some(kitty@),
                None => None,
            },
            output: self.output@,
            fallback_reason: match self.fallback_reason {
                Some(reason) => Some(reason@),
                None => None,
            },
            last_image: match self.last_image {
                Some(image) => Some((image.layout, image.mode_y, image.cells@)),
                None => None,
            },
            last_kitty_image: match self.last_kitty_image {
                Some(image) => Some((image.layout, image.image@)),
                None => None,
            },
            kitty_atlas: self.kitty_atlas,
            kitty_atlas_ready: self.kitty_atlas_ready,
            kitty_layout: self.kitty_layout,
            kitty_refine_at: self.kitty_refine_at,
            graphics_config: self.graphics_config,
            tier: self.kitty_quality.tier,
            ceiling: self.kitty_quality.ceiling,
            limits: self.kitty_quality.limits@,
            kitty_frame_budget_bytes: self.kitty_frame_budget_bytes,
            kitty_quality_upgrade_at: self.kitty_quality_upgrade_at,
            kitty_force_max_quality: self.kitty_force_max_quality,
            kitty_damage_streak: self.kitty_damage_streak,
            kitty_last_visible_damage_at: self.kitty_last_visible_damage_at,
            kitty_adaptive_damage: self.kitty_adaptive_damage,
            kitty_atlas_refresh_at: self.kitty_atlas_refresh_at,
            kitty_atlas_stale: self.kitty_atlas_stale,
            kitty_previewing: self.kitty_previewing,
            force_kitty_redraw: self.force_kitty_redraw,
            deferred_kitty_redraw: self.deferred_kitty_redraw,
            last_mode_line: match self.last_mode_line {
                Some((y, line, active)) => Some((y, line@, active)),
                None => None,
            },
            last_echo: match self.last_echo {
                Some((y, line)) => Some((y, line@)),
                None => None,
            },
        }
    }
}

/// Each size can be used.
#[verifier::opaque]
pub open spec fn usable(limits: Seq<(u32, u32)>) -> bool {
    forall|i: int|
        0 <= i < limits.len() ==> 0 < (#[trigger] limits[i]).0 <= MAX_EXTENT && 0 < limits[i].1
            <= MAX_EXTENT
}

/// The images that are remembered are sound.
#[verifier::opaque]
pub open spec fn remembered(
    last_image: Option<(DrawLayout, u16, Seq<Cell>)>,
    last_kitty_image: Option<(DrawLayout, Pixels)>,
) -> bool {
    &&& last_kitty_image matches Some((_, image)) ==> image.wf() && 0 < image.width <= u32::MAX
        && 0 < image.height <= u32::MAX
    &&& last_image matches Some((layout, _, cells)) ==> cells.len() == layout.cols * layout.rows
}

/// What is known of the images in the terminal is sound.
#[verifier::opaque]
pub open spec fn held(kitty: Option<RendererState>) -> bool {
    kitty matches Some(kitty) ==> kitty.wf()
}

impl TerminalModel {
    /// The tiers can be used, and what is remembered of images is sound.
    pub open spec fn wf(self) -> bool {
        &&& held(self.kitty)
        &&& remembered(self.last_image, self.last_kitty_image)
        &&& usable(self.limits)
        &&& self.ceiling < self.limits.len()
        &&& self.tier < self.limits.len()
        &&& self.kitty_atlas matches Some(atlas) ==> atlas.source_width > 0 && atlas.source_height
            > 0 && atlas.image_width > 0 && atlas.image_height > 0
    }

    /// The model that makes the next frame be sent anew.
    pub open spec fn rebuilding(self) -> TerminalModel {
        TerminalModel {
            kitty_quality_upgrade_at: None,
            kitty_atlas_refresh_at: None,
            kitty_refine_at: None,
            kitty_force_max_quality: true,
            kitty_damage_streak: 0,
            kitty_adaptive_damage: false,
            force_kitty_redraw: true,
            ..self
        }
    }
}

/// The resolution of a sound terminal can be used.
pub proof fn lemma_tiers_usable(terminal: &Terminal)
    requires
        terminal@.wf(),
    ensures
        terminal.kitty_quality.wf(),
        usable(terminal.kitty_quality.limits@),
{
    reveal(usable);
}

/// The time so many milliseconds later.
pub open spec fn after_ms(now: u128, ms: u64) -> u128 {
    (now + ms * 1_000_000) as u128
}

/// The time so many milliseconds later.
pub fn later(now: u128, ms: u64) -> (time: u128)
    requires
        now <= LATEST,
    ensures
        time == after_ms(now, ms),
{
    now + ms as u128 * 1_000_000
}

/// Whether a time has come.
pub open spec fn is_due(deadline: Option<u128>, now: u128) -> bool {
    deadline matches Some(deadline) && now >= deadline
}

fn due(deadline: Option<u128>, now: u128) -> (passed: bool)
    ensures
        passed == is_due(deadline, now),
{
    match deadline {
        Some(deadline) => now >= deadline,
        None => false,
    }
}

/// A terminal after a setting is changed, what is said of it, and whether the frame must be drawn.
pub open spec fn command_outcome(model: TerminalModel, command: GraphicsCommand) -> (
    TerminalModel,
    Seq<char>,
    bool,
) {
    if model.kitty is None {
        (model, "Runtime graphics controls require the Kitty backend"@, false)
    } else {
        match command {
            GraphicsCommand::LowerResolution => if model.ceiling + 1 >= model.limits.len() {
                (
                    model,
                    "Resolution cap is already at its minimum ("@ + quality::size_name(
                        model.limits[model.ceiling as int],
                    ) + ")"@,
                    false,
                )
            } else {
                let ceiling = (model.ceiling + 1) as usize;
                (
                    TerminalModel { tier: ceiling, ceiling, ..model }.rebuilding(),
                    "Resolution cap lowered to "@ + quality::size_name(
                        model.limits[ceiling as int],
                    ),
                    true,
                )
            },
            GraphicsCommand::RaiseResolution => if model.ceiling == 0 {
                (
                    model,
                    "Resolution cap is already at its maximum ("@ + quality::size_name(
                        model.limits[model.ceiling as int],
                    ) + ")"@,
                    false,
                )
            } else {
                let ceiling = (model.ceiling - 1) as usize;
                (
                    TerminalModel { tier: ceiling, ceiling, ..model }.rebuilding(),
                    "Resolution cap raised to "@ + quality::size_name(
                        model.limits[ceiling as int],
                    ),
                    true,
                )
            },
            GraphicsCommand::PreviousQualityMode => policy_outcome(
                model,
                model.graphics_config.quality.before(),
            ),
            GraphicsCommand::NextQualityMode => policy_outcome(
                model,
                model.graphics_config.quality.after(),
            ),
        }
    }
}

/// A terminal after the policy is changed. A sharp policy uses the most detail at once.
pub open spec fn policy_outcome(model: TerminalModel, policy: QualityMode) -> (
    TerminalModel,
    Seq<char>,
    bool,
) {
    let sharp = policy == QualityMode::Sharp;
    (
        TerminalModel {
            graphics_config: GraphicsConfig { quality: policy, ..model.graphics_config },
            tier: if sharp {
                model.ceiling
            } else {
                model.tier
            },
            kitty_quality_upgrade_at: if sharp {
                None
            } else {
                model.kitty_quality_upgrade_at
            },
            kitty_damage_streak: if sharp {
                0
            } else {
                model.kitty_damage_streak
            },
            kitty_adaptive_damage: !sharp && model.kitty_adaptive_damage,
            ..model
        },
        "Quality: "@ + policy.name() + " — "@ + policy.words(),
        sharp && model.tier != model.ceiling,
    )
}

/// A terminal after the times that have come are noted, and whether the frame must be drawn. An
/// atlas whose time has come is sent anew with the most detail; and so are tiles that had less.
pub open spec fn due_outcome(model: TerminalModel, now: u128) -> (TerminalModel, bool) {
    let refine = is_due(model.kitty_refine_at, now);
    let atlas = is_due(model.kitty_atlas_refresh_at, now);
    let upgrade = !atlas && is_due(model.kitty_quality_upgrade_at, now);
    (
        TerminalModel {
            kitty_refine_at: if refine {
                None
            } else {
                model.kitty_refine_at
            },
            kitty_atlas_refresh_at: if atlas {
                None
            } else {
                model.kitty_atlas_refresh_at
            },
            kitty_quality_upgrade_at: if atlas || upgrade {
                None
            } else {
                model.kitty_quality_upgrade_at
            },
            tier: if atlas || upgrade {
                model.ceiling
            } else {
                model.tier
            },
            force_kitty_redraw: atlas || model.force_kitty_redraw,
            kitty_force_max_quality: upgrade || model.kitty_force_max_quality,
            kitty_damage_streak: if upgrade {
                0
            } else {
                model.kitty_damage_streak
            },
            kitty_adaptive_damage: !upgrade && model.kitty_adaptive_damage,
            ..model
        },
        refine || upgrade || atlas,
    )
}

/// A terminal after the frame changed somewhere. The atlas shows the whole output, so that damage
/// outside the visible part makes it stale too.
pub open spec fn damaged(model: TerminalModel, now: u128) -> TerminalModel {
    TerminalModel {
        kitty_atlas_stale: true,
        kitty_atlas_refresh_at: if model.kitty_layout is Some {
            Some(after_ms(now, model.graphics_config.advanced.atlas_refresh_ms))
        } else {
            model.kitty_atlas_refresh_at
        },
        ..model
    }
}

/// A terminal after the frame changed where it is visible.
pub open spec fn visibly_damaged(model: TerminalModel, now: u128) -> TerminalModel {
    let advanced = model.graphics_config.advanced;
    let streak = quality::streak_after(
        model.kitty_damage_streak,
        model.kitty_last_visible_damage_at,
        now,
        (advanced.adaptive_damage_window_ms * 1_000_000) as u128,
    ) as u32;
    TerminalModel {
        kitty_damage_streak: streak,
        kitty_last_visible_damage_at: Some(now),
        kitty_adaptive_damage: streak >= advanced.adaptive_damage_frames,
        kitty_quality_upgrade_at: if model.tier != model.ceiling {
            Some(after_ms(now, advanced.recovery_ms))
        } else {
            model.kitty_quality_upgrade_at
        },
        ..damaged(model, now)
    }
}

/// The time until the terminal has something to do by itself.
pub open spec fn wakeup(model: TerminalModel, now: u128) -> Option<u128> {
    viewer::earliest(
        viewer::earliest(
            viewer::time_until(model.kitty_refine_at, now),
            viewer::time_until(model.kitty_quality_upgrade_at, now),
        ),
        viewer::time_until(model.kitty_atlas_refresh_at, now),
    )
}

/// Whether output waits.
pub open spec fn pending(model: TerminalModel) -> bool {
    model.kitty is Some && (model.output.active is Some || model.output.control.len() > 0
        || model.output.graphics.len() > 0)
}

/// The output of a terminal with the next segment on its way.
pub open spec fn started(model: TerminalModel) -> PumpState {
    if model.kitty is Some {
        model.output.activated()
    } else {
        model.output
    }
}

/// Whether bytes were taken, or why output cannot go on.
pub open spec fn write_progress(outcome: Option<WriteOutcome>) -> Result<bool, PumpError> {
    match outcome {
        Some(WriteOutcome::Written(written)) => if written == 0 {
            Err(PumpError::WriteZero)
        } else {
            Ok(true)
        },
        Some(WriteOutcome::Failed) => Err(PumpError::Failed),
        _ => Ok(false),
    }
}

/// A terminal that holds its atlas once no graphics are on their way.
pub open spec fn arrived(model: TerminalModel) -> TerminalModel {
    TerminalModel {
        kitty_atlas_ready: model.kitty_atlas_ready || (model.kitty is Some && !model.output.busy()
            && model.kitty_atlas is Some),
        ..model
    }
}

/// What must be written before the terminal is left.
pub open spec fn left_behind(model: TerminalModel) -> Seq<Seq<u8>> {
    match model.kitty {
        Some(kitty) => (match model.output.active {
            Some((_, rest)) => if rest.len() > 0 {
                seq![rest]
            } else {
                seq![]
            },
            None => seq![],
        }) + kitty::all_deletions(kitty),
        None => seq![],
    }
}

/// A terminal that shows no image and has nothing left to write.
pub open spec fn emptied(model: TerminalModel) -> TerminalModel {
    match model.kitty {
        Some(kitty) => TerminalModel {
            kitty: Some(
                RendererState { atlas: None, dimensions: None, ..kitty.without_tiles() },
            ),
            output: PumpState { active: None, control: seq![], graphics: seq![] },
            ..model
        },
        None => model,
    }
}

impl Terminal {
    pub open spec fn wf(&self) -> bool {
        self@.wf() && self.output.wf()
    }

    /// A terminal that shows nothing yet. `frame_budget_bytes` is how much one frame may send.
    pub fn new(
        kitty: Option<Renderer>,
        fallback_reason: Option<String>,
        graphics_config: GraphicsConfig,
        frame_budget_bytes: usize,
    ) -> (terminal: Terminal)
        requires
            config::graphics_fault(graphics_config) is None,
            kitty matches Some(kitty) ==> kitty.wf(),
        ensures
            terminal.wf(),
            terminal@ == (TerminalModel {
                kitty: match kitty {
                    Some(kitty) => Some(kitty@),
                    None => None,
                },
                output: PumpState { active: None, control: seq![], graphics: seq![] },
                fallback_reason: match fallback_reason {
                    Some(reason) => Some(reason@),
                    None => None,
                },
                last_image: None,
                last_kitty_image: None,
                kitty_atlas: None,
                kitty_atlas_ready: false,
                kitty_layout: None,
                kitty_refine_at: None,
                graphics_config,
                tier: 0,
                ceiling: 0,
                limits: quality::tiers(
                    graphics_config.resolution.width,
                    graphics_config.resolution.height,
                    graphics_config.advanced.adaptive_min_height,
                ),
                kitty_frame_budget_bytes: frame_budget_bytes,
                kitty_quality_upgrade_at: None,
                kitty_force_max_quality: false,
                kitty_damage_streak: 0,
                kitty_last_visible_damage_at: None,
                kitty_adaptive_damage: false,
                kitty_atlas_refresh_at: None,
                kitty_atlas_stale: false,
                kitty_previewing: false,
                force_kitty_redraw: false,
                deferred_kitty_redraw: false,
                last_mode_line: None,
                last_echo: None,
            }),
    {
        let resolution = graphics_config.resolution;
        let kitty_quality = KittyQuality::new(
            resolution.width,
            resolution.height,
            graphics_config.advanced.adaptive_min_height,
        );
        proof {
            quality::lemma_tiers_within(
                resolution.width,
                resolution.height,
                graphics_config.advanced.adaptive_min_height,
            );
            reveal(held);
            reveal(remembered);
            reveal(usable);
        }
        Terminal {
            kitty,
            output: OutputPump::new(),
            fallback_reason,
            last_image: None,
            last_kitty_image: None,
            kitty_atlas: None,
            kitty_atlas_ready: false,
            kitty_layout: None,
            kitty_refine_at: None,
            graphics_config,
            kitty_quality,
            kitty_frame_budget_bytes: frame_budget_bytes,
            kitty_quality_upgrade_at: None,
            kitty_force_max_quality: false,
            kitty_damage_streak: 0,
            kitty_last_visible_damage_at: None,
            kitty_adaptive_damage: false,
            kitty_atlas_refresh_at: None,
            kitty_atlas_stale: false,
            kitty_previewing: false,
            force_kitty_redraw: false,
            deferred_kitty_redraw: false,
            last_mode_line: None,
            last_echo: None,
        }
    }

    /// The graphics in use.
    pub fn backend(&self) -> (backend: Backend)
        ensures
            backend == if self@.kitty is Some {
                Backend::Kitty
            } else {
                Backend::Ansi
            },
    {
        if self.kitty.is_some() {
            Backend::Kitty
        } else {
            Backend::Ansi
        }
    }

    /// Why other graphics are used than were asked for. It is told once.
    pub fn take_fallback_reason(&mut self) -> (reason: Option<String>)
        requires
            old(self).wf(),
        ensures
            final(self).wf(),
            match old(self)@.fallback_reason {
                Some(words) => reason matches Some(reason) && reason@ == words,
                None => reason is None,
            },
            final(self)@ == (TerminalModel { fallback_reason: None, ..old(self)@ }),
    {
        self.fallback_reason.take()
    }

    /// Changes a setting: what is said of it, and whether the frame must be drawn.
    pub fn apply_graphics_command(&mut self, command: GraphicsCommand) -> (told: (String, bool))
        requires
            old(self).wf(),
        ensures
            final(self).wf(),
            (final(self)@, told.0@, told.1) == command_outcome(old(self)@, command),
    {
        if self.kitty.is_none() {
            return ("Runtime graphics controls require the Kitty backend".to_owned(), false);
        }
        proof {
            lemma_tiers_usable(&*self);
        }
        match command {
            GraphicsCommand::LowerResolution => {
                if !self.kitty_quality.lower_ceiling() {
                    let mut words = "Resolution cap is already at its minimum (".to_owned();
                    words.append(self.kitty_quality.ceiling_label().as_str());
                    words.append(")");
                    return (words, false);
                }
                self.prepare_quality_rebuild();
                let mut words = "Resolution cap lowered to ".to_owned();
                words.append(self.kitty_quality.ceiling_label().as_str());
                (words, true)
            },
            GraphicsCommand::RaiseResolution => {
                if !self.kitty_quality.raise_ceiling() {
                    let mut words = "Resolution cap is already at its maximum (".to_owned();
                    words.append(self.kitty_quality.ceiling_label().as_str());
                    words.append(")");
                    return (words, false);
                }
                self.prepare_quality_rebuild();
                let mut words = "Resolution cap raised to ".to_owned();
                words.append(self.kitty_quality.ceiling_label().as_str());
                (words, true)
            },
            GraphicsCommand::PreviousQualityMode => {
                let policy = self.graphics_config.quality.previous();
                self.apply_policy(policy)
            },
            GraphicsCommand::NextQualityMode => {
                let policy = self.graphics_config.quality.next();
                self.apply_policy(policy)
            },
        }
    }

    fn apply_policy(&mut self, policy: QualityMode) -> (told: (String, bool))
        requires
            old(self).wf(),
        ensures
            final(self).wf(),
            (final(self)@, told.0@, told.1) == policy_outcome(old(self)@, policy),
    {
        self.graphics_config.quality = policy;
        proof {
            lemma_tiers_usable(&*self);
        }
        let mut redraw = false;
        if let QualityMode::Sharp = policy {
            redraw = !self.kitty_quality.is_maximum();
            self.kitty_quality.reset();
            self.kitty_quality_upgrade_at = None;
            self.kitty_damage_streak = 0;
            self.kitty_adaptive_damage = false;
        }
        let mut words = "Quality: ".to_owned();
        words.append(policy.label());
        words.append(" — ");
        words.append(policy.description());
        (words, redraw)
    }

    fn prepare_quality_rebuild(&mut self)
        ensures
            final(self)@ == old(self)@.rebuilding(),
            final(self).output == old(self).output,
            final(self).kitty_quality == old(self).kitty_quality,
    {
        self.kitty_quality_upgrade_at = None;
        self.kitty_atlas_refresh_at = None;
        self.kitty_refine_at = None;
        self.kitty_force_max_quality = true;
        self.kitty_damage_streak = 0;
        self.kitty_adaptive_damage = false;
        self.force_kitty_redraw = true;
    }

    /// Has the whole image drawn anew.
    pub fn invalidate_image(&mut self)
        requires
            old(self).wf(),
        ensures
            final(self).wf(),
            final(self)@ == (TerminalModel {
                last_image: None,
                force_kitty_redraw: true,
                kitty_refine_at: None,
                ..old(self)@
            }),
    {
        self.last_image = None;
        self.force_kitty_redraw = true;
        self.kitty_refine_at = None;
        proof {
            reveal(remembered);
        }
    }

    /// Begins to write: which kind of segment is on its way, and how many bytes are left of it.
    pub fn begin_output(&mut self) -> (next: Option<(OutputKind, usize)>)
        requires
            old(self).wf(),
        ensures
            final(self).wf(),
            final(self)@ == (TerminalModel { output: started(old(self)@), ..old(self)@ }),
            next == match final(self)@.output.active {
                Some((kind, rest)) => if old(self)@.kitty is Some {
                    Some((kind, rest.len() as usize))
                } else {
                    None
                },
                None => None,
            },
    {
        if self.kitty.is_some() {
            self.output.begin()
        } else {
            None
        }
    }

    /// The next bytes to write, at most `allowance`.
    pub fn output_chunk(&self, allowance: usize) -> (bytes: &[u8])
        requires
            self.wf(),
            self@.output.active matches Some((_, rest)) && allowance <= rest.len(),
        ensures
            bytes@ == (self@.output.active->0).1.take(allowance as int),
    {
        self.output.chunk(allowance)
    }

    /// Goes on after writing, or after nothing could be written. Says whether bytes were taken.
    /// Once no graphics are on their way, the atlas has arrived.
    pub fn end_output(&mut self, outcome: Option<WriteOutcome>) -> (progress: Result<
        bool,
        PumpError,
    >)
        requires
            old(self).wf(),
            outcome matches Some(outcome) ==> old(self)@.output.active matches Some((_, rest)) && (
            outcome matches WriteOutcome::Written(written) ==> written <= rest.len()),
        ensures
            final(self).wf(),
            progress == write_progress(outcome),
            final(self)@ == if progress is Err {
                old(self)@
            } else {
                arrived(
                    TerminalModel {
                        output: match outcome {
                            Some(WriteOutcome::Written(written)) => pump::after_write(
                                old(self)@.output,
                                written as int,
                            ),
                            _ => old(self)@.output,
                        },
                        ..old(self)@
                    },
                )
            },
    {
        let progress = match outcome {
            Some(outcome) => match self.output.finish(outcome) {
                Ok(progress) => progress,
                Err(error) => return Err(error),
            },
            None => false,
        };
        if self.kitty.is_some() && !self.output.graphics_busy() && self.kitty_atlas.is_some() {
            self.kitty_atlas_ready = true;
        }
        Ok(progress)
    }

    /// What must be written before the terminal is left: the rest of the segment on its way, and
    /// the deletion of every image.
    pub fn close(&mut self) -> (segments: Vec<Vec<u8>>)
        requires
            old(self).wf(),
        ensures
            final(self).wf(),
            text::contents(segments@) == left_behind(old(self)@),
            final(self)@ == emptied(old(self)@),
    {
        let mut segments: Vec<Vec<u8>> = Vec::new();
        match self.kitty.take() {
            Some(renderer) => {
                let mut renderer = renderer;
                proof {
                    reveal(held);
                }
                match self.output.take_active_remainder() {
                    Some(rest) => segments.push(rest),
                    None => {},
                }
                let mut deletions = renderer.encode_delete();
                self.kitty = Some(renderer);
                let ghost first = text::contents(segments@);
                let ghost last = text::contents(deletions@);
                segments.append(&mut deletions);
                assert(text::contents(segments@) =~= first + last);
                assert(text::contents(segments@) =~= left_behind(old(self)@));
            },
            None => {
                assert(text::contents(segments@) =~= left_behind(old(self)@));
            },
        }
        segments
    }

    /// Whether output waits.
    pub fn has_pending_output(&self) -> (waits: bool)
        ensures
            waits == pending(self@),
    {
        self.kitty.is_some() && self.output.has_pending()
    }

    /// Whether a frame that had to wait must be drawn now.
    pub fn take_deferred_redraw(&mut self) -> (redraw: bool)
        requires
            old(self).wf(),
        ensures
            final(self).wf(),
            redraw == (old(self)@.deferred_kitty_redraw && (old(self)@.kitty is None || !old(
                self)@.output.busy())),
            final(self)@ == if redraw {
                TerminalModel { deferred_kitty_redraw: false, ..old(self)@ }
            } else {
                old(self)@
            },
    {
        if self.deferred_kitty_redraw && (self.kitty.is_none() || !self.output.graphics_busy()) {
            self.deferred_kitty_redraw = false;
            true
        } else {
            false
        }
    }

    /// The time until the terminal has something to do by itself.
    pub fn next_wakeup_timeout(&self, now: u128) -> (timeout: Option<u128>)
        ensures
            timeout == wakeup(self@, now),
    {
        earliest_timeout(
            earliest_timeout(
                until(self.kitty_refine_at, now),
                until(self.kitty_quality_upgrade_at, now),
            ),
            until(self.kitty_atlas_refresh_at, now),
        )
    }

    /// Notes which times have come, and says whether the frame must be drawn.
    pub fn take_due_refine(&mut self, now: u128) -> (redraw: bool)
        requires
            old(self).wf(),
        ensures
            final(self).wf(),
            (final(self)@, redraw) == due_outcome(old(self)@, now),
    {
        proof {
            lemma_tiers_usable(&*self);
        }
        let refine_due = due(self.kitty_refine_at, now);
        if refine_due {
            self.kitty_refine_at = None;
        }
        let atlas_due = due(self.kitty_atlas_refresh_at, now);
        if atlas_due {
            self.kitty_atlas_refresh_at = None;
            self.kitty_quality_upgrade_at = None;
            self.kitty_quality.reset();
            self.force_kitty_redraw = true;
        }
        let upgrade_due = due(self.kitty_quality_upgrade_at, now);
        if upgrade_due {
            self.kitty_quality_upgrade_at = None;
            // Once damage has stayed away for long enough, one frame with the most detail is
            // cheaper than sending every tier between.
            self.kitty_quality.reset();
            self.kitty_force_max_quality = true;
            self.kitty_damage_streak = 0;
            self.kitty_adaptive_damage = false;
        }
        refine_due || upgrade_due || atlas_due
    }

    /// Notes that the frame changed somewhere.
    pub fn note_frame_damage(&mut self, now: u128)
        requires
            old(self).wf(),
            now <= LATEST,
        ensures
            final(self).wf(),
            final(self)@ == damaged(old(self)@, now),
    {
        self.kitty_atlas_stale = true;
        if self.kitty_layout.is_some() {
            self.kitty_atlas_refresh_at = Some(
                later(now, self.graphics_config.advanced.atlas_refresh_ms),
            );
        }
    }

    /// Notes that the frame changed where it is visible.
    pub fn note_visible_damage(&mut self, now: u128)
        requires
            old(self).wf(),
            now <= LATEST,
        ensures
            final(self).wf(),
            final(self)@ == visibly_damaged(old(self)@, now),
    {
        let advanced = self.graphics_config.advanced;
        let window: u128 = advanced.adaptive_damage_window_ms as u128 * 1_000_000;
        let streak: u32 = next_damage_streak(
            self.kitty_damage_streak,
            self.kitty_last_visible_damage_at,
            now,
            window,
        );
        if !self.kitty_quality.is_maximum() {
            self.kitty_quality_upgrade_at = Some(later(now, advanced.recovery_ms));
        }
        self.kitty_damage_streak = streak;
        self.kitty_last_visible_damage_at = Some(now);
        self.kitty_adaptive_damage = streak >= advanced.adaptive_damage_frames;
        self.note_frame_damage(now);
    }
}

} // verus!
