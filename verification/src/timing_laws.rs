//! What holds of the settings of the graphics, and of what the terminal does by itself.

use crate::config::QualityMode;
use crate::kitty;
use crate::pump::{OutputKind, PumpError, WriteOutcome};
use crate::quality;
use crate::quality_laws;
use crate::session;
use crate::terminal;
use crate::terminal::TerminalModel;
use crate::text;
use crate::viewer::GraphicsCommand;
use vstd::prelude::*;

verus! {

/// So many milliseconds after a time.
pub open spec fn ms_after(now: u128, ms: u64) -> int {
    now + ms * 1_000_000
}

/// After the frame changed, the atlas is sent anew with the most detail once the frame has stayed
/// as it is for as long as is configured, and not before. Until then it is taken to be out of date.
pub proof fn lemma_atlas_sent_anew(model: TerminalModel, now: u128, later: u128)
    requires
        model.kitty_layout is Some,
        ms_after(now, model.graphics_config.advanced.atlas_refresh_ms) <= u128::MAX,
    ensures
        ({
            let damaged = terminal::damaged(model, now);
            let (next, redraw) = terminal::due_outcome(damaged, later);
            let due = later >= ms_after(now, model.graphics_config.advanced.atlas_refresh_ms);
            &&& damaged.kitty_atlas_stale
            &&& due ==> redraw && next.force_kitty_redraw && next.tier == next.ceiling
                && next.kitty_atlas_refresh_at is None && next.kitty_quality_upgrade_at is None
            &&& !due ==> next.force_kitty_redraw == model.force_kitty_redraw
                && next.kitty_atlas_refresh_at == damaged.kitty_atlas_refresh_at
            &&& next.kitty_atlas_stale
        }),
{
}

/// Nothing waits to be sent anew before a first frame is shown.
pub proof fn lemma_nothing_to_refresh(model: TerminalModel, now: u128)
    requires
        model.kitty_layout is None,
    ensures
        terminal::damaged(model, now).kitty_atlas_refresh_at == model.kitty_atlas_refresh_at,
{
}

/// A resolution that was lowered recovers once nothing visible has changed for as long as is
/// configured, and not before. The frame is then drawn, and the count of changes begins anew.
pub proof fn lemma_resolution_recovers(model: TerminalModel, now: u128, later: u128)
    requires
        model.tier != model.ceiling,
        ms_after(now, model.graphics_config.advanced.recovery_ms) <= u128::MAX,
        ms_after(now, model.graphics_config.advanced.atlas_refresh_ms) <= u128::MAX,
        model.kitty_refine_at is None,
        later < ms_after(now, model.graphics_config.advanced.atlas_refresh_ms),
        model.kitty_atlas_refresh_at is None || model.kitty_layout is Some,
    ensures
        ({
            let changed = terminal::visibly_damaged(model, now);
            let (next, redraw) = terminal::due_outcome(changed, later);
            let due = later >= ms_after(now, model.graphics_config.advanced.recovery_ms);
            &&& redraw == due
            &&& due ==> next.tier == next.ceiling && next.kitty_force_max_quality
                && next.kitty_damage_streak == 0 && !next.kitty_adaptive_damage
                && next.kitty_quality_upgrade_at is None
            &&& !due ==> next == changed
            &&& next.ceiling == model.ceiling
        }),
{
}

/// The resolution may fall only after so many changes as are configured, each no later after the
/// one before than is configured. A pause begins the count anew.
pub proof fn lemma_changes_counted(model: TerminalModel, now: u128, later: u128)
    requires
        model.kitty_damage_streak < u32::MAX - 1,
        now <= later,
    ensures
        ({
            let advanced = model.graphics_config.advanced;
            let first = terminal::visibly_damaged(model, now);
            let second = terminal::visibly_damaged(first, later);
            let paused = later > now + advanced.adaptive_damage_window_ms * 1_000_000;
            &&& first.kitty_last_visible_damage_at == Some(now)
            &&& second.kitty_damage_streak == if paused {
                1
            } else {
                first.kitty_damage_streak + 1
            }
            &&& model.kitty_last_visible_damage_at is None ==> first.kitty_damage_streak == 1
            &&& second.kitty_adaptive_damage <==> second.kitty_damage_streak
                >= advanced.adaptive_damage_frames
            &&& first.kitty_adaptive_damage <==> first.kitty_damage_streak
                >= advanced.adaptive_damage_frames
        }),
{
    let window = (model.graphics_config.advanced.adaptive_damage_window_ms * 1_000_000) as u128;
    assert(window == model.graphics_config.advanced.adaptive_damage_window_ms * 1_000_000);
}

/// A preview is refined once its time has come, and not before.
pub proof fn lemma_preview_refined(model: TerminalModel, now: u128)
    requires
        model.kitty_quality_upgrade_at is None,
        model.kitty_atlas_refresh_at is None,
    ensures
        ({
            let (next, redraw) = terminal::due_outcome(model, now);
            let due = model.kitty_refine_at is Some && model.kitty_refine_at->0 <= now;
            &&& redraw == due
            &&& next == TerminalModel {
                kitty_refine_at: if due {
                    None
                } else {
                    model.kitty_refine_at
                },
                ..model
            }
        }),
{
}

/// Whether nothing waits to be drawn again, and no change is counted.
pub open spec fn begun_anew(model: TerminalModel) -> bool {
    &&& model.kitty_refine_at is None
    &&& model.kitty_quality_upgrade_at is None
    &&& model.kitty_atlas_refresh_at is None
    &&& model.kitty_damage_streak == 0
    &&& !model.kitty_adaptive_damage
}

/// Raising and lowering the resolution go through the sizes that are offered, one at a time: one
/// undoes the other. Lowering never leaves more rows or columns of pixels, and always leaves fewer
/// of one. The frame is then sent anew with the most detail. At the ends nothing changes.
pub proof fn lemma_resolution_steps(
    model: TerminalModel,
    width: u32,
    height: u32,
    least: u32,
)
    requires
        width > 0,
        0 < least <= height,
        model.limits == quality::tiers(width, height, least),
        model.kitty is Some,
        model.ceiling < model.limits.len(),
        model.limits.len() <= usize::MAX,
    ensures
        ({
            let (lower, _, fell) = terminal::command_outcome(
                model,
                GraphicsCommand::LowerResolution,
            );
            let (higher, _, rose) = terminal::command_outcome(
                model,
                GraphicsCommand::RaiseResolution,
            );
            let size = model.limits[model.ceiling as int];
            &&& fell <==> model.ceiling + 1 < model.limits.len()
            &&& !fell ==> size.1 == least
            &&& !rose ==> size == (width, height)
            &&& fell ==> {
                let smaller = model.limits[lower.ceiling as int];
                &&& smaller.1 <= size.1 && smaller.0 <= size.0 && smaller != size
                &&& lower.tier == lower.ceiling && lower.force_kitty_redraw
                    && lower.kitty_force_max_quality
                &&& begun_anew(lower)
                &&& terminal::command_outcome(lower, GraphicsCommand::RaiseResolution).0.ceiling
                    == model.ceiling
                &&& lower.limits == model.limits
            }
            &&& rose ==> {
                let larger = model.limits[higher.ceiling as int];
                &&& larger.1 >= size.1 && larger.0 >= size.0 && larger != size
                &&& higher.tier == higher.ceiling && higher.force_kitty_redraw
                    && higher.kitty_force_max_quality
                &&& begun_anew(higher)
                &&& terminal::command_outcome(higher, GraphicsCommand::LowerResolution).0.ceiling
                    == model.ceiling
                &&& higher.limits == model.limits
            }
            &&& !fell ==> lower == model
            &&& !rose ==> higher == model
        }),
{
    quality::lemma_tiers_within(width, height, least);
    let limits = model.limits;
    if model.ceiling > 0 {
        quality_laws::lemma_tiers_apart(width, height, least, model.ceiling as int);
        assert(limits[model.ceiling as int].1 <= limits[model.ceiling - 1].1);
    }
    if model.ceiling + 1 < limits.len() {
        quality_laws::lemma_tiers_apart(width, height, least, model.ceiling + 1);
        assert(limits[model.ceiling + 1].1 <= limits[model.ceiling as int].1);
    }
}

/// The policies follow each other in a circle of three. Each is told by its name. A sharp policy
/// uses the most detail at once, and has the frame drawn where it had less; the others leave the
/// detail as it is.
pub proof fn lemma_policy_steps(model: TerminalModel)
    requires
        model.kitty is Some,
    ensures
        ({
            let (next, words, redraw) = terminal::command_outcome(
                model,
                GraphicsCommand::NextQualityMode,
            );
            let (back, _, _) = terminal::command_outcome(
                next,
                GraphicsCommand::PreviousQualityMode,
            );
            let (second, _, _) = terminal::command_outcome(next, GraphicsCommand::NextQualityMode);
            let (third, _, _) = terminal::command_outcome(second, GraphicsCommand::NextQualityMode);
            let policy = next.graphics_config.quality;
            &&& policy != model.graphics_config.quality
            &&& second.graphics_config.quality != model.graphics_config.quality
            &&& back.graphics_config == model.graphics_config
            &&& third.graphics_config == model.graphics_config
            &&& model.graphics_config.quality == QualityMode::Auto ==> policy == QualityMode::Sharp
            &&& words == "Quality: "@ + policy.name() + " — "@ + policy.words()
            &&& next.ceiling == model.ceiling && next.limits == model.limits
            &&& policy == QualityMode::Sharp ==> next.tier == next.ceiling
                && !next.kitty_adaptive_damage && next.kitty_damage_streak == 0
                && next.kitty_quality_upgrade_at is None
            &&& policy != QualityMode::Sharp ==> next == (TerminalModel {
                graphics_config: next.graphics_config,
                ..model
            })
            &&& redraw <==> policy == QualityMode::Sharp && model.tier != model.ceiling
        }),
{
}

/// Without Kitty graphics no setting changes.
pub proof fn lemma_settings_need_kitty(model: TerminalModel, command: GraphicsCommand)
    requires
        model.kitty is None,
    ensures
        terminal::command_outcome(model, command).0 == model,
        !terminal::command_outcome(model, command).2,
{
}

/// The atlas has arrived once no graphics wait or are on their way.
pub proof fn lemma_atlas_arrives(model: TerminalModel)
    ensures
        ({
            let next = terminal::arrived(model);
            let busy = model.output.graphics.len() > 0 || (model.output.active is Some && (
            model.output.active->0).0 == OutputKind::Graphics);
            &&& next == (TerminalModel { kitty_atlas_ready: next.kitty_atlas_ready, ..model })
            &&& model.kitty_atlas_ready ==> next.kitty_atlas_ready
            &&& !model.kitty_atlas_ready ==> (next.kitty_atlas_ready <==> model.kitty is Some
                && model.kitty_atlas is Some && !busy)
        }),
{
}

/// Before a terminal is left, what is on its way is written to its end, and then every image is
/// deleted. Output that only waits is not written.
pub proof fn lemma_left_tidy(model: TerminalModel)
    requires
        model.kitty is Some,
    ensures
        ({
            let rest = match model.output.active {
                Some((_, bytes)) => bytes,
                None => seq![],
            };
            let after = terminal::emptied(model);
            &&& text::joined(terminal::left_behind(model)) == rest + text::joined(
                kitty::all_deletions(model.kitty->0),
            )
            &&& after.kitty is Some && after.kitty->0.atlas is None
            &&& after.output.active is None && after.output.control.len() == 0
                && after.output.graphics.len() == 0
        }),
{
    let deletions = kitty::all_deletions(model.kitty->0);
    match model.output.active {
        Some((_, bytes)) => {
            if bytes.len() > 0 {
                let all = seq![bytes] + deletions;
                crate::pump::lemma_joined_first(all);
                assert(all.skip(1) =~= deletions);
                assert(terminal::left_behind(model) == all);
            } else {
                assert(terminal::left_behind(model) =~= deletions);
                assert(bytes + text::joined(deletions) =~= text::joined(deletions));
            }
        },
        None => {
            assert(terminal::left_behind(model) =~= deletions);
            assert(Seq::<u8>::empty() + text::joined(deletions) =~= text::joined(deletions));
        },
    }
}

/// A terminal that gained the focus has everything drawn anew, and nothing that was sent before is
/// built upon.
pub proof fn lemma_focus_redraws(model: TerminalModel)
    ensures
        ({
            let next = session::focus_gained(model);
            &&& next.last_image is None && next.force_kitty_redraw && next.kitty_refine_at is None
            &&& next == (TerminalModel {
                last_image: None,
                force_kitty_redraw: true,
                kitty_refine_at: None,
                ..model
            })
        }),
{
}

/// A write goes on where bytes were taken. One that takes none says so and is no progress, a failed
/// one fails, and one that has to wait is tried again.
pub proof fn lemma_write_told(written: usize)
    ensures
        ({
            let told = terminal::write_progress(Some(WriteOutcome::Written(written)));
            &&& told == Ok::<bool, PumpError>(true) <==> written > 0
            &&& told == Err::<bool, PumpError>(PumpError::WriteZero) <==> written == 0
        }),
        terminal::write_progress(Some(WriteOutcome::Failed)) == Err::<bool, PumpError>(
            PumpError::Failed,
        ),
        terminal::write_progress(Some(WriteOutcome::WouldBlock)) == Ok::<bool, PumpError>(false),
        terminal::write_progress(Some(WriteOutcome::Interrupted)) == Ok::<bool, PumpError>(false),
        terminal::write_progress(None) == Ok::<bool, PumpError>(false),
{
}

} // verus!
