//! What holds of the settings.

use crate::config;
use crate::config::{Action, Config, ConfigFault, GraphicsConfig, GraphicsError, QualityMode,
    ResolutionError};
use crate::text;
use crate::text_laws;
use vstd::prelude::*;

verus! {

/// Whether the graphics settings lie in their ranges.
pub open spec fn graphics_valid(config: GraphicsConfig) -> bool {
    let (size, advanced) = (config.resolution, config.advanced);
    &&& 0 < size.width <= 7680
    &&& 0 < size.height <= 4320
    &&& 0 < advanced.adaptive_min_height <= size.height
    &&& 0 < advanced.adaptive_damage_frames
    &&& 0 < advanced.adaptive_damage_window_ms
    &&& 0 < advanced.frame_budget_ms
    &&& 0 < advanced.recovery_ms
    &&& 0 < advanced.tmux_bandwidth_mbps < 0x7ff0_0000_0000_0000
}

/// Whether a text names something: it is not white space alone.
pub open spec fn names_something(name: Seq<char>) -> bool {
    !text_laws::blank(name)
}

/// Whether an action can be run and told from others.
pub open spec fn action_valid(action: Action) -> bool {
    &&& names_something(action.name@)
    &&& forall|i: int|
        0 <= i < action.name@.len() ==> !text::is_control_char(#[trigger] action.name@[i])
    &&& action.command@.len() > 0
    &&& action.command@[0]@.len() > 0
}

proof fn lemma_actions_valid(actions: Seq<Action>, count: int)
    requires
        0 <= count <= actions.len(),
    ensures
        config::actions_fault(actions, count) is None <==> (forall|i: int|
            0 <= i < count ==> action_valid(#[trigger] actions[i])) && (forall|i: int, j: int|
            0 <= i < j < count ==> (#[trigger] actions[i]).name@ != (#[trigger] actions[j]).name@),
    decreases count,
{
    if count > 0 {
        lemma_actions_valid(actions, count - 1);
        let last = actions[count - 1];
        let around = text_laws::lemma_trimmed(last.name@);
        let before = config::actions_fault(actions, count - 1);
        if before is None {
            if config::action_fault(actions, count - 1) is None {
                assert(action_valid(last));
                assert forall|i: int, j: int| 0 <= i < j < count implies (
                #[trigger] actions[i]).name@ != (#[trigger] actions[j]).name@ by {}
            }
        }
    }
}

/// A settings file is accepted just where the output that it names is not blank, its graphics
/// settings lie in their ranges, each action has a name without control characters and a command,
/// and no two actions share a name.
pub proof fn lemma_accepted(settings: Config)
    ensures
        config::config_fault(settings) is None <==> {
            &&& settings.output is Some ==> names_something(settings.output->0@)
            &&& graphics_valid(settings.graphics)
            &&& forall|i: int|
                0 <= i < settings.actions@.len() ==> action_valid(#[trigger] settings.actions@[i])
            &&& forall|i: int, j: int|
                0 <= i < j < settings.actions@.len() ==> (#[trigger] settings.actions@[i]).name@
                    != (#[trigger] settings.actions@[j]).name@
        },
{
    if settings.output is Some {
        let around = text_laws::lemma_trimmed(settings.output->0@);
    }
    lemma_actions_valid(settings.actions@, settings.actions@.len() as int);
}

/// The fault that is told is one that the settings have.
pub proof fn lemma_fault_real(config: GraphicsConfig)
    ensures
        match config::graphics_fault(config) {
            None => graphics_valid(config),
            Some(GraphicsError::Width) => config.resolution.width == 0 || config.resolution.width
                > 7680,
            Some(GraphicsError::Height) => config.resolution.height == 0
                || config.resolution.height > 4320,
            Some(GraphicsError::MinHeight) => config.advanced.adaptive_min_height == 0
                || config.advanced.adaptive_min_height > config.resolution.height,
            Some(GraphicsError::DamageFrames) => config.advanced.adaptive_damage_frames == 0,
            Some(GraphicsError::DamageWindow) => config.advanced.adaptive_damage_window_ms == 0,
            Some(GraphicsError::FrameBudget) => config.advanced.frame_budget_ms == 0,
            Some(GraphicsError::Recovery) => config.advanced.recovery_ms == 0,
            Some(GraphicsError::Bandwidth) => config.advanced.tmux_bandwidth_mbps == 0
                || config.advanced.tmux_bandwidth_mbps >= 0x7ff0_0000_0000_0000,
        },
{
}

/// A named resolution is sixteen wide for nine high. One that ends in `p` is named after its
/// height.
pub proof fn lemma_presets(name: Seq<char>)
    requires
        config::preset(name) is Some,
    ensures
        ({
            let (width, height) = config::preset(name)->0;
            &&& width * 9 == height * 16
            &&& name.len() > 0
            &&& name.last() == 'p' ==> name == text::decimal(height as nat).push('p')
        }),
{
    reveal_strlit("native");
    reveal_strlit("2160p");
    reveal_strlit("4k");
    reveal_strlit("1440p");
    reveal_strlit("1080p");
    reveal_strlit("720p");
    reveal_with_fuel(text::decimal, 5);
    if name.last() == 'p' {
        let (width, height) = config::preset(name)->0;
        assert(text::decimal(height as nat).push('p') =~= name);
    }
}

proof fn lemma_not_preset(name: Seq<char>, at: int)
    requires
        0 <= at < name.len(),
        name[at] == 'x',
    ensures
        config::preset(name) is None,
{
    reveal_strlit("native");
    reveal_strlit("2160p");
    reveal_strlit("4k");
    reveal_strlit("1440p");
    reveal_strlit("1080p");
    reveal_strlit("720p");
}

/// A resolution that is written as its width and its height with an `x` between them is read back,
/// whatever white space stands around it.
pub proof fn lemma_resolution_read(width: u32, height: u32, before: Seq<char>, after: Seq<char>)
    requires
        text_laws::blank(before),
        text_laws::blank(after),
    ensures
        config::resolution_of(
            before + text::decimal(width as nat) + seq!['x'] + text::decimal(height as nat)
                + after,
        ) == Ok::<(u32, u32), ResolutionError>((width, height)),
        config::resolution_of(
            before + text::decimal(width as nat) + seq!['X'] + text::decimal(height as nat)
                + after,
        ) == Ok::<(u32, u32), ResolutionError>((width, height)),
{
    lemma_resolution_with(width, height, 'x', before, after);
    lemma_resolution_with(width, height, 'X', before, after);
}

proof fn lemma_resolution_with(
    width: u32,
    height: u32,
    cross: char,
    before: Seq<char>,
    after: Seq<char>,
)
    requires
        cross == 'x' || cross == 'X',
        text_laws::blank(before),
        text_laws::blank(after),
    ensures
        config::resolution_of(
            before + text::decimal(width as nat) + seq![cross] + text::decimal(height as nat)
                + after,
        ) == Ok::<(u32, u32), ResolutionError>((width, height)),
{
    let w = text::decimal(width as nat);
    let h = text::decimal(height as nat);
    text_laws::lemma_decimal(width as nat);
    text_laws::lemma_decimal(height as nat);
    let middle = w + seq![cross] + h;
    let value = before + w + seq![cross] + h + after;
    assert(value =~= before + middle + after);
    assert(!text::is_white(middle[0])) by {
        assert(middle[0] == w[0]);
    }
    assert(!text::is_white(middle.last())) by {
        assert(middle.last() == h.last());
        assert('0' <= h[h.len() - 1] <= '9');
    }
    lemma_trim_around(before, middle, after);
    let name = text::lowercase(middle);
    let plain = w + seq!['x'] + h;
    assert forall|i: int| 0 <= i < middle.len() implies text::lowered(#[trigger] middle[i])
        == plain[i] by {
        if i < w.len() {
            assert(middle[i] == w[i]);
        } else if i > w.len() {
            assert(middle[i] == h[i - w.len() - 1]);
        }
    }
    assert(name =~= plain);
    assert(name[w.len() as int] == 'x');
    lemma_not_preset(name, w.len() as int);
    text_laws::lemma_first_index(name, 'x');
    let at = text::first_index(name, 'x')->0;
    if at < w.len() {
        assert(name[at] == w[at]);
    }
    assert(at == w.len());
    assert(name.take(at) =~= w);
    assert(name.skip(at + 1) =~= h);
}

/// What neither begins nor ends with white space is left when the white space around it is taken
/// away.
pub proof fn lemma_trim_around(before: Seq<char>, middle: Seq<char>, after: Seq<char>)
    requires
        text_laws::blank(before),
        text_laws::blank(after),
        middle.len() > 0,
        !text::is_white(middle[0]),
        !text::is_white(middle.last()),
    ensures
        text::trimmed(before + middle + after) == middle,
{
    let rest = middle + after;
    lemma_trim_before(before, rest);
    assert(before + middle + after =~= before + rest);
    lemma_trim_after(middle, after);
}

proof fn lemma_trim_before(before: Seq<char>, rest: Seq<char>)
    requires
        text_laws::blank(before),
        rest.len() > 0,
        !text::is_white(rest[0]),
    ensures
        text::trimmed_start(before + rest) == rest,
    decreases before.len(),
{
    let all = before + rest;
    if before.len() > 0 {
        assert(all[0] == before[0]);
        assert(all.drop_first() =~= before.drop_first() + rest);
        assert forall|i: int| 0 <= i < before.drop_first().len() implies text::is_white(
            #[trigger] before.drop_first()[i],
        ) by {
            assert(before.drop_first()[i] == before[i + 1]);
        }
        lemma_trim_before(before.drop_first(), rest);
    } else {
        assert(all =~= rest);
    }
}

proof fn lemma_trim_after(middle: Seq<char>, after: Seq<char>)
    requires
        text_laws::blank(after),
        middle.len() > 0,
        !text::is_white(middle.last()),
    ensures
        text::trimmed_end(middle + after) == middle,
    decreases after.len(),
{
    let all = middle + after;
    if after.len() > 0 {
        assert(all.last() == after[after.len() - 1]);
        assert(all.drop_last() =~= middle + after.drop_last());
        lemma_trim_after(middle, after.drop_last());
    } else {
        assert(all =~= middle);
    }
}

/// Where nothing is set, the desktop is shown at 1920 by 1080 with the automatic policy. The
/// resolution falls to no less than 360 rows, after two changes within half a second, recovers after
/// two seconds, and an atlas is sent anew after two seconds. A preview stands for 120 milliseconds.
pub proof fn lemma_defaults(config: GraphicsConfig)
    requires
        config == config::default_graphics(),
    ensures
        config.quality == config::QualityMode::Auto,
        config.resolution.width == 1920 && config.resolution.height == 1080,
        config.advanced.adaptive_min_height == 360,
        config.advanced.adaptive_damage_frames == 2,
        config.advanced.adaptive_damage_window_ms == 500,
        config.advanced.frame_budget_ms == 275,
        config.advanced.recovery_ms == 2000,
        config.advanced.preview_ms == 120,
        config.advanced.atlas_refresh_ms == 2000,
        graphics_valid(config),
{
}

/// Whether a fault is what is wrong with an action at a place.
pub open spec fn faulty(actions: Seq<Action>, fault: ConfigFault) -> bool {
    match fault {
        ConfigFault::EmptyName(at) => 0 <= at < actions.len() && !names_something(
            actions[at].name@,
        ),
        ConfigFault::ControlInName(at) => 0 <= at < actions.len() && exists|i: int|
            0 <= i < actions[at].name@.len() && text::is_control_char(
                #[trigger] actions[at].name@[i],
            ),
        ConfigFault::EmptyCommand(at) => 0 <= at < actions.len() && (actions[at].command@.len()
            == 0 || actions[at].command@[0]@.len() == 0),
        ConfigFault::DuplicateName(at) => 0 <= at < actions.len() && exists|i: int|
            0 <= i < at && (#[trigger] actions[i]).name@ == actions[at].name@,
        _ => false,
    }
}

/// The place that a fault names.
pub open spec fn place_of(fault: ConfigFault) -> int {
    match fault {
        ConfigFault::EmptyName(at) => at,
        ConfigFault::ControlInName(at) => at,
        ConfigFault::EmptyCommand(at) => at,
        ConfigFault::DuplicateName(at) => at,
        _ => -1,
    }
}

/// The fault of an action that is told is one that it has, and the actions before it are accepted.
pub proof fn lemma_first_fault(actions: Seq<Action>, count: int)
    requires
        0 <= count <= actions.len(),
    ensures
        config::actions_fault(actions, count) matches Some(fault) ==> {
            &&& faulty(actions, fault)
            &&& 0 <= place_of(fault) < count
            &&& config::actions_fault(actions, place_of(fault)) is None
        },
    decreases count,
{
    if count > 0 {
        lemma_first_fault(actions, count - 1);
        let around = text_laws::lemma_trimmed(actions[count - 1].name@);
    }
}

/// A text that is no preset and has no cross names no resolution. With a cross, what stands before
/// the first one is the width and what stands behind it is the height, and the first of them that
/// is no number is the fault.
pub proof fn lemma_resolution_faults(value: Seq<char>, left: Seq<char>, right: Seq<char>)
    requires
        forall|i: int| 0 <= i < left.len() ==> #[trigger] left[i] != 'x',
    ensures
        ({
            let name = text::lowercase(text::trimmed(value));
            let read = config::resolution_of(value);
            &&& name == left + seq!['x'] + right ==> match (
                text::number32(left),
                text::number32(right),
            ) {
                (Some(width), Some(height)) => read == Ok::<(u32, u32), ResolutionError>(
                    (width, height),
                ),
                (Some(_), None) => read == Err::<(u32, u32), ResolutionError>(
                    ResolutionError::Height,
                ),
                (None, _) => read == Err::<(u32, u32), ResolutionError>(ResolutionError::Width),
            }
            &&& name == left && config::preset(name) is None ==> read == Err::<
                (u32, u32),
                ResolutionError,
            >(ResolutionError::Form)
        }),
{
    let name = text::lowercase(text::trimmed(value));
    text_laws::lemma_first_index(name, 'x');
    if name == left + seq!['x'] + right {
        assert(name[left.len() as int] == 'x');
        lemma_not_preset(name, left.len() as int);
        let at = text::first_index(name, 'x')->0;
        if at < left.len() {
            assert(name[at] == left[at]);
        }
        assert(name.take(at) =~= left);
        assert(name.skip(at + 1) =~= right);
    }
}

/// No two policies have one name or one description.
pub proof fn lemma_policies_told_apart(policy: QualityMode, other: QualityMode)
    requires
        policy != other,
    ensures
        policy.name() != other.name(),
        policy.words() != other.words(),
{
    reveal_strlit("Auto");
    reveal_strlit("Sharp");
    reveal_strlit("Fast");
    reveal_strlit("full detail for navigation, adapts during motion");
    reveal_strlit("always use the selected resolution");
    reveal_strlit("adapt whenever bandwidth is tight");
    assert(policy.name().len() != other.name().len() || policy.name()[0] != other.name()[0]);
    assert(policy.words().len() != other.words().len());
}

} // verus!
