//! What holds of the action palette.

use crate::config::Action;
use crate::keys::{KeyCode, KeyEvent};
use crate::text;
use crate::viewer;
use crate::viewer::{Effect, ViewerModel};
use vstd::prelude::*;

verus! {

/// Whether a text stands somewhere in another.
pub open spec fn occurs(part: Seq<char>, whole: Seq<char>) -> bool {
    exists|at: int|
        0 <= at && at + part.len() <= whole.len() && #[trigger] whole.skip(at).take(
            part.len() as int,
        ) == part
}

/// Whether what was typed stands in the name or in the description of an action, in whatever case.
pub open spec fn suits(action: Action, query: Seq<char>) -> bool {
    let small = viewer::unicode_lowercase(query);
    small.len() == 0 || occurs(small, viewer::unicode_lowercase(action.name@)) || occurs(
        small,
        viewer::unicode_lowercase(action.description@),
    )
}

/// How many of the first `count` actions suit what was typed.
pub open spec fn suiting(actions: Seq<Action>, query: Seq<char>, count: int) -> nat
    decreases count,
{
    if count <= 0 {
        0
    } else {
        suiting(actions, query, count - 1) + if suits(actions[count - 1], query) {
            1nat
        } else {
            0nat
        }
    }
}

proof fn lemma_occurs(part: Seq<char>, whole: Seq<char>)
    ensures
        occurs(part, whole) <==> text::has_part(whole, part),
{
    if occurs(part, whole) {
        let at = choose|at: int|
            0 <= at && at + part.len() <= whole.len() && #[trigger] whole.skip(at).take(
                part.len() as int,
            ) == part;
        assert(whole.subrange(at, at + part.len()) =~= whole.skip(at).take(part.len() as int));
        assert(text::stands_at(whole, part, at));
    }
    if text::has_part(whole, part) {
        let at = choose|at: int| text::stands_at(whole, part, at);
        assert(whole.subrange(at, at + part.len()) =~= whole.skip(at).take(part.len() as int));
    }
}

proof fn lemma_matches_are_suiting(actions: Seq<Action>, query: Seq<char>, count: int)
    requires
        0 <= count <= actions.len() <= usize::MAX,
    ensures
        viewer::matching(actions, query, count).len() == suiting(actions, query, count),
        forall|j: int|
            0 <= j < suiting(actions, query, count) ==> {
                let i = #[trigger] viewer::matching(actions, query, count)[j];
                i < count && suits(actions[i as int], query) && suiting(actions, query, i as int)
                    == j
            },
    decreases count,
{
    if count > 0 {
        lemma_matches_are_suiting(actions, query, count - 1);
        let action = actions[count - 1];
        let small = viewer::unicode_lowercase(query);
        lemma_occurs(small, viewer::unicode_lowercase(action.name@));
        lemma_occurs(small, viewer::unicode_lowercase(action.description@));
        let before = viewer::matching(actions, query, count - 1);
        let now = viewer::matching(actions, query, count);
        assert forall|j: int| 0 <= j < suiting(actions, query, count) implies {
            let i = #[trigger] now[j];
            i < count && suits(actions[i as int], query) && suiting(actions, query, i as int) == j
        } by {
            if j < before.len() {
                assert(now[j] == before[j]);
            }
        }
    }
}

/// What the palette says of an action.
pub open spec fn described(action: Action) -> Seq<char> {
    if action.description@.len() == 0 {
        action.name@
    } else {
        action.name@ + " — "@ + action.description@
    }
}

/// Enter runs the action that the palette shows as selected: among the actions that suit what was
/// typed, in their order, the one with as many before it as the selection says. So another
/// selection runs another action. Where there is none, nothing is run and the palette stays open.
pub proof fn lemma_enter_runs_selected(model: ViewerModel, key: KeyEvent, now: u128)
    requires
        model.wf(),
        model.display_settings is None,
        model.palette is Some,
        key.code == KeyCode::Enter,
    ensures
        ({
            let (query, selected) = model.palette->0;
            let (next, effect) = viewer::key_outcome(model, key, now);
            let count = suiting(model.actions, query, model.actions.len() as int);
            if selected < count {
                &&& effect is RunAction
                &&& effect->RunAction_0 < model.actions.len()
                &&& suits(model.actions[effect->RunAction_0 as int], query)
                &&& suiting(model.actions, query, effect->RunAction_0 as int) == selected
                &&& next == ViewerModel { palette: None, ..model }
                &&& viewer::palette_line(model) == "M-x "@ + query + "  ["@ + described(
                    model.actions[effect->RunAction_0 as int],
                ) + "] ("@ + text::decimal((selected + 1) as nat) + "/"@ + text::decimal(count)
                    + ")"@
            } else {
                &&& effect == Effect::Chrome
                &&& next == model
            }
        }),
{
    let (query, selected) = model.palette->0;
    lemma_matches_are_suiting(model.actions, query, model.actions.len() as int);
}

/// Different selections run different actions.
pub proof fn lemma_selections_differ(
    model: ViewerModel,
    other: ViewerModel,
    key: KeyEvent,
    now: u128,
)
    requires
        model.wf(),
        other.wf(),
        model.display_settings is None,
        other.display_settings is None,
        model.actions == other.actions,
        model.palette is Some,
        other.palette is Some,
        (model.palette->0).0 == (other.palette->0).0,
        (model.palette->0).1 != (other.palette->0).1,
        key.code == KeyCode::Enter,
        viewer::key_outcome(model, key, now).1 is RunAction,
    ensures
        viewer::key_outcome(model, key, now).1 != viewer::key_outcome(other, key, now).1,
{
    lemma_enter_runs_selected(model, key, now);
    lemma_enter_runs_selected(other, key, now);
}

/// The arrows and tab go to the next or to the previous match and round at the ends. They leave
/// alone what was typed, and run nothing.
pub proof fn lemma_palette_moves(model: ViewerModel, key: KeyEvent, now: u128)
    requires
        model.wf(),
        model.display_settings is None,
        model.palette is Some,
        key.code is Up || key.code is BackTab || key.code is Down || key.code is Tab,
    ensures
        ({
            let (query, selected) = model.palette->0;
            let (next, effect) = viewer::key_outcome(model, key, now);
            let count = suiting(model.actions, query, model.actions.len() as int);
            let moved = (next.palette->0).1;
            &&& effect == Effect::Chrome
            &&& next == ViewerModel { palette: Some((query, moved)), ..model }
            &&& count == 0 ==> moved == selected
            &&& selected < count ==> moved < count && if key.code is Down || key.code is Tab {
                moved == selected + 1 || moved == 0 && selected + 1 == count
            } else {
                moved == selected - 1 || selected == 0 && moved + 1 == count
            }
        }),
{
    let (query, selected) = model.palette->0;
    lemma_matches_are_suiting(model.actions, query, model.actions.len() as int);
    let count = suiting(model.actions, query, model.actions.len() as int);
    viewer::lemma_matching_bounded(model.actions, query, model.actions.len() as int);
    if selected < count {
        if selected + 1 < count {
            vstd::arithmetic::div_mod::lemma_small_mod((selected + 1) as nat, count);
        } else {
            vstd::arithmetic::div_mod::lemma_mod_self_0(count as int);
        }
    }
}

/// A character that is typed is put behind the query, backspace takes the last one away, and both
/// select the first match. Escape and control with `g` close the palette. Nothing is run.
pub proof fn lemma_palette_edits(model: ViewerModel, key: KeyEvent, now: u128)
    requires
        model.display_settings is None,
        model.palette is Some,
    ensures
        ({
            let (query, selected) = model.palette->0;
            let (next, effect) = viewer::key_outcome(model, key, now);
            let escapes = key.code is Esc || key.modifiers.control && key.code == KeyCode::Char(
                'g',
            );
            let plain = !key.modifiers.control && !key.modifiers.alt && !key.modifiers.logo;
            &&& key.code is Char && plain ==> next == (ViewerModel {
                palette: Some((query + seq![key.code->Char_0], 0)),
                ..model
            })
            &&& key.code is Char && !plain && !escapes ==> next == model
            &&& key.code is Backspace ==> next.palette is Some && (next.palette->0).1 == 0 && (
            query.len() > 0 ==> (next.palette->0).0 + seq![query.last()] == query) && (query.len()
                == 0 ==> (next.palette->0).0 == query)
            &&& escapes ==> next.palette is None && effect == Effect::Chrome
            &&& !(key.code is Enter) ==> !(effect is RunAction) && next.actions == model.actions
        }),
{
    let (query, selected) = model.palette->0;
    if key.code is Char {
        assert(query.push(key.code->Char_0) =~= query + seq![key.code->Char_0]);
    }
    if query.len() > 0 {
        assert(query.drop_last() + seq![query.last()] =~= query);
    }
}

/// The palette opens empty with the first action selected, where any are configured; else nothing
/// opens, and an error says so for as long as errors are shown.
pub proof fn lemma_palette_opens(model: ViewerModel, now: u128)
    ensures
        ({
            let next = model.with_palette(now);
            if model.actions.len() > 0 {
                next == (ViewerModel { message: None, palette: Some((seq![], 0)), ..model })
            } else {
                next.palette == model.palette && next.message == Some(
                    (
                        "No actions configured; see examples/config.toml"@,
                        (now + 5_000_000_000) as u128,
                    ),
                )
            }
        }),
{
}

} // verus!
