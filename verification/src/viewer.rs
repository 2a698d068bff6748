//! What the viewer does with keys, messages and scrolling. Times are nanoseconds since a fixed
//! moment.

use crate::config::Action;
use crate::keys;
use crate::keys::{encode_key, is_command_prefix, key_text, EncodedKey, KeyCode, KeyEvent};
use crate::render;
use crate::render::{validate_viewport, Viewport, ViewportError};
use crate::scroll;
use crate::scroll::{clamp_steps, events_within, MouseEvent, ScrollAxis, ScrollGesture};
use crate::text;
use crate::text::{chars_of, push_decimal, string_of};
use vstd::prelude::*;

verus! {

/// How long a message stays, and an error.
pub const MESSAGE_DURATION: u128 = 2_000_000_000;

pub const ERROR_DURATION: u128 = 5_000_000_000;

/// How long after input the frame is captured again where no damage is reported.
pub const AUTO_REFRESH_DELAY: u128 = 250_000_000;

/// Times up to here leave room for every delay.
pub const LATEST: u128 = 0x1_0000_0000_0000_0000_0000_0000;

/// What keys are for.
#[derive(Debug, Clone, Copy, PartialEq, Eq, Structural)]
pub enum InteractionMode {
    /// They move the view.
    Nav,
    /// They go to the desktop.
    Input,
}

/// What scrolling is for.
#[derive(Debug, Clone, Copy, PartialEq, Eq, Structural)]
pub enum ScrollTarget {
    View,
    Desktop,
}

/// A setting that the display settings offer.
#[derive(Debug, Clone, Copy, PartialEq, Eq, Structural)]
pub enum DisplaySetting {
    Quality,
    Resolution,
}

/// A change of the display settings.
#[derive(Debug, Clone, Copy, PartialEq, Eq, Structural)]
pub enum GraphicsCommand {
    LowerResolution,
    RaiseResolution,
    PreviousQualityMode,
    NextQualityMode,
}

/// A change of the view.
#[derive(Debug, Clone, Copy, PartialEq, Eq, Structural)]
pub enum ViewCommand {
    ZoomIn,
    ZoomOut,
    ZoomTo(u32),
    Overview,
    Center,
    /// Quarter steps to the right and down; a key press makes four.
    Pan(i32, i32),
}

/// What must be done after input.
#[derive(Debug, Clone, Copy, PartialEq, Eq, Structural)]
pub enum Effect {
    Nothing,
    Redraw,
    Chrome,
    SendKey(EncodedKey),
    SendUnicode(char),
    RunAction(usize),
    Graphics(GraphicsCommand),
    ToggleIdleInhibit,
    Refresh,
    Quit,
    /// The view must be computed; `complete_view` then says what must be done.
    View(ViewCommand),
}

/// A message and the time at which it goes away.
pub struct EchoMessage {
    pub text: String,
    pub expires_at: u128,
}

/// The action palette: what was typed and which match is selected.
pub struct PaletteState {
    pub query: Vec<char>,
    pub selected: usize,
}

/// The graphics in use.
#[derive(Debug, Clone, Copy, PartialEq, Eq, Structural)]
pub enum Backend {
    Ansi,
    Kitty,
}

impl Backend {
    /// The name of the graphics.
    pub open spec fn words(self) -> Seq<char> {
        match self {
            Backend::Ansi => "ANSI"@,
            Backend::Kitty => "KITTY"@,
        }
    }

    /// The name of the graphics.
    pub fn name(self) -> (name: &'static str)
        ensures
            name@ == self.words(),
    {
        match self {
            Backend::Ansi => "ANSI",
            Backend::Kitty => "KITTY",
        }
    }
}

/// The state of the viewer.
pub struct ViewerState {
    pub viewport: Viewport,
    pub message: Option<EchoMessage>,
    pub control: bool,
    pub idle_inhibited: bool,
    pub graphics_backend: Backend,
    pub mouse_armed: bool,
    pub scroll_target: ScrollTarget,
    pub mode: InteractionMode,
    pub prefix_pending: bool,
    pub palette: Option<PaletteState>,
    pub display_settings: Option<DisplaySetting>,
    pub actions: Vec<Action>,
    pub auto_refresh_at: Option<u128>,
    pub scroll_gesture: ScrollGesture,
}

/// What the state of the viewer says.
#[verifier::ext_equal]
pub struct ViewerModel {
    pub viewport: Viewport,
    pub message: Option<(Seq<char>, u128)>,
    pub control: bool,
    pub idle_inhibited: bool,
    pub graphics_backend: Backend,
    pub mouse_armed: bool,
    pub scroll_target: ScrollTarget,
    pub mode: InteractionMode,
    pub prefix_pending: bool,
    pub palette: Option<(Seq<char>, usize)>,
    pub display_settings: Option<DisplaySetting>,
    pub actions: Seq<Action>,
    pub auto_refresh_at: Option<u128>,
    pub scroll_gesture: ScrollGesture,
}

impl View for ViewerState {
    type V = ViewerModel;

    open spec fn view(&self) -> ViewerModel {
        ViewerModel {
            viewport: self.viewport,
            message: match self.message {
                Some(message) => Some((message.text@, message.expires_at)),
                None => None,
            },
            control: self.control,
            idle_inhibited: self.idle_inhibited,
            graphics_backend: self.graphics_backend,
            mouse_armed: self.mouse_armed,
            scroll_target: self.scroll_target,
            mode: self.mode,
            prefix_pending: self.prefix_pending,
            palette: match self.palette {
                Some(palette) => Some((palette.query@, palette.selected)),
                None => None,
            },
            display_settings: self.display_settings,
            actions: self.actions@,
            auto_refresh_at: self.auto_refresh_at,
            scroll_gesture: self.scroll_gesture,
        }
    }
}

/// What `str::to_lowercase` makes of a string.
pub uninterp spec fn unicode_lowercase(chars: Seq<char>) -> Seq<char>;

/// Calls `str::to_lowercase`. Its result is a function of the string alone; it is named, not
/// stated.
#[verifier::external_body]
fn to_lowercase(value: &str) -> (small: String)
    ensures
        small@ == unicode_lowercase(value@),
{
    value.to_lowercase()
}

/// Whether an action whose name and description are given in small letters matches a query in
/// small letters.
pub open spec fn is_match(query: Seq<char>, name: Seq<char>, description: Seq<char>) -> bool {
    query.len() == 0 || text::has_part(name, query) || text::has_part(description, query)
}

/// Whether an action whose name and description are given in small letters matches a query in
/// small letters.
pub fn action_matches(query: &str, name: &str, description: &str) -> (found: bool)
    ensures
        found == is_match(query@, name@, description@),
{
    query.is_empty() || text::contains(&chars_of(name), query) || text::contains(
        &chars_of(description),
        query,
    )
}

/// The indices of those of the first `count` actions that match a query.
pub open spec fn matching(actions: Seq<Action>, query: Seq<char>, count: int) -> Seq<usize>
    decreases count,
{
    if count <= 0 {
        seq![]
    } else {
        let before = matching(actions, query, count - 1);
        let action = actions[count - 1];
        if is_match(
            unicode_lowercase(query),
            unicode_lowercase(action.name@),
            unicode_lowercase(action.description@),
        ) {
            before.push((count - 1) as usize)
        } else {
            before
        }
    }
}

/// There are no more matches than actions.
pub proof fn lemma_matching_bounded(actions: Seq<Action>, query: Seq<char>, count: int)
    requires
        0 <= count <= actions.len(),
        actions.len() <= usize::MAX,
    ensures
        matching(actions, query, count).len() <= count,
        forall|i: int|
            0 <= i < matching(actions, query, count).len() ==> #[trigger] matching(
                actions,
                query,
                count,
            )[i] < count,
    decreases count,
{
    if count > 0 {
        lemma_matching_bounded(actions, query, count - 1);
        let before = matching(actions, query, count - 1);
        let now = matching(actions, query, count);
        assert forall|i: int| 0 <= i < now.len() implies #[trigger] now[i] < count by {
            if i < before.len() {
                assert(before[i] < count - 1);
            }
        }
    }
}

impl ViewerModel {
    /// The gesture is sound, and the palette has something selected where there is anything.
    pub open spec fn wf(self) -> bool {
        &&& self.scroll_gesture.wf()
        &&& self.palette matches Some((_, selected)) ==> selected < self.actions.len() || selected
            == 0
        &&& self.actions.len() < usize::MAX
    }

    /// The actions that match what was typed.
    pub open spec fn matches(self) -> Seq<usize> {
        matching(
            self.actions,
            match self.palette {
                Some((query, _)) => query,
                None => seq![],
            },
            self.actions.len() as int,
        )
    }

    pub open spec fn with_message(self, words: Seq<char>, now: u128, duration: u128) -> ViewerModel {
        ViewerModel { message: Some((words, (now + duration) as u128)), ..self }
    }

    /// The state with a message that stays for a moment.
    pub open spec fn told(self, words: Seq<char>, now: u128) -> ViewerModel {
        self.with_message(words, now, MESSAGE_DURATION)
    }

    /// The state with an error message.
    pub open spec fn warned(self, words: Seq<char>, now: u128) -> ViewerModel {
        self.with_message(words, now, ERROR_DURATION)
    }

    /// The state after the scroll target is changed.
    pub open spec fn retargeted(self, now: u128) -> ViewerModel {
        let target = match self.scroll_target {
            ScrollTarget::View => ScrollTarget::Desktop,
            ScrollTarget::Desktop => ScrollTarget::View,
        };
        ViewerModel {
            scroll_target: target,
            scroll_gesture: scroll::no_gesture(),
            ..self
        }.told(
            match target {
                ScrollTarget::View => "Scroll controls viewport"@,
                ScrollTarget::Desktop => "Scroll controls remote desktop"@,
            },
            now,
        )
    }

    /// The state after the palette is asked for.
    pub open spec fn with_palette(self, now: u128) -> ViewerModel {
        if self.actions.len() == 0 {
            self.warned("No actions configured; see examples/config.toml"@, now)
        } else {
            ViewerModel { message: None, palette: Some((seq![], 0)), ..self }
        }
    }

    /// The state with the display settings open.
    pub open spec fn with_display_settings(self) -> ViewerModel {
        ViewerModel { message: None, display_settings: Some(DisplaySetting::Quality), ..self }
    }

    /// The state with a line of help.
    pub open spec fn helped(self, now: u128) -> ViewerModel {
        self.warned(
            match self.mode {
                InteractionMode::Input =>
                    "Keys control the desktop · C-\\ ? help · C-\\ g display · C-\\ t navigation · C-\\ q quit"@,
                InteractionMode::Nav => if self.control {
                    "Click/arrows move · +/- zoom · g display · t keyboard · i mouse · x actions · q quit"@
                } else {
                    "Click/arrows move · +/- zoom · 0 overview · g display · x actions · r refresh · q quit"@
                },
            },
            now,
        )
    }

    /// The state after the mouse is armed or disarmed.
    pub open spec fn rearmed(self, disarmed: Seq<char>, now: u128) -> ViewerModel {
        ViewerModel { mouse_armed: !self.mouse_armed, ..self }.told(
            if !self.mouse_armed {
                "Mouse control armed"@
            } else {
                disarmed
            },
            now,
        )
    }
}

/// The change of the view that a key asks for. View commands are unmodified single keys.
pub open spec fn view_command(key: KeyEvent) -> Option<ViewCommand> {
    if key.modifiers.commanding() {
        None
    } else {
        match key.code {
            KeyCode::Left => Some(ViewCommand::Pan(-4 as i32, 0)),
            KeyCode::Right => Some(ViewCommand::Pan(4, 0)),
            KeyCode::Up => Some(ViewCommand::Pan(0, -4 as i32)),
            KeyCode::Down => Some(ViewCommand::Pan(0, 4)),
            KeyCode::Char(c) => if c == '+' || c == '=' {
                Some(ViewCommand::ZoomIn)
            } else if c == '-' {
                Some(ViewCommand::ZoomOut)
            } else if '1' <= c && c <= '9' {
                Some(ViewCommand::ZoomTo((c as u32 - '0' as u32) as u32))
            } else if c == '0' {
                Some(ViewCommand::Overview)
            } else if c == 'c' {
                Some(ViewCommand::Center)
            } else if c == 'h' {
                Some(ViewCommand::Pan(-4 as i32, 0))
            } else if c == 'l' {
                Some(ViewCommand::Pan(4, 0))
            } else if c == 'k' {
                Some(ViewCommand::Pan(0, -4 as i32))
            } else if c == 'j' {
                Some(ViewCommand::Pan(0, 4))
            } else {
                None
            },
            _ => None,
        }
    }
}

/// What a key does while the display settings are open.
pub open spec fn settings_key(model: ViewerModel, key: KeyEvent) -> (ViewerModel, Effect) {
    let selected = model.display_settings->0;
    match key.code {
        KeyCode::Esc | KeyCode::Enter => (
            ViewerModel { display_settings: None, message: None, ..model },
            Effect::Chrome,
        ),
        KeyCode::Up | KeyCode::Down | KeyCode::Tab | KeyCode::BackTab => (
            ViewerModel {
                display_settings: Some(
                    match selected {
                        DisplaySetting::Quality => DisplaySetting::Resolution,
                        DisplaySetting::Resolution => DisplaySetting::Quality,
                    },
                ),
                ..model
            },
            Effect::Chrome,
        ),
        KeyCode::Left => (model, Effect::Graphics(lowering(selected))),
        KeyCode::Right => (model, Effect::Graphics(raising(selected))),
        KeyCode::Char(c) => if c == 'g' || c == 'q' {
            (ViewerModel { display_settings: None, message: None, ..model }, Effect::Chrome)
        } else if c == 'h' || c == '-' {
            (model, Effect::Graphics(lowering(selected)))
        } else if c == 'l' || c == '+' || c == '=' {
            (model, Effect::Graphics(raising(selected)))
        } else {
            (model, Effect::Nothing)
        },
        _ => (model, Effect::Nothing),
    }
}

/// The change to the left of a setting.
pub open spec fn lowering(selected: DisplaySetting) -> GraphicsCommand {
    match selected {
        DisplaySetting::Quality => GraphicsCommand::PreviousQualityMode,
        DisplaySetting::Resolution => GraphicsCommand::LowerResolution,
    }
}

/// The change to the right of a setting.
pub open spec fn raising(selected: DisplaySetting) -> GraphicsCommand {
    match selected {
        DisplaySetting::Quality => GraphicsCommand::NextQualityMode,
        DisplaySetting::Resolution => GraphicsCommand::RaiseResolution,
    }
}

/// What a key does while the palette is open.
pub open spec fn palette_key(model: ViewerModel, key: KeyEvent, now: u128) -> (
    ViewerModel,
    Effect,
) {
    let (query, selected) = model.palette->0;
    let found = model.matches();
    if key.code == KeyCode::Esc || (key.modifiers.control && key.code == KeyCode::Char('g')) {
        (ViewerModel { palette: None, ..model }.told("Quit"@, now), Effect::Chrome)
    } else {
        match key.code {
            KeyCode::Enter => if selected < found.len() {
                (
                    ViewerModel { palette: None, ..model },
                    Effect::RunAction(found[selected as int]),
                )
            } else {
                (model, Effect::Chrome)
            },
            KeyCode::Backspace => (
                ViewerModel {
                    palette: Some(
                        (
                            if query.len() > 0 {
                                query.drop_last()
                            } else {
                                query
                            },
                            0,
                        ),
                    ),
                    ..model
                },
                Effect::Chrome,
            ),
            KeyCode::Up | KeyCode::BackTab => (
                ViewerModel {
                    palette: Some(
                        (
                            query,
                            if found.len() == 0 {
                                selected
                            } else if selected == 0 {
                                (found.len() - 1) as usize
                            } else {
                                (selected - 1) as usize
                            },
                        ),
                    ),
                    ..model
                },
                Effect::Chrome,
            ),
            KeyCode::Down | KeyCode::Tab => (
                ViewerModel {
                    palette: Some(
                        (
                            query,
                            if found.len() == 0 {
                                selected
                            } else {
                                ((selected + 1) % found.len() as int) as usize
                            },
                        ),
                    ),
                    ..model
                },
                Effect::Chrome,
            ),
            KeyCode::Char(c) => if key.modifiers.commanding() {
                (model, Effect::Nothing)
            } else {
                (ViewerModel { palette: Some((query.push(c), 0)), ..model }, Effect::Chrome)
            },
            _ => (model, Effect::Nothing),
        }
    }
}

/// What a key after the command prefix does.
pub open spec fn prefixed_key(model: ViewerModel, key: KeyEvent, now: u128) -> (
    ViewerModel,
    Effect,
) {
    if keys::is_prefix(key) {
        (
            model,
            Effect::SendKey(EncodedKey { keycode: 43, modifiers: keys::MOD_CONTROL }),
        )
    } else if key.code == KeyCode::Char('t') {
        (
            ViewerModel { mode: InteractionMode::Nav, ..model }.told(
                "Keyboard input disabled"@,
                now,
            ),
            Effect::Chrome,
        )
    } else if key.code == KeyCode::Char('q') {
        (model, Effect::Quit)
    } else if key.code == KeyCode::Char('r') {
        (model, Effect::Refresh)
    } else if key.code == KeyCode::Char('i') {
        (model.rearmed("Mouse control disarmed"@, now), Effect::Chrome)
    } else if key.code == KeyCode::Char('s') {
        (model.retargeted(now), Effect::Chrome)
    } else if key.code == KeyCode::Char('a') {
        (model, Effect::ToggleIdleInhibit)
    } else if key.code == KeyCode::Char('x') {
        (model.with_palette(now), Effect::Chrome)
    } else if key.code == KeyCode::Char('g') {
        (model.with_display_settings(), Effect::Chrome)
    } else if key.code == KeyCode::Char('?') {
        (model.helped(now), Effect::Chrome)
    } else {
        match view_command(key) {
            Some(command) => (model, Effect::View(command)),
            None => (
                model.warned("Undefined prefix key: C-\\ "@ + keys::key_name(key.code), now),
                Effect::Chrome,
            ),
        }
    }
}

/// What a key does in input mode: it goes to the desktop, unless it begins or ends a command.
pub open spec fn input_key(model: ViewerModel, key: KeyEvent, now: u128) -> (ViewerModel, Effect) {
    if model.prefix_pending {
        prefixed_key(ViewerModel { prefix_pending: false, ..model }, key, now)
    } else if keys::is_prefix(key) {
        (ViewerModel { prefix_pending: true, ..model }.told("C-\\-"@, now), Effect::Chrome)
    } else if key.code is Char && key.code->Char_0 as u32 >= 128 {
        (model, Effect::SendUnicode(key.code->Char_0))
    } else {
        match keys::encoded(key) {
            Some(encoded) => (model, Effect::SendKey(encoded)),
            None => (
                model.warned("Unsupported key: "@ + keys::key_name(key.code), now),
                Effect::Chrome,
            ),
        }
    }
}

/// What a key does in navigation mode.
pub open spec fn nav_key(model: ViewerModel, key: KeyEvent, now: u128) -> (ViewerModel, Effect) {
    let code = key.code;
    if key.modifiers.control && (code == KeyCode::Char('c') || code == KeyCode::Char('d')) {
        (model, Effect::Quit)
    } else if code == KeyCode::Char('q') || code == KeyCode::Esc {
        (model, Effect::Quit)
    } else if code == KeyCode::Char('r') {
        (model, Effect::Refresh)
    } else if code == KeyCode::Char('t') && model.control {
        (
            ViewerModel { mode: InteractionMode::Input, prefix_pending: false, ..model }.told(
                "Keyboard input enabled; use C-\\ t to return"@,
                now,
            ),
            Effect::Chrome,
        )
    } else if code == KeyCode::Char('i') && model.control {
        (model.rearmed("Control disarmed"@, now), Effect::Chrome)
    } else if code == KeyCode::Char('s') && model.control {
        (model.retargeted(now), Effect::Chrome)
    } else if code == KeyCode::Char('a') && model.control {
        (model, Effect::ToggleIdleInhibit)
    } else if code == KeyCode::Char('x') {
        (model.with_palette(now), Effect::Chrome)
    } else if code == KeyCode::Char('g') {
        (model.with_display_settings(), Effect::Chrome)
    } else if code == KeyCode::Char('?') {
        (model.helped(now), Effect::Chrome)
    } else {
        match view_command(key) {
            Some(command) => (model, Effect::View(command)),
            None => (model, Effect::Nothing),
        }
    }
}

/// What a key does.
pub open spec fn key_outcome(model: ViewerModel, key: KeyEvent, now: u128) -> (
    ViewerModel,
    Effect,
) {
    if model.display_settings is Some {
        settings_key(model, key)
    } else if model.palette is Some {
        palette_key(model, key, now)
    } else if model.mode == InteractionMode::Input {
        input_key(model, key, now)
    } else {
        nav_key(model, key, now)
    }
}

/// The change of the view that a key asks for.
pub fn handle_view_command(key: KeyEvent) -> (command: Option<ViewCommand>)
    ensures
        command == view_command(key),
{
    if key.modifiers.control || key.modifiers.alt || key.modifiers.logo {
        return None;
    }
    match key.code {
        KeyCode::Left => Some(ViewCommand::Pan(-4, 0)),
        KeyCode::Right => Some(ViewCommand::Pan(4, 0)),
        KeyCode::Up => Some(ViewCommand::Pan(0, -4)),
        KeyCode::Down => Some(ViewCommand::Pan(0, 4)),
        KeyCode::Char(c) => if '1' <= c && c <= '9' {
            Some(ViewCommand::ZoomTo(c as u32 - '0' as u32))
        } else {
            match c {
                '+' => Some(ViewCommand::ZoomIn),
                '=' => Some(ViewCommand::ZoomIn),
                '-' => Some(ViewCommand::ZoomOut),
                '0' => Some(ViewCommand::Overview),
                'c' => Some(ViewCommand::Center),
                'h' => Some(ViewCommand::Pan(-4, 0)),
                'l' => Some(ViewCommand::Pan(4, 0)),
                'k' => Some(ViewCommand::Pan(0, -4)),
                'j' => Some(ViewCommand::Pan(0, 4)),
                _ => None,
            }
        },
        _ => None,
    }
}

/// A viewer that has just begun to show a viewport.
pub open spec fn fresh(viewport: Viewport, control: bool) -> ViewerModel {
    ViewerModel {
        viewport,
        message: None,
        control,
        idle_inhibited: false,
        graphics_backend: Backend::Ansi,
        mouse_armed: false,
        scroll_target: ScrollTarget::View,
        mode: InteractionMode::Nav,
        prefix_pending: false,
        palette: None,
        display_settings: None,
        actions: seq![],
        auto_refresh_at: None,
        scroll_gesture: scroll::no_gesture(),
    }
}

impl ViewerState {
    pub open spec fn wf(&self) -> bool {
        self@.wf()
    }

    /// A viewer that shows a viewport. `clamped` is the viewport with its middle kept so far from
    /// the edges that nothing beyond them shows.
    pub fn new(viewport: Viewport, clamped: Viewport, control: bool) -> (state: Result<
        ViewerState,
        ViewportError,
    >)
        ensures
            match render::viewport_fault(viewport) {
                Some(fault) => state == Err::<ViewerState, ViewportError>(fault),
                None => state matches Ok(state) && state.wf() && state@ == fresh(clamped, control),
            },
    {
        match validate_viewport(viewport) {
            Ok(()) => {},
            Err(fault) => return Err(fault),
        }
        let state = ViewerState {
            viewport: clamped,
            message: None,
            control,
            idle_inhibited: false,
            graphics_backend: Backend::Ansi,
            mouse_armed: false,
            scroll_target: ScrollTarget::View,
            mode: InteractionMode::Nav,
            prefix_pending: false,
            palette: None,
            display_settings: None,
            actions: Vec::new(),
            auto_refresh_at: None,
            scroll_gesture: ScrollGesture::default(),
        };
        assert(state@.actions =~= seq![]);
        Ok(state)
    }

    /// Shows a message for a time.
    pub fn message_for(&mut self, words: String, duration: u128, now: u128)
        requires
            now + duration <= u128::MAX,
        ensures
            final(self)@ == old(self)@.with_message(words@, now, duration),
    {
        self.message = Some(EchoMessage { text: words, expires_at: now + duration });
    }

    /// Shows a message.
    pub fn message(&mut self, words: String, now: u128)
        requires
            now <= LATEST,
        ensures
            final(self)@ == old(self)@.told(words@, now),
    {
        self.message_for(words, MESSAGE_DURATION, now);
    }

    /// Shows an error.
    pub fn error(&mut self, words: String, now: u128)
        requires
            now <= LATEST,
        ensures
            final(self)@ == old(self)@.warned(words@, now),
    {
        self.message_for(words, ERROR_DURATION, now);
    }

    /// Does what a key asks for.
    pub fn handle_key(&mut self, key: KeyEvent, now: u128) -> (effect: Effect)
        requires
            old(self).wf(),
            now <= LATEST,
        ensures
            final(self).wf(),
            (final(self)@, effect) == key_outcome(old(self)@, key, now),
    {
        if self.display_settings.is_some() {
            return self.handle_display_settings_key(key);
        }
        if self.palette.is_some() {
            return self.handle_palette_key(key, now);
        }
        if let InteractionMode::Input = self.mode {
            return self.handle_input_key(key, now);
        }
        if key.modifiers.control {
            match key.code {
                KeyCode::Char('c') => return Effect::Quit,
                KeyCode::Char('d') => return Effect::Quit,
                _ => {},
            }
        }
        match key.code {
            KeyCode::Esc => return Effect::Quit,
            KeyCode::Char('q') => return Effect::Quit,
            KeyCode::Char('r') => return Effect::Refresh,
            KeyCode::Char('t') => if self.control {
                self.mode = InteractionMode::Input;
                self.prefix_pending = false;
                self.message("Keyboard input enabled; use C-\\ t to return".to_owned(), now);
                return Effect::Chrome;
            },
            KeyCode::Char('i') => if self.control {
                self.toggle_mouse("Control disarmed", now);
                return Effect::Chrome;
            },
            KeyCode::Char('s') => if self.control {
                return self.toggle_scroll_target(now);
            },
            KeyCode::Char('a') => if self.control {
                return Effect::ToggleIdleInhibit;
            },
            KeyCode::Char('x') => return self.open_palette(now),
            KeyCode::Char('g') => return self.open_display_settings(),
            KeyCode::Char('?') => return self.show_help(now),
            _ => {},
        }
        match handle_view_command(key) {
            Some(command) => Effect::View(command),
            None => Effect::Nothing,
        }
    }

    fn toggle_mouse(&mut self, disarmed: &str, now: u128)
        requires
            now <= LATEST,
        ensures
            final(self)@ == old(self)@.rearmed(disarmed@, now),
    {
        self.mouse_armed = !self.mouse_armed;
        let words = if self.mouse_armed {
            "Mouse control armed".to_owned()
        } else {
            disarmed.to_owned()
        };
        self.message(words, now);
    }

    /// Does what a key asks for in input mode.
    pub fn handle_input_key(&mut self, key: KeyEvent, now: u128) -> (effect: Effect)
        requires
            old(self).wf(),
            now <= LATEST,
        ensures
            final(self).wf(),
            (final(self)@, effect) == input_key(old(self)@, key, now),
    {
        if self.prefix_pending {
            self.prefix_pending = false;
            if is_command_prefix(key) {
                return Effect::SendKey(EncodedKey { keycode: 43, modifiers: keys::MOD_CONTROL });
            }
            match key.code {
                KeyCode::Char('t') => {
                    self.mode = InteractionMode::Nav;
                    self.message("Keyboard input disabled".to_owned(), now);
                    return Effect::Chrome;
                },
                KeyCode::Char('q') => return Effect::Quit,
                KeyCode::Char('r') => return Effect::Refresh,
                KeyCode::Char('i') => {
                    self.toggle_mouse("Mouse control disarmed", now);
                    return Effect::Chrome;
                },
                KeyCode::Char('s') => return self.toggle_scroll_target(now),
                KeyCode::Char('a') => return Effect::ToggleIdleInhibit,
                KeyCode::Char('x') => return self.open_palette(now),
                KeyCode::Char('g') => return self.open_display_settings(),
                KeyCode::Char('?') => return self.show_help(now),
                _ => {},
            }
            if let Some(command) = handle_view_command(key) {
                return Effect::View(command);
            }
            let mut words = "Undefined prefix key: C-\\ ".to_owned();
            words.append(key_text(key.code).as_str());
            self.error(words, now);
            return Effect::Chrome;
        }
        if is_command_prefix(key) {
            self.prefix_pending = true;
            self.message("C-\\-".to_owned(), now);
            return Effect::Chrome;
        }
        if let KeyCode::Char(character) = key.code {
            if character as u32 >= 128 {
                return Effect::SendUnicode(character);
            }
        }
        match encode_key(key) {
            Some(encoded) => Effect::SendKey(encoded),
            None => {
                let mut words = "Unsupported key: ".to_owned();
                words.append(key_text(key.code).as_str());
                self.error(words, now);
                Effect::Chrome
            },
        }
    }

    /// Opens the palette, where there are actions.
    pub fn open_palette(&mut self, now: u128) -> (effect: Effect)
        requires
            old(self).wf(),
            now <= LATEST,
        ensures
            final(self).wf(),
            final(self)@ == old(self)@.with_palette(now),
            effect == Effect::Chrome,
    {
        if self.actions.len() == 0 {
            self.error("No actions configured; see examples/config.toml".to_owned(), now);
            return Effect::Chrome;
        }
        self.message = None;
        self.palette = Some(PaletteState { query: Vec::new(), selected: 0 });
        assert((self@.palette->0).0 =~= seq![]);
        Effect::Chrome
    }

    /// Opens the display settings.
    pub fn open_display_settings(&mut self) -> (effect: Effect)
        ensures
            final(self)@ == old(self)@.with_display_settings(),
            effect == Effect::Chrome,
    {
        self.message = None;
        self.display_settings = Some(DisplaySetting::Quality);
        Effect::Chrome
    }

    /// Does what a key asks for while the display settings are open.
    pub fn handle_display_settings_key(&mut self, key: KeyEvent) -> (effect: Effect)
        requires
            old(self).wf(),
            old(self)@.display_settings is Some,
        ensures
            final(self).wf(),
            (final(self)@, effect) == settings_key(old(self)@, key),
    {
        let selected = match self.display_settings {
            Some(selected) => selected,
            None => DisplaySetting::Quality,
        };
        let lower = match selected {
            DisplaySetting::Quality => GraphicsCommand::PreviousQualityMode,
            DisplaySetting::Resolution => GraphicsCommand::LowerResolution,
        };
        let raise = match selected {
            DisplaySetting::Quality => GraphicsCommand::NextQualityMode,
            DisplaySetting::Resolution => GraphicsCommand::RaiseResolution,
        };
        match key.code {
            KeyCode::Esc | KeyCode::Enter | KeyCode::Char('g') | KeyCode::Char('q') => {
                self.display_settings = None;
                self.message = None;
                Effect::Chrome
            },
            KeyCode::Up | KeyCode::Down | KeyCode::Tab | KeyCode::BackTab => {
                self.display_settings = Some(
                    match selected {
                        DisplaySetting::Quality => DisplaySetting::Resolution,
                        DisplaySetting::Resolution => DisplaySetting::Quality,
                    },
                );
                Effect::Chrome
            },
            KeyCode::Left | KeyCode::Char('h') | KeyCode::Char('-') => Effect::Graphics(lower),
            KeyCode::Right
            | KeyCode::Char('l')
            | KeyCode::Char('+')
            | KeyCode::Char('=') => Effect::Graphics(raise),
            _ => Effect::Nothing,
        }
    }

    /// Shows a line of help.
    pub fn show_help(&mut self, now: u128) -> (effect: Effect)
        requires
            now <= LATEST,
        ensures
            final(self)@ == old(self)@.helped(now),
            effect == Effect::Chrome,
    {
        let help = match self.mode {
            InteractionMode::Input =>
                "Keys control the desktop · C-\\ ? help · C-\\ g display · C-\\ t navigation · C-\\ q quit",
            InteractionMode::Nav => if self.control {
                "Click/arrows move · +/- zoom · g display · t keyboard · i mouse · x actions · q quit"
            } else {
                "Click/arrows move · +/- zoom · 0 overview · g display · x actions · r refresh · q quit"
            },
        };
        self.message_for(help.to_owned(), ERROR_DURATION, now);
        Effect::Chrome
    }

    /// Does what a key asks for while the palette is open.
    pub fn handle_palette_key(&mut self, key: KeyEvent, now: u128) -> (effect: Effect)
        requires
            old(self).wf(),
            old(self)@.palette is Some,
            now <= LATEST,
        ensures
            final(self).wf(),
            (final(self)@, effect) == palette_key(old(self)@, key, now),
    {
        let cancel = match key.code {
            KeyCode::Esc => true,
            KeyCode::Char('g') => key.modifiers.control,
            _ => false,
        };
        if cancel {
            self.palette = None;
            self.message("Quit".to_owned(), now);
            return Effect::Chrome;
        }
        let matches = self.palette_matches();
        proof {
            lemma_matching_bounded(
                self@.actions,
                (self@.palette->0).0,
                self@.actions.len() as int,
            );
        }
        let mut palette = match self.palette.take() {
            Some(palette) => palette,
            None => PaletteState { query: Vec::new(), selected: 0 },
        };
        let effect = match key.code {
            KeyCode::Enter => {
                if palette.selected < matches.len() {
                    return Effect::RunAction(matches[palette.selected]);
                }
                Effect::Chrome
            },
            KeyCode::Backspace => {
                let dropped = palette.query.pop();
                palette.selected = 0;
                Effect::Chrome
            },
            KeyCode::Up | KeyCode::BackTab => {
                if matches.len() > 0 {
                    palette.selected = if palette.selected == 0 {
                        matches.len() - 1
                    } else {
                        palette.selected - 1
                    };
                }
                Effect::Chrome
            },
            KeyCode::Down | KeyCode::Tab => {
                if matches.len() > 0 {
                    palette.selected = (palette.selected + 1) % matches.len();
                }
                Effect::Chrome
            },
            KeyCode::Char(character) => if key.modifiers.control || key.modifiers.alt
                || key.modifiers.logo {
                Effect::Nothing
            } else {
                palette.query.push(character);
                palette.selected = 0;
                Effect::Chrome
            },
            _ => Effect::Nothing,
        };
        self.palette = Some(palette);
        effect
    }

    /// The actions that match what was typed, by their index.
    pub fn palette_matches(&self) -> (matches: Vec<usize>)
        requires
            self.wf(),
        ensures
            matches@ == self@.matches(),
    {
        let typed = match &self.palette {
            Some(palette) => string_of(&palette.query),
            None => String::new(),
        };
        let query = to_lowercase(typed.as_str());
        let mut matches: Vec<usize> = Vec::new();
        let mut i: usize = 0;
        while i < self.actions.len()
            invariant
                i <= self.actions@.len(),
                query@ == unicode_lowercase(typed@),
                matches@ == matching(self.actions@, typed@, i as int),
            decreases self.actions@.len() - i,
        {
            let action = &self.actions[i];
            let name = to_lowercase(action.name.as_str());
            let description = to_lowercase(action.description.as_str());
            if action_matches(query.as_str(), name.as_str(), description.as_str()) {
                matches.push(i);
            }
            i = i + 1;
        }
        assert(typed@ =~= match self@.palette {
            Some((query, _)) => query,
            None => seq![],
        });
        matches
    }

    /// What the palette shows.
    pub fn palette_echo(&self) -> (echo: Option<String>)
        requires
            self.wf(),
        ensures
            match self@.palette {
                None => echo is None,
                Some((query, selected)) => echo matches Some(echo) && echo@ == palette_line(self@),
            },
    {
        let palette = match &self.palette {
            Some(palette) => palette,
            None => return None,
        };
        let matches = self.palette_matches();
        proof {
            lemma_matching_bounded(self@.actions, palette.query@, self@.actions.len() as int);
        }
        let mut echo = "M-x ".to_owned();
        echo.append(string_of(&palette.query).as_str());
        echo.append("  [");
        if palette.selected < matches.len() {
            let action = &self.actions[matches[palette.selected]];
            let mut selection = action.name.clone();
            if !action.description.as_str().is_empty() {
                selection.append(" — ");
                selection.append(action.description.as_str());
            }
            echo.append(selection.as_str());
        } else {
            echo.append("[no match]");
        }
        echo.append("] (");
        let shown: u64 = if matches.len() == 0 {
            0
        } else {
            palette.selected as u64 + 1
        };
        push_decimal(&mut echo, shown);
        echo.append("/");
        push_decimal(&mut echo, matches.len() as u64);
        echo.append(")");
        Some(echo)
    }

    /// Lets scrolling control the view or the desktop.
    pub fn toggle_scroll_target(&mut self, now: u128) -> (effect: Effect)
        requires
            old(self).wf(),
            now <= LATEST,
        ensures
            final(self).wf(),
            final(self)@ == old(self)@.retargeted(now),
            effect == Effect::Chrome,
    {
        self.scroll_target = match self.scroll_target {
            ScrollTarget::View => ScrollTarget::Desktop,
            ScrollTarget::Desktop => ScrollTarget::View,
        };
        self.scroll_gesture = ScrollGesture::default();
        let words = match self.scroll_target {
            ScrollTarget::View => "Scroll controls viewport".to_owned(),
            ScrollTarget::Desktop => "Scroll controls remote desktop".to_owned(),
        };
        self.message(words, now);
        Effect::Chrome
    }

    /// Takes over a computed view. Nothing is to be done where the view stays.
    pub fn complete_view(&mut self, viewport: Option<Viewport>) -> (effect: Effect)
        requires
            old(self).wf(),
        ensures
            final(self).wf(),
            match viewport {
                Some(viewport) => effect == Effect::Redraw && final(self)@ == (ViewerModel {
                    viewport,
                    message: None,
                    ..old(self)@
                }),
                None => effect == Effect::Nothing && final(self)@ == old(self)@,
            },
    {
        match viewport {
            Some(viewport) => {
                self.viewport = viewport;
                self.message = None;
                Effect::Redraw
            },
            None => Effect::Nothing,
        }
    }

    /// The time until the viewer has something to do by itself.
    pub fn next_wakeup_timeout(&self, now: u128) -> (timeout: Option<u128>)
        ensures
            timeout == time_until(
                earliest(
                    match self@.message {
                        Some((_, expires_at)) => Some(expires_at),
                        None => None,
                    },
                    self@.auto_refresh_at,
                ),
                now,
            ),
    {
        let message = match &self.message {
            Some(message) => Some(message.expires_at),
            None => None,
        };
        until(earliest_timeout(message, self.auto_refresh_at), now)
    }

    /// Drops the message if its time is over. Says whether it did.
    pub fn expire_message(&mut self, now: u128) -> (expired: bool)
        ensures
            expired == (old(self)@.message matches Some((_, expires_at)) && expires_at <= now),
            final(self)@ == if expired {
                ViewerModel { message: None, ..old(self)@ }
            } else {
                old(self)@
            },
    {
        let expired = match &self.message {
            Some(message) => message.expires_at <= now,
            None => false,
        };
        if expired {
            self.message = None;
        }
        expired
    }

    /// Has the frame captured again after a while.
    pub fn schedule_auto_refresh(&mut self, now: u128)
        requires
            now <= LATEST,
        ensures
            final(self)@ == (ViewerModel {
                auto_refresh_at: Some((now + AUTO_REFRESH_DELAY) as u128),
                ..old(self)@
            }),
    {
        self.auto_refresh_at = Some(now + AUTO_REFRESH_DELAY);
    }

    /// No longer has the frame captured again.
    pub fn cancel_auto_refresh(&mut self)
        ensures
            final(self)@ == (ViewerModel { auto_refresh_at: None, ..old(self)@ }),
    {
        self.auto_refresh_at = None;
    }

    /// Whether the frame must be captured again now. It is asked for once.
    pub fn take_due_auto_refresh(&mut self, now: u128) -> (due: bool)
        ensures
            due == (old(self)@.auto_refresh_at matches Some(deadline) && deadline <= now),
            final(self)@ == if due {
                ViewerModel { auto_refresh_at: None, ..old(self)@ }
            } else {
                old(self)@
            },
    {
        let due = match self.auto_refresh_at {
            Some(deadline) => deadline <= now,
            None => false,
        };
        if due {
            self.auto_refresh_at = None;
        }
        due
    }

    /// The movement that scroll events over an area of cells make.
    pub fn scroll_movement(&mut self, events: &[MouseEvent], cols: u16, rows: u16, now: u128) -> (
        movement: Option<(ScrollAxis, i32)>)
        requires
            old(self).wf(),
            old(self)@.scroll_gesture.room_for(events@.len()),
        ensures
            final(self).wf(),
            ({
                let (gesture, expected) = scroll::consumed(
                    old(self)@.scroll_gesture,
                    events@.filter(scroll::within(cols, rows)),
                    now,
                );
                movement == expected && final(self)@ == (ViewerModel {
                    scroll_gesture: gesture,
                    ..old(self)@
                })
            }),
    {
        let inside = events_within(events, cols, rows);
        self.scroll_gesture.consume(inside.as_slice(), now)
    }

    /// The change of the view that scroll events over an area of cells ask for.
    pub fn handle_scroll_batch(
        &mut self,
        events: &[MouseEvent],
        cols: u16,
        rows: u16,
        now: u128,
    ) -> (effect: Effect)
        requires
            old(self).wf(),
            old(self)@.scroll_gesture.room_for(events@.len()),
        ensures
            final(self).wf(),
            ({
                let (gesture, movement) = scroll::consumed(
                    old(self)@.scroll_gesture,
                    events@.filter(scroll::within(cols, rows)),
                    now,
                );
                effect == scroll_effect(movement) && final(self)@ == (ViewerModel {
                    scroll_gesture: gesture,
                    ..old(self)@
                })
            }),
    {
        match self.scroll_movement(events, cols, rows, now) {
            None => Effect::Nothing,
            Some((axis, steps)) => {
                let clamped: i32 = clamp_steps(steps);
                match axis {
                    ScrollAxis::Horizontal => Effect::View(ViewCommand::Pan(clamped, 0)),
                    ScrollAxis::Vertical => Effect::View(ViewCommand::Pan(0, clamped)),
                }
            },
        }
    }
}

/// The change of the view that a scroll movement asks for.
pub open spec fn scroll_effect(movement: Option<(ScrollAxis, i32)>) -> Effect {
    match movement {
        None => Effect::Nothing,
        Some((ScrollAxis::Horizontal, steps)) => Effect::View(
            ViewCommand::Pan(scroll::frame_steps(steps as int) as i32, 0),
        ),
        Some((ScrollAxis::Vertical, steps)) => Effect::View(
            ViewCommand::Pan(0, scroll::frame_steps(steps as int) as i32),
        ),
    }
}

/// The line that the palette shows.
pub open spec fn palette_line(model: ViewerModel) -> Seq<char> {
    let (query, selected) = model.palette->0;
    let found = model.matches();
    let selection = if selected < found.len() {
        let action = model.actions[found[selected as int] as int];
        if action.description@.len() == 0 {
            action.name@
        } else {
            action.name@ + " — "@ + action.description@
        }
    } else {
        "[no match]"@
    };
    "M-x "@ + query + "  ["@ + selection + "] ("@ + text::decimal(
        if found.len() == 0 {
            0
        } else {
            (selected + 1) as nat
        },
    ) + "/"@ + text::decimal(found.len()) + ")"@
}

/// The earlier of two times.
pub open spec fn earliest(left: Option<u128>, right: Option<u128>) -> Option<u128> {
    match (left, right) {
        (Some(left), Some(right)) => if left <= right {
            Some(left)
        } else {
            Some(right)
        },
        (Some(time), None) => Some(time),
        (None, other) => other,
    }
}

/// The earlier of two times.
pub fn earliest_timeout(left: Option<u128>, right: Option<u128>) -> (first: Option<u128>)
    ensures
        first == earliest(left, right),
{
    match (left, right) {
        (Some(left), Some(right)) => if left <= right {
            Some(left)
        } else {
            Some(right)
        },
        (Some(time), None) => Some(time),
        (None, other) => other,
    }
}

/// How long it is until a time. A time that is past is now.
pub open spec fn time_until(deadline: Option<u128>, now: u128) -> Option<u128> {
    match deadline {
        Some(deadline) => if deadline <= now {
            Some(0)
        } else {
            Some((deadline - now) as u128)
        },
        None => None,
    }
}

/// How long it is until a time.
pub fn until(deadline: Option<u128>, now: u128) -> (wait: Option<u128>)
    ensures
        wait == time_until(deadline, now),
{
    match deadline {
        Some(deadline) => if deadline <= now {
            Some(0)
        } else {
            Some(deadline - now)
        },
        None => None,
    }
}

} // verus!
