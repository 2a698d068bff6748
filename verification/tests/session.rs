use termway::config::GraphicsConfig;
use termway::discovery::Source;
use termway::fixture::{
    changed_image, noise_image, noise_value, quadrant_image, quality_config, quality_key,
    quality_timeout, visual_key, visual_opening, SceneTask, VisualStep,
};
use termway::input::PointerButton;
use termway::keys::{EncodedKey, KeyCode, KeyEvent, KeyModifiers};
use termway::kitty::{KittyError, Renderer, Transport};
use termway::layout::{DrawLayout, LogicalPoint, PointerSample};
use termway::niri::{OutputGeometry, Snapshot};
use termway::pixels::RgbImage;
use termway::render::{Viewport, ViewportRect};
use termway::report::{capture_size, output_line, session_report, window_report};
use termway::screencopy::DamageRect;
use termway::scroll::{MouseButton, MouseEvent, MouseEventKind};
use termway::session::{
    announce, hold, on_captured, on_clicked, on_damage, on_damage_lost, on_focus_gained,
    on_focused, on_held, on_inhibited, on_injected, on_mouse, on_scroll, on_spawned, on_timeout,
    on_viewed, perform, poll_timeout, CaptureReason, Hold, Injection, Notice, Task,
    DAMAGE_POLL_INTERVAL, OUTPUT_RETRY_INTERVAL,
};
use termway::terminal::Terminal;
use termway::viewer::{
    Effect, GraphicsCommand, ScrollTarget, ViewCommand, ViewerState, AUTO_REFRESH_DELAY,
    MESSAGE_DURATION,
};

fn viewer(control: bool) -> ViewerState {
    match ViewerState::new(Viewport::default(), Viewport::default(), control) {
        Ok(state) => state,
        Err(error) => panic!("{}", error.message()),
    }
}

fn cells() -> Terminal {
    Terminal::new(None, None, GraphicsConfig::default(), 1_000)
}

fn kitty() -> Terminal {
    let renderer = Renderer::new(Transport::Direct, 8192);
    Terminal::new(Some(renderer), None, GraphicsConfig::default(), 1_000)
}

fn said(state: &ViewerState) -> &str {
    match &state.message {
        Some(message) => &message.text,
        None => "",
    }
}

fn point() -> LogicalPoint {
    LogicalPoint {
        source_x: 30,
        source_y: 40,
        local_x: 3,
        local_y: 4,
        global_x: 103,
        global_y: 204,
    }
}

fn sample() -> PointerSample {
    PointerSample { source_x: 30, source_y: 40, local_x: 3, local_y: 4 }
}

fn layout() -> DrawLayout {
    DrawLayout {
        cols: 10,
        rows: 5,
        sample_height: 10,
        viewport: ViewportRect { x: 0, y: 0, width: 100, height: 100 },
        source_width: 100,
        source_height: 100,
    }
}

fn output() -> OutputGeometry {
    OutputGeometry {
        name: "eDP-1".to_owned(),
        x: 100,
        y: 200,
        width: 10,
        height: 10,
        scale: 10.0f64.to_bits(),
        transform: "Normal".to_owned(),
    }
}

#[test]
fn effects_become_tasks() {
    let mut state = viewer(true);
    let mut terminal = cells();
    let encoded = EncodedKey { keycode: 30, modifiers: 0 };
    for (effect, task) in [
        (Effect::Nothing, Task::Nothing),
        (Effect::Quit, Task::Quit),
        (Effect::Redraw, Task::Draw),
        (Effect::Chrome, Task::Chrome),
        (Effect::Refresh, Task::Capture(CaptureReason::Refresh)),
        (Effect::RunAction(3), Task::Spawn(3)),
        (Effect::ToggleIdleInhibit, Task::AcquireInhibitor),
        (Effect::SendKey(encoded), Task::SendKey(encoded)),
        (Effect::SendUnicode('你'), Task::SendUnicode('你')),
        (Effect::View(ViewCommand::Center), Task::View(ViewCommand::Center)),
    ] {
        assert_eq!(perform(&mut state, &mut terminal, effect, false, true, 0), task);
    }
    let silent = perform(&mut state, &mut terminal, Effect::SendKey(encoded), false, false, 0);
    assert_eq!(silent, Task::Nothing);
    let command = Effect::Graphics(GraphicsCommand::LowerResolution);
    assert_eq!(perform(&mut state, &mut terminal, command, false, true, 0), Task::Chrome);
    assert_eq!(said(&state), "Runtime graphics controls require the Kitty backend");
    assert_eq!(perform(&mut state, &mut kitty(), command, false, true, 0), Task::Draw);
    state.idle_inhibited = true;
    let toggle = Effect::ToggleIdleInhibit;
    assert_eq!(
        perform(&mut state, &mut terminal, toggle, true, true, 0),
        Task::ReleaseInhibitor
    );
    assert!(!state.idle_inhibited);
    assert_eq!(said(&state), "Idle inhibition disabled");
}

#[test]
fn timeouts_refresh_and_expire() {
    let mut state = viewer(true);
    let mut terminal = cells();
    state.schedule_auto_refresh(0);
    state.message("Hello".to_owned(), 0);
    assert_eq!(
        poll_timeout(&state, &terminal, false, false, 0),
        Some(AUTO_REFRESH_DELAY)
    );
    assert_eq!(
        poll_timeout(&state, &terminal, true, false, 0),
        Some(DAMAGE_POLL_INTERVAL)
    );
    assert_eq!(on_timeout(&mut state, &mut terminal, 0), Task::Nothing);
    assert_eq!(
        on_timeout(&mut state, &mut terminal, AUTO_REFRESH_DELAY),
        Task::Capture(CaptureReason::Auto)
    );
    assert_eq!(on_timeout(&mut state, &mut terminal, MESSAGE_DURATION), Task::Echo);
    assert_eq!(poll_timeout(&state, &terminal, false, false, 0), None);
    terminal = kitty();
    terminal.draw_echo(&state, 10, 10);
    assert_eq!(
        poll_timeout(&state, &terminal, false, false, 0),
        Some(OUTPUT_RETRY_INTERVAL)
    );
    assert_eq!(poll_timeout(&state, &terminal, false, true, 0), Some(0));
    terminal.kitty_refine_at = Some(5);
    assert_eq!(on_timeout(&mut state, &mut terminal, 5), Task::Draw);
}

#[test]
fn captures_are_shown_or_explained() {
    let mut state = viewer(true);
    let mut terminal = kitty();
    let refresh = CaptureReason::Refresh;
    assert_eq!(on_captured(&mut state, &mut terminal, refresh, None, 0), Task::Draw);
    assert_eq!(said(&state), "Refreshed frame");
    let broken = || Some("no frame".to_owned());
    assert_eq!(on_captured(&mut state, &mut terminal, refresh, broken(), 0), Task::Echo);
    assert!(said(&state).ends_with(": no frame"));
    state.message = None;
    assert_eq!(
        on_captured(&mut state, &mut terminal, CaptureReason::Auto, None, 0),
        Task::Draw
    );
    assert_eq!(said(&state), "");
    assert_eq!(on_focus_gained(&mut terminal), Task::Draw);
    assert!(terminal.force_kitty_redraw);
}

#[test]
fn outside_work_is_reported() {
    let mut state = viewer(true);
    let broken = || Some("broken".to_owned());
    assert_eq!(on_spawned(&mut state, "terminal", None, 0), Task::Echo);
    assert_eq!(said(&state), "Started action: terminal");
    on_spawned(&mut state, "terminal", broken(), 0);
    assert_eq!(said(&state), "Action failed: broken");
    on_inhibited(&mut state, broken(), 0);
    assert_eq!(said(&state), "Idle inhibit failed: broken");
    assert!(!state.idle_inhibited);
    on_inhibited(&mut state, None, 0);
    assert_eq!(said(&state), "Idle inhibition enabled");
    assert!(state.idle_inhibited);
    for (notice, words) in [
        (Notice::Inhibitor, "Idle inhibit unavailable: broken"),
        (Notice::Capture, "Using grim fallback: broken"),
        (Notice::Damage, "Live updates disabled: broken"),
        (Notice::Graphics, "Using ANSI graphics: broken"),
    ] {
        announce(&mut state, notice, "broken", 0);
        assert_eq!(said(&state), words);
    }
    assert_eq!(on_damage_lost(&mut state, "gone", 0), Task::Echo);
    assert_eq!(said(&state), "Live updates disabled: gone");
    for (injection, words) in [
        (Injection::Key, "Key injection failed: broken"),
        (Injection::Unicode, "Unicode injection failed: broken"),
        (Injection::Scroll, "Scroll injection failed: broken"),
    ] {
        assert_eq!(on_injected(&mut state, injection, broken(), false, 0), Task::Echo);
        assert_eq!(said(&state), words);
    }
    assert_eq!(on_injected(&mut state, Injection::Key, None, true, 0), Task::Nothing);
    assert_eq!(state.auto_refresh_at, None);
    assert_eq!(on_injected(&mut state, Injection::Key, None, false, 0), Task::Nothing);
    assert_eq!(state.auto_refresh_at, Some(AUTO_REFRESH_DELAY));
}

#[test]
fn clicks_focus_or_reach_the_desktop() {
    let mut state = viewer(true);
    let down = |button| MouseEvent { kind: MouseEventKind::Down(button), column: 1, row: 1 };
    let left = down(MouseButton::Left);
    let right = down(MouseButton::Right);
    let task = |state: &ViewerState, mouse, pointer| {
        on_mouse(state, mouse, layout(), &output(), sample(), pointer)
    };
    assert_eq!(task(&state, left, true), Task::Focus(point()));
    assert_eq!(task(&state, right, true), Task::Echo);
    assert_eq!(task(&state, MouseEvent { column: 10, ..left }, true), Task::Nothing);
    state.mouse_armed = true;
    assert_eq!(task(&state, left, true), Task::Click(point(), PointerButton::Left));
    assert_eq!(task(&state, right, true), Task::Click(point(), PointerButton::Right));
    assert_eq!(task(&state, left, false), Task::Echo);
    let button = PointerButton::Left;
    on_clicked(&mut state, point(), button, None, true, 0);
    assert!(said(&state).contains("3:4"));
    let broken = Some("broken".to_owned());
    assert_eq!(on_clicked(&mut state, point(), button, broken, true, 0), Task::Echo);
    assert_eq!(said(&state), "Click failed: broken");
    assert_eq!(on_focused(&mut state, point(), None, "1.00", 0), Task::Echo);
}

#[test]
fn scrolling_moves_the_view_or_the_desktop() {
    let mut state = viewer(true);
    let down = MouseEvent { kind: MouseEventKind::ScrollDown, column: 1, row: 1 };
    let events = [down; 6];
    let scroll = |state: &mut ViewerState, pointer, now| {
        on_scroll(state, &events, layout(), &output(), sample(), pointer, now)
    };
    assert_eq!(scroll(&mut state, true, 0), Task::View(ViewCommand::Pan(0, 4)));
    state.scroll_target = ScrollTarget::Desktop;
    match scroll(&mut state, true, 1) {
        Task::Scroll(at, horizontal, steps) => {
            assert_eq!(at, point());
            assert!(!horizontal);
            assert!(steps > 0);
        }
        task => panic!("{task:?}"),
    }
    assert_eq!(scroll(&mut state, false, 2), Task::Nothing);
}

#[test]
fn damage_redraws_what_is_visible() {
    let mut state = viewer(true);
    let mut terminal = kitty();
    let before = RgbImage::new(100, 100);
    let mut after = before.duplicate();
    after.put_pixel(50, 50, [1, 2, 3]);
    let rect = |x| DamageRect { x, y: 50, width: 1, height: 1 };
    let view = ViewportRect { x: 40, y: 40, width: 20, height: 20 };
    assert_eq!(
        on_damage(&mut state, &mut terminal, &before, &after, &[rect(0)], view, 0),
        Task::Nothing
    );
    assert!(terminal.kitty_atlas_stale);
    assert_eq!(terminal.kitty_damage_streak, 0);
    assert_eq!(
        on_damage(&mut state, &mut terminal, &before, &after, &[rect(50)], view, 0),
        Task::Draw
    );
    assert_eq!(terminal.kitty_damage_streak, 1);
    assert_eq!(
        on_damage(&mut state, &mut terminal, &before, &before, &[rect(50)], view, 0),
        Task::Nothing
    );
}

fn pressed(code: KeyCode) -> KeyEvent {
    KeyEvent { code, modifiers: KeyModifiers::default() }
}

#[test]
fn the_visual_scene_shows_four_colours() {
    let image = quadrant_image();
    assert_eq!((image.width, image.height), (400, 240));
    let corners = [image.pixel(0, 0), image.pixel(399, 0), image.pixel(0, 239)];
    assert!(corners[0] != corners[1] && corners[1] != corners[2]);
    let mut renderer = Renderer::new(Transport::Direct, 8192);
    let (atlas, tiles) = visual_opening(&mut renderer, 40, 12).unwrap();
    assert!(!atlas.is_empty() && !tiles.is_empty());
    match visual_key(&mut renderer, pressed(KeyCode::Char('+')), 40, 12) {
        Ok(VisualStep::Write(segments)) => {
            let bytes: Vec<u8> = segments.into_iter().flatten().collect();
            assert!(String::from_utf8(bytes).unwrap().contains("x=0,y=0,w=200,h=120"));
        }
        _ => panic!("the view was not magnified"),
    }
    assert!(matches!(
        visual_key(&mut renderer, pressed(KeyCode::Char('z')), 40, 12),
        Ok(VisualStep::Nothing)
    ));
    assert!(matches!(
        visual_key(&mut renderer, pressed(KeyCode::Char('q')), 40, 12),
        Ok(VisualStep::Leave(_))
    ));
    assert_eq!(
        visual_opening(&mut renderer, 0, 12).err(),
        Some(KittyError::EmptyPlacement)
    );
}

#[test]
fn the_quality_scene_is_driven_by_keys() {
    let noise = noise_image();
    let changed = changed_image();
    assert_eq!((noise.width, noise.height), (2560, 1600));
    assert_eq!(changed.pixel(2559, 1599), [224, 32, 224]);
    assert_ne!(noise_value(1, 2), noise_value(2, 1));
    let config = quality_config(8.0f64.to_bits(), 1, 2);
    assert_eq!((config.advanced.preview_ms, config.advanced.atlas_refresh_ms), (1, 2));
    let mut state = viewer(false);
    let mut terminal = Terminal::new(
        Some(Renderer::new(Transport::Tmux, 8192)),
        None,
        config,
        1_000,
    );
    let key = |state: &mut ViewerState, terminal: &mut Terminal, character| {
        quality_key(state, terminal, pressed(KeyCode::Char(character)), 0)
    };
    assert_eq!(key(&mut state, &mut terminal, 'd'), SceneTask::Replace);
    assert_eq!(
        key(&mut state, &mut terminal, '+'),
        SceneTask::View(ViewCommand::ZoomIn)
    );
    assert_eq!(
        key(&mut state, &mut terminal, '0'),
        SceneTask::View(ViewCommand::Overview)
    );
    assert_eq!(terminal.kitty_quality.tier, terminal.kitty_quality.limits.len() - 1);
    assert_eq!(key(&mut state, &mut terminal, '?'), SceneTask::Chrome);
    assert_eq!(key(&mut state, &mut terminal, 'q'), SceneTask::Quit);
    assert_eq!(quality_timeout(&terminal, false, 0), None);
    terminal.draw_echo(&state, 10, 10);
    assert_eq!(quality_timeout(&terminal, true, 0), Some(0));
}

#[test]
fn reports_are_laid_out_in_lines() {
    assert_eq!(capture_size(None, None, None), (100, 29));
    assert_eq!(capture_size(Some(0), None, Some((80, 1))), (1, 1));
    assert_eq!(capture_size(None, Some(7), Some((80, 24))), (80, 7));
    let moved = OutputGeometry { x: -100, ..output() };
    assert_eq!(
        output_line(&moved, "1.25", &Some("eDP-1".to_owned())),
        "    eDP-1 focused: 10x10 at -100,+200, scale 1.25, transform Normal"
    );
    assert_eq!(
        output_line(&output(), "2", &None),
        "    eDP-1: 10x10 at +100,+200, scale 2, transform Normal"
    );
    let snapshot = Snapshot {
        version: "25.01".to_owned(),
        output_count: 2,
        window_count: 5,
        focused_window: None,
    };
    assert_eq!(
        session_report("/run/user/1000", "/run/s.sock", Source::RuntimeScan, &None, &snapshot, 1),
        "termway doctor\n  runtime directory : /run/user/1000\n  niri socket       : /run/s.sock\n  socket source     : runtime directory scan\n  Wayland display   : not discovered\n  niri version      : 25.01\n  outputs           : 2 (1 enabled)"
    );
    assert_eq!(
        window_report(&snapshot),
        "  windows           : 5\n  focused window    : none"
    );
}

#[test]
fn sessions_take_hold_only_with_control() {
    assert_eq!(
        hold(&viewer(true)),
        Hold { inhibitor: true, pointer: true, keyboard: true }
    );
    assert_eq!(
        hold(&viewer(false)),
        Hold { inhibitor: false, pointer: false, keyboard: false }
    );
    let mut state = viewer(true);
    on_held(&mut state, Some("broken".to_owned()), 0);
    assert_eq!(said(&state), "Idle inhibit unavailable: broken");
    assert!(!state.idle_inhibited);
    let mut state = viewer(true);
    on_held(&mut state, None, 0);
    assert!(state.idle_inhibited);
    assert!(state.message.is_none());
}

#[test]
fn computed_views_are_drawn_where_they_change() {
    let mut state = viewer(false);
    announce(&mut state, Notice::Capture, "broken", 0);
    assert_eq!(on_viewed(&mut state, None), Task::Nothing);
    assert!(state.message.is_some());
    let nearer = Viewport { zoom: 2.0f32.to_bits(), ..state.viewport };
    assert_eq!(on_viewed(&mut state, Some(nearer)), Task::Draw);
    assert!(state.viewport == nearer);
    assert!(state.message.is_none());
}

#[test]
fn sessions_without_control_leave_the_desktop_alone() {
    let mut state = viewer(false);
    let mut terminal = cells();
    let scroll = MouseEvent { kind: MouseEventKind::ScrollDown, column: 1, row: 1 };
    let left = MouseEvent { kind: MouseEventKind::Down(MouseButton::Left), ..scroll };
    let quiet = |task: Task| {
        assert!(
            !matches!(
                task,
                Task::SendKey(_)
                    | Task::SendUnicode(_)
                    | Task::Click(_, _)
                    | Task::Scroll(_, _, _)
                    | Task::AcquireInhibitor
                    | Task::ReleaseInhibitor
            ),
            "{task:?}"
        );
    };
    let control = KeyModifiers { control: true, ..KeyModifiers::default() };
    let prefix = KeyEvent { code: KeyCode::Char('\\'), modifiers: control };
    let typed = "tisa\u{e9}xgi?h+".chars().map(|c| pressed(KeyCode::Char(c)));
    let mut keys: Vec<KeyEvent> = typed.collect();
    keys.extend([prefix, pressed(KeyCode::Enter), pressed(KeyCode::Esc), prefix]);
    for (turn, first) in keys.iter().enumerate() {
        for second in &keys {
            for key in [first, second] {
                let now = turn as u128;
                let effect = state.handle_key(*key, now);
                quiet(perform(&mut state, &mut terminal, effect, true, true, now));
                quiet(on_mouse(&state, left, layout(), &output(), sample(), true));
                quiet(on_scroll(&mut state, &[scroll; 2], layout(), &output(), sample(), true, now));
            }
        }
    }
    assert!(!state.idle_inhibited && !state.mouse_armed && !state.prefix_pending);
}
