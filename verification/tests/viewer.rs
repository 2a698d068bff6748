use termway::config::Action;
use termway::input::PointerButton;
use termway::keys::{
    encode_key, is_command_prefix, EncodedKey, KeyCode, KeyEvent, KeyModifiers, MOD_ALT,
    MOD_CONTROL, MOD_SHIFT,
};
use termway::layout::{
    clear_stale_kitty_cells, damage_affects_viewport, fit_status, map_click, map_pointer_position,
    validate_output_geometry, visible_region_changed, DrawLayout, GeometryError, LogicalPoint,
    PointerSample,
};
use termway::niri::OutputGeometry;
use termway::pixels::RgbImage;
use termway::render::{Viewport, ViewportError, ViewportRect};
use termway::screencopy::DamageRect;
use termway::scroll::{
    MouseButton, MouseEvent, MouseEventKind, ScrollAxis, ScrollBatch, ScrollGesture,
    SCROLL_BATCH_LIMIT, SCROLL_BATCH_WINDOW, SCROLL_GESTURE_TIMEOUT,
};
use termway::session::{on_focused, Task};
use termway::viewer::{
    action_matches, earliest_timeout, until, DisplaySetting, Effect, GraphicsCommand,
    InteractionMode, PaletteState, ScrollTarget, ViewCommand, ViewerState, AUTO_REFRESH_DELAY,
    ERROR_DURATION, MESSAGE_DURATION,
};

const MAX_ZOOM: f32 = 32.0;
const ZOOM_STEP: f32 = 1.25;
const MILLISECOND: u128 = 1_000_000;

fn view(zoom: f32, center_x: f32, center_y: f32) -> Viewport {
    Viewport {
        zoom: zoom.to_bits(),
        center_x: center_x.to_bits(),
        center_y: center_y.to_bits(),
    }
}

fn zoom(state: &ViewerState) -> f32 {
    f32::from_bits(state.viewport.zoom)
}

fn center_x(state: &ViewerState) -> f32 {
    f32::from_bits(state.viewport.center_x)
}

fn center_y(state: &ViewerState) -> f32 {
    f32::from_bits(state.viewport.center_y)
}

fn clamped(zoom: f32, x: f32, y: f32) -> Viewport {
    let margin = 0.5 / zoom;
    view(zoom, x.clamp(margin, 1.0 - margin), y.clamp(margin, 1.0 - margin))
}

fn viewer(zoom: f32, x: f32, y: f32, control: bool) -> ViewerState {
    match ViewerState::new(view(zoom, x, y), clamped(zoom, x, y), control) {
        Ok(state) => state,
        Err(error) => panic!("{}", error.message()),
    }
}

fn overview(control: bool) -> ViewerState {
    viewer(1.0, 0.5, 0.5, control)
}

fn moved(state: &ViewerState, command: ViewCommand) -> Option<Viewport> {
    let (zoom, x, y) = (zoom(state), center_x(state), center_y(state));
    let magnified = |target: f32| {
        if (zoom - target).abs() < f32::EPSILON {
            None
        } else {
            Some(clamped(target, x, y))
        }
    };
    let centered = (x - 0.5).abs() < f32::EPSILON && (y - 0.5).abs() < f32::EPSILON;
    match command {
        ViewCommand::ZoomIn => magnified((zoom * ZOOM_STEP).min(MAX_ZOOM)),
        ViewCommand::ZoomOut => magnified((zoom / ZOOM_STEP).max(1.0)),
        ViewCommand::ZoomTo(factor) => magnified(factor as f32),
        ViewCommand::Overview if (zoom - 1.0).abs() < f32::EPSILON && centered => None,
        ViewCommand::Overview => Some(view(1.0, 0.5, 0.5)),
        ViewCommand::Center if centered => None,
        ViewCommand::Center => Some(view(zoom, 0.5, 0.5)),
        ViewCommand::Pan(..) if zoom <= 1.0 => None,
        ViewCommand::Pan(right, down) => {
            let step = 0.2 / zoom;
            let target = clamped(
                zoom,
                x + right as f32 * 0.25 * step,
                y + down as f32 * 0.25 * step,
            );
            if target == view(zoom, x, y) {
                None
            } else {
                Some(target)
            }
        }
    }
}

fn settle(state: &mut ViewerState, effect: Effect) -> Effect {
    match effect {
        Effect::View(command) => {
            let target = moved(state, command);
            state.complete_view(target)
        }
        effect => effect,
    }
}

fn press(state: &mut ViewerState, event: KeyEvent) -> Effect {
    let effect = state.handle_key(event, 0);
    settle(state, effect)
}

fn plain() -> KeyModifiers {
    KeyModifiers::default()
}

fn control() -> KeyModifiers {
    KeyModifiers { control: true, ..plain() }
}

fn key(code: KeyCode) -> KeyEvent {
    KeyEvent { code, modifiers: plain() }
}

fn prefix() -> KeyEvent {
    KeyEvent { code: KeyCode::Char('\\'), modifiers: control() }
}

fn geometry(x: i32, y: i32, width: u32, height: u32, scale: f64) -> OutputGeometry {
    OutputGeometry {
        name: "test".to_owned(),
        x,
        y,
        width,
        height,
        scale: scale.to_bits(),
        transform: "Normal".to_owned(),
    }
}

fn sample(mouse: MouseEvent, layout: DrawLayout, output: &OutputGeometry) -> PointerSample {
    let sample_x = f64::from(mouse.column) + 0.5;
    let sample_y = (f64::from(mouse.row) * 2.0 + 1.0).min(f64::from(layout.sample_height) - 0.5);
    let physical_x = f64::from(layout.viewport.x)
        + sample_x / f64::from(layout.cols) * f64::from(layout.viewport.width);
    let physical_y = f64::from(layout.viewport.y)
        + sample_y / f64::from(layout.sample_height) * f64::from(layout.viewport.height);
    let source_x =
        physical_x.floor().clamp(0.0, f64::from(layout.source_width.saturating_sub(1))) as u32;
    let source_y =
        physical_y.floor().clamp(0.0, f64::from(layout.source_height.saturating_sub(1))) as u32;
    let local_x = (f64::from(source_x) / f64::from(layout.source_width) * f64::from(output.width))
        .floor()
        .clamp(0.0, f64::from(output.width.saturating_sub(1))) as u32;
    let local_y = (f64::from(source_y) / f64::from(layout.source_height)
        * f64::from(output.height))
    .floor()
    .clamp(0.0, f64::from(output.height.saturating_sub(1))) as u32;
    PointerSample { source_x, source_y, local_x, local_y }
}

fn click(
    mouse: MouseEvent,
    layout: DrawLayout,
    output: &OutputGeometry,
) -> Option<(LogicalPoint, PointerButton)> {
    map_click(mouse, layout, output, sample(mouse, layout, output))
}

#[test]
fn zooms_with_keys_and_resets_overview() {
    let mut state = overview(false);
    assert_eq!(press(&mut state, key(KeyCode::Char('5'))), Effect::Redraw);
    assert_eq!(zoom(&state), 5.0);
    press(&mut state, key(KeyCode::Char('+')));
    assert_eq!(zoom(&state), 6.25);
    press(&mut state, key(KeyCode::Char('0')));
    assert_eq!(zoom(&state), 1.0);
    assert_eq!(center_x(&state), 0.5);
}

#[test]
fn ignores_damage_outside_the_visible_viewport() {
    let viewport = ViewportRect { x: 100, y: 100, width: 50, height: 50 };
    assert!(!damage_affects_viewport(
        &[DamageRect { x: 10, y: 10, width: 20, height: 20 }],
        viewport,
    ));
    assert!(damage_affects_viewport(
        &[DamageRect { x: 125, y: 125, width: 20, height: 20 }],
        viewport,
    ));
}

#[test]
fn compares_only_pixels_inside_the_visible_viewport() {
    let old = RgbImage::new(4, 2);
    let mut new = old.duplicate();
    new.put_pixel(0, 0, [1, 2, 3]);
    let viewport = ViewportRect { x: 2, y: 0, width: 2, height: 2 };
    assert!(!visible_region_changed(&old, &new, viewport));
    new.put_pixel(3, 1, [4, 5, 6]);
    assert!(visible_region_changed(&old, &new, viewport));
}

#[test]
fn boundary_zoom_and_overview_pan_are_no_ops() {
    let mut state = overview(false);
    assert_eq!(press(&mut state, key(KeyCode::Char('-'))), Effect::Nothing);
    assert_eq!(press(&mut state, key(KeyCode::Left)), Effect::Nothing);
    assert_eq!(press(&mut state, key(KeyCode::Char('0'))), Effect::Nothing);

    state.viewport.zoom = MAX_ZOOM.to_bits();
    assert_eq!(press(&mut state, key(KeyCode::Char('+'))), Effect::Nothing);
}

#[test]
fn pans_by_a_fraction_of_the_visible_viewport() {
    let mut state = viewer(5.0, 0.5, 0.5, false);
    press(&mut state, key(KeyCode::Right));
    assert!((center_x(&state) - 0.54).abs() < f32::EPSILON);
    press(&mut state, key(KeyCode::Char('k')));
    assert!((center_y(&state) - 0.46).abs() < f32::EPSILON);
}

#[test]
fn pan_stops_at_visible_viewport_edge() {
    let mut state = viewer(5.0, 0.0, 0.5, false);
    assert_eq!(center_x(&state), 0.1);
    assert_eq!(press(&mut state, key(KeyCode::Left)), Effect::Nothing);
}

#[test]
fn recognizes_refresh_and_quit() {
    let mut state = overview(false);
    assert_eq!(press(&mut state, key(KeyCode::Char('r'))), Effect::Refresh);
    assert_eq!(press(&mut state, key(KeyCode::Esc)), Effect::Quit);
    assert_eq!(
        press(&mut state, KeyEvent { code: KeyCode::Char('c'), modifiers: control() }),
        Effect::Quit
    );
}

#[test]
fn control_must_be_available_and_explicitly_armed() {
    let mut view_only = overview(false);
    assert_eq!(press(&mut view_only, key(KeyCode::Char('i'))), Effect::Nothing);
    assert!(!view_only.mouse_armed);

    let mut control = overview(true);
    assert_eq!(press(&mut control, key(KeyCode::Char('i'))), Effect::Chrome);
    assert!(control.mouse_armed);
    assert_eq!(press(&mut control, key(KeyCode::Char('i'))), Effect::Chrome);
    assert!(!control.mouse_armed);
}

#[test]
fn idle_inhibit_toggle_requires_control_mode_and_prefix_works() {
    let mut view_only = overview(false);
    assert_eq!(press(&mut view_only, key(KeyCode::Char('a'))), Effect::Nothing);

    let mut control = overview(true);
    assert_eq!(press(&mut control, key(KeyCode::Char('a'))), Effect::ToggleIdleInhibit);

    control.mode = InteractionMode::Input;
    assert_eq!(press(&mut control, prefix()), Effect::Chrome);
    assert_eq!(press(&mut control, key(KeyCode::Char('a'))), Effect::ToggleIdleInhibit);
}

#[test]
fn keyboard_input_mode_uses_a_prefix_to_recover_commands() {
    let mut state = overview(true);
    assert_eq!(press(&mut state, key(KeyCode::Char('t'))), Effect::Chrome);
    assert_eq!(state.mode, InteractionMode::Input);
    assert_eq!(
        press(&mut state, key(KeyCode::Char('q'))),
        Effect::SendKey(EncodedKey { keycode: 16, modifiers: 0 })
    );

    assert_eq!(press(&mut state, prefix()), Effect::Chrome);
    assert!(state.prefix_pending);
    assert_eq!(press(&mut state, key(KeyCode::Char('t'))), Effect::Chrome);
    assert_eq!(state.mode, InteractionMode::Nav);
    assert!(!state.prefix_pending);
}

#[test]
fn input_prefix_exposes_viewport_navigation_commands() {
    let mut state = overview(true);
    state.mode = InteractionMode::Input;

    assert_eq!(press(&mut state, prefix()), Effect::Chrome);
    assert_eq!(press(&mut state, key(KeyCode::Char('5'))), Effect::Redraw);
    assert_eq!(zoom(&state), 5.0);
    assert_eq!(press(&mut state, prefix()), Effect::Chrome);
    assert_eq!(press(&mut state, key(KeyCode::Right)), Effect::Redraw);
    assert_eq!(center_x(&state), 0.54);
    assert_eq!(state.mode, InteractionMode::Input);
}

#[test]
fn modified_digits_do_not_trigger_nav_zoom() {
    let mut state = overview(true);
    let aliased_prefix = KeyEvent { code: KeyCode::Char('4'), modifiers: control() };
    assert!(is_command_prefix(aliased_prefix));
    assert_eq!(press(&mut state, aliased_prefix), Effect::Nothing);
    assert_eq!(zoom(&state), 1.0);
}

#[test]
fn input_prefix_can_toggle_independent_mouse_control() {
    let mut state = overview(true);
    state.mode = InteractionMode::Input;
    assert_eq!(press(&mut state, prefix()), Effect::Chrome);
    assert_eq!(press(&mut state, key(KeyCode::Char('i'))), Effect::Chrome);
    assert!(state.mouse_armed);
    assert_eq!(state.mode, InteractionMode::Input);
}

#[test]
fn scroll_target_is_explicit_and_available_through_the_input_prefix() {
    let mut view_only = overview(false);
    assert_eq!(press(&mut view_only, key(KeyCode::Char('s'))), Effect::Nothing);
    assert_eq!(view_only.scroll_target, ScrollTarget::View);

    let mut state = overview(true);
    assert_eq!(press(&mut state, key(KeyCode::Char('s'))), Effect::Chrome);
    assert_eq!(state.scroll_target, ScrollTarget::Desktop);
    state.mode = InteractionMode::Input;
    assert_eq!(press(&mut state, prefix()), Effect::Chrome);
    assert_eq!(press(&mut state, key(KeyCode::Char('s'))), Effect::Chrome);
    assert_eq!(state.scroll_target, ScrollTarget::View);
    assert_eq!(state.mode, InteractionMode::Input);
}

fn action(name: &str, description: &str, command: &str) -> Action {
    Action {
        name: name.to_owned(),
        description: description.to_owned(),
        command: vec![command.to_owned()],
    }
}

#[test]
fn action_palette_filters_and_executes_configured_commands() {
    let mut state = overview(false);
    state.actions = vec![
        action("terminal", "Open Kitty", "kitty"),
        action("overview", "Toggle niri overview", "niri"),
    ];
    assert_eq!(press(&mut state, key(KeyCode::Char('x'))), Effect::Chrome);
    assert!(state.palette.is_some());
    for character in "term".chars() {
        assert_eq!(press(&mut state, key(KeyCode::Char(character))), Effect::Chrome);
    }
    assert!(state.palette_echo().unwrap().contains("terminal — Open Kitty"));
    assert_eq!(press(&mut state, key(KeyCode::Enter)), Effect::RunAction(0));
    assert!(state.palette.is_none());
}

#[test]
fn input_prefix_opens_palette_and_control_g_cancels_it() {
    let mut state = overview(true);
    state.actions.push(action("test", "", "true"));
    state.mode = InteractionMode::Input;
    assert_eq!(press(&mut state, prefix()), Effect::Chrome);
    assert_eq!(press(&mut state, key(KeyCode::Char('x'))), Effect::Chrome);
    assert!(state.palette.is_some());
    assert_eq!(
        press(&mut state, KeyEvent { code: KeyCode::Char('g'), modifiers: control() }),
        Effect::Chrome
    );
    assert!(state.palette.is_none());
    assert_eq!(state.mode, InteractionMode::Input);
}

#[test]
fn display_settings_group_quality_and_resolution_behind_one_key() {
    let mut state = overview(false);
    assert_eq!(press(&mut state, key(KeyCode::Char('g'))), Effect::Chrome);
    assert_eq!(state.display_settings.unwrap(), DisplaySetting::Quality);
    assert_eq!(
        press(&mut state, key(KeyCode::Right)),
        Effect::Graphics(GraphicsCommand::NextQualityMode)
    );
    assert_eq!(press(&mut state, key(KeyCode::Down)), Effect::Chrome);
    assert_eq!(state.display_settings.unwrap(), DisplaySetting::Resolution);
    assert_eq!(
        press(&mut state, key(KeyCode::Left)),
        Effect::Graphics(GraphicsCommand::LowerResolution)
    );
    assert_eq!(press(&mut state, key(KeyCode::Enter)), Effect::Chrome);
    assert!(state.display_settings.is_none());
}

#[test]
fn help_is_discoverable_in_navigation_and_through_the_input_prefix() {
    let mut state = overview(true);
    assert_eq!(press(&mut state, key(KeyCode::Char('?'))), Effect::Chrome);
    assert!(state.message.as_ref().unwrap().text.contains("g display"));

    state.mode = InteractionMode::Input;
    assert_eq!(press(&mut state, prefix()), Effect::Chrome);
    assert_eq!(press(&mut state, key(KeyCode::Char('?'))), Effect::Chrome);
    assert!(state.message.as_ref().unwrap().text.contains("C-\\ g display"));
    assert_eq!(state.mode, InteractionMode::Input);
}

#[test]
fn encodes_ascii_navigation_and_modifiers_as_evdev_keys() {
    let encoded = |keycode, modifiers| Some(EncodedKey { keycode, modifiers });
    assert_eq!(encode_key(key(KeyCode::Char('A'))), encoded(30, MOD_SHIFT));
    assert_eq!(
        encode_key(KeyEvent {
            code: KeyCode::Char('c'),
            modifiers: KeyModifiers { control: true, alt: true, ..plain() },
        }),
        encoded(46, MOD_CONTROL | MOD_ALT)
    );
    assert_eq!(encode_key(key(KeyCode::Char('?'))), encoded(53, MOD_SHIFT));
    assert_eq!(encode_key(key(KeyCode::Left)), encoded(105, 0));
    assert_eq!(encode_key(key(KeyCode::Char('你'))), None);
    assert_eq!(
        encode_key(KeyEvent { code: KeyCode::Char(' '), modifiers: control() }),
        encoded(57, MOD_CONTROL)
    );
}

#[test]
fn doubled_command_prefix_is_sent_to_the_desktop() {
    let mut state = overview(true);
    state.mode = InteractionMode::Input;
    assert_eq!(press(&mut state, prefix()), Effect::Chrome);
    assert_eq!(
        press(&mut state, prefix()),
        Effect::SendKey(EncodedKey { keycode: 43, modifiers: MOD_CONTROL })
    );
}

#[test]
fn non_ascii_characters_use_dynamic_unicode_keys() {
    let mut state = overview(true);
    state.mode = InteractionMode::Input;
    assert_eq!(press(&mut state, key(KeyCode::Char('你'))), Effect::SendUnicode('你'));
}

#[test]
fn auto_refresh_deadline_is_consumed_once() {
    let now = 10 * MILLISECOND;
    let mut state = overview(true);
    state.auto_refresh_at = Some(now - MILLISECOND);
    assert_eq!(state.next_wakeup_timeout(now).unwrap(), 0);
    assert!(state.take_due_auto_refresh(now));
    assert!(!state.take_due_auto_refresh(now));
    assert!(state.next_wakeup_timeout(now).is_none());
}

#[test]
fn echo_messages_expire_independently_from_mode_state() {
    let now = 10 * MILLISECOND;
    let mut state = overview(true);
    state.mouse_armed = true;
    state.message_for("Clicked 1:2".to_owned(), 0, now);
    state.expire_message(now);
    assert!(state.message.is_none());
    assert!(state.mouse_armed);
    assert!(state.control);
}

#[test]
fn maps_pane_cell_through_viewport_to_output_coordinates() {
    let layout = DrawLayout {
        cols: 100,
        rows: 50,
        sample_height: 100,
        viewport: ViewportRect { x: 500, y: 250, width: 1000, height: 500 },
        source_width: 2000,
        source_height: 1000,
    };
    let output = geometry(-1600, 100, 1600, 800, 1.25);
    let mouse = |button| MouseEvent { kind: MouseEventKind::Down(button), column: 49, row: 24 };
    let (point, button) = click(mouse(MouseButton::Left), layout, &output).unwrap();
    assert_eq!(button, PointerButton::Left);
    assert_eq!(
        point,
        LogicalPoint {
            source_x: 995,
            source_y: 495,
            local_x: 796,
            local_y: 396,
            global_x: -804,
            global_y: 496,
        }
    );
    let (_, button) = click(mouse(MouseButton::Right), layout, &output).unwrap();
    assert_eq!(button, PointerButton::Right);
}

#[test]
fn click_focus_zooms_one_step_and_moves_gradually_toward_target() {
    let target = LogicalPoint {
        source_x: 1200,
        source_y: 600,
        local_x: 960,
        local_y: 480,
        global_x: 960,
        global_y: 480,
    };
    let mut state = viewer(5.0, 0.5, 0.5, false);
    let target_x = (target.source_x as f32 + 0.5) / 2000.0;
    let target_y = (target.source_y as f32 + 0.5) / 1000.0;
    let nearer = clamped(
        (zoom(&state) * ZOOM_STEP).min(MAX_ZOOM),
        center_x(&state) + (target_x - center_x(&state)) * 0.4,
        center_y(&state) + (target_y - center_y(&state)) * 0.4,
    );
    assert_eq!(on_focused(&mut state, target, Some(nearer), "6.25", 0), Task::Draw);
    assert_eq!(zoom(&state), 6.25);
    assert!((center_x(&state) - 0.5401).abs() < 0.0001);
    assert!((center_y(&state) - 0.5402).abs() < 0.0001);
    assert_eq!(state.message.unwrap().text, "Focused toward 960:480; 6.25x");
}

#[test]
fn rejects_clicks_in_letterbox_status_and_non_normal_outputs() {
    let layout = small_layout();
    let mut output = geometry(0, 0, 800, 400, 1.0);
    let mouse =
        |column, row| MouseEvent { kind: MouseEventKind::Down(MouseButton::Left), column, row };
    assert!(click(mouse(80, 0), layout, &output).is_none());
    assert!(click(mouse(0, 20), layout, &output).is_none());
    output.transform = "90".to_owned();
    assert!(click(mouse(0, 0), layout, &output).is_none());
}

fn small_layout() -> DrawLayout {
    DrawLayout {
        cols: 80,
        rows: 20,
        sample_height: 40,
        viewport: ViewportRect { x: 0, y: 0, width: 800, height: 400 },
        source_width: 800,
        source_height: 400,
    }
}

fn scrolled(kind: MouseEventKind, column: u16, row: u16) -> MouseEvent {
    MouseEvent { kind, column, row }
}

#[test]
fn mouse_and_trackpad_scroll_pan_inside_image() {
    let started = 1_000 * MILLISECOND;
    let scroll = |state: &mut ViewerState, events: &[MouseEvent], now| {
        let effect = state.handle_scroll_batch(events, 80, 20, now);
        settle(state, effect)
    };
    let mut state = viewer(5.0, 0.5, 0.5, false);
    assert_eq!(
        scroll(
            &mut state,
            &[
                scrolled(MouseEventKind::ScrollLeft, 40, 10),
                scrolled(MouseEventKind::ScrollUp, 40, 10),
                scrolled(MouseEventKind::ScrollUp, 40, 10),
                scrolled(MouseEventKind::ScrollUp, 40, 10),
            ],
            started,
        ),
        Effect::Redraw
    );
    assert_eq!(center_y(&state), 0.47);
    assert_eq!(center_x(&state), 0.5);

    // One cross-axis event is treated as noise.
    assert_eq!(
        scroll(
            &mut state,
            &[scrolled(MouseEventKind::ScrollRight, 40, 10)],
            started + 20 * MILLISECOND,
        ),
        Effect::Nothing
    );
    assert_eq!(center_x(&state), 0.5);

    // Sustained cross-axis input breaks the lock without waiting for a pause.
    assert_eq!(
        scroll(
            &mut state,
            &[scrolled(MouseEventKind::ScrollRight, 40, 10)],
            started + 30 * MILLISECOND,
        ),
        Effect::Redraw
    );
    assert_eq!(center_x(&state), 0.52);

    // The new horizontal lock can likewise be interrupted vertically.
    assert_eq!(
        scroll(
            &mut state,
            &[scrolled(MouseEventKind::ScrollUp, 40, 10); 2],
            started + 40 * MILLISECOND,
        ),
        Effect::Redraw
    );
    assert_eq!(center_y(&state), 0.45);
    assert_eq!(zoom(&state), 5.0);
    assert_eq!(
        scroll(
            &mut state,
            &[scrolled(MouseEventKind::ScrollUp, 80, 10)],
            started + SCROLL_GESTURE_TIMEOUT + 50 * MILLISECOND,
        ),
        Effect::Nothing
    );

    let mut overview = overview(false);
    assert_eq!(
        scroll(&mut overview, &[scrolled(MouseEventKind::ScrollDown, 40, 10)], started),
        Effect::Nothing
    );
}

#[test]
fn status_is_exact_terminal_width() {
    assert_eq!(fit_status("abc", 5), "abc  ");
    assert_eq!(fit_status("abcdef", 3), "abc");
    assert_eq!(fit_status("你好", 1), "你");
}

#[test]
fn viewers_refuse_broken_viewports() {
    assert_eq!(
        ViewerState::new(view(0.5, 0.5, 0.5), Viewport::default(), false).err(),
        Some(ViewportError::Zoom)
    );
    assert_eq!(
        ViewerState::new(view(1.0, 2.0, 0.5), Viewport::default(), false).err(),
        Some(ViewportError::CenterX)
    );
    assert_eq!(
        ViewerState::new(view(1.0, 0.5, f32::NAN), Viewport::default(), false).err(),
        Some(ViewportError::CenterY)
    );
}

#[test]
fn palettes_wrap_shrink_and_find_nothing() {
    let mut state = overview(false);
    assert_eq!(press(&mut state, key(KeyCode::Char('x'))), Effect::Chrome);
    assert_eq!(
        state.message.as_ref().unwrap().text,
        "No actions configured; see examples/config.toml"
    );
    state.actions = vec![action("Terminal", "", "kitty"), action("overview", "ÄHNLICH", "niri")];
    press(&mut state, key(KeyCode::Char('x')));
    assert!(state.message.is_none());
    assert_eq!(state.palette_echo().unwrap(), "M-x   [Terminal] (1/2)");
    press(&mut state, key(KeyCode::Up));
    assert_eq!(state.palette_echo().unwrap(), "M-x   [overview — ÄHNLICH] (2/2)");
    press(&mut state, key(KeyCode::Down));
    assert_eq!(state.palette_echo().unwrap(), "M-x   [Terminal] (1/2)");
    for character in "ähn".chars() {
        press(&mut state, key(KeyCode::Char(character)));
    }
    assert_eq!(state.palette_matches(), vec![1]);
    press(&mut state, key(KeyCode::Char('z')));
    assert_eq!(state.palette_echo().unwrap(), "M-x ähnz  [[no match]] (0/0)");
    assert_eq!(press(&mut state, key(KeyCode::Enter)), Effect::Chrome);
    assert_eq!(press(&mut state, key(KeyCode::Esc)), Effect::Chrome);
    assert_eq!(state.message.as_ref().unwrap().text, "Quit");
    press(&mut state, key(KeyCode::Char('x')));
    press(&mut state, key(KeyCode::Char('T')));
    press(&mut state, key(KeyCode::Backspace));
    let palette: &PaletteState = state.palette.as_ref().unwrap();
    assert!(palette.query.is_empty());
    assert_eq!(state.palette_matches(), vec![0, 1]);
    assert!(action_matches("", "a", "b"));
    assert!(action_matches("rm", "terminal", ""));
    assert!(!action_matches("x", "terminal", "kitty"));
}

#[test]
fn unknown_keys_are_reported_in_input_mode() {
    let mut state = overview(true);
    state.mode = InteractionMode::Input;
    assert_eq!(press(&mut state, key(KeyCode::CapsLock)), Effect::Chrome);
    let message = state.message.as_ref().unwrap();
    assert_eq!(message.text, "Unsupported key: CapsLock");
    assert_eq!(message.expires_at, ERROR_DURATION);
    state.mode = InteractionMode::Nav;
    press(&mut state, key(KeyCode::Char('i')));
    assert_eq!(state.message.as_ref().unwrap().expires_at, MESSAGE_DURATION);
}

#[test]
fn deadlines_and_timeouts() {
    assert_eq!(earliest_timeout(None, None), None);
    assert_eq!(earliest_timeout(Some(3), None), Some(3));
    assert_eq!(earliest_timeout(Some(3), Some(2)), Some(2));
    assert_eq!(until(Some(5), 3), Some(2));
    assert_eq!(until(Some(5), 7), Some(0));
    assert_eq!(until(None, 7), None);
    let mut state = overview(true);
    state.schedule_auto_refresh(7);
    assert_eq!(state.next_wakeup_timeout(7), Some(AUTO_REFRESH_DELAY));
    state.cancel_auto_refresh();
    assert_eq!(state.next_wakeup_timeout(7), None);
}

#[test]
fn gestures_hold_their_axis_until_they_rest() {
    let up = scrolled(MouseEventKind::ScrollUp, 0, 0);
    let left = scrolled(MouseEventKind::ScrollLeft, 0, 0);
    let mut gesture = ScrollGesture::default();
    assert!(gesture.has_room(1_000));
    assert_eq!(gesture.consume(&[], 0), None);
    assert_eq!(gesture.consume(&[left, up], 0), None);
    assert_eq!(gesture.consume(&[up, up], 1), Some((ScrollAxis::Vertical, -3)));
    assert_eq!(gesture.consume(&[left], 2), None);
    assert_eq!(gesture.consume(&[up], 3), Some((ScrollAxis::Vertical, -1)));
    let later = 4 + SCROLL_GESTURE_TIMEOUT;
    assert_eq!(gesture.consume(&[left, left], later), Some((ScrollAxis::Horizontal, -2)));
}

#[test]
fn scroll_events_are_gathered_for_a_moment() {
    let up = scrolled(MouseEventKind::ScrollUp, 0, 0);
    let mut batch = ScrollBatch::new(up, 10);
    assert_eq!(batch.remaining(10), Some(SCROLL_BATCH_WINDOW));
    assert_eq!(batch.remaining(10 + SCROLL_BATCH_WINDOW), None);
    assert!(!batch.take(scrolled(MouseEventKind::Moved, 0, 0)));
    while batch.remaining(11).is_some() {
        assert!(batch.take(up));
    }
    assert_eq!(batch.events.len(), SCROLL_BATCH_LIMIT);
}

#[test]
fn pointer_positions_follow_the_layout() {
    let layout = small_layout();
    let output = geometry(5, -7, 400, 200, 2.0);
    let mouse = scrolled(MouseEventKind::ScrollUp, 79, 19);
    let found = map_pointer_position(mouse, layout, &output, sample(mouse, layout, &output));
    let point = found.unwrap();
    assert_eq!((point.source_x, point.source_y), (795, 390));
    assert_eq!((point.local_x, point.local_y), (397, 195));
    assert_eq!((point.global_x, point.global_y), (402, 188));
    assert!(click(mouse, layout, &output).is_none());
    assert_eq!(validate_output_geometry(&output, true), Ok(()));
    assert_eq!(validate_output_geometry(&output, false), Err(GeometryError::Size));
    let turned = OutputGeometry { transform: "90".to_owned(), ..output };
    assert_eq!(validate_output_geometry(&turned, true), Err(GeometryError::Transform));
    assert_eq!(
        GeometryError::Transform.message(800, 399, &turned, "2"),
        "mouse mapping currently supports Normal output transforms, not 90"
    );
    assert_eq!(
        GeometryError::Size.message(800, 399, &turned, "2.5"),
        "capture 800x399 does not match niri geometry 400x200 at scale 2.5"
    );
}

#[test]
fn damage_without_rectangles_touches_everything() {
    let viewport = ViewportRect { x: 5, y: 5, width: 1, height: 1 };
    assert!(damage_affects_viewport(&[], viewport));
    let near = DamageRect { x: 0, y: 0, width: 5, height: 9 };
    assert!(!damage_affects_viewport(&[near], viewport));
    let endless = DamageRect { x: 1, y: 1, width: u32::MAX, height: u32::MAX };
    assert!(damage_affects_viewport(&[near, endless], viewport));
    let whole = ViewportRect { x: 0, y: 0, width: 3, height: 1 };
    assert!(visible_region_changed(&RgbImage::new(2, 1), &RgbImage::new(2, 1), whole));
    assert!(visible_region_changed(&RgbImage::new(2, 1), &RgbImage::new(1, 2), viewport));
}

#[test]
fn shrinking_images_clear_the_cells_they_leave() {
    let large = small_layout();
    let small = DrawLayout { cols: 79, rows: 18, ..large };
    let cleared = String::from_utf8(clear_stale_kitty_cells(large, small, 24)).unwrap();
    assert!(cleared.contains("\u{1b}[19;1H"));
    assert!(cleared.contains("\u{1b}[20;1H"));
    assert!(!cleared.contains("\u{1b}[21;1H"));
    assert!(clear_stale_kitty_cells(large, large, 24).is_empty());
}
