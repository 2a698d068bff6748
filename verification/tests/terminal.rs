use termway::config::{GraphicsConfig, QualityMode, Resolution};
use termway::draw::{
    cell_size, image_cols, image_rows, raster_box, DrawError, DrawRequest, WindowSize,
};
use termway::kitty::{KittyError, Renderer, Transport};
use termway::pixels::RgbImage;
use termway::pump::{OutputKind, WriteOutcome};
use termway::render::{fitted_sample_size, Viewport, ViewportError, ViewportRect};
use termway::screen::Chrome;
use termway::terminal::{later, Terminal};
use termway::viewer::{
    Backend, DisplaySetting, GraphicsCommand, InteractionMode, ScrollTarget, ViewerState,
};

const MILLISECOND: u128 = 1_000_000;

fn raster_size(rect: ViewportRect, max_width: u32, max_height: u32) -> (u32, u32) {
    let (width, height) = fitted_sample_size(rect.width, rect.height, max_width, max_height);
    let scale = (width as f64 / rect.width as f64)
        .min(height as f64 / rect.height as f64)
        .min(1.0);
    (
        (rect.width as f64 * scale).round().max(1.0) as u32,
        (rect.height as f64 * scale).round().max(1.0) as u32,
    )
}

fn viewer() -> ViewerState {
    match ViewerState::new(Viewport::default(), Viewport::default(), false) {
        Ok(state) => state,
        Err(error) => panic!("{}", error.message()),
    }
}

fn kitty_terminal(config: GraphicsConfig, budget: usize) -> Terminal {
    Terminal::new(Some(Renderer::new(Transport::Direct, 8192)), None, config, budget)
}

fn ansi_terminal() -> Terminal {
    Terminal::new(None, Some("not advertised".to_owned()), GraphicsConfig::default(), 1_000)
}

fn request(terminal: &Terminal, frame: &RgbImage, rect: ViewportRect, now: u128) -> DrawRequest {
    let whole = ViewportRect { x: 0, y: 0, width: frame.width, height: frame.height };
    let quality = &terminal.kitty_quality;
    let window = Some(WindowSize { width: 400, height: 280, columns: 40, rows: 14 });
    let sized = |rect, limits| {
        let (width, height) = raster_box(40, 14, window, limits);
        raster_size(rect, width, height)
    };
    let request = DrawRequest {
        rect,
        cols: 40,
        rows: 14,
        window,
        atlas_size: sized(whole, quality.ceiling_limits()),
        tier_sizes: quality.limits.iter().map(|limits| sized(rect, *limits)).collect(),
        now,
    };
    assert!(request.is_sized(frame, &quality.limits, quality.ceiling));
    request
}

#[test]
fn rasters_lie_in_their_boxes() {
    let window = Some(WindowSize { width: 400, height: 280, columns: 40, rows: 14 });
    assert_eq!(raster_box(40, 14, window, (1920, 1080)), (400, 240));
    assert_eq!(raster_box(40, 14, window, (300, 1080)), (300, 240));
    assert_eq!(raster_box(40, 14, window, (1920, 100)), (400, 100));
    assert_eq!(raster_box(0, 3, None, (1920, 1080)), (10, 20));
    let whole = Some(WindowSize { width: 65535, height: 65535, columns: 1, rows: 1 });
    assert_eq!(
        raster_box(65535, 65535, whole, (u32::MAX, u32::MAX)),
        (65535 * 65535, 65533 * 65535)
    );
    let terminal = kitty_terminal(GraphicsConfig::default(), 1_000_000);
    let quality = &terminal.kitty_quality;
    let frame = frame();
    let asked = request(&terminal, &frame, whole_frame(), 0);
    assert_eq!(asked.atlas_size, (160, 100));
    let admitted = |change: &dyn Fn(&mut DrawRequest)| {
        let mut asked = request(&terminal, &frame, whole_frame(), 0);
        change(&mut asked);
        asked.is_sized(&frame, &quality.limits, quality.ceiling)
    };
    assert!(admitted(&|_| {}));
    assert!(admitted(&|asked| asked.atlas_size = (1, 1)));
    assert!(!admitted(&|asked| asked.atlas_size = (161, 100)));
    assert!(!admitted(&|asked| asked.atlas_size = (160, 0)));
    assert!(!admitted(&|asked| asked.tier_sizes[0] = (160, 101)));
    assert!(!admitted(&|asked| {
        asked.tier_sizes.pop();
    }));
    assert!(!admitted(&|asked| asked.cols = 4));
}

fn frame() -> RgbImage {
    let mut image = RgbImage::new(160, 100);
    for y in 0..100 {
        for x in 0..160 {
            image.put_pixel(x, y, [(x * 3) as u8, (y * 5) as u8, (x ^ y) as u8]);
        }
    }
    image
}

fn whole_frame() -> ViewportRect {
    ViewportRect { x: 0, y: 0, width: 160, height: 100 }
}

fn quarter() -> ViewportRect {
    ViewportRect { x: 40, y: 25, width: 80, height: 50 }
}

fn drain(terminal: &mut Terminal) -> String {
    let mut written = Vec::new();
    while let Some((_, length)) = terminal.begin_output() {
        let allowance = length.min(1_000);
        written.extend_from_slice(terminal.output_chunk(allowance));
        assert_eq!(terminal.end_output(Some(WriteOutcome::Written(allowance))).ok(), Some(true));
    }
    assert_eq!(terminal.end_output(None).ok(), Some(false));
    String::from_utf8(written).unwrap()
}

fn draw(terminal: &mut Terminal, image: &RgbImage, rect: ViewportRect, now: u128) -> String {
    let asked = request(terminal, image, rect, now);
    match terminal.draw_kitty(image, Viewport::default(), &asked) {
        Ok(layout) => assert_eq!(layout.viewport, rect),
        Err(error) => panic!("{}", error.message()),
    }
    drain(terminal)
}

#[test]
fn the_atlas_comes_first_and_views_preview_it() {
    let mut terminal = kitty_terminal(GraphicsConfig::default(), 1_000_000);
    assert_eq!(terminal.backend(), Backend::Kitty);
    let image = frame();
    let upload = draw(&mut terminal, &image, whole_frame(), 0);
    assert!(upload.contains("a=t,f=100"));
    assert!(upload.contains("a=p,i=16382,p=2"));
    assert!(terminal.kitty_atlas_ready);

    let preview = draw(&mut terminal, &image, quarter(), MILLISECOND);
    assert!(!preview.contains("a=t"));
    assert!(preview.contains("a=p,i=16382,p=2"));
    let refine = terminal.kitty_refine_at.unwrap();
    assert_eq!(terminal.next_wakeup_timeout(MILLISECOND), Some(refine - MILLISECOND));
    assert_eq!(draw(&mut terminal, &image, quarter(), MILLISECOND), "");
    assert!(!terminal.take_due_refine(refine - 1));
    assert!(terminal.take_due_refine(refine));
    assert!(!terminal.take_due_refine(refine));
}

#[test]
fn unchanged_frames_send_nothing() {
    let mut terminal = kitty_terminal(GraphicsConfig::default(), 1_000_000);
    let image = frame();
    draw(&mut terminal, &image, whole_frame(), 0);
    terminal.note_frame_damage(1);
    terminal.note_visible_damage(1);
    draw(&mut terminal, &image, whole_frame(), 2);
    assert_eq!(draw(&mut terminal, &image, whole_frame(), 3), "");
}

#[test]
fn damage_sends_the_tiles_that_changed() {
    let mut terminal = kitty_terminal(GraphicsConfig::default(), 1_000_000);
    let mut image = frame();
    draw(&mut terminal, &image, whole_frame(), 0);
    terminal.note_frame_damage(1);
    draw(&mut terminal, &image, whole_frame(), 1);
    image.put_pixel(0, 0, [255, 255, 255]);
    terminal.note_frame_damage(2);
    let changed = draw(&mut terminal, &image, whole_frame(), 2);
    assert_eq!(changed.matches("a=p,").count(), 1);
    assert!(terminal.kitty_atlas_stale);
    let moved = draw(&mut terminal, &image, quarter(), 3);
    assert!(moved.contains("a=t,f=100"));
    assert!(!moved.contains("p=2,x="));
}

#[test]
fn large_frames_lower_the_tier_and_rest_restores_it() {
    let mut config = GraphicsConfig::default();
    config.quality = QualityMode::Fast;
    let mut direct = kitty_terminal(config, 1);
    let image = frame();
    draw(&mut direct, &image, whole_frame(), 0);
    direct.kitty_atlas_stale = true;
    draw(&mut direct, &image, quarter(), 1);
    assert!(direct.kitty_quality.is_maximum());
    let renderer = Renderer::new(Transport::Tmux, 8192);
    let mut terminal = Terminal::new(Some(renderer), None, config, 1);
    draw(&mut terminal, &image, whole_frame(), 0);
    terminal.kitty_atlas_stale = true;
    draw(&mut terminal, &image, quarter(), 1);
    assert!(!terminal.kitty_quality.is_maximum());
    let restored = terminal.kitty_quality_upgrade_at.unwrap();
    assert!(terminal.take_due_refine(restored));
    assert!(terminal.kitty_quality.is_maximum());
}

#[test]
fn resolution_and_quality_are_set_at_run_time() {
    let mut terminal = kitty_terminal(GraphicsConfig::default(), 1_000);
    let top = terminal.kitty_quality.ceiling_label();
    let (words, redraw) = terminal.apply_graphics_command(GraphicsCommand::RaiseResolution);
    assert_eq!(words, format!("Resolution cap is already at its maximum ({top})"));
    assert!(!redraw);
    let (words, redraw) = terminal.apply_graphics_command(GraphicsCommand::LowerResolution);
    assert_eq!(
        words,
        format!("Resolution cap lowered to {}", terminal.kitty_quality.ceiling_label())
    );
    assert!(redraw && terminal.force_kitty_redraw);
    assert_eq!(
        terminal.apply_graphics_command(GraphicsCommand::RaiseResolution).0,
        format!("Resolution cap raised to {top}")
    );
    let quality = terminal.graphics_config.quality;
    terminal.apply_graphics_command(GraphicsCommand::NextQualityMode);
    assert_ne!(terminal.graphics_config.quality, quality);
    terminal.apply_graphics_command(GraphicsCommand::PreviousQualityMode);
    assert_eq!(terminal.graphics_config.quality, quality);
    let mut cells = ansi_terminal();
    assert_eq!(
        cells.apply_graphics_command(GraphicsCommand::NextQualityMode),
        ("Runtime graphics controls require the Kitty backend".to_owned(), false)
    );
    assert_eq!(cells.take_fallback_reason(), Some("not advertised".to_owned()));
    assert_eq!(cells.take_fallback_reason(), None);
}

#[test]
fn cells_are_redrawn_where_they_changed() {
    let mut terminal = ansi_terminal();
    let mut image = RgbImage::from_pixel(4, 4, [1, 2, 3]);
    let asked = DrawRequest {
        rect: ViewportRect { x: 0, y: 0, width: 4, height: 4 },
        cols: 4,
        rows: 4,
        window: None,
        atlas_size: (0, 0),
        tier_sizes: Vec::new(),
        now: 0,
    };
    let shown = |terminal: &mut Terminal, image: &RgbImage| {
        let (layout, bytes) =
            match terminal.draw_cells(image, Viewport::default(), &asked) {
                Ok(drawn) => drawn,
                Err(error) => panic!("{}", error.message()),
            };
        assert_eq!((layout.cols, layout.rows, layout.sample_height), (4, 2, 4));
        String::from_utf8(bytes).unwrap()
    };
    assert!(shown(&mut terminal, &image).contains("\u{1b}[38;2;1;2;3;48;2;1;2;3m▀▀▀▀"));
    assert_eq!(shown(&mut terminal, &image), "");
    image.put_pixel(1, 0, [9, 9, 9]);
    assert_eq!(
        shown(&mut terminal, &image),
        "\u{1b}[1;2H\u{1b}[38;2;9;9;9;48;2;1;2;3m▀\u{1b}[0m"
    );
    terminal.invalidate_image();
    assert!(shown(&mut terminal, &image).contains("▀▀▀"));
    let broken = Viewport { zoom: 0, ..Viewport::default() };
    assert_eq!(
        terminal.draw_cells(&image, broken, &asked).err(),
        Some(DrawError::Viewport(ViewportError::Zoom))
    );
}

fn chrome(cols: u16) -> Chrome {
    Chrome { output_name: "eDP-1".to_owned(), zoom: "1.00".to_owned(), cols, rows: 14 }
}

#[test]
fn the_mode_line_tells_the_state_once() {
    let mut terminal = ansi_terminal();
    let mut state = viewer();
    let line = |terminal: &mut Terminal, state: &ViewerState| {
        String::from_utf8(terminal.draw_mode_line(state, &chrome(120))).unwrap()
    };
    let shown = line(&mut terminal, &state);
    assert!(shown.starts_with("\u{1b}[13;1H\u{1b}[0m\u{1b}[7m Termway · eDP-1 · "));
    assert!(shown.contains(" · 1.00× · ANSI · View only · ? Help "));
    assert!(shown.ends_with("\u{1b}[0m\u{1b}[0m"));
    assert_eq!(line(&mut terminal, &state), "");
    state.control = true;
    state.mouse_armed = true;
    state.scroll_target = ScrollTarget::Desktop;
    state.idle_inhibited = true;
    state.mode = InteractionMode::Input;
    let shown = line(&mut terminal, &state);
    assert!(shown.contains("Mouse on · Desktop scroll · Keep awake · C-\\ ? Help "));
    assert!(shown.contains("\u{1b}[7m\u{1b}[1m"));
}

#[test]
fn the_echo_line_prefers_settings_to_messages() {
    let mut state = viewer();
    let mut cells = ansi_terminal();
    state.message("Hello".to_owned(), 0);
    let shown = String::from_utf8(cells.draw_echo(&state, 10, 14)).unwrap();
    assert_eq!(shown, "\u{1b}[14;1H\u{1b}[0m\u{1b}[0mHello     ");
    assert!(cells.draw_echo(&state, 10, 14).is_empty());
    assert!(cells.draw_echo(&state, 10, 1).is_empty());
    state.display_settings = Some(DisplaySetting::Quality);
    assert_eq!(
        cells.display_settings_echo(&state).unwrap(),
        "Display settings · unavailable with ANSI graphics · Enter close"
    );
    let mut terminal = kitty_terminal(GraphicsConfig::default(), 1_000);
    let quality = terminal.display_settings_echo(&state).unwrap();
    assert!(quality.starts_with("Display settings · Quality  ‹ "));
    state.display_settings = Some(DisplaySetting::Resolution);
    let top = terminal.kitty_quality.ceiling_label();
    assert_eq!(
        terminal.display_settings_echo(&state).unwrap(),
        format!("Display settings · Resolution  ‹ {top} › — maximum detail · ↑↓ choose · ←→ change · Enter done")
    );
    assert!(terminal.draw_echo(&state, 10, 14).is_empty());
    assert!(terminal.has_pending_output());
    assert_eq!(drain(&mut terminal), "\u{1b}[14;1H\u{1b}[0m\u{1b}[0mDisplay se");
}

#[test]
fn drawing_writes_image_and_lines() {
    let image = frame();
    let state = viewer();
    let mut cells = ansi_terminal();
    let asked = request(&cells, &image, whole_frame(), 0);
    match cells.draw(&image, &asked, &state, &chrome(40)) {
        Ok(drawn) => {
            assert!(!drawn.image.is_empty() && !drawn.mode_line.is_empty());
            assert!(!drawn.echo.is_empty());
            assert_eq!(drawn.layout.viewport, whole_frame());
        }
        Err(error) => panic!("{}", error.message()),
    }
    let mut terminal = kitty_terminal(GraphicsConfig::default(), 1_000);
    let asked = request(&terminal, &image, whole_frame(), 0);
    match terminal.draw(&image, &asked, &state, &chrome(40)) {
        Ok(drawn) => {
            assert!(drawn.image.is_empty() && drawn.mode_line.is_empty());
            assert!(drawn.echo.is_empty());
        }
        Err(error) => panic!("{}", error.message()),
    }
    let written = drain(&mut terminal);
    let line = written.find("Termway").unwrap();
    let upload = written.find("a=t,f=100").unwrap();
    assert!(line < upload);
}

#[test]
fn refused_writes_are_tried_again() {
    let mut terminal = kitty_terminal(GraphicsConfig::default(), 1_000);
    let state = viewer();
    terminal.draw_echo(&state, 10, 14);
    assert_eq!(terminal.begin_output().unwrap().0, OutputKind::Control);
    assert_eq!(terminal.end_output(Some(WriteOutcome::WouldBlock)).ok(), Some(false));
    assert_eq!(terminal.end_output(Some(WriteOutcome::Interrupted)).ok(), Some(false));
    assert!(terminal.end_output(Some(WriteOutcome::Written(0))).is_err());
    assert!(terminal.end_output(Some(WriteOutcome::Failed)).is_err());
    assert!(terminal.has_pending_output());
}

#[test]
fn busy_output_puts_a_redraw_off() {
    let mut terminal = kitty_terminal(GraphicsConfig::default(), 1_000_000);
    let image = frame();
    let asked = request(&terminal, &image, whole_frame(), 0);
    assert!(terminal.draw_kitty(&image, Viewport::default(), &asked).is_ok());
    let moved = request(&terminal, &image, quarter(), 1);
    assert!(terminal.draw_kitty(&image, Viewport::default(), &moved).is_ok());
    assert!(terminal.deferred_kitty_redraw);
    assert!(!terminal.take_deferred_redraw());
    drain(&mut terminal);
    assert!(terminal.take_deferred_redraw());
    assert!(!terminal.take_deferred_redraw());
}

#[test]
fn frames_do_not_pile_up_behind_an_upload() {
    let mut terminal = kitty_terminal(GraphicsConfig::default(), 1_000_000);
    let mut image = frame();
    let asked = request(&terminal, &image, whole_frame(), 0);
    assert!(terminal.draw_kitty(&image, Viewport::default(), &asked).is_ok());
    let waiting = terminal.output.graphics.len();
    for now in 1..4 {
        image.put_pixel(0, 0, [now as u8, 0, 0]);
        terminal.note_frame_damage(now);
        let asked = request(&terminal, &image, whole_frame(), now);
        assert!(terminal.draw_kitty(&image, Viewport::default(), &asked).is_ok());
    }
    assert_eq!(terminal.output.graphics.len(), waiting);
    drain(&mut terminal);
    assert!(terminal.take_deferred_redraw());
    assert!(draw(&mut terminal, &image, whole_frame(), 4).contains("a=t,f=100"));
}

#[test]
fn closing_deletes_what_was_sent() {
    let mut terminal = kitty_terminal(GraphicsConfig::default(), 1_000_000);
    draw(&mut terminal, &frame(), whole_frame(), 0);
    let closing: Vec<u8> = terminal.close().into_iter().flatten().collect();
    assert!(String::from_utf8(closing).unwrap().contains("a=d,d=I,i=16382,q=2"));
    assert!(ansi_terminal().close().is_empty());
}

#[test]
fn cells_have_a_size_without_a_window() {
    assert_eq!(cell_size(None), (10, 20));
    let window = |width, height| Some(WindowSize { width, height, columns: 80, rows: 24 });
    assert_eq!(cell_size(window(0, 480)), (10, 20));
    assert_eq!(cell_size(window(720, 480)), (9, 20));
    assert_eq!(cell_size(window(1, 1)), (1, 1));
    assert_eq!((image_cols(0), image_cols(7)), (1, 7));
    assert_eq!((image_rows(0), image_rows(3), image_rows(24)), (1, 1, 22));
    assert_eq!(later(5, 3), 5 + 3 * MILLISECOND);
    assert_eq!(
        DrawError::Kitty(KittyError::AtlasMissing).message(),
        "cannot place Kitty navigation atlas before it is uploaded"
    );
}

#[test]
fn resolutions_have_names() {
    let mut config = GraphicsConfig::default();
    config.resolution = Resolution { width: 1000, height: 700 };
    let terminal = kitty_terminal(config, 1);
    assert_eq!(terminal.kitty_quality.ceiling_label(), "1000x700");
}
