use termway::config::{
    config_source, default_path, validate, Action, AdvancedGraphicsConfig, Config, ConfigSource,
    GraphicsConfig, GraphicsError, QualityMode, Resolution,
};

fn action(name: &str, command: &[&str]) -> Action {
    Action {
        name: name.to_owned(),
        description: String::new(),
        command: command.iter().map(|part| part.to_string()).collect(),
    }
}

fn with_actions(actions: Vec<Action>) -> Config {
    let mut config = Config::default();
    config.actions = actions;
    config
}

fn resolution(name: &str) -> Resolution {
    match Resolution::try_from(name.to_owned()) {
        Ok(resolution) => resolution,
        Err(error) => panic!("{}", error.message()),
    }
}

fn message_of(config: Config) -> String {
    match validate(config) {
        Ok(_) => panic!("the settings were accepted"),
        Err(error) => error.message(),
    }
}

#[test]
fn parses_actions() {
    let mut terminal = action("terminal", &["kitty", "--single-instance"]);
    terminal.description = "Open Kitty".to_owned();
    let config = validate(with_actions(vec![terminal])).ok().unwrap();
    assert_eq!(config.actions[0].name, "terminal");
    assert_eq!(config.actions[0].command[1], "--single-instance");
}

#[test]
fn parses_graphics_and_output_settings() {
    let mut config = Config::default();
    config.output = Some("DP-1".to_owned());
    config.graphics.quality = QualityMode::Sharp;
    config.graphics.resolution = resolution("1440p");
    config.graphics.advanced.recovery_ms = 750;
    let config = validate(config).ok().unwrap();
    assert_eq!(config.output.as_deref(), Some("DP-1"));
    assert_eq!(config.graphics.resolution, Resolution::new(2560, 1440));
    assert_eq!(config.graphics.quality, QualityMode::Sharp);
    assert_eq!(config.graphics.advanced.adaptive_min_height, 360);
    assert_eq!(config.graphics.advanced.recovery_ms, 750);
}

#[test]
fn accepts_named_and_custom_graphics_settings() {
    let mut custom = Config::default();
    custom.graphics.resolution = resolution("2560x1600");
    custom.graphics.quality = QualityMode::Fast;
    assert_eq!(custom.graphics.resolution, Resolution::new(2560, 1600));
    assert_eq!(custom.graphics.quality, QualityMode::Fast);
}

#[test]
fn rejects_invalid_graphics_settings() {
    let mut too_tall = Config::default();
    too_tall.graphics.resolution = resolution("720p");
    too_tall.graphics.advanced.adaptive_min_height = 1080;
    assert!(validate(too_tall).is_err());

    let mut invalid_bandwidth = Config::default();
    invalid_bandwidth.graphics.advanced.tmux_bandwidth_mbps = 0f64.to_bits();
    assert!(validate(invalid_bandwidth).is_err());
}

#[test]
fn rejects_empty_commands_and_duplicate_names() {
    assert!(validate(with_actions(vec![action("broken", &[])])).is_err());
    assert!(validate(with_actions(vec![
        action("same", &["true"]),
        action("same", &["false"]),
    ]))
    .is_err());
}

#[test]
fn says_what_is_wrong_with_an_action() {
    assert_eq!(
        message_of(with_actions(vec![action("ok", &["true"]), action(" \t", &["true"])])),
        "actions[1].name must not be empty"
    );
    assert_eq!(
        message_of(with_actions(vec![action("be\u{7}ll", &["true"])])),
        "action \"be\\u{7}ll\" has control characters in its name"
    );
    assert_eq!(
        message_of(with_actions(vec![action("quoted \"name\"", &[""])])),
        "action \"quoted \\\"name\\\"\" must have a non-empty command"
    );
    assert_eq!(
        message_of(with_actions(vec![action("same", &["true"]), action("same", &["x"])])),
        "duplicate action name \"same\""
    );
    let mut blank = Config::default();
    blank.output = Some("  ".to_owned());
    assert_eq!(message_of(blank), "output must not be empty");
}

#[test]
fn each_graphics_limit_has_its_own_error() {
    let fault = |change: fn(&mut GraphicsConfig)| {
        let mut config = GraphicsConfig::default();
        change(&mut config);
        config.validate()
    };
    assert_eq!(GraphicsConfig::default().validate(), Ok(()));
    assert_eq!(fault(|c| c.resolution = Resolution::new(0, 1080)), Err(GraphicsError::Width));
    assert_eq!(fault(|c| c.resolution = Resolution::new(7681, 1080)), Err(GraphicsError::Width));
    assert_eq!(fault(|c| c.resolution = Resolution::new(1, 4321)), Err(GraphicsError::Height));
    assert_eq!(fault(|c| c.advanced.adaptive_min_height = 0), Err(GraphicsError::MinHeight));
    assert_eq!(fault(|c| c.advanced.adaptive_min_height = 1081), Err(GraphicsError::MinHeight));
    assert_eq!(fault(|c| c.advanced.adaptive_damage_frames = 0), Err(GraphicsError::DamageFrames));
    assert_eq!(
        fault(|c| c.advanced.adaptive_damage_window_ms = 0),
        Err(GraphicsError::DamageWindow)
    );
    assert_eq!(fault(|c| c.advanced.frame_budget_ms = 0), Err(GraphicsError::FrameBudget));
    assert_eq!(fault(|c| c.advanced.recovery_ms = 0), Err(GraphicsError::Recovery));
    for bandwidth in [0.0, -0.0, -1.0, f64::INFINITY, f64::NEG_INFINITY, f64::NAN] {
        let mut config = GraphicsConfig::default();
        config.advanced.tmux_bandwidth_mbps = bandwidth.to_bits();
        assert_eq!(config.validate(), Err(GraphicsError::Bandwidth));
    }
    for bandwidth in [f64::MIN_POSITIVE, 0.5, 40.0, f64::MAX] {
        let mut config = GraphicsConfig::default();
        config.advanced.tmux_bandwidth_mbps = bandwidth.to_bits();
        assert_eq!(config.validate(), Ok(()));
    }
    assert_eq!(
        GraphicsError::Bandwidth.message(),
        "graphics.advanced.tmux_bandwidth_mbps must be a positive finite number"
    );
}

#[test]
fn default_bandwidth_is_forty_megabits() {
    let advanced = AdvancedGraphicsConfig::default();
    assert_eq!(f64::from_bits(advanced.tmux_bandwidth_mbps), 40.0);
    assert_eq!(advanced.frame_budget_ms, 275);
    assert_eq!(advanced.preview_ms, 120);
    assert_eq!(advanced.atlas_refresh_ms, 2000);
}

#[test]
fn resolutions_are_read_by_name_or_by_size() {
    assert_eq!(resolution("native"), Resolution::new(7680, 4320));
    assert_eq!(resolution(" 4K\n"), Resolution::new(3840, 2160));
    assert_eq!(resolution("2160p"), Resolution::new(3840, 2160));
    assert_eq!(resolution("1080P"), Resolution::new(1920, 1080));
    assert_eq!(resolution("720p"), Resolution::new(1280, 720));
    assert_eq!(resolution("+1X2"), Resolution::new(1, 2));
    let error = |value: &str| Resolution::try_from(value.to_owned()).err().unwrap().message();
    assert_eq!(
        error("large"),
        "resolution must be native, 4k, 2160p, 1440p, 1080p, 720p, or WIDTHxHEIGHT"
    );
    assert_eq!(error("wide x 2"), "resolution width must be a number");
    assert_eq!(error("12x"), "resolution height must be a number");
    assert_eq!(error("4294967296x1"), "resolution width must be a number");
    assert_eq!(error("1x2x3"), "resolution height must be a number");
}

#[test]
fn policies_go_round() {
    for mode in [QualityMode::Auto, QualityMode::Sharp, QualityMode::Fast] {
        assert_eq!(mode.next().previous(), mode);
        assert_eq!(mode.next().next().next(), mode);
    }
    assert_eq!(QualityMode::Auto.next(), QualityMode::Sharp);
    assert_eq!(QualityMode::Fast.label(), "Fast");
    assert!(!QualityMode::Sharp.adaptive_quality());
    assert!(QualityMode::Auto.adaptive_quality());
    assert!(QualityMode::Fast.adaptive_navigation());
    assert!(!QualityMode::Auto.adaptive_navigation());
}

#[test]
fn settings_are_looked_for_in_the_usual_places() {
    assert_eq!(config_source(false, false), ConfigSource::Defaults);
    assert_eq!(config_source(true, false), ConfigSource::File);
    assert_eq!(config_source(false, true), ConfigSource::File);
    assert_eq!(
        default_path(Some("/c".to_owned()), Some("/h".to_owned())),
        Some(("/c".to_owned(), "termway/config.toml".to_owned()))
    );
    assert_eq!(
        default_path(None, Some("/h".to_owned())),
        Some(("/h".to_owned(), ".config/termway/config.toml".to_owned()))
    );
    assert_eq!(default_path(None, None), None);
}
