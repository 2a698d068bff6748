//! Settings and their limits.

use crate::text;
use crate::text::{
    find_char, has_control, lower, parse_u32, part_of, push_decimal, quote, same, string_of, trim,
};
use vstd::prelude::*;

verus! {

/// The policies that the display settings offer. They describe what the user wants, not the
/// heuristics behind it.
#[derive(Debug, Clone, Copy, PartialEq, Eq, Structural)]
pub enum QualityMode {
    Auto,
    Sharp,
    Fast,
}

impl QualityMode {
    /// The name of the policy.
    pub open spec fn name(self) -> Seq<char> {
        match self {
            QualityMode::Auto => "Auto"@,
            QualityMode::Sharp => "Sharp"@,
            QualityMode::Fast => "Fast"@,
        }
    }

    /// What the policy does, in words.
    pub open spec fn words(self) -> Seq<char> {
        match self {
            QualityMode::Auto => "full detail for navigation, adapts during motion"@,
            QualityMode::Sharp => "always use the selected resolution"@,
            QualityMode::Fast => "adapt whenever bandwidth is tight"@,
        }
    }

    /// The policy before this one.
    pub open spec fn before(self) -> QualityMode {
        match self {
            QualityMode::Auto => QualityMode::Fast,
            QualityMode::Sharp => QualityMode::Auto,
            QualityMode::Fast => QualityMode::Sharp,
        }
    }

    /// The policy after this one.
    pub open spec fn after(self) -> QualityMode {
        match self {
            QualityMode::Auto => QualityMode::Sharp,
            QualityMode::Sharp => QualityMode::Fast,
            QualityMode::Fast => QualityMode::Auto,
        }
    }

    pub fn label(self) -> (label: &'static str)
        ensures
            label@ == self.name(),
    {
        match self {
            QualityMode::Auto => "Auto",
            QualityMode::Sharp => "Sharp",
            QualityMode::Fast => "Fast",
        }
    }

    pub fn description(self) -> (description: &'static str)
        ensures
            description@ == self.words(),
    {
        match self {
            QualityMode::Auto => "full detail for navigation, adapts during motion",
            QualityMode::Sharp => "always use the selected resolution",
            QualityMode::Fast => "adapt whenever bandwidth is tight",
        }
    }

    pub fn previous(self) -> (mode: QualityMode)
        ensures
            mode == self.before(),
    {
        match self {
            QualityMode::Auto => QualityMode::Fast,
            QualityMode::Sharp => QualityMode::Auto,
            QualityMode::Fast => QualityMode::Sharp,
        }
    }

    pub fn next(self) -> (mode: QualityMode)
        ensures
            mode == self.after(),
    {
        match self {
            QualityMode::Auto => QualityMode::Sharp,
            QualityMode::Sharp => QualityMode::Fast,
            QualityMode::Fast => QualityMode::Auto,
        }
    }

    /// Whether the policy lowers the resolution at all.
    pub fn adaptive_quality(self) -> (adaptive: bool)
        ensures
            adaptive == (self != QualityMode::Sharp),
    {
        match self {
            QualityMode::Sharp => false,
            _ => true,
        }
    }

    /// Whether the policy lowers the resolution while the user navigates.
    pub fn adaptive_navigation(self) -> (adaptive: bool)
        ensures
            adaptive == (self == QualityMode::Fast),
    {
        match self {
            QualityMode::Fast => true,
            _ => false,
        }
    }
}

/// Going forth and back, or round three times, leads to the same policy.
pub proof fn lemma_policies_cycle(mode: QualityMode)
    ensures
        mode.after().before() == mode,
        mode.before().after() == mode,
        mode.after().after().after() == mode,
        mode.after() != mode,
{
}

/// The most detail that is sent, in pixels.
#[derive(Debug, Clone, Copy, PartialEq, Eq, Structural)]
pub struct Resolution {
    pub width: u32,
    pub height: u32,
}

/// Why a text names no resolution.
#[derive(Debug, Clone, Copy, PartialEq, Eq, Structural)]
pub enum ResolutionError {
    Form,
    Width,
    Height,
}

impl ResolutionError {
    /// The error in words.
    pub fn message(&self) -> (message: String)
        ensures
            message@ == match *self {
                ResolutionError::Form =>
                    "resolution must be native, 4k, 2160p, 1440p, 1080p, 720p, or WIDTHxHEIGHT"@,
                ResolutionError::Width => "resolution width must be a number"@,
                ResolutionError::Height => "resolution height must be a number"@,
            },
    {
        match self {
            ResolutionError::Form =>
                "resolution must be native, 4k, 2160p, 1440p, 1080p, 720p, or WIDTHxHEIGHT"
                    .to_owned(),
            ResolutionError::Width => "resolution width must be a number".to_owned(),
            ResolutionError::Height => "resolution height must be a number".to_owned(),
        }
    }
}

/// The resolution that a name stands for.
pub open spec fn preset(name: Seq<char>) -> Option<(u32, u32)> {
    if name == "native"@ {
        Some((7680, 4320))
    } else if name == "2160p"@ || name == "4k"@ {
        Some((3840, 2160))
    } else if name == "1440p"@ {
        Some((2560, 1440))
    } else if name == "1080p"@ {
        Some((1920, 1080))
    } else if name == "720p"@ {
        Some((1280, 720))
    } else {
        None
    }
}

/// What a text says of the resolution: a name, or a width and a height around the first `x`.
pub open spec fn resolution_of(value: Seq<char>) -> Result<(u32, u32), ResolutionError> {
    let name = text::lowercase(text::trimmed(value));
    match preset(name) {
        Some(size) => Ok(size),
        None => match text::first_index(name, 'x') {
            None => Err(ResolutionError::Form),
            Some(at) => match text::number32(name.take(at)) {
                None => Err(ResolutionError::Width),
                Some(width) => match text::number32(name.skip(at + 1)) {
                    None => Err(ResolutionError::Height),
                    Some(height) => Ok((width, height)),
                },
            },
        },
    }
}

impl Resolution {
    pub fn new(width: u32, height: u32) -> (resolution: Resolution)
        ensures
            resolution == (Resolution { width, height }),
    {
        Resolution { width, height }
    }

    pub fn width(self) -> (width: u32)
        ensures
            width == self.width,
    {
        self.width
    }

    pub fn height(self) -> (height: u32)
        ensures
            height == self.height,
    {
        self.height
    }

    /// Reads a resolution.
    pub fn try_from(value: String) -> (resolution: Result<Resolution, ResolutionError>)
        ensures
            match resolution_of(value@) {
                Ok((width, height)) => resolution == Ok::<Resolution, ResolutionError>(
                    Resolution { width, height },
                ),
                Err(error) => resolution == Err::<Resolution, ResolutionError>(error),
            },
    {
        let trimmed = trim(value.as_str());
        let mut name: Vec<char> = Vec::new();
        let mut i: usize = 0;
        while i < trimmed.len()
            invariant
                i <= trimmed@.len(),
                name@ == text::lowercase(trimmed@).take(i as int),
            decreases trimmed@.len() - i,
        {
            name.push(lower(trimmed[i]));
            assert(name@ =~= text::lowercase(trimmed@).take(i + 1));
            i = i + 1;
        }
        assert(name@ =~= text::lowercase(trimmed@));
        let joined = string_of(&name);
        let known = joined.as_str();
        if same(known, "native") {
            return Ok(Resolution::new(7680, 4320));
        }
        if same(known, "2160p") || same(known, "4k") {
            return Ok(Resolution::new(3840, 2160));
        }
        if same(known, "1440p") {
            return Ok(Resolution::new(2560, 1440));
        }
        if same(known, "1080p") {
            return Ok(Resolution::new(1920, 1080));
        }
        if same(known, "720p") {
            return Ok(Resolution::new(1280, 720));
        }
        let len: usize = name.len();
        let at: usize = match find_char(&name, 'x') {
            Some(at) => at,
            None => return Err(ResolutionError::Form),
        };
        assert(name@.subrange(0, at as int) =~= name@.take(at as int));
        assert(name@.subrange(at + 1, len as int) =~= name@.skip(at + 1));
        let width: u32 = match parse_u32(&part_of(&name, 0, at)) {
            Some(width) => width,
            None => return Err(ResolutionError::Width),
        };
        let height: u32 = match parse_u32(&part_of(&name, at + 1, len)) {
            Some(height) => height,
            None => return Err(ResolutionError::Height),
        };
        Ok(Resolution::new(width, height))
    }
}

/// Limits and delays of the display heuristics.
#[derive(Debug, Clone, Copy, PartialEq, Eq, Structural)]
pub struct AdvancedGraphicsConfig {
    pub adaptive_min_height: u32,
    pub adaptive_damage_frames: u32,
    pub adaptive_damage_window_ms: u64,
    pub frame_budget_ms: u64,
    pub recovery_ms: u64,
    pub preview_ms: u64,
    pub atlas_refresh_ms: u64,
    /// Megabits per second, as the bits of a double-precision number.
    pub tmux_bandwidth_mbps: u64,
}

/// The bits of 40.0.
pub const FORTY_BITS: u64 = 0x4044_0000_0000_0000;

/// The bits from which on a positive double-precision number is not finite.
pub const INFINITE_BITS: u64 = 0x7ff0_0000_0000_0000;

/// The limits and delays where nothing is set.
pub open spec fn default_advanced() -> AdvancedGraphicsConfig {
    AdvancedGraphicsConfig {
        adaptive_min_height: 360,
        adaptive_damage_frames: 2,
        adaptive_damage_window_ms: 500,
        frame_budget_ms: 275,
        recovery_ms: 2000,
        preview_ms: 120,
        atlas_refresh_ms: 2000,
        tmux_bandwidth_mbps: FORTY_BITS,
    }
}

impl Default for AdvancedGraphicsConfig {
    fn default() -> (config: Self)
        ensures
            config == default_advanced(),
    {
        AdvancedGraphicsConfig {
            adaptive_min_height: 360,
            adaptive_damage_frames: 2,
            adaptive_damage_window_ms: 500,
            frame_budget_ms: 275,
            recovery_ms: 2000,
            preview_ms: 120,
            atlas_refresh_ms: 2000,
            tmux_bandwidth_mbps: FORTY_BITS,
        }
    }
}

/// How the desktop is shown.
#[derive(Debug, Clone, Copy, PartialEq, Eq, Structural)]
pub struct GraphicsConfig {
    pub quality: QualityMode,
    pub resolution: Resolution,
    pub advanced: AdvancedGraphicsConfig,
}

/// How the desktop is shown where nothing is set.
pub open spec fn default_graphics() -> GraphicsConfig {
    GraphicsConfig {
        quality: QualityMode::Auto,
        resolution: Resolution { width: 1920, height: 1080 },
        advanced: default_advanced(),
    }
}

impl Default for GraphicsConfig {
    fn default() -> (config: Self)
        ensures
            config == default_graphics(),
    {
        GraphicsConfig {
            quality: QualityMode::Auto,
            resolution: Resolution::new(1920, 1080),
            advanced: AdvancedGraphicsConfig::default(),
        }
    }
}

/// Which graphics setting is out of its range.
#[derive(Debug, Clone, Copy, PartialEq, Eq, Structural)]
pub enum GraphicsError {
    Width,
    Height,
    MinHeight,
    DamageFrames,
    DamageWindow,
    FrameBudget,
    Recovery,
    Bandwidth,
}

impl GraphicsError {
    /// The words of the error.
    pub open spec fn words(self) -> Seq<char> {
        match self {
            GraphicsError::Width => "graphics.resolution width must be between 1 and 7680"@,
            GraphicsError::Height => "graphics.resolution height must be between 1 and 4320"@,
            GraphicsError::MinHeight =>
                "graphics.advanced.adaptive_min_height must not exceed graphics.resolution height"@,
            GraphicsError::DamageFrames =>
                "graphics.advanced.adaptive_damage_frames must be greater than zero"@,
            GraphicsError::DamageWindow =>
                "graphics.advanced.adaptive_damage_window_ms must be greater than zero"@,
            GraphicsError::FrameBudget =>
                "graphics.advanced.frame_budget_ms must be greater than zero"@,
            GraphicsError::Recovery =>
                "graphics.advanced.recovery_ms must be greater than zero"@,
            GraphicsError::Bandwidth =>
                "graphics.advanced.tmux_bandwidth_mbps must be a positive finite number"@,
        }
    }

    /// The error in words.
    pub fn message(&self) -> (message: String)
        ensures
            message@ == self.words(),
    {
        match self {
            GraphicsError::Width =>
                "graphics.resolution width must be between 1 and 7680".to_owned(),
            GraphicsError::Height =>
                "graphics.resolution height must be between 1 and 4320".to_owned(),
            GraphicsError::MinHeight =>
                "graphics.advanced.adaptive_min_height must not exceed graphics.resolution height"
                    .to_owned(),
            GraphicsError::DamageFrames =>
                "graphics.advanced.adaptive_damage_frames must be greater than zero".to_owned(),
            GraphicsError::DamageWindow =>
                "graphics.advanced.adaptive_damage_window_ms must be greater than zero".to_owned(),
            GraphicsError::FrameBudget =>
                "graphics.advanced.frame_budget_ms must be greater than zero".to_owned(),
            GraphicsError::Recovery =>
                "graphics.advanced.recovery_ms must be greater than zero".to_owned(),
            GraphicsError::Bandwidth =>
                "graphics.advanced.tmux_bandwidth_mbps must be a positive finite number".to_owned(),
        }
    }
}

/// The first graphics setting that is out of its range.
pub open spec fn graphics_fault(config: GraphicsConfig) -> Option<GraphicsError> {
    let advanced = config.advanced;
    if !(1 <= config.resolution.width <= 7680) {
        Some(GraphicsError::Width)
    } else if !(1 <= config.resolution.height <= 4320) {
        Some(GraphicsError::Height)
    } else if !(1 <= advanced.adaptive_min_height <= config.resolution.height) {
        Some(GraphicsError::MinHeight)
    } else if advanced.adaptive_damage_frames == 0 {
        Some(GraphicsError::DamageFrames)
    } else if advanced.adaptive_damage_window_ms == 0 {
        Some(GraphicsError::DamageWindow)
    } else if advanced.frame_budget_ms == 0 {
        Some(GraphicsError::FrameBudget)
    } else if advanced.recovery_ms == 0 {
        Some(GraphicsError::Recovery)
    } else if !(0 < advanced.tmux_bandwidth_mbps < INFINITE_BITS) {
        Some(GraphicsError::Bandwidth)
    } else {
        None
    }
}

impl GraphicsConfig {
    /// Checks the graphics settings.
    pub fn validate(&self) -> (result: Result<(), GraphicsError>)
        ensures
            match graphics_fault(*self) {
                Some(fault) => result == Err::<(), GraphicsError>(fault),
                None => result is Ok,
            },
    {
        let resolution = self.resolution;
        if resolution.width == 0 || resolution.width > 7680 {
            return Err(GraphicsError::Width);
        }
        if resolution.height == 0 || resolution.height > 4320 {
            return Err(GraphicsError::Height);
        }
        let advanced = self.advanced;
        if advanced.adaptive_min_height == 0 || advanced.adaptive_min_height > resolution.height {
            return Err(GraphicsError::MinHeight);
        }
        if advanced.adaptive_damage_frames == 0 {
            return Err(GraphicsError::DamageFrames);
        }
        if advanced.adaptive_damage_window_ms == 0 {
            return Err(GraphicsError::DamageWindow);
        }
        if advanced.frame_budget_ms == 0 {
            return Err(GraphicsError::FrameBudget);
        }
        if advanced.recovery_ms == 0 {
            return Err(GraphicsError::Recovery);
        }
        if advanced.tmux_bandwidth_mbps == 0 || advanced.tmux_bandwidth_mbps >= INFINITE_BITS {
            return Err(GraphicsError::Bandwidth);
        }
        Ok(())
    }
}

/// A command that the user can run by name.
#[derive(Debug, Clone)]
pub struct Action {
    pub name: String,
    pub description: String,
    pub command: Vec<String>,
}

/// The settings file.
pub struct Config {
    /// The output to show where the command line names none. Without it, the focused output.
    pub output: Option<String>,
    pub graphics: GraphicsConfig,
    pub actions: Vec<Action>,
}

impl Default for Config {
    fn default() -> (config: Self)
        ensures
            config.output is None,
            config.graphics == default_graphics(),
            config.actions@.len() == 0,
    {
        Config { output: None, graphics: GraphicsConfig::default(), actions: Vec::new() }
    }
}

/// What is wrong with a settings file. Actions are named by their place.
pub enum ConfigFault {
    EmptyOutput,
    Graphics(GraphicsError),
    EmptyName(int),
    ControlInName(int),
    EmptyCommand(int),
    DuplicateName(int),
}

/// What is wrong with the action at `index`, if anything.
pub open spec fn action_fault(actions: Seq<Action>, index: int) -> Option<ConfigFault> {
    let action = actions[index];
    if text::trimmed(action.name@).len() == 0 {
        Some(ConfigFault::EmptyName(index))
    } else if exists|i: int|
        0 <= i < action.name@.len() && text::is_control_char(#[trigger] action.name@[i]) {
        Some(ConfigFault::ControlInName(index))
    } else if action.command@.len() == 0 || action.command@[0]@.len() == 0 {
        Some(ConfigFault::EmptyCommand(index))
    } else if exists|i: int| 0 <= i < index && (#[trigger] actions[i]).name@ == action.name@ {
        Some(ConfigFault::DuplicateName(index))
    } else {
        None
    }
}

/// The first fault among the first `count` actions.
pub open spec fn actions_fault(actions: Seq<Action>, count: int) -> Option<ConfigFault>
    decreases count,
{
    if count <= 0 {
        None
    } else {
        match actions_fault(actions, count - 1) {
            Some(fault) => Some(fault),
            None => action_fault(actions, count - 1),
        }
    }
}

/// The first fault of a settings file.
pub open spec fn config_fault(config: Config) -> Option<ConfigFault> {
    if config.output is Some && text::trimmed(config.output->0@).len() == 0 {
        Some(ConfigFault::EmptyOutput)
    } else if graphics_fault(config.graphics) is Some {
        Some(ConfigFault::Graphics(graphics_fault(config.graphics)->0))
    } else {
        actions_fault(config.actions@, config.actions@.len() as int)
    }
}

/// Why a settings file is refused. Actions are named by their place and, where it says
/// something, by their name.
pub enum ConfigError {
    EmptyOutput,
    Graphics(GraphicsError),
    EmptyName(usize),
    ControlInName(usize, String),
    EmptyCommand(usize, String),
    DuplicateName(usize, String),
}

impl ConfigError {
    /// Whether the error says what is wrong with a settings file.
    pub open spec fn says(self, fault: ConfigFault, actions: Seq<Action>) -> bool {
        match self {
            ConfigError::EmptyOutput => fault == ConfigFault::EmptyOutput,
            ConfigError::Graphics(error) => fault == ConfigFault::Graphics(error),
            ConfigError::EmptyName(index) => fault == ConfigFault::EmptyName(index as int),
            ConfigError::ControlInName(index, name) => fault == ConfigFault::ControlInName(
                index as int,
            ) && name@ == actions[index as int].name@,
            ConfigError::EmptyCommand(index, name) => fault == ConfigFault::EmptyCommand(
                index as int,
            ) && name@ == actions[index as int].name@,
            ConfigError::DuplicateName(index, name) => fault == ConfigFault::DuplicateName(
                index as int,
            ) && name@ == actions[index as int].name@,
        }
    }

    /// The error in words.
    pub fn message(&self) -> (message: String)
        ensures
            message@ == match *self {
                ConfigError::EmptyOutput => "output must not be empty"@,
                ConfigError::Graphics(error) => error.words(),
                ConfigError::EmptyName(index) => "actions["@ + text::decimal(index as nat)
                    + "].name must not be empty"@,
                ConfigError::ControlInName(_, name) => "action "@ + text::quoted(name@)
                    + " has control characters in its name"@,
                ConfigError::EmptyCommand(_, name) => "action "@ + text::quoted(name@)
                    + " must have a non-empty command"@,
                ConfigError::DuplicateName(_, name) => "duplicate action name "@ + text::quoted(
                    name@,
                ),
            },
    {
        match self {
            ConfigError::EmptyOutput => "output must not be empty".to_owned(),
            ConfigError::Graphics(error) => error.message(),
            ConfigError::EmptyName(index) => {
                let mut message = "actions[".to_owned();
                push_decimal(&mut message, *index as u64);
                message.append("].name must not be empty");
                message
            },
            ConfigError::ControlInName(_, name) => {
                let mut message = "action ".to_owned();
                message.append(quote(name.as_str()).as_str());
                message.append(" has control characters in its name");
                message
            },
            ConfigError::EmptyCommand(_, name) => {
                let mut message = "action ".to_owned();
                message.append(quote(name.as_str()).as_str());
                message.append(" must have a non-empty command");
                message
            },
            ConfigError::DuplicateName(_, name) => {
                let mut message = "duplicate action name ".to_owned();
                message.append(quote(name.as_str()).as_str());
                message
            },
        }
    }
}

fn check_action(actions: &Vec<Action>, index: usize) -> (error: Option<ConfigError>)
    requires
        index < actions@.len(),
    ensures
        match error {
            Some(error) => action_fault(actions@, index as int) is Some && error.says(
                action_fault(actions@, index as int)->0,
                actions@,
            ),
            None => action_fault(actions@, index as int) is None,
        },
{
    let action = &actions[index];
    if trim(action.name.as_str()).len() == 0 {
        return Some(ConfigError::EmptyName(index));
    }
    if has_control(action.name.as_str()) {
        return Some(ConfigError::ControlInName(index, action.name.clone()));
    }
    if action.command.len() == 0 || action.command[0].as_str().is_empty() {
        return Some(ConfigError::EmptyCommand(index, action.name.clone()));
    }
    let mut i: usize = 0;
    while i < index
        invariant
            i <= index < actions@.len(),
            action == actions@[index as int],
            text::trimmed(action.name@).len() != 0,
            !(exists|k: int|
                0 <= k < action.name@.len() && text::is_control_char(#[trigger] action.name@[k])),
            action.command@.len() != 0,
            action.command@[0]@.len() != 0,
            forall|j: int| 0 <= j < i ==> (#[trigger] actions@[j]).name@ != action.name@,
        decreases index - i,
    {
        if same(actions[i].name.as_str(), action.name.as_str()) {
            assert(actions@[i as int].name@ == action.name@);
            return Some(ConfigError::DuplicateName(index, action.name.clone()));
        }
        i = i + 1;
    }
    None
}

/// Checks a settings file.
pub fn validate(config: Config) -> (result: Result<Config, ConfigError>)
    ensures
        match config_fault(config) {
            Some(fault) => result matches Err(error) && error.says(fault, config.actions@),
            None => result == Ok::<Config, ConfigError>(config),
        },
{
    if let Some(output) = &config.output {
        if trim(output.as_str()).len() == 0 {
            return Err(ConfigError::EmptyOutput);
        }
    }
    match config.graphics.validate() {
        Ok(()) => {},
        Err(error) => return Err(ConfigError::Graphics(error)),
    }
    let mut index: usize = 0;
    while index < config.actions.len()
        invariant
            index <= config.actions@.len(),
            graphics_fault(config.graphics) is None,
            !(config.output is Some && text::trimmed(config.output->0@).len() == 0),
            actions_fault(config.actions@, index as int) is None,
        decreases config.actions@.len() - index,
    {
        match check_action(&config.actions, index) {
            Some(error) => {
                proof {
                    lemma_fault_kept(config.actions@, index + 1, config.actions@.len() as int);
                }
                return Err(error);
            },
            None => {},
        }
        index = index + 1;
    }
    Ok(config)
}

proof fn lemma_fault_kept(actions: Seq<Action>, count: int, all: int)
    requires
        count <= all,
        actions_fault(actions, count) is Some,
    ensures
        actions_fault(actions, all) == actions_fault(actions, count),
    decreases all - count,
{
    if count < all {
        lemma_fault_kept(actions, count, all - 1);
    }
}

/// What holds where nothing is set is accepted.
pub proof fn lemma_defaults_valid()
    ensures
        graphics_fault(default_graphics()) is None,
{
}

/// Every named resolution is accepted.
pub proof fn lemma_presets_valid(name: Seq<char>, config: GraphicsConfig)
    requires
        preset(name) == Some((config.resolution.width, config.resolution.height)),
    ensures
        graphics_fault(config) != Some(GraphicsError::Width),
        graphics_fault(config) != Some(GraphicsError::Height),
{
}

/// Where the settings come from.
#[derive(Debug, Clone, Copy, PartialEq, Eq, Structural)]
pub enum ConfigSource {
    /// No file: the defaults hold.
    Defaults,
    /// The file must be read.
    File,
}

/// Decides where the settings come from. Only a file that was asked for must exist.
pub fn config_source(explicit: bool, found: bool) -> (source: ConfigSource)
    ensures
        source == if explicit || found {
            ConfigSource::File
        } else {
            ConfigSource::Defaults
        },
{
    if explicit || found {
        ConfigSource::File
    } else {
        ConfigSource::Defaults
    }
}

/// The directory and the place below it where the settings file is looked for.
pub fn default_path(config_home: Option<String>, home: Option<String>) -> (path: Option<
    (String, String),
>)
    ensures
        match (config_home, home) {
            (Some(config_home), _) => path matches Some((base, below)) && base == config_home
                && below@ == "termway/config.toml"@,
            (None, Some(home)) => path matches Some((base, below)) && base == home && below@
                == ".config/termway/config.toml"@,
            (None, None) => path is None,
        },
{
    match (config_home, home) {
        (Some(config_home), _) => Some((config_home, "termway/config.toml".to_owned())),
        (None, Some(home)) => Some((home, ".config/termway/config.toml".to_owned())),
        (None, None) => None,
    }
}

} // verus!
