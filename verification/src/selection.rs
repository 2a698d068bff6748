//! Which graphics protocol the terminal gets, and how its bytes travel.

use crate::kitty::{Renderer, RendererState, Transport};
use crate::text;
use crate::text::{contains, lowercase_chars, quote, same, string_of, trim};
use vstd::prelude::*;

verus! {

/// The graphics that the user asks for.
#[derive(Debug, Clone, Copy, PartialEq, Eq, Structural)]
pub enum GraphicsMode {
    Auto,
    Ansi,
    Kitty,
}

impl Default for GraphicsMode {
    fn default() -> (mode: Self)
        ensures
            mode == GraphicsMode::Auto,
    {
        GraphicsMode::Auto
    }
}

/// Terminals that know the Kitty graphics protocol name themselves so.
pub open spec fn names_kitty_graphics(name: Seq<char>) -> bool {
    let name = text::lowercase(name);
    text::has_part(name, "kitty"@) || text::has_part(name, "wezterm"@) || text::has_part(
        name,
        "ghostty"@,
    )
}

/// Whether a terminal name is known to stand for Kitty graphics.
pub fn supports_kitty_graphics(value: &str) -> (supported: bool)
    ensures
        supported == names_kitty_graphics(value@),
{
    let name = lowercase_chars(value);
    contains(&name, "kitty") || contains(&name, "wezterm") || contains(&name, "ghostty")
}

/// Terminals that know relative placements name themselves so.
pub open spec fn names_relative_placements(name: Seq<char>) -> bool {
    text::has_part(text::lowercase(name), "kitty"@)
}

/// Whether a terminal name is known to stand for relative placements.
pub fn supports_relative_placements(value: &str) -> (supported: bool)
    ensures
        supported == names_relative_placements(value@),
{
    contains(&lowercase_chars(value), "kitty")
}

/// What the process environment says of the terminal.
pub struct TerminalEnvironment {
    /// `TMUX` is set.
    pub tmux: bool,
    /// `KITTY_WINDOW_ID`, `WEZTERM_PANE` or `GHOSTTY_RESOURCES_DIR` is set.
    pub graphics_variable: bool,
    /// `TERM`, or nothing.
    pub term: String,
    /// `TERM_PROGRAM`, or nothing.
    pub program: String,
}

/// What came of asking tmux something.
pub enum TmuxReply {
    /// tmux could not be run.
    Unavailable,
    /// tmux ran and reported failure.
    Failed,
    /// What tmux printed.
    Output(String),
}

/// Why no transport for Kitty graphics was found.
pub enum TransportError {
    /// tmux could not be asked whether it passes commands on.
    PassthroughUnavailable,
    PassthroughFailed,
    /// tmux does not pass commands on. Its setting follows.
    PassthroughOff(String),
    /// tmux could not be asked for its client terminal.
    ClientUnavailable,
    ClientFailed,
    /// The client terminal is not known to support Kitty graphics.
    ClientUnsupported(String),
    /// The client terminal is not known to support relative placements.
    ClientWithoutPlacements(String),
    /// Nothing in the environment names a terminal with Kitty graphics.
    NotAdvertised,
}

impl TransportError {
    /// The words of the error.
    pub open spec fn words(self) -> Seq<char> {
        match self {
            TransportError::PassthroughUnavailable => "cannot query tmux graphics support"@,
            TransportError::PassthroughFailed => "tmux capability query failed"@,
            TransportError::PassthroughOff(value) => "tmux has allow-passthrough="@ + text::quoted(
                value@,
            ) + "; enable it or use --graphics ansi"@,
            TransportError::ClientUnavailable => "cannot query the tmux client terminal"@,
            TransportError::ClientFailed => "tmux client terminal query failed"@,
            TransportError::ClientUnsupported(name) => "tmux client terminal "@ + text::quoted(
                name@,
            ) + " is not known to support Kitty graphics"@,
            TransportError::ClientWithoutPlacements(name) => "tmux client terminal "@
                + text::quoted(name@)
                + " does not advertise Kitty relative placements; use --graphics ansi"@,
            TransportError::NotAdvertised => "terminal does not advertise Kitty graphics support"@,
        }
    }

    /// The error in words.
    pub fn message(&self) -> (message: String)
        ensures
            message@ == self.words(),
    {
        match self {
            TransportError::PassthroughUnavailable =>
                "cannot query tmux graphics support".to_owned(),
            TransportError::PassthroughFailed => "tmux capability query failed".to_owned(),
            TransportError::PassthroughOff(value) => {
                let mut message = "tmux has allow-passthrough=".to_owned();
                message.append(quote(value.as_str()).as_str());
                message.append("; enable it or use --graphics ansi");
                message
            },
            TransportError::ClientUnavailable => "cannot query the tmux client terminal".to_owned(),
            TransportError::ClientFailed => "tmux client terminal query failed".to_owned(),
            TransportError::ClientUnsupported(name) => {
                let mut message = "tmux client terminal ".to_owned();
                message.append(quote(name.as_str()).as_str());
                message.append(" is not known to support Kitty graphics");
                message
            },
            TransportError::ClientWithoutPlacements(name) => {
                let mut message = "tmux client terminal ".to_owned();
                message.append(quote(name.as_str()).as_str());
                message.append(
                    " does not advertise Kitty relative placements; use --graphics ansi",
                );
                message
            },
            TransportError::NotAdvertised =>
                "terminal does not advertise Kitty graphics support".to_owned(),
        }
    }
}

/// The next step of finding a transport.
pub enum DetectionStep {
    /// Ask tmux for its `allow-passthrough` option.
    AskPassthrough,
    /// Ask tmux for the terminal of its client.
    AskClient,
    /// The search is over.
    Done(Result<Transport, TransportError>),
}

/// Begins the search for a transport.
pub fn detect_transport(environment: &TerminalEnvironment) -> (step: DetectionStep)
    ensures
        match step {
            DetectionStep::AskPassthrough => environment.tmux,
            DetectionStep::AskClient => false,
            DetectionStep::Done(Ok(transport)) => !environment.tmux && transport
                == Transport::Direct && (environment.graphics_variable || names_kitty_graphics(
                environment.term@,
            ) || names_kitty_graphics(environment.program@)),
            DetectionStep::Done(Err(error)) => !environment.tmux && error
                == TransportError::NotAdvertised && !environment.graphics_variable
                && !names_kitty_graphics(environment.term@) && !names_kitty_graphics(
                environment.program@,
            ),
        },
{
    if environment.tmux {
        return DetectionStep::AskPassthrough;
    }
    if environment.graphics_variable || supports_kitty_graphics(environment.term.as_str())
        || supports_kitty_graphics(environment.program.as_str()) {
        DetectionStep::Done(Ok(Transport::Direct))
    } else {
        DetectionStep::Done(Err(TransportError::NotAdvertised))
    }
}

/// Whether tmux says that it passes commands on.
pub open spec fn passes_on(output: Seq<char>) -> bool {
    text::trimmed(output) == "on"@ || text::trimmed(output) == "all"@
}

/// Goes on after the reply about `allow-passthrough`.
pub fn tmux_passthrough(reply: TmuxReply) -> (step: DetectionStep)
    ensures
        match reply {
            TmuxReply::Unavailable => step == DetectionStep::Done(
                Err(TransportError::PassthroughUnavailable),
            ),
            TmuxReply::Failed => step == DetectionStep::Done(
                Err(TransportError::PassthroughFailed),
            ),
            TmuxReply::Output(output) => if passes_on(output@) {
                step == DetectionStep::AskClient
            } else {
                step matches DetectionStep::Done(Err(TransportError::PassthroughOff(value)))
                    && value@ == text::trimmed(output@)
            },
        },
{
    match reply {
        TmuxReply::Unavailable => DetectionStep::Done(Err(TransportError::PassthroughUnavailable)),
        TmuxReply::Failed => DetectionStep::Done(Err(TransportError::PassthroughFailed)),
        TmuxReply::Output(output) => {
            let value = string_of(&trim(output.as_str()));
            if same(value.as_str(), "on") || same(value.as_str(), "all") {
                DetectionStep::AskClient
            } else {
                DetectionStep::Done(Err(TransportError::PassthroughOff(value)))
            }
        },
    }
}

/// Ends the search after the reply about the client terminal.
pub fn tmux_client_terminal(reply: TmuxReply) -> (found: Result<Transport, TransportError>)
    ensures
        match reply {
            TmuxReply::Unavailable => found == Err::<Transport, TransportError>(
                TransportError::ClientUnavailable,
            ),
            TmuxReply::Failed => found == Err::<Transport, TransportError>(
                TransportError::ClientFailed,
            ),
            TmuxReply::Output(output) => {
                let name = text::trimmed(output@);
                if !names_kitty_graphics(name) {
                    found matches Err(TransportError::ClientUnsupported(shown)) && shown@ == name
                } else if !names_relative_placements(name) {
                    found matches Err(TransportError::ClientWithoutPlacements(shown)) && shown@
                        == name
                } else {
                    found == Ok::<Transport, TransportError>(Transport::Tmux)
                }
            },
        },
{
    match reply {
        TmuxReply::Unavailable => Err(TransportError::ClientUnavailable),
        TmuxReply::Failed => Err(TransportError::ClientFailed),
        TmuxReply::Output(output) => {
            let name = string_of(&trim(output.as_str()));
            if !supports_kitty_graphics(name.as_str()) {
                Err(TransportError::ClientUnsupported(name))
            } else if !supports_relative_placements(name.as_str()) {
                Err(TransportError::ClientWithoutPlacements(name))
            } else {
                Ok(Transport::Tmux)
            }
        },
    }
}

/// The graphics that the viewer uses.
pub enum Selection {
    Ansi { reason: Option<String> },
    Kitty(Renderer),
}

/// The first image id of a process: a multiple of 8192 that is never zero.
pub open spec fn id_base(pid: u32) -> int {
    ((pid % 2047) + 1) * 8192
}

/// The first image id of a process. Placeholders carry 24 bits of an image id in their foreground
/// colour. Thirteen low bits number the images, and the others the process; namespace zero would
/// make the first tile use the invalid id zero.
pub fn image_id_base(pid: u32) -> (base: u32)
    ensures
        base == id_base(pid),
{
    ((pid % 2047) + 1) * 8192
}

/// The state of a renderer that has sent nothing.
pub open spec fn fresh(transport: Transport, pid: u32) -> RendererState {
    RendererState {
        transport,
        base: id_base(pid) as u32,
        tiles: Map::empty(),
        known: Set::empty(),
        atlas: None,
        dimensions: None,
    }
}

impl Selection {
    /// Chooses the graphics. What was detected matters only where Kitty graphics are wanted.
    pub fn select(
        mode: GraphicsMode,
        detected: Option<Result<Transport, TransportError>>,
        pid: u32,
    ) -> (selection: Result<Selection, TransportError>)
        requires
            mode != GraphicsMode::Ansi ==> detected is Some,
        ensures
            match (mode, detected) {
                (GraphicsMode::Ansi, _) => selection == Ok::<Selection, TransportError>(
                    Selection::Ansi { reason: None },
                ),
                (_, Some(Ok(transport))) => selection matches Ok(Selection::Kitty(renderer))
                    && renderer.wf() && renderer@ == fresh(transport, pid),
                (GraphicsMode::Auto, Some(Err(error))) => selection matches Ok(
                    Selection::Ansi { reason: Some(reason) },
                ) && reason@ == error.words(),
                (_, Some(Err(error))) => selection == Err::<Selection, TransportError>(error),
                (_, None) => true,
            },
    {
        match (mode, detected) {
            (GraphicsMode::Ansi, _) => Ok(Selection::Ansi { reason: None }),
            (_, Some(Ok(transport))) => Ok(
                Selection::Kitty(Renderer::new(transport, image_id_base(pid))),
            ),
            (GraphicsMode::Auto, Some(Err(error))) => Ok(
                Selection::Ansi { reason: Some(error.message()) },
            ),
            (_, Some(Err(error))) => Err(error),
            (_, None) => Ok(Selection::Ansi { reason: None }),
        }
    }
}

} // verus!
