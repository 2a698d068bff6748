//! Decision logic of a terminal viewer for a remote Wayland desktop.

pub mod arith;
pub mod atlas_laws;
pub mod capture;
pub mod cell_laws;
pub mod cells;
pub mod command_laws;
pub mod config;
pub mod config_laws;
pub mod device_laws;
pub mod discovery;
pub mod discovery_laws;
pub mod draw;
pub mod draw_laws;
pub mod event_laws;
pub mod fixture;
pub mod image_laws;
pub mod input;
pub mod frame_laws;
pub mod json;
pub mod keys;
pub mod keys_laws;
pub mod kitty;
pub mod kitty_laws;
pub mod layout;
pub mod line_laws;
pub mod niri;
pub mod ordered;
pub mod palette_laws;
pub mod pixels;
pub mod placeholder;
pub mod protocol_laws;
pub mod pump;
pub mod quality;
pub mod quality_laws;
pub mod render;
pub mod render_laws;
pub mod reply_laws;
pub mod report;
pub mod screen;
pub mod screencopy;
pub mod scroll;
pub mod scroll_laws;
pub mod selection;
pub mod session;
pub mod session_laws;
pub mod surface_laws;
pub mod terminal;
pub mod text;
pub mod text_laws;
pub mod tile_laws;
pub mod timing_laws;
pub mod viewer;
pub mod viewer_laws;
pub mod word_laws;
