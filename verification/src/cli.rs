//! Command-line arguments.
//!
//! The flag surface is deliberately tiny: everything about the interaction
//! lives in the HTML the caller provides, so the only flags here shape the
//! window or bound the wait. Parsing the command line happens outside this
//! library; this is the value it produces.

use vstd::prelude::*;

verus! {

/// The tool's version, shown by `--version`, to the page and in the
/// User-Agent.
pub const VERSION: &'static str = "0.2.0";

/// The window title when `--title` is not given.
pub const DEFAULT_TITLE: &'static str = "webview";

/// The window width, in logical pixels, when `--width` is not given.
pub const DEFAULT_WIDTH: u32 = 800;

/// The window height, in logical pixels, when `--height` is not given.
pub const DEFAULT_HEIGHT: u32 = 600;

/// Parsed command-line arguments.
#[derive(Debug, Clone, PartialEq, Eq)]
pub struct Cli {
    /// The page to render: a file path or an `http(s)` URL. `None` reads HTML
    /// from stdin.
    pub path: Option<String>,
    /// Window title.
    pub title: String,
    /// Window width in logical pixels.
    pub width: u32,
    /// Window height in logical pixels.
    pub height: u32,
    /// Open developer tools on launch (when the build supports it).
    pub devtools: bool,
    /// Path to an image to show as the Dock icon while the window is open
    /// (macOS only).
    pub icon: Option<String>,
    /// Exit with the timeout code if the page hasn't settled within this many
    /// milliseconds.
    pub timeout_ms: Option<u64>,
}

} // verus!
