//! The command line: which front end to start, on which workspace, and how
//! the web server binds and opens a browser.
use vstd::prelude::*;

use crate::config::LaunchMode;
use crate::web::WebOptions;
use crate::text::{opt_text, str_eq};

verus! {

/// The subcommands.
#[derive(Clone, Debug)]
pub enum Subcommand {
    /// Launch GG in GUI mode (default).
    Gui {
        /// Open this directory (instead of the current working directory).
        workspace: Option<String>,
    },
    /// Launch GG in web mode.
    Web {
        /// Open this directory (instead of the current working directory).
        workspace: Option<String>,
        /// Port to bind to (0 = random).
        port: Option<u16>,
        /// Open a browser automatically (overrides gg.web.launch-browser config).
        launch: bool,
        /// Don't open a browser automatically (overrides gg.web.launch-browser config).
        no_launch: bool,
    },
}

/// The parsed command line.
#[derive(Clone, Debug)]
pub struct Args {
    pub command: Option<Subcommand>,
    /// Open this directory (instead of the current working directory).
    pub workspace: Option<String>,
    /// Enable debug logging.
    pub debug: bool,
    /// Start with immutability checks disabled.
    pub ignore_immutable: bool,
    /// Run in foreground (don't spawn a background process).
    pub foreground: bool,
}

/// The text of an optional string.
pub open spec fn opt_view(s: Option<String>) -> Option<Seq<char>> {
    match s {
        Some(t) => Some(t@),
        None => None,
    }
}

/// Copies an optional string.
fn copy_opt(s: &Option<String>) -> (r: Option<String>)
    ensures
        opt_view(r) == opt_view(*s),
{
    match s {
        Some(t) => Some(String::from_str(t.as_str())),
        None => None,
    }
}

impl Args {
    /// The mode a subcommand asks for, if any.
    pub fn mode(&self) -> (r: Option<LaunchMode>)
        ensures
            r == (match self.command {
                Some(Subcommand::Gui { .. }) => Some(LaunchMode::Gui),
                Some(Subcommand::Web { .. }) => Some(LaunchMode::Web),
                None => None,
            }),
    {
        match &self.command {
            Some(Subcommand::Gui { .. }) => Some(LaunchMode::Gui),
            Some(Subcommand::Web { .. }) => Some(LaunchMode::Web),
            None => None,
        }
    }

    /// The mode to start in: the subcommand's, else the configured default.
    pub fn launch_mode(&self, configured: LaunchMode) -> (r: LaunchMode)
        ensures
            r == (match self.command {
                Some(Subcommand::Gui { .. }) => LaunchMode::Gui,
                Some(Subcommand::Web { .. }) => LaunchMode::Web,
                None => configured,
            }),
    {
        match self.mode() {
            Some(m) => m,
            None => configured,
        }
    }

    /// The workspace to open: the subcommand's, else the one given before it.
    pub fn workspace(&self) -> (r: Option<String>)
        ensures
            opt_view(r) == (match self.command {
                Some(Subcommand::Gui { workspace }) => opt_view(workspace),
                Some(Subcommand::Web { workspace, .. }) => opt_view(workspace),
                None => opt_view(self.workspace),
            }),
    {
        match &self.command {
            Some(Subcommand::Gui { workspace }) => copy_opt(workspace),
            Some(Subcommand::Web { workspace, .. }) => copy_opt(workspace),
            None => copy_opt(&self.workspace),
        }
    }

    /// The web options of `gg web`; the defaults otherwise.
    pub fn web_options(&self) -> (r: WebOptions)
        ensures
            r == (match self.command {
                Some(Subcommand::Web { port, launch, no_launch, .. }) => WebOptions {
                    port,
                    launch,
                    no_launch,
                },
                _ => WebOptions { port: None, launch: false, no_launch: false },
            }),
    {
        match &self.command {
            Some(Subcommand::Web { port, launch, no_launch, .. }) => WebOptions {
                port: *port,
                launch: *launch,
                no_launch: *no_launch,
            },
            _ => WebOptions::default(),
        }
    }
}

/// Whether a Windows launch starts the GUI in the background and exits: only
/// the launcher binary `gg.exe` does, and only when not asked to stay in
/// the foreground.
pub open spec fn launches_in_background(exe_file_name: Option<Seq<char>>, foreground: bool) -> bool {
    exe_file_name == Some("gg.exe"@) && !foreground
}

/// Decides whether to start the GUI in the background.
pub fn launch_in_background(exe_file_name: Option<&str>, foreground: bool) -> (r: bool)
    ensures
        r == launches_in_background(opt_text(exe_file_name), foreground),
{
    let is_launcher = match exe_file_name {
        Some(n) => str_eq(n, "gg.exe"),
        None => false,
    };
    is_launcher && !foreground
}

}
