//! What the session knows of a surface: a tab's terminal or browser page.

use vstd::prelude::*;

use crate::node::SurfaceId;

verus! {

/// An RGB color.
#[derive(Debug, Clone, Copy, PartialEq, Eq, Structural)]
pub struct Rgb {
    pub r: u8,
    pub g: u8,
    pub b: u8,
}

/// The host terminal's default colors, as far as they are known.
#[derive(Debug, Clone, Copy, PartialEq, Eq)]
pub struct DefaultColors {
    pub fg: Option<Rgb>,
    pub bg: Option<Rgb>,
}

/// What drives a surface.
#[derive(Debug, Clone, Copy, PartialEq, Eq, Structural)]
pub enum SurfaceKind {
    Pty,
    Browser,
}

impl SurfaceKind {
    pub open spec fn text(self) -> Seq<char> {
        match self {
            SurfaceKind::Pty => "pty"@,
            SurfaceKind::Browser => "browser"@,
        }
    }

    pub fn as_str(self) -> (text: &'static str)
        ensures
            text@ == self.text(),
    {
        match self {
            SurfaceKind::Pty => "pty",
            SurfaceKind::Browser => "browser",
        }
    }
}

/// Where the browser behind a surface comes from.
#[derive(Debug, Clone, Copy, PartialEq, Eq, Structural)]
pub enum BrowserSource {
    External,
    Launched,
}

impl BrowserSource {
    pub open spec fn text(self) -> Seq<char> {
        match self {
            BrowserSource::External => "external"@,
            BrowserSource::Launched => "launched"@,
        }
    }

    pub fn as_str(self) -> (text: &'static str)
        ensures
            text@ == self.text(),
    {
        match self {
            BrowserSource::External => "external",
            BrowserSource::Launched => "launched",
        }
    }
}

/// How surfaces are made.
#[derive(Debug)]
pub struct SurfaceOptions {
    /// The command of a terminal, or the user's shell.
    pub command: Option<Vec<String>>,
    pub cwd: Option<String>,
    /// Size in cells where nobody asks for another.
    pub cols: u16,
    pub rows: u16,
    pub term: String,
    pub cdp_url: Option<String>,
    pub browser_discover: bool,
    pub browser_discover_ports: Vec<u16>,
    pub chrome_binary: Option<String>,
    pub browser_ephemeral: bool,
    pub browser_user_data_dir: Option<String>,
}

/// A surface as the session sees it. The terminal or page behind it runs
/// elsewhere and reports its title, working directory and end.
#[derive(Debug)]
pub struct Surface {
    pub id: SurfaceId,
    pub kind: SurfaceKind,
    pub browser_source: Option<BrowserSource>,
    /// The name that the user gave, if any.
    pub name: Option<String>,
    pub title: String,
    /// Size in cells.
    pub cols: u16,
    pub rows: u16,
    pub pwd: Option<String>,
    /// The child has exited or the page is gone.
    pub dead: bool,
}

} // verus!
