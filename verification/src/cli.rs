//! The process configuration.
//!
//! Parsed once at startup and immutable for the process lifetime. The
//! argument parsing itself lives outside the library; what arrives here is
//! the plain record of flags and initial paths.

use vstd::prelude::*;

use crate::render::RenderMode;

verus! {

/// The configuration a run starts with.
pub struct Cli {
    /// Be verbose.
    pub verbose: bool,
    /// Act as a drop target instead of a drag source.
    pub target: bool,
    /// In target mode, keep dropped files staged so they can be dragged out.
    pub keep: bool,
    /// In target mode, print the resolved path instead of the raw line.
    pub print_path: bool,
    /// Make the window resizable.
    pub resizable: bool,
    /// Exit after the first completed drag or drop.
    pub and_exit: bool,
    /// Only display icons, no labels.
    pub icons_only: bool,
    /// Do not load thumbnails from images.
    pub disable_thumbnails: bool,
    /// Size of icons and thumbnails.
    pub icon_size: i32,
    /// Minimum width of the main window.
    pub content_width: i32,
    /// Default height of the main window.
    pub content_height: i32,
    /// Accept paths from standard input.
    pub from_stdin: bool,
    /// Drag all the items together from every individual unit.
    pub all: bool,
    /// Show only the number of items and drag them together.
    pub all_compact: bool,
    /// The paths to stage at startup.
    pub paths: Vec<String>,
}

impl Cli {
    /// The render mode the flags select: one aggregate unit when compact
    /// display is asked for, one unit per path otherwise.
    pub open spec fn spec_render_mode(&self) -> RenderMode {
        if self.all_compact {
            RenderMode::Compact
        } else {
            RenderMode::Expanded
        }
    }

    /// The render mode the flags select.
    pub fn render_mode(&self) -> (m: RenderMode)
        ensures
            m == self.spec_render_mode(),
    {
        if self.all_compact {
            RenderMode::Compact
        } else {
            RenderMode::Expanded
        }
    }
}

} // verus!
