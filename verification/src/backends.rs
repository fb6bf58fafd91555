//! What the daemon needs from a desktop: window geometry, errors, and the
//! window interface every compositor backend provides.

use vstd::prelude::*;

verus! {

/// Position and size of a desktop window.
#[derive(Debug, Clone, Copy, PartialEq, Eq, Structural)]
pub struct WindowGeometry {
    pub x: i32,
    pub y: i32,
    pub width: u32,
    pub height: u32,
}

/// Why a backend could not do what was asked.
#[derive(Debug, Clone, PartialEq, Eq)]
pub enum BackendError {
    InitializationFailed(String),
    WindowCreationFailed(String),
    WindowError(String),
    Unsupported,
}

/// A pet's window on some compositor.
pub trait DesktopWindow {
    /// Update the window dimensions.
    fn set_size(&mut self, width: u32, height: u32) -> Result<(), BackendError>;

    /// Update the window's position on the screen.
    fn set_position(&mut self, x: i32, y: i32) -> Result<(), BackendError>;

    /// Write a pixel buffer (ARGB8888) to the window.
    fn present_pixels(&mut self, pixels: &[u32]) -> Result<(), BackendError>;

    /// Enable or disable click-through (input region handling).
    fn set_click_through(&mut self, click_through: bool) -> Result<(), BackendError>;
}

/// The GNOME/Mutter backend: not implemented yet, so it reports no screens,
/// no cursor and no clicks, and refuses to create windows.
pub struct GnomeBackend;

} // verus!
