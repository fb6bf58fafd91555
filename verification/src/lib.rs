//! Verified core of a Wayland desktop pet: pixel compositing, frame
//! rescaling, animation clocks and the integer side of the pet state machine.

pub mod pixel;
pub mod state;
pub mod render;
pub mod assets;
pub mod daemon;
pub mod theme;
pub mod behavior;
pub mod backends;
