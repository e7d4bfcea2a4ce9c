//! Interaction engine of a 2D canvas editor: world/screen coordinates,
//! hit-testing of node handles, selection, marquee, drag and resize.
//!
//! All geometry is integral. World coordinates and sizes are whole world
//! units, screen coordinates are milli-pixels, and the zoom is a number of
//! thousandths, so that a world unit covers `zoom` milli-pixels on screen.

pub mod viewport;
pub mod rg_rect;
pub mod rg_editor;
pub mod generate;

pub use generate::generate_nodes;
pub use rg_editor::{Bounds, RgEditor};
pub use rg_rect::{CursorStyle, Point, ResizeHandle, RgRect};
