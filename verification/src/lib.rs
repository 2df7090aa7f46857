//! Verified decision logic of a compositor's native Wayland popups: grab
//! authorization and reconciliation, touch-contact bookkeeping, placement
//! targets and the popup part of the render scene.

pub mod geometry;
pub mod identity;
pub mod serials;
pub mod touch;
pub mod popups;
pub mod placement;
pub mod refresh;
pub mod render;
