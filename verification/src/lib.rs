//! Core of a small retained-mode 2D engine: frame orchestration and
//! render-resource synchronization.
//!
//! All geometry, transforms and colors are modelled in Q16.16 fixed-point
//! arithmetic, so that every step from a drawable to the data handed to the
//! graphics device is a total, verified function. The engine emits device
//! operations and draw calls as plain values; an unverified shell executes
//! them against the real window and graphics device.

pub mod fixed;
pub mod material;
pub mod scene;
pub mod render_state;
pub mod events;
pub mod settings;
pub mod texture;
pub mod stray;

pub use fixed::SCALE;
