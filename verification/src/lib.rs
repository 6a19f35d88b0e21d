//! Core of a headless LED-matrix display node: scene model, sprite
//! animation, persistent key/value store with its command pipeline,
//! frame-buffer exchange, and the compositor state machine.

pub mod api;
pub mod cache;
pub mod codec;
pub mod compositor;
pub mod color;
pub mod directory;
pub mod exchange;
pub mod image;
pub mod panel;
pub mod scene;
pub mod sprite;
pub mod store;
pub mod style;
pub mod wifi;
