//! Terminal emulator core.
pub mod text;
pub mod color;
pub mod screen;
pub mod input;
pub mod shells;
pub mod icons;
pub mod image;
pub mod settings;
pub mod order;
pub mod app;
pub mod cards;
pub mod look;
