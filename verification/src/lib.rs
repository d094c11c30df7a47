//! Composes a desktop wallpaper that carries the machine's identity as text,
//! and plans how it is installed and restored.

pub mod geometry;
pub mod installer;
pub mod netinfo;
pub mod picture;
pub mod shell;
pub mod text;
pub mod watermark;
