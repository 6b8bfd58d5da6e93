//! The rules behind a shader wallpaper for Wayland: what a colour argument means, how the
//! daemon answers a request, what a batch of commands does to the uniforms, which texture a
//! frame reads and writes, and in which order a surface is drawn and configured.
pub mod single;
pub mod uniform;
pub mod params;
pub mod path;
pub mod config;
pub mod ipc;
pub mod pixels;
pub mod wallpaper;
pub mod text;
pub mod renderer;
pub mod schedule;
pub mod cli;
