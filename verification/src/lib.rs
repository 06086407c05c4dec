//! Core logic of a scripted 2D game engine: frame timing, engine status,
//! save-file framing, input state tracking, physics pair filtering,
//! script-module tables, logging decisions, configuration and window
//! settings, and the audio registry.
pub mod status;
pub mod frame;
pub mod save;
pub mod text;
pub mod input;
pub mod logging;
pub mod hooks;
pub mod table;
pub mod modules;
pub mod config;
pub mod capture;
pub mod events;
pub mod graphics;
pub mod window;
pub mod audio;
pub mod ostime;
pub mod engine_loop;
