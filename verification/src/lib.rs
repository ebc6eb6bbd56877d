//! Verified core of a Dr.COM campus-network auto-login tool: the rules that
//! classify portal replies, the password transform, campus detection, the
//! daemon's retry policy, configuration checks, autostart files and the
//! setup form's editing model.
pub mod text;
pub mod url;
pub mod config;
pub mod network;
pub mod portal;
pub mod daemon;
pub mod autostart;
pub mod tui;
pub mod logging;
