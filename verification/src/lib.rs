//! Remote control of terminal sessions: the rules and decisions behind a session API and the
//! tools that drive it.

pub mod attach;
pub mod auth;
pub mod base64_text;
pub mod command_laws;
pub mod creation;
pub mod json;
pub mod listing;
pub mod names;
pub mod params;
pub mod percent;
pub mod read_image;
pub mod read_screen;
pub mod screen;
pub mod sessions;
pub mod terminal_wait;
pub mod text;
pub mod tools;
pub mod web_capture;
pub mod web_login;
pub mod web_server;
