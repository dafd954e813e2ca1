//! Verified core of a desktop front end for `cloudflared`: parsing of the
//! tool's output, validation of user input, command lines and messages.

pub mod text;
pub mod pattern;
pub mod json_field;
pub mod credentials;
pub mod tunnel;
pub mod commands;
pub mod logs;
pub mod download;
pub mod window;
pub mod route;
pub mod process;
