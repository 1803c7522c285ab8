//! SSHack: a capture-the-flag platform reached over ssh.
//!
//! This crate holds the platform's verified core: the relational model of the
//! users / flags / cleared tables with every query the platform runs on it,
//! the input state machines of the terminal screens, configuration and theme
//! decoding, the flag-file commands and the sftp session bookkeeping.
pub mod text;
pub mod password;
pub mod database;
pub mod users;
pub mod laws;
pub mod keys;
pub mod theme;
pub mod conf;
pub mod screens;
pub mod cli;
pub mod app;
pub mod sftp;
pub mod input;
