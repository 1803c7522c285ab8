//! The terminal screens: what each does with a key press, and where it leads.
pub mod screen;
pub mod login;
pub mod register;
pub mod browse;
pub mod leaderboard;
pub mod about;
pub mod home;
