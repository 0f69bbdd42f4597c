//! Focus-session manager core: hosts-file overlay with backup and restore,
//! process blocking, Pomodoro scheduling and the session lifecycle.

pub mod audio;
pub mod config;
pub mod hosts;
pub mod lifecycle;
pub mod platform;
pub mod pomodoro;
pub mod process;
pub mod report;
pub mod session;
pub mod span;
pub mod store;
pub mod text;

pub use config::{load_config, Config, PomodoroDefaults, StartArgs};
pub use hosts::get_hosts_path;
pub use process::block_applications;
pub use store::{block_websites, unblock_websites};
