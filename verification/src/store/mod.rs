//! The hotkey and custom uploader configuration: defaults and the TOML
//! text written for them (reading them back is the TOML parser's).

pub mod hotkeys;
pub mod uploaders;

pub use hotkeys::HotkeyConfig;
pub use uploaders::{ProfileView, UploaderConfig, UploaderProfile, profiles_view};
