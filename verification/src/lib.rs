//! Verified core of the Khushu prayer-times application: configuration
//! model, locale resolution and translation lookup, location text handling,
//! the prayer timer state machine, audio playback decisions and the small
//! pieces of settings logic that map choices to configuration values.
pub mod text;
pub mod timer;
pub mod config;
pub mod i18n;
pub mod location;
pub mod audio;
pub mod settings;
pub mod display;
pub mod compass;
pub mod autostart;
