//! Verified core of the WaVoic voice-chat mixer: the sample bookkeeping of the
//! carrier loop and the voice pool, the audio library index, hotkey accelerator
//! parsing and audio-device selection.

pub mod audio;
pub mod config;
pub mod hotkeys;
pub mod library;
pub mod text;
