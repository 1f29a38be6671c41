pub mod carrier;
pub mod mic_capture;
pub mod music_player;
pub mod types;
pub mod virtual_sink;
