//! Decisions behind PC-side capture for a VR streamer: screenshot and recording
//! names, global hotkeys, recording audio timing, picture counting and the
//! remux of a finished take.

pub mod text;
pub mod decimals;
pub mod hotkeys;
pub mod hotkey_monitor;
pub mod frame_rate;
pub mod recording_source;
pub mod nal;
pub mod pcm;
pub mod ffmpeg;
pub mod recording_mux;
pub mod capture_paths;
pub mod audio_recording;
pub mod feedback_sounds;
pub mod debug_panel;
pub mod mock_client;
