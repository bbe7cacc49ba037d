# alvr_capture

The decisions behind PC-side capture for a VR streamer, verified with Verus:
what screenshots and recordings are called, which global hotkeys are registered
and what a press does, how a soundtrack keeps step with the pictures, how many
pictures a bitstream holds, and how a finished take is remuxed with ffmpeg.

## Layout

- `src/` is the library. Every function states what it returns in `requires` and
  `ensures`; public proof functions state what holds across functions.
  - `text`, `decimals`: text and numbers written out.
  - `hotkeys`, `hotkey_monitor`: hotkey strings, bindings, debouncing.
  - `frame_rate`, `pcm`, `nal`: exact rates, sound by the byte, NAL units.
  - `recording_source`, `recording_mux`, `ffmpeg`: what goes into a take and how
    it becomes one Matroska file.
  - `audio_recording`, `capture_paths`, `feedback_sounds`, `debug_panel`,
    `mock_client`: WAV recordings, names, tones, buttons, a mock headset.
- `tests/` runs the library on concrete values.
- `app/` is ordinary Rust around the library: threads, files, ffmpeg, Windows
  hotkeys, audio output, and the mock headset's window and stream. It uses the
  streamer's own crates (`alvr_client_core` and those beside it).

Times are nanoseconds of one clock and rates are exact fractions. Floating point
stays in `app/`.
