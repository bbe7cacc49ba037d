use alvr_capture::audio_recording::{
    count_chunk, patch_wav_sizes, wav_rates_fit, write_wav_header_placeholder, AudioRecState,
    AudioRecordingWriter, WriterOutcome,
};
use alvr_capture::debug_panel::{debug_request, DebugClicks, DebugRequest};
use alvr_capture::feedback_sounds::{tone, FeedbackKind, FeedbackSounds, PlayStep, Tone};
use alvr_capture::frame_rate::FrameRate;
use alvr_capture::mock_client::{
    advertised_size, align32_u32, largest_picture, ClientEvent, StreamCodec, TrackingStep,
    ViewParamsGate, ViewSize, WindowOutput,
};

#[test]
fn start_writes_wav_immediately() {
    let mut w = AudioRecordingWriter::new();
    let start = w.start("dir/recording_test", 44100, 2);
    assert_eq!(start.path, "dir/recording_test.wav");
    assert!(wav_rates_fit(start.sample_rate, start.channels));
    let mut file = write_wav_header_placeholder(start.sample_rate, start.channels);
    w.opened(start);
    assert_eq!(w.state(), AudioRecState::Recording);
    assert_eq!(w.sample_rate(), 44100);
    let queued = w.write_pcm_bytes(&[0, 0, 0, 0, 100, 0, 156, 255]).unwrap();
    file.extend_from_slice(&queued);
    let data_bytes = count_chunk(0, queued.len());
    let (riff, data) = patch_wav_sizes(data_bytes);
    for patch in [riff, data] {
        let at = patch.offset as usize;
        file[at..at + patch.bytes.len()].copy_from_slice(&patch.bytes);
    }
    assert_eq!(w.finalize(WriterOutcome::Finished(data_bytes)), Ok(()));
    assert_eq!(w.state(), AudioRecState::Idle);
    let hdr = &file[0..44];
    assert_eq!(&hdr[0..4], b"RIFF");
    assert_eq!(&hdr[8..12], b"WAVE");
    // sample rate little-endian at offset 24
    let rate = u32::from_le_bytes([hdr[24], hdr[25], hdr[26], hdr[27]]);
    assert_eq!(rate, 44100);
    assert_eq!(
        hdr,
        b"RIFF\x2c\0\0\0WAVEfmt \x10\0\0\0\x01\0\x02\0\x44\xac\0\0\x10\xb1\x02\0\x04\0\x10\0data\x08\0\0\0"
    );
    assert_eq!(&file[44..], &[0, 0, 0, 0, 100, 0, 156, 255]);
}

#[test]
fn a_new_writer_is_idle() {
    let w = AudioRecordingWriter::default();
    assert_eq!(w.state(), AudioRecState::Idle);
    assert_eq!((w.sample_rate(), w.channels), (48000, 2));
    assert_eq!(w.path, None);
}

#[test]
fn write_while_idle_is_noop() {
    let w = AudioRecordingWriter::new();
    assert!(w.write_pcm_bytes(&[1, 2, 3, 4]).is_none());
    assert_eq!(w.state(), AudioRecState::Idle);
}

#[test]
fn a_file_that_was_not_created_leaves_the_writer_idle() {
    let mut w = AudioRecordingWriter::new();
    let start = w.start("a", 0, 0);
    assert_eq!((start.sample_rate, start.channels), (1, 1));
    assert_eq!(w.state(), AudioRecState::Idle);
    assert_eq!(w.sample_rate(), 48000);
}

#[test]
fn writer_failures_end_a_recording() {
    let mut w = AudioRecordingWriter::new();
    for (outcome, expected) in [
        (WriterOutcome::NotRunning, Ok(())),
        (WriterOutcome::Finished(4), Ok(())),
        (WriterOutcome::Panicked, Ok(())),
        (WriterOutcome::Failed("disk full".to_string()), Err("disk full".to_string())),
    ] {
        let start = w.start("a", 44100, 2);
        w.opened(start);
        assert_eq!(w.finalize(outcome), expected);
        assert_eq!(w.state(), AudioRecState::Idle);
        assert_eq!(w.path, None);
        assert_eq!(w.sample_rate(), 44100);
    }
}

#[test]
fn sizes_stop_at_their_end() {
    let (riff, data) = patch_wav_sizes(u32::MAX);
    assert_eq!((riff.offset, riff.bytes), (4, vec![255; 4]));
    assert_eq!((data.offset, data.bytes), (40, vec![255; 4]));
    assert_eq!(patch_wav_sizes(u32::MAX - 36).0.bytes, vec![255; 4]);
    assert_eq!(patch_wav_sizes(u32::MAX - 37).0.bytes, vec![254, 255, 255, 255]);
    assert_eq!(count_chunk(u32::MAX - 3, 8), u32::MAX);
    assert_eq!(count_chunk(5, 0x1_0000_0007), 12);
    assert!(wav_rates_fit(134_217_727, 2));
    assert!(!wav_rates_fit(134_217_728, 2));
    assert!(!wav_rates_fit(1, 4096));
    assert!(wav_rates_fit(1, 4095));
}

#[test]
fn feedback_tones() {
    let start = tone(FeedbackKind::RecStart);
    let stop = tone(FeedbackKind::RecStop);
    let shot = tone(FeedbackKind::Screenshot);
    assert_eq!((shot.hertz, shot.millis, shot.percent), (1200, 60, 20));
    assert_eq!((start.hertz, start.millis, start.percent), (880, 120, 20));
    assert_eq!((stop.hertz, stop.millis, stop.percent), (440, 120, 20));
    assert!(start.hertz > stop.hertz);
}

#[test]
fn the_audio_device_opens_on_first_play() {
    let mut sounds = FeedbackSounds::start();
    assert_eq!(sounds.play(FeedbackKind::RecStart, false), PlayStep::Silent);
    assert!(!sounds.started);
    assert_eq!(
        sounds.play(FeedbackKind::RecStart, true),
        PlayStep::OpenAndQueue(Tone { hertz: 880, millis: 120, percent: 20 })
    );
    assert_eq!(
        sounds.play(FeedbackKind::Screenshot, true),
        PlayStep::Queue(Tone { hertz: 1200, millis: 60, percent: 20 })
    );
    assert_eq!(sounds.play(FeedbackKind::RecStop, false), PlayStep::Silent);
}

#[test]
fn debug_buttons() {
    let none = DebugClicks {
        capture_frame: false,
        insert_idr: false,
        start_recording: false,
        stop_recording: false,
    };
    assert_eq!(debug_request(none), None);
    let capture = DebugClicks { capture_frame: true, ..none };
    assert_eq!(debug_request(capture), Some(DebugRequest::CaptureFrame));
    let idr = DebugClicks { insert_idr: true, ..capture };
    assert_eq!(debug_request(idr), Some(DebugRequest::InsertIdr));
    let start = DebugClicks { start_recording: true, ..idr };
    assert_eq!(debug_request(start), Some(DebugRequest::StartRecording));
    let stop = DebugClicks { stop_recording: true, ..start };
    assert_eq!(debug_request(stop), Some(DebugRequest::StopRecording));
}

#[test]
fn view_sizes_are_aligned() {
    for v in [0, 1, 31, 32, 33, 63, 64, 1832, 1920, 8192, u32::MAX] {
        assert_eq!(align32_u32(v), v.max(32) & !31);
        assert_eq!(align32_u32(align32_u32(v)), align32_u32(v));
    }
    assert_eq!(
        advertised_size(ViewSize { width: 1920, height: 1832 }),
        ViewSize { width: 1920, height: 1824 }
    );
}

#[test]
fn the_largest_picture_is_shown() {
    let size = |width: u32, height: u32| ViewSize { width, height };
    assert_eq!(largest_picture(&[]), None);
    assert_eq!(largest_picture(&[size(0, 9)]), Some(0));
    assert_eq!(
        largest_picture(&[size(16, 16), size(64, 32), size(32, 64), size(48, 8)]),
        Some(2)
    );
    assert_eq!(
        largest_picture(&[size(u32::MAX, u32::MAX), size(u32::MAX, u32::MAX - 1)]),
        Some(0)
    );
}

#[test]
fn client_events_change_what_is_shown() {
    let fps = FrameRate::whole(72);
    let resolution = ViewSize { width: 64, height: 32 };
    let mut out = WindowOutput::default();
    assert_eq!(
        out.on_event(ClientEvent::UpdateHudMessage("hi".to_string())),
        TrackingStep::Keep
    );
    assert_eq!(out.hud_message, "hi");
    assert_eq!(
        out.on_event(ClientEvent::StreamingStarted { fps, resolution }),
        TrackingStep::Start(fps)
    );
    assert!(out.connected);
    assert_eq!((out.fps, out.resolution), (fps, resolution));
    assert_eq!(
        out.on_event(ClientEvent::DecoderConfig(StreamCodec::Hevc)),
        TrackingStep::Keep
    );
    assert_eq!(out.decoder_codec, Some(StreamCodec::Hevc));
    assert_eq!(out.on_event(ClientEvent::Other), TrackingStep::Keep);
    assert_eq!(out.on_event(ClientEvent::StreamingStopped), TrackingStep::Stop);
    assert!(!out.connected);
    assert_eq!(out.fps, FrameRate::whole(1));
    assert_eq!(out.resolution, ViewSize { width: 0, height: 0 });
    assert_eq!(out.decoder_codec, None);
    assert_eq!(out.hud_message, "hi");
}

#[test]
fn view_params_are_sent_eagerly_at_first() {
    let mut gate = ViewParamsGate::new();
    for _ in 1..30 {
        assert!(gate.tick(false));
    }
    assert!(!gate.tick(false));
    assert!(gate.tick(true));
    let mut worn = ViewParamsGate { ticks: u32::MAX };
    assert!(!worn.tick(false));
    assert_eq!(worn.ticks, u32::MAX);
}
