use alvr_capture::decimals::fixed_text;
use alvr_capture::ffmpeg::{
    ffmpeg_candidates, ffmpeg_outcome, mux_args, FfmpegCandidate, MuxArg,
};
use alvr_capture::frame_rate::{mux_fps_from_pictures, round_div, FrameRate};
use alvr_capture::nal::{count_coded_pictures, nal_payloads, NalSpan};
use alvr_capture::pcm::{
    align_pcm, checked_pcm_bytes, pad_target_before_chunk, pcm_bytes_between,
    pcm_bytes_for_duration, silence_piece, AudioStep, AudioTrack,
};
use alvr_capture::recording_mux::{
    audio_is_done, demuxer_for, measure_take, plan_mux, wait_step, LiveMuxSession, Take, TimedBytes, VideoStep, VideoTrack,
    WaitStep,
};
use alvr_capture::recording_source::{
    mux_stream_nals, on_pre_ffr_nal, should_keep_recording_frame, should_prefix_decoder_config,
    RecordingVideoSource,
};
use std::time::Duration;

fn fps(rate: FrameRate) -> f64 {
    rate.num as f64 / rate.den as f64
}

#[test]
fn pad_before_chunk_does_not_shift_samples_past_now() {
    // 100 ms of stereo s16le at 48 kHz = 19200 bytes.
    let wall = 19200u64;
    let chunk = 19200usize;
    assert_eq!(pad_target_before_chunk(wall, chunk), 0);
}

#[test]
fn pad_before_chunk_keeps_true_gaps() {
    let wall = 48000u64;
    let chunk = 19200usize;
    assert_eq!(pad_target_before_chunk(wall, chunk), 28800);
}

#[test]
fn pad_before_chunk_aligns_pcm_frames() {
    assert_eq!(pad_target_before_chunk(7, 3), 4);
}

#[test]
fn mux_fps_matches_picture_span_not_the_cap_setting() {
    let fps = fps(mux_fps_from_pictures(
        270,
        Duration::from_secs(10).as_nanos(),
        Some(FrameRate::whole(30)),
    ));
    assert!(
        (26.5..=27.5).contains(&fps),
        "expected ~27 fps from 270 pictures in 10s, got {fps}"
    );
}

#[test]
fn mux_fps_matches_72hz_keep_every_third_over_audio_length() {
    // User take: 331 pictures, 13.781s audio, cap 30, headset 72 Hz.
    let span = Duration::from_secs_f64(13.781);
    let fps = fps(mux_fps_from_pictures(331, span.as_nanos(), Some(FrameRate::whole(30))));
    assert!(
        (23.5..=24.5).contains(&fps),
        "expected ~24.02 fps, got {fps}"
    );
    let video_if_labeled_30 = 331.0_f64 / 30.0;
    assert!((video_if_labeled_30 - 11.03).abs() < 0.05);
}

#[test]
fn mux_fps_falls_back() {
    let second = 1_000_000_000u128;
    let thirty = Some(FrameRate::whole(30));
    let measured = mux_fps_from_pictures(270, 10 * second, thirty);
    assert_eq!(measured, FrameRate { num: 270 * second, den: 10 * second });
    assert_eq!(mux_fps_from_pictures(1, second, thirty), FrameRate::whole(30));
    assert_eq!(mux_fps_from_pictures(4, 49_999_999, thirty), FrameRate::whole(30));
    assert_eq!(fps(mux_fps_from_pictures(12, 50_000_000, thirty)), 240.0);
    assert_eq!(mux_fps_from_pictures(13, 50_000_000, thirty), FrameRate::whole(30));
    assert_eq!(fps(mux_fps_from_pictures(5, second, thirty)), 5.0);
    assert_eq!(mux_fps_from_pictures(5, second + 1, thirty), FrameRate::whole(30));
    assert_eq!(mux_fps_from_pictures(0, u128::MAX, None), FrameRate::whole(72));
    let slow = FrameRate::new(999, 1000);
    assert_eq!(mux_fps_from_pictures(0, second, slow), FrameRate::whole(72));
    assert_eq!(mux_fps_from_pictures(0, second, FrameRate::new(1000, 1000)).num, 1000);
    assert_eq!(FrameRate::new(1, 0), None);
}

#[test]
fn rates_round_and_clamp() {
    assert_eq!(round_div(5, 2), 3);
    assert_eq!(round_div(4, 3), 1);
    assert_eq!(round_div(u128::MAX, 1), u128::MAX);
    assert_eq!(round_div(u128::MAX, u128::MAX), 1);
    assert_eq!(FrameRate { num: 59, den: 2 }.rounded(), 30);
    assert_eq!(FrameRate { num: 0, den: 2 }.rounded(), 1);
    assert_eq!(FrameRate { num: u128::MAX, den: 1 }.rounded(), 240);
}

#[test]
fn h264_sps_is_not_a_picture() {
    // NAL type 7 (SPS)
    let data = [0, 0, 0, 1, 0x67, 0x42, 0x00, 0x0A];
    assert_eq!(count_coded_pictures(&data, "h264"), 0);
}

#[test]
fn h264_idr_slice_is_one_picture() {
    let data = [0, 0, 0, 1, 0x65, 0x88, 0x80];
    assert_eq!(count_coded_pictures(&data, "h264"), 1);
}

#[test]
fn h264_config_then_slice_counts_one() {
    let mut data = vec![0, 0, 0, 1, 0x67, 0x42, 0, 0, 0, 1, 0x68, 0xCE];
    data.extend_from_slice(&[0, 0, 0, 1, 0x65, 0x88]);
    assert_eq!(count_coded_pictures(&data, "h264"), 1);
}

#[test]
fn other_codecs_are_counted_their_way() {
    // HEVC: VPS (32), IDR_W_RADL (19), TRAIL_R (1), reserved (10).
    let data = [
        0, 0, 0, 1, 0x40, 1, 0, 0, 1, 0x26, 1, 0, 0, 1, 0x02, 1, 0, 0, 1, 0x14, 1,
    ];
    assert_eq!(count_coded_pictures(&data, "hevc"), 2);
    assert_eq!(count_coded_pictures(&data, "h265"), 2);
    assert_eq!(count_coded_pictures(&data, "av1"), 1);
    assert_eq!(count_coded_pictures(&[], "av1"), 0);
    assert_eq!(count_coded_pictures(&[0, 0, 1, 0x61, 9], "anything"), 1);
    assert_eq!(count_coded_pictures(&[0, 0, 1], "h264"), 0);
    assert_eq!(count_coded_pictures(&[0x65, 0x65], "h264"), 0);
}

#[test]
fn nal_units_are_found() {
    let data = [9, 0, 0, 1, 7, 7, 0, 0, 0, 1, 0, 0, 1, 5, 0, 0, 0, 0, 1];
    assert_eq!(
        nal_payloads(&data),
        vec![NalSpan { start: 4, end: 6 }, NalSpan { start: 13, end: 15 }]
    );
    assert!(nal_payloads(&[]).is_empty());
    assert!(nal_payloads(&[0, 0, 0, 1]).is_empty());
}

#[test]
fn pictures_of_packets_add_up() {
    let a = [0, 0, 0, 1, 0x65, 1, 2, 0];
    let b = [0, 0, 0, 1, 0x41, 3];
    let mut both = a.to_vec();
    both.extend_from_slice(&b);
    assert_eq!(
        count_coded_pictures(&both, "h264"),
        count_coded_pictures(&a, "h264") + count_coded_pictures(&b, "h264")
    );
    // A three-byte start code needs a last byte before it that is not zero.
    let short = [0, 0, 1, 0x41, 3];
    let one = [0, 0, 1, 0x02];
    let joined = [&one[..], &short[..]].concat();
    assert_eq!(
        count_coded_pictures(&joined, "hevc"),
        count_coded_pictures(&one, "hevc") + count_coded_pictures(&short, "hevc")
    );
    let zero = [0, 0, 1, 0];
    let joined = [&zero[..], &short[..]].concat();
    assert_eq!(count_coded_pictures(&zero, "hevc"), 1);
    assert_eq!(count_coded_pictures(&joined, "hevc"), count_coded_pictures(&short, "hevc"));
}

#[test]
fn no_mux_when_not_recording() {
    assert!(!mux_stream_nals(false, false));
    assert!(!mux_stream_nals(false, true));
}

#[test]
fn copies_stream_until_pre_ffr_arrives() {
    assert!(mux_stream_nals(true, false));
    assert!(!mux_stream_nals(true, true));
}

#[test]
fn pre_ffr_nal_switches_source() {
    assert_eq!(
        on_pre_ffr_nal(RecordingVideoSource::StreamCopy),
        RecordingVideoSource::PreFfr
    );
}

#[test]
fn stream_copy_needs_sps_pps_before_first_slice() {
    assert!(should_prefix_decoder_config(false, false));
    assert!(should_prefix_decoder_config(true, false));
    assert!(should_prefix_decoder_config(true, true));
    assert!(!should_prefix_decoder_config(false, true));
}

#[test]
fn zero_max_fps_keeps_every_frame() {
    assert!(should_keep_recording_frame(None, FrameRate::whole(0)));
    assert!(should_keep_recording_frame(
        Some(Duration::from_millis(1).as_nanos()),
        FrameRate::whole(0)
    ));
}

#[test]
fn cap_30fps_keeps_about_every_third_90hz_frame() {
    let dt = Duration::from_nanos(1_000_000_000 / 90);
    let mut last: Option<Duration> = None; // elapsed since previous keep, simulated
    let mut kept = 0u32;
    let mut acc = Duration::ZERO;
    let mut last_keep_at = Duration::ZERO;
    for i in 0..90u32 {
        let now = dt * i;
        let since = if kept == 0 {
            None
        } else {
            Some(now.saturating_sub(last_keep_at).as_nanos())
        };
        let _ = last;
        if should_keep_recording_frame(since, FrameRate::whole(30)) {
            last_keep_at = now;
            last = Some(acc);
            kept += 1;
        }
        acc += dt;
    }
    assert!(
        (28..=32).contains(&kept),
        "expected ~30 kept frames, got {kept}"
    );
}

#[test]
fn caps_are_rounded_and_bounded() {
    assert!(should_keep_recording_frame(None, FrameRate::whole(30)));
    assert!(should_keep_recording_frame(Some(33_333_333), FrameRate::whole(30)));
    assert!(!should_keep_recording_frame(Some(33_333_332), FrameRate::whole(30)));
    // 29.5 rounds to 30; anything above 240 is 240; just below 1 is no cap.
    assert!(!should_keep_recording_frame(Some(33_333_332), FrameRate { num: 59, den: 2 }));
    assert!(should_keep_recording_frame(Some(4_166_666), FrameRate::whole(1000)));
    assert!(!should_keep_recording_frame(Some(4_166_665), FrameRate::whole(1000)));
    assert!(should_keep_recording_frame(Some(0), FrameRate { num: 99, den: 100 }));
    assert!(!should_keep_recording_frame(Some(999_999_999), FrameRate::whole(1)));
}

#[test]
fn pcm_positions() {
    assert_eq!(align_pcm(7), 4);
    assert_eq!(pcm_bytes_for_duration(100_000_000, 48000), 19200);
    // 31250 ns at 48 kHz is one and a half frames.
    assert_eq!(pcm_bytes_for_duration(31250, 48000), 8);
    assert_eq!(pcm_bytes_between(5, 5, 48000), 0);
    assert_eq!(pcm_bytes_between(9, 5, 48000), 0);
    assert_eq!(pcm_bytes_between(5, 1_000_000_005, 44100), 176_400);
    assert_eq!(checked_pcm_bytes(u128::MAX, 48000), None);
    assert_eq!(checked_pcm_bytes(u128::MAX, 0), Some(0));
    assert_eq!(checked_pcm_bytes(u64::MAX as u128, 48000), Some(3_541_774_862_152_232));
    assert_eq!(silence_piece(20000), 16384);
    assert_eq!(silence_piece(4), 4);
}

#[test]
fn audio_starts_with_the_pictures_and_fills_gaps() {
    let ms = 1_000_000u64;
    let rate = 48000;
    let mut track = AudioTrack::new();
    // Before any picture, at the first picture, and empty chunks are dropped.
    assert_eq!(track.on_chunk(None, 5 * ms, 400, rate), AudioStep::Drop);
    assert_eq!(track.on_chunk(Some(5 * ms), 5 * ms, 400, rate), AudioStep::Drop);
    assert_eq!(track.on_chunk(Some(5 * ms), 9 * ms, 0, rate), AudioStep::Drop);
    assert_eq!(track, AudioTrack { written: 0, silence: 0 });
    // 100 ms after the first picture, 10 ms of sound: 90 ms are missing.
    let origin = Some(0);
    assert!(track.has_room(origin, 100 * ms, 1920, rate));
    assert_eq!(
        track.on_chunk(origin, 100 * ms, 1920, rate),
        AudioStep::Write { silence: 17280 }
    );
    assert_eq!(track, AudioTrack { written: 19200, silence: 17280 });
    // The next chunk follows without a gap.
    assert_eq!(
        track.on_chunk(origin, 110 * ms, 1920, rate),
        AudioStep::Write { silence: 0 }
    );
    // Chunks that pile up do not add silence.
    assert_eq!(
        track.on_chunk(origin, 110 * ms, 1920, rate),
        AudioStep::Write { silence: 0 }
    );
    assert_eq!(track, AudioTrack { written: 23040, silence: 17280 });
    assert!(!AudioTrack { written: u64::MAX, silence: 0 }.has_room(origin, 1, 1, rate));
    assert!(AudioTrack { written: u64::MAX, silence: 0 }.has_room(origin, 1, 0, rate));
    assert!(AudioTrack { written: u64::MAX, silence: 0 }.has_room(None, 1, 1, rate));
}

#[test]
fn padding_reaches_whole_frames() {
    let mut track = AudioTrack { written: 8, silence: 0 };
    assert_eq!(track.pad_audio_to(15), 8);
    assert_eq!(track.pad_audio_to(15), 0);
    assert_eq!(track.pad_audio_to(16), 0);
    assert_eq!(track, AudioTrack { written: 16, silence: 8 });
    let mut track = AudioTrack::new();
    assert_eq!(track.pad_audio_to(7), 8);
    assert_eq!(track, AudioTrack { written: 8, silence: 8 });
    // What is to be written is what is counted, after part of a frame too.
    let mut track = AudioTrack { written: 3, silence: 0 };
    assert_eq!(track.pad_audio_to(2), 0);
    assert_eq!(track.pad_audio_to(8), 5);
    assert_eq!(track, AudioTrack { written: 8, silence: 5 });
}

fn session(sample_rate: u32, codec: &str) -> LiveMuxSession {
    LiveMuxSession::start("out.mkv", sample_rate, codec, Some(FrameRate::whole(30)), Ok(()), true)
        .ok()
        .unwrap()
}

#[test]
fn sessions_start_and_stop() {
    let mut s = session(44100, "h265");
    assert_eq!(s.sample_rate, 44100);
    assert_eq!(s.demux, "hevc");
    assert_eq!(s.output_path(), "out.mkv");
    assert_eq!(session(0, "vp9").sample_rate, 8000);
    let p = s.push_video(&[1, 2], 7).unwrap();
    assert_eq!((p.at, p.data), (7, vec![1, 2]));
    assert!(s.push_video(&[], 7).is_none());
    assert_eq!(s.push_audio(&[3], 8).unwrap().data, vec![3]);
    s.begin_stop();
    assert!(s.push_video(&[1, 2], 7).is_none());
    assert!(s.push_audio(&[1, 2], 7).is_none());
}

#[test]
fn sessions_that_cannot_start_say_why() {
    let no_dir = LiveMuxSession::start("o", 1, "h264", None, Err("denied".to_string()), false);
    assert_eq!(no_dir.err().unwrap(), "create dir: denied");
    let no_ffmpeg = LiveMuxSession::start("o", 1, "h264", None, Ok(()), false);
    assert_eq!(
        no_ffmpeg.err().unwrap(),
        "ffmpeg not found (install on PATH or use deps/windows/ffmpeg/bin/ffmpeg.exe)"
    );
}

#[test]
fn codec_hints() {
    for (hint, demux) in [
        ("hevc", "hevc"),
        ("h265", "hevc"),
        ("av1", "av1"),
        ("h264", "h264"),
        ("AV1", "h264"),
        ("", "h264"),
    ] {
        assert_eq!(demuxer_for(hint), demux);
    }
}

#[test]
fn waiting_ends() {
    assert_eq!(wait_step(true, 9, 5), WaitStep::Done);
    assert_eq!(wait_step(false, 4, 5), WaitStep::Sleep);
    assert_eq!(wait_step(false, 5, 5), WaitStep::GiveUp);
}

#[test]
fn video_packets_are_counted_and_flushed() {
    let mut track = VideoTrack::new();
    let empty = TimedBytes { at: 1, data: vec![] };
    assert_eq!(track.on_packet(&empty, "h264"), VideoStep::Skip);
    assert_eq!(track, VideoTrack::new());
    for i in 1..=60u64 {
        let packet = TimedBytes { at: 10 * i, data: vec![0, 0, 0, 1, 0x65, 1] };
        let flush = i % 30 == 0;
        assert_eq!(track.on_packet(&packet, "h264"), VideoStep::Write { flush });
    }
    assert_eq!(
        track,
        VideoTrack {
            first: Some(10),
            last: Some(600),
            bytes: 360,
            packets: 60,
            pictures: 60,
            since_flush: 0,
        }
    );
}

#[test]
fn pictures_of_a_take_are_those_of_its_file() {
    let packets = [
        vec![0, 0, 0, 1, 0x67, 1, 0, 0, 0, 1, 0x65, 2],
        vec![0, 0, 0, 1, 0x41, 3, 0, 0],
        vec![0, 0, 0, 1, 0x06, 4],
    ];
    let mut track = VideoTrack::new();
    let mut file: Vec<u8> = Vec::new();
    for data in packets {
        file.extend_from_slice(&data);
        track.on_packet(&TimedBytes { at: 5, data }, "h264");
    }
    assert_eq!(track.pictures, 2);
    assert_eq!(count_coded_pictures(&file, "h264"), 2);
    assert_eq!((track.packets, track.bytes, track.since_flush), (3, 26, 3));
}

#[test]
fn files_are_as_long_as_tracks_count() {
    let ms = 1_000_000u64;
    let mut track = AudioTrack::new();
    let mut file: Vec<u8> = Vec::new();
    for (at, len) in [(10, 3usize), (40, 401), (41, 5), (90, 7)] {
        assert!(track.has_room(Some(0), at * ms, len, 48000));
        if let AudioStep::Write { silence } = track.on_chunk(Some(0), at * ms, len, 48000) {
            file.extend(vec![0u8; silence as usize]);
            file.extend(vec![1u8; len]);
        }
    }
    assert_eq!(file.len() as u64, track.written);
    assert_eq!(file.iter().filter(|b| **b == 0).count() as u64, track.silence);
    assert_eq!(track, AudioTrack { written: 17283, silence: 16867 });
}

fn take(pictures: u64, span_ms: u64, audio_bytes: u64) -> Take {
    let mut video = VideoTrack::new();
    if pictures > 0 {
        video.first = Some(1_000);
        video.last = Some(1_000 + span_ms * 1_000_000);
        video.bytes = 1;
        video.pictures = pictures;
    }
    Take {
        wall: 60_000_000_000,
        video,
        audio: AudioTrack { written: audio_bytes, silence: 0 },
        sample_rate: 48000,
        fallback_fps: Some(FrameRate::whole(30)),
    }
}

#[test]
fn short_sound_is_padded_to_the_pictures() {
    let t = take(270, 10_000, 0);
    assert!(t.can_plan());
    let plan = plan_mux(&t).unwrap();
    assert_eq!(plan.append_silence, 1_920_000);
    assert_eq!(plan.audio, AudioTrack { written: 1_920_000, silence: 1_920_000 });
    assert_eq!(plan.duration, 10_000_000_000);
    assert_eq!(fps(plan.fps), 27.0);
    assert!(plan.has_video && plan.has_audio);
}

#[test]
fn long_sound_sets_the_length() {
    // 12 s of sound against 10 s of pictures: nothing is cut, the pictures slow down.
    let plan = plan_mux(&take(240, 10_000, 12 * 192_000)).unwrap();
    assert_eq!(plan.append_silence, 0);
    assert_eq!(plan.audio.written, 12 * 192_000);
    assert_eq!(plan.span, 10_000_000_000);
    assert_eq!(plan.duration, 12_000_000_000);
    assert_eq!(fps(plan.fps), 20.0);
}

#[test]
fn sound_alone_is_muxed_and_nothing_is_refused() {
    let plan = plan_mux(&take(0, 0, 192_000)).unwrap();
    assert!(!plan.has_video && plan.has_audio);
    assert_eq!(plan.append_silence, 0);
    // Without pictures the session's length stands for their span.
    assert_eq!(plan.span, 60_000_000_000);
    assert_eq!(plan.fps, FrameRate::whole(30));
    assert_eq!(measure_take(&take(0, 0, 0)).span, 60_000_000_000);
    assert_eq!(
        plan_mux(&take(0, 0, 0)),
        Err("no video or audio data captured".to_string())
    );
}

#[test]
fn a_single_packet_spans_the_session() {
    let plan = plan_mux(&take(1, 0, 0)).unwrap();
    assert_eq!(plan.span, 60_000_000_000);
    assert_eq!(plan.append_silence, 60 * 192_000);
    let mut t = take(2, 0, 0);
    t.wall = 0;
    let plan = plan_mux(&t).unwrap();
    assert!(!plan.has_audio);
    assert_eq!(plan.duration, 0);
    assert_eq!(fps(plan.fps), 40.0);
}

#[test]
fn takes_that_cannot_be_planned_are_told() {
    let mut t = take(1, 0, 0);
    t.sample_rate = 0;
    assert!(!t.can_plan());
    let mut t = take(1, 0, 0);
    t.fallback_fps = Some(FrameRate { num: 1, den: 0 });
    assert!(!t.can_plan());
    let mut t = take(1, 0, 0);
    t.wall = u128::MAX;
    assert!(!t.can_plan());
    let mut t = take(0, 0, 0);
    t.wall = u128::MAX;
    assert!(t.can_plan());
}

fn shown(args: Vec<MuxArg>) -> Vec<String> {
    args.into_iter()
        .map(|a| match a {
            MuxArg::Text(t) => t,
            MuxArg::VideoInput => "<video>".to_string(),
            MuxArg::AudioInput => "<audio>".to_string(),
            MuxArg::Output => "<out>".to_string(),
        })
        .collect()
}

#[test]
fn ffmpeg_is_told_everything() {
    let rate = FrameRate::whole(24);
    let all = shown(mux_args(true, true, "hevc", 48000, rate));
    assert_eq!(
        all.join(" "),
        "-hide_banner -loglevel error -y -fflags +genpts -f hevc -framerate 24.000 -i <video> \
         -f s16le -ar 48000 -ac 2 -i <audio> -c:v copy -c:a pcm_s16le \
         -bsf:v setts=pts=N/24.000000/TB:dts=N/24.000000/TB <out>"
    );
    let sound = shown(mux_args(false, true, "h264", 8000, rate));
    assert_eq!(
        sound.join(" "),
        "-hide_banner -loglevel error -y -f s16le -ar 8000 -ac 2 -i <audio> -c:a pcm_s16le <out>"
    );
    let slow = FrameRate { num: 1, den: 2 };
    let pictures = shown(mux_args(true, false, "av1", 8000, slow));
    assert_eq!(
        pictures.join(" "),
        "-hide_banner -loglevel error -y -fflags +genpts -f av1 -framerate 0.500 -i <video> \
         -c:v copy <out>"
    );
}

#[test]
fn rates_are_written_as_decimals() {
    // 331 pictures in 13.781 s.
    let rate = mux_fps_from_pictures(331, 13_781_000_000, None);
    let line = shown(mux_args(true, false, "h264", 48000, rate)).join(" ");
    assert!(line.contains("-framerate 24.019 "));
    assert!(line.contains("setts=pts=N/24.018576/TB:dts=N/24.018576/TB "));
    // Halves go to the even digit, as they do for a float.
    for sixteenths in 80..3840u64 {
        let fps = sixteenths as f32 / 16.0;
        let text = fixed_text(u128::from(sixteenths), 16, 3);
        assert_eq!(text, format!("{fps:.3}"));
    }
    assert_eq!(fixed_text(385, 16, 3), "24.062");
    assert_eq!(fixed_text(9999, 10000, 3), "1.000");
    assert_eq!(fixed_text(1, 3, 18), "0.333333333333333333");
}

#[test]
fn the_audio_writer_ends() {
    assert!(audio_is_done(true, false, false));
    assert!(audio_is_done(false, true, true));
    assert!(!audio_is_done(false, true, false));
    assert!(!audio_is_done(false, false, true));
}

#[test]
fn ffmpeg_failures_are_reported() {
    assert_eq!(ffmpeg_outcome(true, "exit status: 0", "noise"), Ok(()));
    assert_eq!(
        ffmpeg_outcome(false, "exit status: 1", " \n"),
        Err("ffmpeg exit exit status: 1".to_string())
    );
    assert_eq!(
        ffmpeg_outcome(false, "exit status: 1", "bad input\n"),
        Err("ffmpeg exit exit status: 1: bad input".to_string())
    );
}

#[test]
fn ffmpeg_is_looked_for_nearby_first() {
    let list = ffmpeg_candidates(2, Some("/usr/bin/ffmpeg\r\n\n C:\\ff.exe"));
    let beside = |level: usize, file: &str| FfmpegCandidate::Beside {
        level,
        file: file.to_string(),
    };
    let path = |p: &str| FfmpegCandidate::Path(p.to_string());
    assert_eq!(
        list,
        vec![
            beside(0, "deps/windows/ffmpeg/bin/ffmpeg.exe"),
            beside(0, "ffmpeg.exe"),
            beside(0, "bin/win64/ffmpeg.exe"),
            beside(0, "bin/ffmpeg"),
            beside(1, "deps/windows/ffmpeg/bin/ffmpeg.exe"),
            beside(1, "ffmpeg.exe"),
            beside(1, "bin/win64/ffmpeg.exe"),
            beside(1, "bin/ffmpeg"),
            path("deps/windows/ffmpeg/bin/ffmpeg.exe"),
            path("ffmpeg.exe"),
            path("/usr/bin/ffmpeg"),
            path(""),
            path("C:\\ff.exe"),
        ]
    );
    assert_eq!(ffmpeg_candidates(0, None).len(), 2);
    assert_eq!(ffmpeg_candidates(100, None).len(), 34);
    assert_eq!(ffmpeg_candidates(0, Some("/a\n")).len(), 3);
}
