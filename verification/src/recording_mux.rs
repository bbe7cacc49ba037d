//! Live capture of bitstream video and PCM audio, finalized into one Matroska file by ffmpeg.
//!
//! While a take runs, elementary streams are only appended to temporary files. Loopback capture
//! often delivers nothing while the output is silent, so the audio track gets silence for true
//! gaps. Audio is timed from the first video packet, which is where ffmpeg puts time zero; sound
//! from before it is dropped. Gaps are told by capture time only.
//!
//! Video is muxed at pictures over duration, not at the configured rate: a label above the actual
//! picture rate would make the video track shorter than the audio.

use crate::frame_rate;
use crate::frame_rate::FrameRate;
use crate::nal;
use crate::pcm;
use crate::pcm::AudioTrack;
use crate::text;
use vstd::prelude::*;

verus! {

/// The lowest sample rate a take is given.
pub const LOWEST_SAMPLE_RATE: u32 = 8000;

/// The video file is flushed after this many packets.
pub const FLUSH_EVERY: u64 = 30;

/// PCM (or video NALs) with the time at which they were captured, not when the writer woke, in
/// nanoseconds of the session's clock.
#[derive(Debug, Clone)]
pub struct TimedBytes {
    pub at: u64,
    pub data: Vec<u8>,
}

/// The ffmpeg demuxer for a codec hint.
pub open spec fn demuxer_of(codec_hint: Seq<char>) -> Seq<char> {
    if codec_hint == "hevc"@ || codec_hint == "h265"@ {
        "hevc"@
    } else if codec_hint == "av1"@ {
        "av1"@
    } else {
        "h264"@
    }
}

/// The ffmpeg demuxer for a codec hint; anything unknown is taken for H.264.
pub fn demuxer_for(codec_hint: &str) -> (res: String)
    ensures
        res@ == demuxer_of(codec_hint@),
        codec_hint@ == "hevc"@ || codec_hint@ == "h265"@ ==> res@ == "hevc"@,
        codec_hint@ == "av1"@ ==> res@ == "av1"@,
        codec_hint@ != "hevc"@ && codec_hint@ != "h265"@ && codec_hint@ != "av1"@ ==> res@
            == "h264"@,
{
    proof {
        reveal_strlit("hevc");
        reveal_strlit("h265");
        reveal_strlit("av1");
        assert("hevc"@.len() == 4 && "h265"@.len() == 4 && "av1"@.len() == 3);
    }
    if text::same_text(codec_hint, "hevc") || text::same_text(codec_hint, "h265") {
        "hevc".to_owned()
    } else if text::same_text(codec_hint, "av1") {
        "av1".to_owned()
    } else {
        "h264".to_owned()
    }
}

/// What a running recording session knows.
pub struct LiveMuxSession {
    /// Whether packets are still taken.
    pub open: bool,
    /// The MKV that the take becomes.
    pub output_path: String,
    /// Samples per second of the soundtrack.
    pub sample_rate: u32,
    /// The ffmpeg demuxer of the video.
    pub demux: String,
    /// The configured rate, none where it is not a finite number.
    pub fallback_fps: Option<FrameRate>,
}

/// The rate that a session uses for a requested sample rate.
pub open spec fn session_sample_rate(requested: u32) -> u32 {
    if requested < LOWEST_SAMPLE_RATE {
        LOWEST_SAMPLE_RATE
    } else {
        requested
    }
}

impl LiveMuxSession {
    /// Opens a session. `folder` says whether the output folder exists or was made, with the
    /// reason where not; `ffmpeg_found` whether there is an ffmpeg to finish the take with.
    pub fn start(
        output_mkv: &str,
        sample_rate: u32,
        codec_hint: &str,
        fallback_fps: Option<FrameRate>,
        folder: Result<(), String>,
        ffmpeg_found: bool,
    ) -> (res: Result<LiveMuxSession, String>)
        ensures
            match folder {
                Err(reason) => res matches Err(error) && error@ == "create dir: "@ + reason@,
                Ok(_) => if ffmpeg_found {
                    res matches Ok(session) && session.open && session.output_path@ == output_mkv@
                        && session.sample_rate == session_sample_rate(sample_rate)
                        && session.demux@ == demuxer_of(codec_hint@) && session.fallback_fps
                        == fallback_fps
                } else {
                    res matches Err(error) && error@
                        == "ffmpeg not found (install on PATH or use deps/windows/ffmpeg/bin/ffmpeg.exe)"@
                },
            },
            res matches Ok(session) ==> session.sample_rate == (if sample_rate < 8000 {
                8000
            } else {
                sample_rate
            }),
    {
        if let Err(reason) = folder {
            return Err("create dir: ".to_owned().concat(reason.as_str()));
        }
        if !ffmpeg_found {
            return Err(
                "ffmpeg not found (install on PATH or use deps/windows/ffmpeg/bin/ffmpeg.exe)".to_owned(),
            );
        }
        let sample_rate: u32 = if sample_rate < LOWEST_SAMPLE_RATE {
            LOWEST_SAMPLE_RATE
        } else {
            sample_rate
        };
        Ok(
            LiveMuxSession {
                open: true,
                output_path: output_mkv.to_owned(),
                sample_rate,
                demux: demuxer_for(codec_hint),
                fallback_fps,
            },
        )
    }

    /// The packet to queue for the video writer, stamped `at`; none where it is empty or the
    /// session has stopped.
    pub fn push_video(&self, data: &[u8], at: u64) -> (res: Option<TimedBytes>)
        ensures
            res is Some <==> self.open && data@.len() > 0,
            res matches Some(packet) ==> packet.at == at && packet.data@ == data@,
    {
        stamp(self.open, data, at)
    }

    /// The chunk to queue for the audio writer, stamped `at`; none where it is empty or the
    /// session has stopped.
    pub fn push_audio(&self, data: &[u8], at: u64) -> (res: Option<TimedBytes>)
        ensures
            res is Some <==> self.open && data@.len() > 0,
            res matches Some(chunk) ==> chunk.at == at && chunk.data@ == data@,
    {
        stamp(self.open, data, at)
    }

    /// The MKV that the take becomes.
    pub fn output_path(&self) -> (res: &str)
        ensures
            res@ == self.output_path@,
    {
        self.output_path.as_str()
    }

    /// Takes no more packets; those queued before are still written.
    pub fn begin_stop(&mut self)
        ensures
            !final(self).open,
            final(self).output_path@ == old(self).output_path@,
            final(self).sample_rate == old(self).sample_rate,
            final(self).demux@ == old(self).demux@,
            final(self).fallback_fps == old(self).fallback_fps,
    {
        self.open = false;
    }
}

fn stamp(open: bool, data: &[u8], at: u64) -> (res: Option<TimedBytes>)
    ensures
        res is Some <==> open && data@.len() > 0,
        res matches Some(packet) ==> packet.at == at && packet.data@ == data@,
{
    if !open || data.len() == 0 {
        return None;
    }
    Some(TimedBytes { at, data: vstd::slice::slice_to_vec(data) })
}

/// What to do while waiting for a take to be finished in the background.
#[derive(Debug, Clone, Copy, PartialEq, Eq, Structural)]
pub enum WaitStep {
    /// It is finished.
    Done,
    /// Report that it is still running, and wait no longer.
    GiveUp,
    /// Look again a little later.
    Sleep,
}

/// What to do after `elapsed` nanoseconds of waiting.
pub fn wait_step(done: bool, elapsed: u128, timeout: u128) -> (res: WaitStep)
    ensures
        res == (if done {
            WaitStep::Done
        } else if elapsed < timeout {
            WaitStep::Sleep
        } else {
            WaitStep::GiveUp
        }),
{
    if done {
        WaitStep::Done
    } else if elapsed < timeout {
        WaitStep::Sleep
    } else {
        WaitStep::GiveUp
    }
}

/// Whether the audio writer is done: all senders are gone, or the session has stopped and what was
/// queued is written. An audio callback may hold a sender past the end of the session.
pub fn audio_is_done(senders_gone: bool, stopped: bool, queue_empty: bool) -> (res: bool)
    ensures
        res == (senders_gone || (stopped && queue_empty)),
{
    senders_gone || (stopped && queue_empty)
}

/// A video track as it grows.
#[derive(Debug, Clone, Copy, PartialEq, Eq, Structural)]
pub struct VideoTrack {
    /// When the first packet was captured.
    pub first: Option<u64>,
    /// When the last packet was captured.
    pub last: Option<u64>,
    /// Bytes in the file, as a 64-bit counter that wraps around.
    pub bytes: u64,
    /// Packets in the file, likewise.
    pub packets: u64,
    /// Coded pictures in the file, likewise.
    pub pictures: u64,
    /// Packets since the file was flushed.
    pub since_flush: u64,
}

/// What to do with a video packet.
#[derive(Debug, Clone, Copy, PartialEq, Eq, Structural)]
pub enum VideoStep {
    /// Leave it out.
    Skip,
    /// Write it, and flush the file where `flush` says so.
    Write { flush: bool },
}

impl VideoTrack {
    /// A flush is never overdue.
    pub open spec fn wf(self) -> bool {
        &&& self.since_flush < FLUSH_EVERY
        &&& self.first is Some <==> self.last is Some
    }

    /// The track after a packet.
    pub open spec fn after(self, at: u64, data: Seq<u8>, demux: Seq<char>) -> VideoTrack {
        VideoTrack {
            first: if self.first is None {
                Some(at)
            } else {
                self.first
            },
            last: Some(at),
            bytes: self.bytes.wrapping_add(data.len() as u64),
            packets: self.packets.wrapping_add(1),
            pictures: self.pictures.wrapping_add(nal::coded_pictures(data, demux) as u64),
            since_flush: if self.since_flush + 1 >= FLUSH_EVERY {
                0
            } else {
                (self.since_flush + 1) as u64
            },
        }
    }

    /// An empty track.
    pub fn new() -> (res: VideoTrack)
        ensures
            res.wf(),
            res == (VideoTrack {
                first: None,
                last: None,
                bytes: 0,
                packets: 0,
                pictures: 0,
                since_flush: 0,
            }),
    {
        VideoTrack { first: None, last: None, bytes: 0, packets: 0, pictures: 0, since_flush: 0 }
    }

    /// Takes a packet.
    pub fn on_packet(&mut self, packet: &TimedBytes, demux: &str) -> (res: VideoStep)
        requires
            old(self).wf(),
        ensures
            final(self).wf(),
            packet.data@.len() == 0 ==> res is Skip && *final(self) == *old(self),
            packet.data@.len() > 0 ==> {
                &&& *final(self) == old(self).after(packet.at, packet.data@, demux@)
                &&& res == (VideoStep::Write { flush: old(self).since_flush + 1 >= FLUSH_EVERY })
            },
    {
        if packet.data.len() == 0 {
            return VideoStep::Skip;
        }
        if self.first.is_none() {
            self.first = Some(packet.at);
        }
        self.last = Some(packet.at);
        let pictures: u64 = nal::count_coded_pictures(packet.data.as_slice(), demux);
        self.pictures = self.pictures.wrapping_add(pictures);
        self.bytes = self.bytes.wrapping_add(packet.data.len() as u64);
        self.packets = self.packets.wrapping_add(1);
        self.since_flush = self.since_flush + 1;
        let flush: bool = self.since_flush >= FLUSH_EVERY;
        if flush {
            self.since_flush = 0;
        }
        VideoStep::Write { flush }
    }
}

/// The track after packets given by capture time and content, the last one last.
pub open spec fn video_after(packets: Seq<(u64, Seq<u8>)>, demux: Seq<char>) -> VideoTrack
    decreases packets.len(),
{
    if packets.len() == 0 {
        VideoTrack { first: None, last: None, bytes: 0, packets: 0, pictures: 0, since_flush: 0 }
    } else {
        let (at, data) = packets.last();
        if data.len() == 0 {
            video_after(packets.drop_last(), demux)
        } else {
            video_after(packets.drop_last(), demux).after(at, data, demux)
        }
    }
}

/// What the file of a video track holds after packets.
pub open spec fn video_file(packets: Seq<(u64, Seq<u8>)>) -> Seq<u8>
    decreases packets.len(),
{
    if packets.len() == 0 {
        Seq::empty()
    } else {
        video_file(packets.drop_last()) + packets.last().1
    }
}

/// The coded pictures of packets, counted one packet at a time.
pub open spec fn pictures_of(packets: Seq<(u64, Seq<u8>)>, demux: Seq<char>) -> nat
    decreases packets.len(),
{
    if packets.len() == 0 {
        0
    } else {
        pictures_of(packets.drop_last(), demux) + nal::coded_pictures(packets.last().1, demux)
    }
}

/// A track remembers its packets: how many there were, their bytes and pictures, when the first
/// and the last were captured, and how long ago the file was flushed.
pub proof fn tracks_count_every_packet(packets: Seq<(u64, Seq<u8>)>, demux: Seq<char>)
    requires
        forall|i: int| 0 <= i < packets.len() ==> (#[trigger] packets[i]).1.len() > 0,
        video_file(packets).len() <= u64::MAX,
        pictures_of(packets, demux) <= u64::MAX,
    ensures
        ({
            let track = video_after(packets, demux);
            &&& track.wf()
            &&& track.packets == packets.len()
            &&& track.bytes == video_file(packets).len()
            &&& track.pictures == pictures_of(packets, demux)
            &&& track.since_flush == packets.len() % FLUSH_EVERY as nat
            &&& packets.len() > 0 ==> track.first == Some(packets[0].0) && track.last == Some(
                packets.last().0,
            )
        }),
        packets.len() <= video_file(packets).len(),
    decreases packets.len(),
{
    if packets.len() > 0 {
        let before = packets.drop_last();
        assert forall|i: int| 0 <= i < before.len() implies (#[trigger] before[i]).1.len() > 0 by {
            assert(before[i] == packets[i]);
        }
        assert(packets.last() == packets[packets.len() - 1]);
        tracks_count_every_packet(before, demux);
        if before.len() > 0 {
            assert(before[0] == packets[0]);
        }
    }
}

/// Pictures counted packet by packet are those of the finished file, where the video is H.264 or
/// HEVC and every packet opens with a start code of its own after the one before it.
pub proof fn counted_pictures_are_the_files(packets: Seq<(u64, Seq<u8>)>, demux: Seq<char>)
    requires
        forall|i: int|
            0 <= i < packets.len() ==> nal::opens_after(
                if i == 0 {
                    Seq::empty()
                } else {
                    packets[i - 1].1
                },
                (#[trigger] packets[i]).1,
            ),
        demux != "av1"@,
    ensures
        pictures_of(packets, demux) == nal::coded_pictures(video_file(packets), demux),
    decreases packets.len(),
{
    if packets.len() == 0 {
        nal::nothing_holds_no_picture(demux);
    } else {
        let before = packets.drop_last();
        let last = packets[packets.len() - 1].1;
        assert forall|i: int| 0 <= i < before.len() implies nal::opens_after(
            if i == 0 {
                Seq::empty()
            } else {
                before[i - 1].1
            },
            (#[trigger] before[i]).1,
        ) by {
            assert(before[i] == packets[i]);
            if i > 0 {
                assert(before[i - 1] == packets[i - 1]);
            }
        }
        counted_pictures_are_the_files(before, demux);
        if before.len() > 0 {
            let previous = packets[packets.len() - 2].1;
            assert(before.last() == packets[packets.len() - 2]);
            assert(previous.len() > 0);
            assert(video_file(before).last() == previous.last());
        }
        assert(nal::opens_after(video_file(before), last));
        nal::pictures_add_up(video_file(before), last, demux);
    }
}

/// What was captured, once both writers have finished.
pub struct Take {
    /// How long the session lasted, in nanoseconds.
    pub wall: u128,
    pub video: VideoTrack,
    pub audio: AudioTrack,
    /// Samples per second of the soundtrack.
    pub sample_rate: u32,
    /// The configured rate, none where it is not a finite number.
    pub fallback_fps: Option<FrameRate>,
}

/// How a take is to be muxed.
#[derive(Debug, Clone, Copy, PartialEq, Eq, Structural)]
pub struct MuxPlan {
    /// Bytes of silence to append to the audio file first.
    pub append_silence: u64,
    /// The soundtrack with that silence.
    pub audio: AudioTrack,
    /// The time from the first picture to the last, in nanoseconds.
    pub span: u128,
    /// How long the take plays, in nanoseconds.
    pub duration: u128,
    /// The rate of the pictures.
    pub fps: FrameRate,
    pub has_video: bool,
    pub has_audio: bool,
}

/// How long `bytes` of sound play, to the nearest nanosecond.
pub open spec fn playing_time(bytes: nat, sample_rate: nat) -> nat {
    frame_rate::nearest(bytes * 1_000_000_000, 4 * sample_rate)
}

impl Take {
    /// The time from the first picture to the last; where there is none, the session's length.
    pub open spec fn span(self) -> nat {
        match (self.video.first, self.video.last) {
            (Some(a), Some(b)) if b > a => (b - a) as nat,
            _ => self.wall as nat,
        }
    }

    /// The silence that the soundtrack lacks to last as long as the pictures.
    pub open spec fn lacking(self) -> nat {
        if self.video.bytes > 0 {
            pcm::missing(
                self.audio.written as nat,
                pcm::pcm_bytes(self.span(), self.sample_rate as nat),
            )
        } else {
            0
        }
    }

    /// How long the take plays: the longer of its pictures and its sound.
    pub open spec fn duration(self) -> nat {
        let sound = playing_time(self.audio.written as nat + self.lacking(), self.sample_rate as nat);
        if self.span() >= sound {
            self.span()
        } else {
            sound
        }
    }

    /// Nothing at all was captured.
    pub open spec fn nothing(self) -> bool {
        self.video.bytes == 0 && self.audio.written == 0
    }

    /// The take has a sample rate and a rate to fall back on that is one, and 64 bits can hold the
    /// sound that it asks for.
    pub open spec fn wf(self) -> bool {
        &&& self.sample_rate > 0
        &&& self.fallback_fps matches Some(rate) ==> rate.wf()
        &&& self.video.bytes > 0 ==> pcm::pcm_bytes(self.span(), self.sample_rate as nat) <= u64::MAX
        &&& self.audio.silence + self.lacking() <= u64::MAX
    }

    /// The plan for a take.
    pub open spec fn plan(self) -> MuxPlan {
        let written = self.audio.written + self.lacking();
        MuxPlan {
            append_silence: self.lacking() as u64,
            audio: AudioTrack {
                written: written as u64,
                silence: (self.audio.silence + self.lacking()) as u64,
            },
            span: self.span() as u128,
            duration: self.duration() as u128,
            fps: frame_rate::playback_rate(
                self.video.pictures,
                (if self.duration() >= frame_rate::SHORTEST_MEASURED_SPAN {
                    self.duration()
                } else {
                    frame_rate::SHORTEST_MEASURED_SPAN as nat
                }) as u128,
                self.fallback_fps,
            ),
            has_video: self.video.bytes > 0,
            has_audio: written > 0,
        }
    }

    fn span_nanos(&self) -> (res: u128)
        ensures
            res == self.span(),
            match (self.video.first, self.video.last) {
                (Some(a), Some(b)) => if b > a {
                    res == b - a
                } else {
                    res == self.wall
                },
                _ => res == self.wall,
            },
    {
        match (self.video.first, self.video.last) {
            (Some(a), Some(b)) => if b > a {
                (b - a) as u128
            } else {
                self.wall
            },
            _ => self.wall,
        }
    }

    /// Whether the take can be planned; see `wf`.
    pub fn can_plan(&self) -> (res: bool)
        ensures
            res == self.wf(),
    {
        if self.sample_rate == 0 {
            return false;
        }
        if let Some(rate) = self.fallback_fps {
            if rate.den == 0 {
                return false;
            }
        }
        if self.video.bytes == 0 {
            return true;
        }
        match pcm::checked_pcm_bytes(self.span_nanos(), self.sample_rate) {
            None => false,
            Some(target) => {
                target <= self.audio.written || u64::MAX - self.audio.silence >= target
                    - self.audio.written
            },
        }
    }
}

/// The length of a take fits in 128 bits.
proof fn durations_fit(take: Take)
    requires
        take.wf(),
    ensures
        take.audio.written + take.lacking() <= u64::MAX,
        take.duration() <= u128::MAX,
{
    let bytes = take.audio.written as nat + take.lacking();
    let frame = 4 * take.sample_rate as nat;
    frame_rate::nearest_is_within_half(bytes * 1_000_000_000, frame);
    let n = playing_time(bytes, take.sample_rate as nat);
    assert(n <= 2 * bytes * 1_000_000_000 + frame) by (nonlinear_arith)
        requires
            2 * frame * n <= 2 * (bytes * 1_000_000_000) + frame,
            frame >= 1,
            n >= 0,
    ;
}

/// The plan for a take. The soundtrack is made to last as long as the pictures; it is never cut,
/// since sound that is longer is the real length of the session where pictures were stamped too
/// fast.
pub fn measure_take(take: &Take) -> (res: MuxPlan)
    requires
        take.wf(),
    ensures
        res == take.plan(),
        res.fps.wf() && res.fps.one_or_more(),
{
    let span: u128 = take.span_nanos();
    let mut audio: AudioTrack = take.audio;
    let mut append_silence: u64 = 0;
    if take.video.bytes > 0 {
        let target: u64 = pcm::pcm_bytes_for_duration(span, take.sample_rate);
        append_silence = audio.pad_audio_to(target);
    }
    let frame: u128 = 4 * take.sample_rate as u128;
    let sound: u128 = frame_rate::round_div(
        audio.written as u128 * frame_rate::NANOS_PER_SEC,
        frame,
    );
    let duration: u128 = if span >= sound {
        span
    } else {
        sound
    };
    let measured: u128 = if duration >= frame_rate::SHORTEST_MEASURED_SPAN {
        duration
    } else {
        frame_rate::SHORTEST_MEASURED_SPAN
    };
    let fps = frame_rate::mux_fps_from_pictures(take.video.pictures, measured, take.fallback_fps);
    MuxPlan {
        append_silence,
        audio,
        span,
        duration,
        fps,
        has_video: take.video.bytes > 0,
        has_audio: audio.written > 0,
    }
}

/// Plans the remux of a take, or says that there is nothing to mux.
pub fn plan_mux(take: &Take) -> (res: Result<MuxPlan, String>)
    requires
        take.wf(),
    ensures
        take.nothing() ==> (res matches Err(error) && error@
            == "no video or audio data captured"@),
        !take.nothing() ==> res == Ok::<MuxPlan, String>(take.plan()),
        res is Err <==> take.video.bytes == 0 && take.audio.written == 0,
        res matches Ok(plan) ==> plan.fps.wf() && plan.fps.one_or_more(),
{
    let plan = measure_take(take);
    if !plan.has_video && !plan.has_audio {
        return Err("no video or audio data captured".to_owned());
    }
    Ok(plan)
}

/// A take with pictures gets a soundtrack that lasts at least as long as they do, and no captured
/// sound is cut from any take.
pub proof fn soundtracks_last_as_long_as_pictures(take: Take)
    requires
        take.wf(),
    ensures
        take.plan().audio.written >= take.audio.written,
        take.plan().has_video ==> take.plan().audio.written >= pcm::pcm_bytes(
            take.span(),
            take.sample_rate as nat,
        ),
{
}

/// The pictures of a take, shown at its rate, last exactly as long as the take plays, wherever
/// that rate can be measured, and the sound does not last longer. Where there are pictures, the
/// sound ends less than one sample before them (up to a rate of one sample per nanosecond; past
/// it, rounding to nanoseconds counts for more): neither track is cut short of the other.
pub proof fn pictures_and_sound_end_together(take: Take)
    requires
        take.wf(),
        frame_rate::measurable(take.video.pictures as nat, take.duration()),
    ensures
        ({
            let plan = take.plan();
            take.video.pictures * plan.fps.den * frame_rate::NANOS_PER_SEC == plan.duration
                * plan.fps.num
        }),
        ({
            let plan = take.plan();
            let sound = playing_time(plan.audio.written as nat, take.sample_rate as nat);
            &&& plan.duration >= sound
            &&& plan.has_video ==> 2 * (plan.duration - sound) * take.sample_rate
                < frame_rate::NANOS_PER_SEC + take.sample_rate
            &&& plan.has_video && take.sample_rate <= frame_rate::NANOS_PER_SEC ==> (plan.duration
                - sound) * take.sample_rate < frame_rate::NANOS_PER_SEC
        }),
{
    durations_fit(take);
    frame_rate::measured_takes_keep_their_length(
        take.video.pictures,
        take.duration() as u128,
        take.fallback_fps,
    );
    if take.plan().has_video {
        sound_reaches_the_pictures(take);
        let short = take.plan().duration - playing_time(
            take.plan().audio.written as nat,
            take.sample_rate as nat,
        );
        let rate = take.sample_rate as int;
        assert(2 * short * rate == 2 * (short * rate)) by (nonlinear_arith);
    }
}

/// Sound that was padded to the pictures ends less than half a sample and half a nanosecond before
/// them.
proof fn sound_reaches_the_pictures(take: Take)
    requires
        take.wf(),
        take.video.bytes > 0,
    ensures
        ({
            let sound = playing_time(
                (take.audio.written + take.lacking()) as nat,
                take.sample_rate as nat,
            );
            2 * (take.duration() - sound) * take.sample_rate < 1_000_000_000 + take.sample_rate
        }),
{
    let rate = take.sample_rate as nat;
    let span = take.span();
    let bytes = (take.audio.written + take.lacking()) as nat;
    let frames = frame_rate::nearest(span * rate, 1_000_000_000);
    let sound = playing_time(bytes, rate);
    frame_rate::nearest_is_within_half(span * rate, 1_000_000_000);
    frame_rate::nearest_is_within_half(bytes * 1_000_000_000, 4 * rate);
    assert(bytes >= 4 * frames);
    if span >= sound {
        assert(2 * (span - sound) * rate < 1_000_000_000 + rate) by (nonlinear_arith)
            requires
                bytes >= 4 * frames,
                2 * (span * rate) + 1_000_000_000 < 2 * 1_000_000_000 * frames + 2 * 1_000_000_000,
                2 * (bytes * 1_000_000_000) + 4 * rate < 2 * (4 * rate) * sound + 2 * (4 * rate),
        ;
    } else {
        assert(2 * (sound - sound) * rate == 0) by (nonlinear_arith);
    }
}

/// The span of a take is the time from its first picture to its last, however long; where the last
/// is not later than the first, or there is none, it is the length of the session. A take plays at
/// least as long as its span.
pub proof fn spans_run_from_first_to_last(take: Take)
    requires
        take.wf(),
    ensures
        ({
            let plan = take.plan();
            match (take.video.first, take.video.last) {
                (Some(a), Some(b)) => if b > a {
                    plan.span == b - a && plan.duration >= b - a
                } else {
                    plan.span == take.wall && plan.duration >= take.wall
                },
                _ => plan.span == take.wall && plan.duration >= take.wall,
            }
        }),
{
    durations_fit(take);
}

/// The sound of a take with pictures reaches the last of them: of all numbers of frames that do not
/// lie more than half a frame past the time from first picture to last, none is larger than the
/// number of frames in the soundtrack.
pub proof fn sound_reaches_the_last_picture(take: Take, a: u64, b: u64, frames: nat)
    requires
        take.wf(),
        take.video.bytes > 0,
        take.video.first == Some(a),
        take.video.last == Some(b),
        b > a,
        2 * 1_000_000_000 * frames <= 2 * ((b - a) * take.sample_rate) + 1_000_000_000,
    ensures
        take.plan().audio.written >= 4 * frames,
{
    durations_fit(take);
    let rate = take.sample_rate as nat;
    let n = (b - a) as nat;
    pcm::positions_follow_time(n, rate);
    let x: int = (n * rate) as int;
    assert(x == (b - a) * take.sample_rate) by (nonlinear_arith)
        requires
            n == b - a,
            rate == take.sample_rate,
            x == n * rate,
    ;
    assert(take.span() == n);
    let most = (pcm::pcm_bytes(n, rate) / 4) as int;
    assert(frames <= most) by (nonlinear_arith)
        requires
            2 * x < 2 * 1_000_000_000 * most + 1_000_000_000,
            2 * 1_000_000_000 * frames <= 2 * x + 1_000_000_000,
    ;
    assert(take.audio.written + take.lacking() >= pcm::pcm_bytes(n, rate));
    assert(take.plan().audio.written == take.audio.written + take.lacking());
}

/// A soundtrack gets as much silence as its pictures ask for and no more: what is appended is what
/// the track and its silence grow by; a take without pictures, or with sound up to the last of
/// them, gets none; any other ends with the last picture, at the frame nearest to it.
pub proof fn silence_is_appended_up_to_the_last_picture(take: Take)
    requires
        take.wf(),
    ensures
        ({
            let plan = take.plan();
            let target = pcm::pcm_bytes(plan.span as nat, take.sample_rate as nat);
            &&& plan.audio.written == take.audio.written + plan.append_silence
            &&& plan.audio.silence == take.audio.silence + plan.append_silence
            &&& take.video.bytes == 0 ==> plan.append_silence == 0
            &&& take.audio.written >= target ==> plan.append_silence == 0
            &&& take.video.bytes > 0 && take.audio.written < target ==> plan.audio.written == target
            &&& plan.has_video <==> take.video.bytes > 0
            &&& plan.has_audio <==> plan.audio.written > 0
        }),
{
    durations_fit(take);
}

/// A take plays as long as the longer of its two tracks: the span of its pictures, or its sound at
/// four bytes a frame, to the nanosecond.
pub proof fn takes_play_as_long_as_the_longer_track(take: Take)
    requires
        take.wf(),
    ensures
        ({
            let plan = take.plan();
            let bytes = plan.audio.written * 1_000_000_000;
            let frame = 4 * take.sample_rate;
            &&& plan.duration >= plan.span
            &&& 2 * bytes <= 2 * (frame * plan.duration) + frame
            &&& plan.duration == plan.span || 2 * (frame * plan.duration) <= 2 * bytes + frame
        }),
{
    durations_fit(take);
    let bytes = (take.audio.written + take.lacking()) as nat;
    let frame = 4 * take.sample_rate as nat;
    let sound = playing_time(bytes, take.sample_rate as nat);
    frame_rate::nearest_is_within_half(bytes * 1_000_000_000, frame);
    assert(2 * frame * sound == 2 * (frame * sound)) by (nonlinear_arith);
    let d = take.duration();
    assert(frame * sound <= frame * d) by (nonlinear_arith)
        requires
            sound <= d,
            frame >= 0,
    ;
}

/// Pictures are muxed at the rate that makes them last as long as the take plays, wherever that is
/// 50 ms or more and the rate lies from 5 to 240; else at the configured rate where it is 1 or
/// more, or at 72.
pub proof fn takes_are_muxed_at_their_own_rate(take: Take)
    requires
        take.wf(),
        take.plan().duration >= 50_000_000,
    ensures
        ({
            let plan = take.plan();
            let frames = take.video.pictures * 1_000_000_000;
            if take.video.pictures >= 2 && 5 * plan.duration <= frames && frames <= 240
                * plan.duration {
                plan.fps.den > 0 && take.video.pictures * plan.fps.den * 1_000_000_000
                    == plan.duration * plan.fps.num
            } else {
                plan.fps == (match take.fallback_fps {
                    Some(rate) => if rate.num >= rate.den {
                        rate
                    } else {
                        FrameRate { num: 72, den: 1 }
                    },
                    None => FrameRate { num: 72, den: 1 },
                })
            }
        }),
{
    durations_fit(take);
    let d = take.duration() as u128;
    let pictures = take.video.pictures;
    if pictures >= 2 && 5 * d <= pictures * 1_000_000_000 <= 240 * d {
        frame_rate::pictures_are_shown_at_their_own_rate(pictures, d, take.fallback_fps);
    } else {
        frame_rate::other_pictures_fall_back(pictures, d, take.fallback_fps);
    }
}

/// A take that plays for less than 50 ms is muxed as if it played that long: two to twelve pictures
/// at their rate over it, all others at the configured rate where it is 1 or more, or at 72.
pub proof fn short_takes_count_as_fifty_milliseconds(take: Take)
    requires
        take.wf(),
        take.plan().duration < 50_000_000,
    ensures
        ({
            let plan = take.plan();
            if 2 <= take.video.pictures <= 12 {
                plan.fps.den > 0 && take.video.pictures * plan.fps.den * 20 == plan.fps.num
            } else {
                plan.fps == (match take.fallback_fps {
                    Some(rate) => if rate.num >= rate.den {
                        rate
                    } else {
                        FrameRate { num: 72, den: 1 }
                    },
                    None => FrameRate { num: 72, den: 1 },
                })
            }
        }),
{
    durations_fit(take);
    let pictures = take.video.pictures;
    if 2 <= pictures <= 12 {
        frame_rate::pictures_are_shown_at_their_own_rate(pictures, 50_000_000, take.fallback_fps);
        let rate = take.plan().fps;
        let shown = pictures * rate.den;
        assert(shown * 1_000_000_000 == 50_000_000 * rate.num);
    } else {
        frame_rate::other_pictures_fall_back(pictures, 50_000_000, take.fallback_fps);
    }
}

/// Every take can be planned that has a sample rate and, if any, a valid rate to fall back on, and whose
/// sound 64 bits can count.
pub proof fn takes_can_be_planned(take: Take)
    ensures
        take.wf() <==> take.sample_rate > 0 && (take.fallback_fps matches Some(rate) ==> rate.den
            > 0) && (take.video.bytes > 0 ==> ({
            let span = match (take.video.first, take.video.last) {
                (Some(a), Some(b)) => if b > a {
                    (b - a) as nat
                } else {
                    take.wall as nat
                },
                _ => take.wall as nat,
            };
            let target = pcm::pcm_bytes(span, take.sample_rate as nat);
            target <= 0xffff_ffff_ffff_ffff && (target > take.audio.written ==> take.audio.silence
                + (target - take.audio.written) <= 0xffff_ffff_ffff_ffff)
        })),
{
    pcm::positions_follow_time(take.span(), take.sample_rate as nat);
}

/// One more packet adds its bytes and its pictures to a track, is the last one, and is the first
/// one where there was none; counters that reach 64 bits begin again.
pub proof fn packets_are_added_in_full(
    track: VideoTrack,
    at: u64,
    data: Seq<u8>,
    demux: Seq<char>,
)
    requires
        track.since_flush < 30,
    ensures
        ({
            let after = track.after(at, data, demux);
            &&& after.last == Some(at)
            &&& track.first is None ==> after.first == Some(at)
            &&& track.first is Some ==> after.first == track.first
            &&& track.bytes + data.len() <= u64::MAX ==> after.bytes == track.bytes + data.len()
            &&& track.packets < u64::MAX ==> after.packets == track.packets + 1
            &&& track.pictures + nal::coded_pictures(data, demux) <= u64::MAX ==> after.pictures
                == track.pictures + nal::coded_pictures(data, demux)
            &&& after.since_flush == (if track.since_flush == 29 {
                0
            } else {
                track.since_flush + 1
            })
        }),
{
}

} // verus!
