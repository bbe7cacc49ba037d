//! Which bitstream is written into the recording mux.
//!
//! Pre-FFR is a second encode of the composition SBS (same layer as screenshots).
//! Stream copy is the packed foveated bitstream sent to the headset (legacy / fallback).

use crate::frame_rate;
use crate::frame_rate::FrameRate;
use vstd::prelude::*;

verus! {

/// Where recorded pictures come from.
#[derive(Debug, Clone, Copy, PartialEq, Eq, Structural)]
pub enum RecordingVideoSource {
    /// Wait for pre-FFR encoder NALs; do not mux headset stream packets.
    PreFfr,
    /// Mux the same NALs sent to the headset (packed FFR when foveation is on).
    StreamCopy,
}

/// Headset-stream NALs go into the MKV until the dedicated pre-FFR encoder
/// actually emits NALs (init failed, not started yet, or Linux fallback).
pub fn mux_stream_nals(recording_active: bool, pre_ffr_nals_seen: bool) -> (res: bool)
    ensures
        res == (recording_active && !pre_ffr_nals_seen),
{
    recording_active && !pre_ffr_nals_seen
}

/// Once any pre-FFR NAL arrives, keep using that source for the rest of the session.
pub fn on_pre_ffr_nal(current: RecordingVideoSource) -> (res: RecordingVideoSource)
    ensures
        res == RecordingVideoSource::PreFfr,
{
    let _ = current;
    RecordingVideoSource::PreFfr
}

/// Stream VideoSend strips SPS/PPS into decoder_config. The mux file needs those
/// NALs in-band or ffmpeg reports "non-existing PPS" and writes a 0-byte MKV.
pub fn should_prefix_decoder_config(is_idr: bool, already_prefixed: bool) -> (res: bool)
    ensures
        res == (is_idr || !already_prefixed),
{
    is_idr || !already_prefixed
}

/// The shortest gap, in nanoseconds, between two frames of a recording capped at `max_fps`.
pub open spec fn shortest_gap(max_fps: FrameRate) -> int {
    1_000_000_000int / (max_fps.whole_cap() as int)
}

/// Whether a recording capped at `max_fps` keeps a frame.
pub open spec fn keeps(since_last: Option<u128>, max_fps: FrameRate) -> bool {
    !max_fps.one_or_more() || since_last is None || since_last->0 >= shortest_gap(max_fps)
}

/// Whether to keep a frame for a recording capped at `max_fps`. Below 1 means uncapped.
/// `since_last` is the wall-clock gap in nanoseconds since the frame kept last; without one this
/// is the first frame, which is kept.
pub fn should_keep_recording_frame(since_last: Option<u128>, max_fps: FrameRate) -> (res: bool)
    requires
        max_fps.wf(),
    ensures
        res == keeps(since_last, max_fps),
{
    if max_fps.num < max_fps.den {
        return true;
    }
    match since_last {
        None => true,
        Some(gap) => {
            let fps: u64 = max_fps.rounded();
            gap >= (1_000_000_000 / fps) as u128
        },
    }
}

/// A cap holds over a whole recording: frames kept at the given times, each with the gap to the
/// one before it, take up at least one shortest gap for every frame but the first.
pub proof fn capped_recordings_keep_their_distance(times: Seq<u128>, max_fps: FrameRate)
    requires
        max_fps.wf(),
        max_fps.one_or_more(),
        times.len() > 0,
        forall|i: int|
            #![trigger times[i]]
            0 < i < times.len() ==> times[i - 1] <= times[i] && keeps(
                Some((times[i] - times[i - 1]) as u128),
                max_fps,
            ),
    ensures
        times.last() - times[0] >= (times.len() - 1) * shortest_gap(max_fps),
    decreases times.len(),
{
    let n = times.len() - 1;
    let g = shortest_gap(max_fps);
    if n == 0 {
        assert(n * g == 0) by (nonlinear_arith)
            requires
                n == 0,
        ;
    } else {
        let head = times.drop_last();
        assert forall|i: int|
            #![trigger head[i]]
            0 < i < head.len() implies head[i - 1] <= head[i] && keeps(
            Some((head[i] - head[i - 1]) as u128),
            max_fps,
        ) by {
            assert(head[i] == times[i] && head[i - 1] == times[i - 1]);
        }
        capped_recordings_keep_their_distance(head, max_fps);
        assert(times[n] - times[n - 1] >= g);
        assert(n * g == (n - 1) * g + g) by (nonlinear_arith);
    }
}

/// Uncapped recordings, below 1 frame per second, keep every frame; every recording keeps its
/// first.
pub proof fn uncapped_recordings_keep_every_frame(since_last: Option<u128>, max_fps: FrameRate)
    ensures
        max_fps.num < max_fps.den ==> keeps(since_last, max_fps),
        keeps(None, max_fps),
{
}

/// A recording capped at `n` frames per second, to the nearest whole rate, keeps a frame exactly
/// where `n` of its gaps, each a nanosecond longer, take more than a second.
pub proof fn caps_keep_frames_a_gap_apart(gap: u128, max_fps: FrameRate, n: int)
    requires
        max_fps.den > 0,
        max_fps.num >= max_fps.den,
        1 <= n <= 240,
        2 * max_fps.den * n <= 2 * max_fps.num + max_fps.den,
        n == 240 || 2 * max_fps.num + max_fps.den < 2 * max_fps.den * (n + 1),
    ensures
        keeps(Some(gap), max_fps) <==> (gap + 1) * n > 1_000_000_000,
{
    frame_rate::caps_are_whole_rates(max_fps);
    let c = max_fps.whole_cap() as int;
    let d = max_fps.den as int;
    if c < n {
        assert(2 * d * (c + 1) <= 2 * d * n) by (nonlinear_arith)
            requires
                c + 1 <= n,
                d > 0,
        ;
    } else if c > n {
        assert(2 * d * (n + 1) <= 2 * d * c) by (nonlinear_arith)
            requires
                n + 1 <= c,
                d > 0,
        ;
    }
    assert(c == n);
    let q = 1_000_000_000int / n;
    let r = 1_000_000_000int % n;
    let g = gap as int;
    vstd::arithmetic::div_mod::lemma_fundamental_div_mod(1_000_000_000, n);
    vstd::arithmetic::div_mod::lemma_mod_bound(1_000_000_000, n);
    if g >= q {
        assert((g + 1) * n > 1_000_000_000) by (nonlinear_arith)
            requires
                g >= q,
                1_000_000_000 == n * q + r,
                0 <= r < n,
        ;
    } else {
        assert((g + 1) * n <= 1_000_000_000) by (nonlinear_arith)
            requires
                g + 1 <= q,
                1_000_000_000 == n * q + r,
                0 <= r,
                n > 0,
        ;
    }
}

} // verus!
