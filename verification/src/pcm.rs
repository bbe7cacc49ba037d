//! Stereo s16le sound by the byte: positions, silence for gaps, and where a captured chunk goes.

use crate::frame_rate;
use vstd::prelude::*;

verus! {

/// Stereo s16le frame size.
pub const PCM_FRAME_BYTES: u64 = 4;

/// Silence is written in pieces of at most this many bytes.
pub const SILENCE_PIECE_BYTES: u64 = 16384;

/// `nbytes` without the part of a frame at its end.
pub open spec fn aligned(nbytes: nat) -> nat {
    (nbytes - nbytes % 4) as nat
}

/// `nbytes` up to a whole number of frames.
pub open spec fn filled_up(nbytes: nat) -> nat {
    if nbytes % 4 == 0 {
        nbytes
    } else {
        aligned(nbytes) + 4
    }
}

/// `nbytes` without the part of a frame at its end.
pub fn align_pcm(nbytes: u64) -> (res: u64)
    ensures
        res == aligned(nbytes as nat),
{
    nbytes - (nbytes % PCM_FRAME_BYTES)
}

/// The bytes of sound in `nanos` nanoseconds: the nearest whole number of frames, times the size
/// of one.
pub open spec fn pcm_bytes(nanos: nat, sample_rate: nat) -> nat {
    4 * frame_rate::nearest(nanos * sample_rate, 1_000_000_000)
}

/// The bytes of sound in `nanos` nanoseconds, or none where 64 bits cannot hold the number.
pub fn checked_pcm_bytes(nanos: u128, sample_rate: u32) -> (res: Option<u64>)
    ensures
        res is Some <==> pcm_bytes(nanos as nat, sample_rate as nat) <= u64::MAX,
        res matches Some(n) ==> n == pcm_bytes(nanos as nat, sample_rate as nat),
{
    proof {
        frame_rate::nearest_is_within_half(nanos as nat * sample_rate as nat, 1_000_000_000);
    }
    match nanos.checked_mul(sample_rate as u128) {
        Some(product) => {
            let frames: u128 = frame_rate::round_div(product, frame_rate::NANOS_PER_SEC);
            if frames <= 0x3fff_ffff_ffff_ffff {
                Some(frames as u64 * PCM_FRAME_BYTES)
            } else {
                None
            }
        },
        None => None,
    }
}

/// The bytes of sound in `nanos` nanoseconds.
pub fn pcm_bytes_for_duration(nanos: u128, sample_rate: u32) -> (res: u64)
    requires
        pcm_bytes(nanos as nat, sample_rate as nat) <= u64::MAX,
    ensures
        res == pcm_bytes(nanos as nat, sample_rate as nat),
{
    match checked_pcm_bytes(nanos, sample_rate) {
        Some(n) => n,
        None => 0,
    }
}

/// The nanoseconds from `t0` to `t`, none where `t` is not later.
pub open spec fn elapsed(t0: u64, t: u64) -> nat {
    if t <= t0 {
        0
    } else {
        (t - t0) as nat
    }
}

/// The bytes of sound from `t0` to `t`, both in nanoseconds of one clock.
pub fn pcm_bytes_between(t0: u64, t: u64, sample_rate: u32) -> (res: u64)
    requires
        pcm_bytes(elapsed(t0, t), sample_rate as nat) <= u64::MAX,
    ensures
        res == pcm_bytes(elapsed(t0, t), sample_rate as nat),
        t <= t0 ==> res == 0,
{
    if t <= t0 {
        proof {
            let none = 0nat * sample_rate as nat;
            assert(none == 0) by (nonlinear_arith)
                requires
                    none == 0nat * sample_rate as nat,
            ;
            frame_rate::nearest_is_within_half(none, 1_000_000_000);
        }
        return 0;
    }
    pcm_bytes_for_duration((t - t0) as u128, sample_rate)
}

/// Where silence should end before a chunk that was captured over the `chunk_len` bytes up to
/// `wall_bytes`.
pub open spec fn pad_target(wall_bytes: nat, chunk_len: nat) -> nat {
    let chunk = aligned(chunk_len);
    if wall_bytes <= chunk {
        0
    } else {
        aligned((wall_bytes - chunk) as nat)
    }
}

/// Where silence should end before appending a PCM chunk captured over the last
/// `chunk_len` bytes. Using `wall_bytes` itself would place those samples *after* now.
pub fn pad_target_before_chunk(wall_bytes: u64, chunk_len: usize) -> (res: u64)
    ensures
        res == pad_target(wall_bytes as nat, chunk_len as nat),
{
    let chunk: u64 = align_pcm(chunk_len as u64);
    if wall_bytes <= chunk {
        0
    } else {
        align_pcm(wall_bytes - chunk)
    }
}

/// The size of the next piece of silence, where `left` bytes of it are still to be written.
pub fn silence_piece(left: u64) -> (res: usize)
    ensures
        res == (if left < SILENCE_PIECE_BYTES { left } else { SILENCE_PIECE_BYTES }),
{
    if left < SILENCE_PIECE_BYTES {
        left as usize
    } else {
        16384
    }
}

/// A soundtrack as it grows.
#[derive(Debug, Clone, Copy, PartialEq, Eq, Structural)]
pub struct AudioTrack {
    /// Bytes in the file.
    pub written: u64,
    /// How many of them are silence that filled a gap.
    pub silence: u64,
}

/// What to do with a captured chunk.
#[derive(Debug, Clone, Copy, PartialEq, Eq, Structural)]
pub enum AudioStep {
    /// Leave it out.
    Drop,
    /// Write `silence` zero bytes, then the chunk.
    Write { silence: u64 },
}

/// The silence that is missing from a track of `written` bytes for it to reach `target`, at the end
/// of a frame; none where it has reached it already.
pub open spec fn missing(written: nat, target: nat) -> nat {
    if target <= written {
        0
    } else {
        (filled_up(target) - written) as nat
    }
}

/// Whether a chunk belongs to the soundtrack: it holds something, and the pictures had begun
/// before it was captured.
pub open spec fn in_take(origin: Option<u64>, at: u64, chunk_len: nat) -> bool {
    chunk_len > 0 && (origin matches Some(t0) && at > t0)
}

impl AudioTrack {
    /// The silence that goes before a chunk.
    pub open spec fn gap_before(self, t0: u64, at: u64, chunk_len: nat, sample_rate: nat) -> nat {
        missing(
            self.written as nat,
            pad_target(pcm_bytes(elapsed(t0, at), sample_rate), chunk_len),
        )
    }

    /// Whether 64 bits can hold every number that a chunk leads to.
    pub open spec fn fits(
        self,
        origin: Option<u64>,
        at: u64,
        chunk_len: nat,
        sample_rate: nat,
    ) -> bool {
        in_take(origin, at, chunk_len) ==> {
            let gap = self.gap_before(origin->0, at, chunk_len, sample_rate);
            &&& pcm_bytes(elapsed(origin->0, at), sample_rate) <= u64::MAX
            &&& self.written + gap + chunk_len <= u64::MAX
            &&& self.silence + gap <= u64::MAX
        }
    }

    /// An empty track.
    pub fn new() -> (res: AudioTrack)
        ensures
            res.written == 0,
            res.silence == 0,
    {
        AudioTrack { written: 0, silence: 0 }
    }

    /// Makes the track reach at least `target` bytes, up to the end of a frame; gives the bytes of
    /// silence that are to be written for it, none where the track has reached it already.
    pub fn pad_audio_to(&mut self, target: u64) -> (res: u64)
        requires
            old(self).written + missing(old(self).written as nat, target as nat) <= u64::MAX,
            old(self).silence + missing(old(self).written as nat, target as nat) <= u64::MAX,
        ensures
            res == missing(old(self).written as nat, target as nat),
            final(self).written == old(self).written + res,
            final(self).silence == old(self).silence + res,
            final(self).written >= target,
            old(self).written >= target ==> res == 0,
            res > 0 ==> final(self).written % 4 == 0 && final(self).written < target + 4,
    {
        if target <= self.written {
            return 0;
        }
        let part: u64 = target % PCM_FRAME_BYTES;
        let end: u64 = if part == 0 {
            target
        } else {
            target + (PCM_FRAME_BYTES - part)
        };
        let gap: u64 = end - self.written;
        self.written = end;
        self.silence = self.silence + gap;
        gap
    }

    /// Whether 64 bits can hold every number that a chunk leads to; see `on_chunk`.
    pub fn has_room(&self, origin: Option<u64>, at: u64, chunk_len: usize, sample_rate: u32) -> (res:
        bool)
        ensures
            res == self.fits(origin, at, chunk_len as nat, sample_rate as nat),
    {
        if chunk_len == 0 {
            return true;
        }
        match origin {
            None => true,
            Some(t0) => {
                if at <= t0 {
                    return true;
                }
                match checked_pcm_bytes((at - t0) as u128, sample_rate) {
                    None => false,
                    Some(wall) => {
                        let target: u64 = pad_target_before_chunk(wall, chunk_len);
                        let gap: u64 = if target <= self.written {
                            0
                        } else {
                            target - self.written
                        };
                        u64::MAX - self.written >= gap && u64::MAX - self.written - gap
                            >= chunk_len as u64 && u64::MAX - self.silence >= gap
                    },
                }
            },
        }
    }

    /// Takes a chunk of `chunk_len` bytes whose capture ended at `at`. `origin` is when the first
    /// picture arrived: sound from before it is left out, since the pictures are what the take
    /// begins with. Silence is written for true gaps only, told by capture time.
    pub fn on_chunk(&mut self, origin: Option<u64>, at: u64, chunk_len: usize, sample_rate: u32) -> (res:
        AudioStep)
        requires
            old(self).fits(origin, at, chunk_len as nat, sample_rate as nat),
        ensures
            !in_take(origin, at, chunk_len as nat) ==> res is Drop && *final(self) == *old(self),
            res is Write <==> chunk_len > 0 && (origin matches Some(t0) && at > t0),
            res matches AudioStep::Write { silence } ==> final(self).written == old(self).written
                + silence + chunk_len && final(self).silence == old(self).silence + silence,
            res is Drop ==> *final(self) == *old(self),
            res matches AudioStep::Write { silence } ==> silence == missing(
                old(self).written as nat,
                pad_target(
                    pcm_bytes((at - origin->0) as nat, sample_rate as nat),
                    chunk_len as nat,
                ),
            ),
            in_take(origin, at, chunk_len as nat) ==> {
                let gap = old(self).gap_before(
                    origin->0,
                    at,
                    chunk_len as nat,
                    sample_rate as nat,
                );
                &&& res == (AudioStep::Write { silence: gap as u64 })
                &&& final(self).written == old(self).written + gap + chunk_len
                &&& final(self).silence == old(self).silence + gap
            },
    {
        if chunk_len == 0 {
            return AudioStep::Drop;
        }
        match origin {
            None => AudioStep::Drop,
            Some(t0) => {
                if at <= t0 {
                    return AudioStep::Drop;
                }
                let wall: u64 = pcm_bytes_between(t0, at, sample_rate);
                let silence: u64 = self.pad_audio_to(pad_target_before_chunk(wall, chunk_len));
                self.written = self.written + chunk_len as u64;
                AudioStep::Write { silence }
            },
        }
    }
}

/// Padding before a chunk never shifts its samples past the moment at which they were captured.
pub proof fn samples_never_shift_past_now(wall_bytes: nat, chunk_len: nat)
    ensures
        pad_target(wall_bytes, chunk_len) > 0 ==> pad_target(wall_bytes, chunk_len) + aligned(
            chunk_len,
        ) <= wall_bytes,
{
}

/// True gaps are kept: a chunk that fits before now ends within one frame of now.
pub proof fn true_gaps_are_kept(wall_bytes: nat, chunk_len: nat)
    requires
        aligned(chunk_len) <= wall_bytes,
    ensures
        wall_bytes - (pad_target(wall_bytes, chunk_len) + aligned(chunk_len)) < 4,
{
}

/// Targets lie on whole frames.
pub proof fn targets_are_whole_frames(wall_bytes: nat, chunk_len: nat)
    ensures
        pad_target(wall_bytes, chunk_len) % 4 == 0,
        filled_up(pad_target(wall_bytes, chunk_len)) == pad_target(wall_bytes, chunk_len),
{
}

/// A longer span never has fewer bytes.
pub proof fn longer_spans_have_more_sound(a: nat, b: nat, sample_rate: nat)
    requires
        a <= b,
    ensures
        pcm_bytes(a, sample_rate) <= pcm_bytes(b, sample_rate),
{
    assert(a * sample_rate <= b * sample_rate) by (nonlinear_arith)
        requires
            a <= b,
            sample_rate >= 0,
    ;
    frame_rate::nearest_keeps_order(a * sample_rate, b * sample_rate, 1_000_000_000);
}

/// Sound stays with the clock: once a chunk is in, the track has not fallen behind the moment of
/// its capture by a whole frame, and where there was room for the chunk before that moment it has
/// not run ahead by a whole frame either.
pub proof fn sound_stays_with_the_clock(
    track: AudioTrack,
    t0: u64,
    at: u64,
    chunk_len: nat,
    sample_rate: nat,
)
    requires
        at > t0,
        aligned(chunk_len) <= pcm_bytes(elapsed(t0, at), sample_rate),
    ensures
        ({
            let wall = pcm_bytes(elapsed(t0, at), sample_rate);
            let after = track.written + track.gap_before(t0, at, chunk_len, sample_rate)
                + chunk_len;
            &&& after > wall - PCM_FRAME_BYTES
            &&& track.written + chunk_len <= wall ==> after < wall + PCM_FRAME_BYTES
        }),
{
}

/// The bytes and the silence of a track after chunks, the last one last. A chunk is given by what is
/// known of the first picture when it is handed in, by its capture time and by its length; until
/// there is a picture, chunks are left out.
pub open spec fn track_after(chunks: Seq<(Option<u64>, u64, nat)>, sample_rate: nat) -> (nat, nat)
    decreases chunks.len(),
{
    if chunks.len() == 0 {
        (0, 0)
    } else {
        let (written, silence) = track_after(chunks.drop_last(), sample_rate);
        let (origin, at, len) = chunks.last();
        if in_take(origin, at, len) {
            let wall = pcm_bytes(elapsed(origin->0, at), sample_rate);
            let gap = missing(written, pad_target(wall, len));
            (written + gap + len, silence + gap)
        } else {
            (written, silence)
        }
    }
}

/// The bytes of the chunks that were handed in once the first picture was known and captured later
/// than it.
pub open spec fn captured(chunks: Seq<(Option<u64>, u64, nat)>) -> nat
    decreases chunks.len(),
{
    if chunks.len() == 0 {
        0
    } else {
        let (origin, at, len) = chunks.last();
        captured(chunks.drop_last()) + (match origin {
            Some(t0) => if at > t0 {
                len
            } else {
                0
            },
            None => 0,
        })
    }
}

/// Nothing that belongs to a take is lost or counted twice: a track counts every such chunk in
/// full, and beside these chunks only silence.
pub proof fn tracks_hold_chunks_and_silence(
    chunks: Seq<(Option<u64>, u64, nat)>,
    sample_rate: nat,
)
    ensures
        track_after(chunks, sample_rate).0 == captured(chunks) + track_after(
            chunks,
            sample_rate,
        ).1,
    decreases chunks.len(),
{
    if chunks.len() > 0 {
        tracks_hold_chunks_and_silence(chunks.drop_last(), sample_rate);
    }
}

/// Chunks that are handed in before the first picture is known leave the track as it was.
pub proof fn sound_before_pictures_is_left_out(
    chunks: Seq<(Option<u64>, u64, nat)>,
    more: Seq<(Option<u64>, u64, nat)>,
    sample_rate: nat,
)
    requires
        forall|i: int| 0 <= i < more.len() ==> (#[trigger] more[i]).0 is None,
    ensures
        track_after(chunks + more, sample_rate) == track_after(chunks, sample_rate),
    decreases more.len(),
{
    if more.len() == 0 {
        assert(chunks + more == chunks);
    } else {
        assert(more.last() == more[more.len() - 1]);
        assert((chunks + more).last() == more.last());
        assert((chunks + more).drop_last() == chunks + more.drop_last());
        assert forall|i: int| 0 <= i < more.drop_last().len() implies (
        #[trigger] more.drop_last()[i]).0 is None by {
            assert(more.drop_last()[i] == more[i]);
        }
        sound_before_pictures_is_left_out(chunks, more.drop_last(), sample_rate);
    }
}

/// Chunks by their length.
pub open spec fn lengths(chunks: Seq<(Option<u64>, u64, Seq<u8>)>) -> Seq<(Option<u64>, u64, nat)> {
    chunks.map_values(|c: (Option<u64>, u64, Seq<u8>)| (c.0, c.1, c.2.len()))
}

/// What the file of a track holds after chunks: for each that belongs to the take, the silence
/// before it and the chunk itself.
pub open spec fn file_after(chunks: Seq<(Option<u64>, u64, Seq<u8>)>, sample_rate: nat) -> Seq<u8>
    decreases chunks.len(),
{
    if chunks.len() == 0 {
        Seq::empty()
    } else {
        let before = chunks.drop_last();
        let (origin, at, data) = chunks.last();
        if in_take(origin, at, data.len()) {
            let wall = pcm_bytes(elapsed(origin->0, at), sample_rate);
            let gap = missing(
                track_after(lengths(before), sample_rate).0,
                pad_target(wall, data.len()),
            );
            file_after(before, sample_rate) + Seq::new(gap, |i: int| 0u8) + data
        } else {
            file_after(before, sample_rate)
        }
    }
}

/// A track counts exactly what its file holds, whatever the length of its chunks.
pub proof fn files_are_as_long_as_counted(
    chunks: Seq<(Option<u64>, u64, Seq<u8>)>,
    sample_rate: nat,
)
    ensures
        file_after(chunks, sample_rate).len() == track_after(lengths(chunks), sample_rate).0,
    decreases chunks.len(),
{
    if chunks.len() > 0 {
        let before = chunks.drop_last();
        let (origin, at, data) = chunks.last();
        files_are_as_long_as_counted(before, sample_rate);
        assert(lengths(chunks).drop_last() == lengths(before));
        assert(lengths(chunks).last() == (origin, at, data.len()));
    }
}

/// As long as chunks are whole frames, so is the track.
pub proof fn whole_frames_stay_whole(chunks: Seq<(Option<u64>, u64, nat)>, sample_rate: nat)
    requires
        forall|i: int| 0 <= i < chunks.len() ==> (#[trigger] chunks[i]).2 % 4 == 0,
    ensures
        track_after(chunks, sample_rate).0 % 4 == 0,
    decreases chunks.len(),
{
    if chunks.len() > 0 {
        let before = chunks.drop_last();
        assert forall|i: int| 0 <= i < before.len() implies (#[trigger] before[i]).2 % 4 == 0 by {
            assert(before[i] == chunks[i]);
        }
        assert(chunks.last() == chunks[chunks.len() - 1]);
        whole_frames_stay_whole(before, sample_rate);
    }
}

/// Taking one more chunk is what `on_chunk` does to a track.
pub proof fn tracks_grow_by_chunks(
    track: AudioTrack,
    chunks: Seq<(Option<u64>, u64, nat)>,
    origin: Option<u64>,
    at: u64,
    chunk_len: nat,
    sample_rate: nat,
)
    requires
        track_after(chunks, sample_rate) == (track.written as nat, track.silence as nat),
    ensures
        track_after(chunks.push((origin, at, chunk_len)), sample_rate) == (if in_take(
            origin,
            at,
            chunk_len,
        ) {
            let gap = track.gap_before(origin->0, at, chunk_len, sample_rate);
            ((track.written + gap + chunk_len) as nat, (track.silence + gap) as nat)
        } else {
            (track.written as nat, track.silence as nat)
        }),
{
    assert(chunks.push((origin, at, chunk_len)).drop_last() == chunks);
}

/// Every chunk that holds something, is handed in once the first picture is known and was captured
/// later than it goes into the track in full, however long it is; no other chunk does.
pub proof fn later_sound_is_written(
    track: AudioTrack,
    origin: Option<u64>,
    at: u64,
    chunk_len: nat,
    chunks: Seq<(Option<u64>, u64, nat)>,
    sample_rate: nat,
)
    ensures
        in_take(origin, at, chunk_len) <==> chunk_len > 0 && (origin matches Some(t0) && at > t0),
        ({
            let before = track_after(chunks, sample_rate);
            let after = track_after(chunks.push((origin, at, chunk_len)), sample_rate);
            match origin {
                Some(t0) if at > t0 && chunk_len > 0 => after.0 >= before.0 + chunk_len && after.0
                    - after.1 == before.0 - before.1 + chunk_len,
                _ => after == before,
            }
        }),
{
    assert(chunks.push((origin, at, chunk_len)).drop_last() == chunks);
}

/// Time from the first picture on is counted in full; a time before it is none.
pub proof fn time_counts_from_the_first_picture(t0: u64, t: u64)
    ensures
        t >= t0 ==> elapsed(t0, t) == t - t0,
        t < t0 ==> elapsed(t0, t) == 0,
{
}

/// A position in the sound is a whole number of frames, and off its time by half a frame at most:
/// four bytes a frame, `sample_rate` frames a second.
pub proof fn positions_follow_time(nanos: nat, sample_rate: nat)
    ensures
        pcm_bytes(nanos, sample_rate) % 4 == 0,
        ({
            let frames = (pcm_bytes(nanos, sample_rate) / 4) as int;
            &&& 2 * 1_000_000_000 * frames <= 2 * (nanos * sample_rate) + 1_000_000_000
            &&& 2 * (nanos * sample_rate) < 2 * 1_000_000_000 * frames + 1_000_000_000
        }),
{
    frame_rate::nearest_is_within_half(nanos * sample_rate, 1_000_000_000);
}

/// Aligning drops less than a frame; filling up adds less than one.
pub proof fn frames_have_four_bytes(n: nat)
    ensures
        aligned(n) % 4 == 0,
        n < aligned(n) + 4,
        aligned(n) <= n,
        filled_up(n) % 4 == 0,
        n <= filled_up(n) < n + 4,
{
}

/// Silence is what a track lacks: none where it has reached the target, else up to the first end of
/// a frame that has.
pub proof fn silence_is_what_is_lacking(written: nat, target: nat)
    ensures
        written >= target ==> missing(written, target) == 0,
        written < target ==> target <= written + missing(written, target) < target + 4 && (written
            + missing(written, target)) % 4 == 0,
{
}

/// A chunk that was captured over more time than there was since the first picture, in whole
/// frames, has no silence before it.
pub proof fn long_chunks_begin_at_once(
    track: AudioTrack,
    t0: u64,
    at: u64,
    chunk_len: nat,
    sample_rate: nat,
)
    requires
        aligned(chunk_len) >= pcm_bytes(elapsed(t0, at), sample_rate),
    ensures
        track.gap_before(t0, at, chunk_len, sample_rate) == 0,
{
}

/// Silence is written for true gaps only: a chunk for which the track has no room left before the
/// moment of its capture follows what is there, but for the rest of a frame at most.
pub proof fn late_sound_adds_no_silence(
    track: AudioTrack,
    t0: u64,
    at: u64,
    chunk_len: nat,
    sample_rate: nat,
)
    requires
        track.written + chunk_len >= pcm_bytes(elapsed(t0, at), sample_rate),
    ensures
        track.gap_before(t0, at, chunk_len, sample_rate) < 4,
        track.written % 4 == 0 && chunk_len % 4 == 0 ==> track.gap_before(
            t0,
            at,
            chunk_len,
            sample_rate,
        ) == 0,
{
}

/// A chunk of whole frames after a track of whole frames lands on its time: it ends where its
/// capture ended, wherever that lies at or after the end of the track plus the chunk.
pub proof fn sound_lands_on_its_time(
    track: AudioTrack,
    t0: u64,
    at: u64,
    chunk_len: nat,
    sample_rate: nat,
)
    requires
        track.written % 4 == 0,
        chunk_len % 4 == 0,
        track.written + chunk_len <= pcm_bytes(elapsed(t0, at), sample_rate),
    ensures
        track.written + track.gap_before(t0, at, chunk_len, sample_rate) + chunk_len == pcm_bytes(
            elapsed(t0, at),
            sample_rate,
        ),
{
}

/// There is room for every chunk whose numbers fit: one that is left out needs none, and one that
/// goes in needs its position, its end and its silence to fit in 64 bits.
pub proof fn tracks_have_room(
    track: AudioTrack,
    origin: Option<u64>,
    at: u64,
    chunk_len: nat,
    sample_rate: nat,
)
    ensures
        chunk_len == 0 || origin is None || (origin matches Some(t0) && at <= t0) ==> track.fits(
            origin,
            at,
            chunk_len,
            sample_rate,
        ),
        origin matches Some(t0) ==> (at > t0 && chunk_len > 0 ==> (track.fits(
            origin,
            at,
            chunk_len,
            sample_rate,
        ) <==> {
            let gap = track.gap_before(t0, at, chunk_len, sample_rate);
            &&& pcm_bytes((at - t0) as nat, sample_rate) <= 0xffff_ffff_ffff_ffff
            &&& track.written + gap + chunk_len <= 0xffff_ffff_ffff_ffff
            &&& track.silence + gap <= 0xffff_ffff_ffff_ffff
        })),
{
}

} // verus!
