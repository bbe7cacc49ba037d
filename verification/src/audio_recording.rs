//! A PCM s16le WAV recording: its states, its header, its sizes.

use crate::capture_paths;
use vstd::prelude::*;

verus! {

/// The length of a WAV header.
pub const WAV_HEADER_BYTES: usize = 44;

/// Whether a recording runs.
#[derive(Debug, Clone, Copy, PartialEq, Eq, Structural)]
pub enum AudioRecState {
    Idle,
    Recording,
}

/// `x` in four bytes, the lowest first.
pub open spec fn le32(x: u32) -> Seq<u8> {
    seq![
        (x % 256) as u8,
        (x / 256 % 256) as u8,
        (x / 65536 % 256) as u8,
        (x / 16777216) as u8,
    ]
}

/// `x` in two bytes, the lower first.
pub open spec fn le16(x: u16) -> Seq<u8> {
    seq![(x % 256) as u8, (x / 256) as u8]
}

/// The number that four bytes from `at` on hold, the lowest first.
pub open spec fn read32(d: Seq<u8>, at: int) -> int {
    d[at] + 256 * d[at + 1] + 65536 * d[at + 2] + 16777216 * d[at + 3]
}

/// The number that two bytes from `at` on hold, the lower first.
pub open spec fn read16(d: Seq<u8>, at: int) -> int {
    d[at] + 256 * d[at + 1]
}

fn add32(out: &mut Vec<u8>, x: u32)
    ensures
        final(out)@ == old(out)@ + le32(x),
{
    out.push((x % 256) as u8);
    out.push((x / 256 % 256) as u8);
    out.push((x / 65536 % 256) as u8);
    out.push((x / 16777216) as u8);
    assert(out@ == old(out)@ + le32(x));
}

fn add16(out: &mut Vec<u8>, x: u16)
    ensures
        final(out)@ == old(out)@ + le16(x),
{
    out.push((x % 256) as u8);
    out.push((x / 256) as u8);
    assert(out@ == old(out)@ + le16(x));
}

fn add_tag(out: &mut Vec<u8>, a: u8, b: u8, c: u8, d: u8)
    ensures
        final(out)@ == old(out)@ + seq![a, b, c, d],
{
    out.push(a);
    out.push(b);
    out.push(c);
    out.push(d);
    assert(out@ == old(out)@ + seq![a, b, c, d]);
}

/// Whether 32 bits hold the byte rate of 16-bit sound and 16 bits the size of a frame.
pub open spec fn rates_fit(sample_rate: u32, channels: u16) -> bool {
    sample_rate * channels * 16 <= u32::MAX && channels * 16 <= u16::MAX
}

/// The header of a 16-bit PCM WAV file: `RIFF`, a size, `WAVE`, the `fmt ` chunk, `data`, a size.
pub open spec fn wav_header(sample_rate: u32, channels: u16, riff_size: u32, data_size: u32) -> Seq<
    u8,
> {
    seq![82u8, 73, 70, 70] + le32(riff_size) + seq![87u8, 65, 86, 69] + seq![102u8, 109, 116, 32]
        + le32(16) + le16(1) + le16(channels) + le32(sample_rate) + le32(
        (sample_rate * channels * 2) as u32,
    ) + le16((channels * 2) as u16) + le16(16) + seq![100u8, 97, 116, 97] + le32(data_size)
}

/// Whether `write_wav_header_placeholder` can be asked; see `rates_fit`.
pub fn wav_rates_fit(sample_rate: u32, channels: u16) -> (res: bool)
    ensures
        res == rates_fit(sample_rate, channels),
        res <==> sample_rate * channels * 16 <= 0xffff_ffff && channels * 16 <= 0xffff,
{
    if channels > 4095 {
        return false;
    }
    proof {
        assert(sample_rate * channels <= 0xffff_ffff * 4095) by (nonlinear_arith)
            requires
                0 <= sample_rate <= 0xffff_ffff,
                0 <= channels <= 4095,
        ;
        assert(sample_rate * channels >= 0) by (nonlinear_arith)
            requires
                0 <= sample_rate,
                0 <= channels,
        ;
    }
    sample_rate as u64 * channels as u64 * 16 <= 0xffff_ffff
}

/// The header that opens a recording, with sizes that are filled in at its end.
pub fn write_wav_header_placeholder(sample_rate: u32, channels: u16) -> (res: Vec<u8>)
    requires
        rates_fit(sample_rate, channels),
    ensures
        res@ == wav_header(sample_rate, channels, 0, 0),
        res@.len() == WAV_HEADER_BYTES,
{
    let bits_per_sample: u16 = 16;
    proof {
        assert(sample_rate * channels >= 0) by (nonlinear_arith)
            requires
                0 <= sample_rate,
                0 <= channels,
        ;
    }
    let byte_rate: u32 = sample_rate * channels as u32 * bits_per_sample as u32 / 8;
    let block_align: u16 = channels * bits_per_sample / 8;
    let mut out: Vec<u8> = Vec::new();
    add_tag(&mut out, 82, 73, 70, 70);
    add32(&mut out, 0);
    add_tag(&mut out, 87, 65, 86, 69);
    add_tag(&mut out, 102, 109, 116, 32);
    add32(&mut out, 16);
    add16(&mut out, 1);
    add16(&mut out, channels);
    add32(&mut out, sample_rate);
    add32(&mut out, byte_rate);
    add16(&mut out, block_align);
    add16(&mut out, bits_per_sample);
    add_tag(&mut out, 100, 97, 116, 97);
    add32(&mut out, 0);
    assert(out@ =~= wav_header(sample_rate, channels, 0, 0));
    out
}

/// Bytes to put over those of a file.
#[derive(Debug, Clone, PartialEq, Eq)]
pub struct WavPatch {
    pub offset: u64,
    pub bytes: Vec<u8>,
}

/// `d` with `bytes` put over it from `at` on.
pub open spec fn overwritten(d: Seq<u8>, at: int, bytes: Seq<u8>) -> Seq<u8> {
    Seq::new(
        d.len(),
        |i: int|
            if at <= i < at + bytes.len() {
                bytes[i - at]
            } else {
                d[i]
            },
    )
}

/// The size that a RIFF header states for a file with `data_bytes` of sound.
pub open spec fn riff_size(data_bytes: u32) -> u32 {
    if data_bytes > u32::MAX - 36 {
        u32::MAX
    } else {
        (36 + data_bytes) as u32
    }
}

/// What goes over the sizes in the header of a recording that holds `data_bytes` of sound, in the
/// order in which it is to be written.
pub fn patch_wav_sizes(data_bytes: u32) -> (res: (WavPatch, WavPatch))
    ensures
        res.0.offset == 4,
        res.0.bytes@ == le32(riff_size(data_bytes)),
        res.1.offset == 40,
        res.1.bytes@ == le32(data_bytes),
{
    let total: u32 = if data_bytes > u32::MAX - 36 {
        u32::MAX
    } else {
        36 + data_bytes
    };
    let mut riff: Vec<u8> = Vec::new();
    add32(&mut riff, total);
    let mut data: Vec<u8> = Vec::new();
    add32(&mut data, data_bytes);
    assert(Seq::<u8>::empty() + le32(total) == le32(total));
    assert(Seq::<u8>::empty() + le32(data_bytes) == le32(data_bytes));
    (WavPatch { offset: 4, bytes: riff }, WavPatch { offset: 40, bytes: data })
}

/// The count of sound bytes after one more chunk: a 32-bit counter that stops at its end, to which
/// the low 32 bits of the chunk's length are added.
pub open spec fn counted(data_bytes: u32, chunk_len: nat) -> u32 {
    let sum = data_bytes + chunk_len % 0x1_0000_0000;
    if sum > u32::MAX {
        u32::MAX
    } else {
        sum as u32
    }
}

/// Counts a chunk that was written; see `counted`.
pub fn count_chunk(data_bytes: u32, chunk_len: usize) -> (res: u32)
    ensures
        res == counted(data_bytes, chunk_len as nat),
{
    let low: u64 = chunk_len as u64 % 0x1_0000_0000;
    let sum: u64 = data_bytes as u64 + low;
    if sum > 0xffff_ffff {
        u32::MAX
    } else {
        sum as u32
    }
}

/// What opening a recording takes: the file to create and the sound that goes into it.
#[derive(Debug, Clone, PartialEq, Eq)]
pub struct WavStart {
    pub path: String,
    pub sample_rate: u32,
    pub channels: u16,
}

/// How a file writer ended.
pub enum WriterOutcome {
    /// There was none.
    NotRunning,
    /// It wrote this many bytes of sound.
    Finished(u32),
    /// It failed.
    Failed(String),
    /// It panicked.
    Panicked,
}

/// PCM s16le WAV writer. Loopback samples are queued for a thread of their own, so that the
/// audio callback never blocks on disk I/O or the video path.
pub struct AudioRecordingWriter {
    pub state: AudioRecState,
    pub sample_rate: u32,
    pub channels: u16,
    pub path: Option<String>,
}

impl Default for AudioRecordingWriter {
    /// Idle, at 48000 Hz stereo.
    fn default() -> (res: AudioRecordingWriter)
        ensures
            res.wf(),
            res.state == AudioRecState::Idle,
            res.sample_rate == 48000,
            res.channels == 2,
            res.path is None,
    {
        AudioRecordingWriter::new()
    }
}

impl AudioRecordingWriter {
    /// There is a file exactly while recording.
    pub open spec fn wf(self) -> bool {
        self.state == AudioRecState::Recording <==> self.path is Some
    }

    /// Idle, at 48000 Hz stereo.
    pub fn new() -> (res: AudioRecordingWriter)
        ensures
            res.wf(),
            res.state == AudioRecState::Idle,
            res.sample_rate == 48000,
            res.channels == 2,
            res.path is None,
    {
        AudioRecordingWriter {
            state: AudioRecState::Idle,
            sample_rate: 48000,
            channels: 2,
            path: None,
        }
    }

    /// Whether a recording runs.
    pub fn state(&self) -> (res: AudioRecState)
        ensures
            res == self.state,
    {
        self.state
    }

    /// Samples per second of the current recording, or of the last one.
    pub fn sample_rate(&self) -> (res: u32)
        ensures
            res == self.sample_rate,
    {
        self.sample_rate
    }

    /// Begins a recording beside a video file named by `stem`. A recording that still runs is to
    /// be ended first, whatever comes of that; `opened` follows once the file has been created
    /// and its header written. Until then the writer is idle.
    pub fn start(&mut self, stem: &str, sample_rate: u32, channels: u16) -> (res: WavStart)
        requires
            old(self).wf(),
        ensures
            final(self).wf(),
            final(self).state == AudioRecState::Idle,
            final(self).sample_rate == old(self).sample_rate,
            final(self).channels == old(self).channels,
            res.path@ == stem@ + "."@ + "wav"@,
            res.sample_rate == (if sample_rate < 1 { 1 } else { sample_rate }),
            res.channels == (if channels < 1 { 1 } else { channels }),
    {
        self.state = AudioRecState::Idle;
        self.path = None;
        proof {
            reveal_strlit("wav");
        }
        WavStart {
            path: capture_paths::with_media_ext(stem, "wav"),
            sample_rate: if sample_rate < 1 {
                1
            } else {
                sample_rate
            },
            channels: if channels < 1 {
                1
            } else {
                channels
            },
        }
    }

    /// The file of a recording has been created: sound is taken from now on.
    pub fn opened(&mut self, start: WavStart)
        ensures
            final(self).wf(),
            final(self).state == AudioRecState::Recording,
            final(self).sample_rate == start.sample_rate,
            final(self).channels == start.channels,
            final(self).path == Some(start.path),
    {
        self.sample_rate = start.sample_rate;
        self.channels = start.channels;
        self.path = Some(start.path);
        self.state = AudioRecState::Recording;
    }

    /// The bytes to queue for the file; none while idle.
    pub fn write_pcm_bytes(&self, bytes: &[u8]) -> (res: Option<Vec<u8>>)
        ensures
            self.state == AudioRecState::Recording ==> (res matches Some(queued) && queued@
                == bytes@),
            self.state == AudioRecState::Idle ==> res is None,
    {
        if self.state != AudioRecState::Recording {
            return None;
        }
        Some(vstd::slice::slice_to_vec(bytes))
    }

    /// Ends the recording, whose file writer ended as given.
    pub fn finalize(&mut self, outcome: WriterOutcome) -> (res: Result<(), String>)
        ensures
            final(self).wf(),
            final(self).state == AudioRecState::Idle,
            final(self).path is None,
            final(self).sample_rate == old(self).sample_rate,
            final(self).channels == old(self).channels,
            match outcome {
                WriterOutcome::Failed(reason) => res == Err::<(), String>(reason),
                _ => res is Ok,
            },
    {
        self.state = AudioRecState::Idle;
        self.path = None;
        match outcome {
            WriterOutcome::Failed(reason) => Err(reason),
            _ => Ok(()),
        }
    }
}

proof fn bytes_read_back32(x: u32)
    ensures
        le32(x)[0] + 256 * le32(x)[1] + 65536 * le32(x)[2] + 16777216 * le32(x)[3] == x,
{
}

proof fn bytes_read_back16(x: u16)
    ensures
        le16(x)[0] + 256 * le16(x)[1] == x,
{
}

/// A header reads back as what it was made from.
pub proof fn headers_read_back(sample_rate: u32, channels: u16, riff: u32, data: u32)
    requires
        rates_fit(sample_rate, channels),
    ensures
        ({
            let h = wav_header(sample_rate, channels, riff, data);
            &&& h.len() == WAV_HEADER_BYTES
            &&& h.subrange(0, 4) == seq![82u8, 73, 70, 70]
            &&& read32(h, 4) == riff
            &&& h.subrange(8, 12) == seq![87u8, 65, 86, 69]
            &&& h.subrange(12, 16) == seq![102u8, 109, 116, 32]
            &&& read32(h, 16) == 16
            &&& h.subrange(36, 40) == seq![100u8, 97, 116, 97]
            &&& read16(h, 20) == 1
            &&& read16(h, 22) == channels
            &&& read32(h, 24) == sample_rate
            &&& read32(h, 28) == sample_rate * channels * 2
            &&& read16(h, 32) == channels * 2
            &&& read16(h, 34) == 16
            &&& read32(h, 40) == data
        }),
{
    let byte_rate = (sample_rate * channels * 2) as u32;
    let frame = (channels * 2) as u16;
    assert(sample_rate * channels >= 0) by (nonlinear_arith)
        requires
            0 <= sample_rate,
            0 <= channels,
    ;
    bytes_read_back32(riff);
    bytes_read_back32(data);
    bytes_read_back32(sample_rate);
    bytes_read_back32(byte_rate);
    bytes_read_back32(16);
    bytes_read_back16(1);
    bytes_read_back16(channels);
    bytes_read_back16(frame);
    bytes_read_back16(16);
    let h = wav_header(sample_rate, channels, riff, data);
    assert(h.subrange(0, 4) == seq![82u8, 73, 70, 70]);
    assert(h.subrange(8, 12) == seq![87u8, 65, 86, 69]);
    assert(h.subrange(12, 16) == seq![102u8, 109, 116, 32]);
    assert(h.subrange(36, 40) == seq![100u8, 97, 116, 97]);
    assert(forall|k: int| 0 <= k < 4 ==> h[16 + k] == le32(16)[k]);
    assert(forall|k: int| 0 <= k < 4 ==> h[4 + k] == le32(riff)[k]);
    assert(forall|k: int| 0 <= k < 2 ==> h[20 + k] == le16(1)[k]);
    assert(forall|k: int| 0 <= k < 2 ==> h[22 + k] == le16(channels)[k]);
    assert(forall|k: int| 0 <= k < 4 ==> h[24 + k] == le32(sample_rate)[k]);
    assert(forall|k: int| 0 <= k < 4 ==> h[28 + k] == le32(byte_rate)[k]);
    assert(forall|k: int| 0 <= k < 2 ==> h[32 + k] == le16(frame)[k]);
    assert(forall|k: int| 0 <= k < 2 ==> h[34 + k] == le16(16)[k]);
    assert(forall|k: int| 0 <= k < 4 ==> h[40 + k] == le32(data)[k]);
}

/// A recording that was opened with a placeholder header and patched at its end is the same file
/// as one written with the right sizes from the start; its sound is untouched.
pub proof fn patched_recordings_are_complete(
    sample_rate: u32,
    channels: u16,
    sound: Seq<u8>,
    data_bytes: u32,
)
    requires
        rates_fit(sample_rate, channels),
    ensures
        overwritten(
            overwritten(
                wav_header(sample_rate, channels, 0, 0) + sound,
                4,
                le32(riff_size(data_bytes)),
            ),
            40,
            le32(data_bytes),
        ) == wav_header(sample_rate, channels, riff_size(data_bytes), data_bytes) + sound,
{
    let before = wav_header(sample_rate, channels, 0, 0);
    let after = wav_header(sample_rate, channels, riff_size(data_bytes), data_bytes);
    assert(before.len() == 44 && after.len() == 44);
    assert(forall|k: int| 0 <= k < 4 ==> after[4 + k] == le32(riff_size(data_bytes))[k]);
    assert(forall|k: int| 0 <= k < 4 ==> after[40 + k] == le32(data_bytes)[k]);
    assert(forall|k: int| 0 <= k < 4 ==> after[k] == before[k]);
    assert(forall|k: int| 8 <= k < 40 ==> after[k] == before[k]);
    let patched = overwritten(
        overwritten(before + sound, 4, le32(riff_size(data_bytes))),
        40,
        le32(data_bytes),
    );
    assert(patched.len() == (after + sound).len());
    assert forall|k: int| 0 <= k < patched.len() implies patched[k] == (after + sound)[k] by {
        if 4 <= k < 8 {
            assert(after[4 + (k - 4)] == le32(riff_size(data_bytes))[k - 4]);
        } else if 40 <= k < 44 {
            assert(after[40 + (k - 40)] == le32(data_bytes)[k - 40]);
        }
    }
    assert(patched == after + sound);
}

/// The total of `lengths`.
pub open spec fn total(lengths: Seq<nat>) -> nat
    decreases lengths.len(),
{
    if lengths.len() == 0 {
        0
    } else {
        total(lengths.drop_last()) + lengths.last()
    }
}

/// The count after chunks of the given lengths.
pub open spec fn count_after(lengths: Seq<nat>) -> u32
    decreases lengths.len(),
{
    if lengths.len() == 0 {
        0
    } else {
        counted(count_after(lengths.drop_last()), lengths.last())
    }
}

/// As long as a recording fits in a WAV file, its chunks are counted exactly.
pub proof fn counts_are_exact(lengths: Seq<nat>)
    requires
        total(lengths) <= u32::MAX,
    ensures
        count_after(lengths) == total(lengths),
    decreases lengths.len(),
{
    if lengths.len() > 0 {
        counts_are_exact(lengths.drop_last());
    }
}

/// Headers can be asked for every rate and number of channels whose numbers they can hold.
pub proof fn headers_hold_what_fits(sample_rate: u32, channels: u16)
    ensures
        rates_fit(sample_rate, channels) <==> sample_rate * channels * 16 <= 0xffff_ffff && channels
            * 16 <= 0xffff,
{
}

/// A file's stated size is that of its sound and of 36 bytes of header, as far as 32 bits go; the
/// four bytes of a number are worth it.
pub proof fn sizes_are_stated_in_full(data_bytes: u32)
    ensures
        data_bytes <= 0xffff_ffff - 36 ==> riff_size(data_bytes) == 36 + data_bytes,
        data_bytes > 0xffff_ffff - 36 ==> riff_size(data_bytes) == 0xffff_ffff,
        le32(data_bytes).len() == 4,
        read32(le32(data_bytes), 0) == data_bytes,
{
    bytes_read_back32(data_bytes);
}

/// A count grows by the length of each chunk and stops at the end of its 32 bits.
pub proof fn counts_stop_at_their_end(data_bytes: u32, chunk_len: nat)
    requires
        chunk_len <= 0xffff_ffff,
    ensures
        data_bytes + chunk_len <= 0xffff_ffff ==> counted(data_bytes, chunk_len) == data_bytes
            + chunk_len,
        data_bytes + chunk_len > 0xffff_ffff ==> counted(data_bytes, chunk_len) == 0xffff_ffff,
{
}

} // verus!
