//! A mock headset: what it shows as the stream starts and stops, and what it sends.

use crate::frame_rate::FrameRate;
use vstd::prelude::*;

verus! {

/// View parameters are sent on each of the first ticks below this number.
pub const EAGER_TICKS: u32 = 30;

/// `v`, at least 32, down to a multiple of 32.
pub open spec fn aligned32(v: int) -> int {
    let w = if v < 32 {
        32
    } else {
        v
    };
    w - w % 32
}

/// `v`, at least 32, down to a multiple of 32.
pub fn align32_u32(v: u32) -> (res: u32)
    ensures
        res == aligned32(v as int),
{
    let w: u32 = if v < 32 {
        32
    } else {
        v
    };
    w - w % 32
}

/// The size of one eye's view, in pixels.
#[derive(Debug, Clone, Copy, PartialEq, Eq, Structural)]
pub struct ViewSize {
    pub width: u32,
    pub height: u32,
}

/// The view size that is advertised to the server, and kept, for one that was entered.
pub fn advertised_size(entered: ViewSize) -> (res: ViewSize)
    ensures
        res.width == aligned32(entered.width as int),
        res.height == aligned32(entered.height as int),
{
    ViewSize { width: align32_u32(entered.width), height: align32_u32(entered.height) }
}

/// View sizes that are advertised are multiples of 32, never zero, and stay as they are when
/// they are aligned again.
pub proof fn aligned_sizes_stay(v: u32)
    ensures
        aligned32(v as int) % 32 == 0,
        32 <= aligned32(v as int),
        v >= 32 ==> aligned32(v as int) <= v < aligned32(v as int) + 32,
        v < 32 ==> aligned32(v as int) == 32,
        aligned32(aligned32(v as int)) == aligned32(v as int),
{
}

/// The number of pixels of a picture.
pub open spec fn area(size: ViewSize) -> int {
    size.width * size.height
}

/// Which of the pictures in an icon file to show: the largest, and of several equally large ones
/// the last. None where there is no picture.
pub fn largest_picture(sizes: &[ViewSize]) -> (res: Option<usize>)
    ensures
        res is None <==> sizes@.len() == 0,
        res matches Some(best) ==> best < sizes@.len() && forall|k: int|
            0 <= k < sizes@.len() ==> (#[trigger] sizes@[k]).width * sizes@[k].height
                <= sizes@[best as int].width * sizes@[best as int].height && (k > best
                ==> sizes@[k].width * sizes@[k].height < sizes@[best as int].width
                * sizes@[best as int].height),
        res matches Some(best) ==> {
            &&& best < sizes@.len()
            &&& forall|k: int| 0 <= k <= best ==> area(#[trigger] sizes@[k]) <= area(
                sizes@[best as int],
            )
            &&& forall|k: int| best < k < sizes@.len() ==> area(#[trigger] sizes@[k]) < area(
                sizes@[best as int],
            )
        },
{
    if sizes.len() == 0 {
        return None;
    }
    let mut best: usize = 0;
    let mut most: u64 = pixels(sizes[0]);
    let mut i: usize = 1;
    while i < sizes.len()
        invariant
            best < i <= sizes@.len(),
            most == area(sizes@[best as int]),
            forall|k: int| 0 <= k <= best ==> area(#[trigger] sizes@[k]) <= most,
            forall|k: int| best < k < i ==> area(#[trigger] sizes@[k]) < most,
        decreases sizes@.len() - i,
    {
        let here: u64 = pixels(sizes[i]);
        if here >= most {
            best = i;
            most = here;
        }
        i += 1;
    }
    Some(best)
}

fn pixels(size: ViewSize) -> (res: u64)
    ensures
        res == area(size),
{
    proof {
        assert(0 <= size.width * size.height <= 0xffff_ffff * 0xffff_ffff) by (nonlinear_arith)
            requires
                0 <= size.width <= 0xffff_ffff,
                0 <= size.height <= 0xffff_ffff,
        ;
    }
    size.width as u64 * size.height as u64
}

/// The codec of a stream.
#[derive(Debug, Clone, Copy, PartialEq, Eq, Structural)]
pub enum StreamCodec {
    H264,
    Hevc,
    AV1,
}

/// What the mock client's window shows.
#[derive(Debug, Clone)]
pub struct WindowOutput {
    pub hud_message: String,
    pub connected: bool,
    pub fps: FrameRate,
    pub resolution: ViewSize,
    pub decoder_codec: Option<StreamCodec>,
    /// In nanoseconds.
    pub current_frame_timestamp: u128,
}

/// What the streaming core reports.
pub enum ClientEvent {
    UpdateHudMessage(String),
    StreamingStarted { fps: FrameRate, resolution: ViewSize },
    StreamingStopped,
    DecoderConfig(StreamCodec),
    /// Haptics or real-time settings, which the mock does not show.
    Other,
}

/// What to do about the thread that sends tracking data.
#[derive(Debug, Clone, Copy, PartialEq, Eq, Structural)]
pub enum TrackingStep {
    Keep,
    /// Start it, at the given rate.
    Start(FrameRate),
    /// Stop it and wait for it.
    Stop,
}

impl Default for WindowOutput {
    /// What the window shows before anything happens.
    fn default() -> (res: WindowOutput)
        ensures
            res.disconnected(),
            res.hud_message@ == Seq::<char>::empty(),
            res.current_frame_timestamp == 0,
    {
        WindowOutput {
            hud_message: String::new(),
            connected: false,
            fps: FrameRate { num: 1, den: 1 },
            resolution: ViewSize { width: 0, height: 0 },
            decoder_codec: None,
            current_frame_timestamp: 0,
        }
    }
}

impl WindowOutput {
    /// Not connected: one frame per second, no picture.
    pub open spec fn disconnected(self) -> bool {
        &&& !self.connected
        &&& self.fps == (FrameRate { num: 1, den: 1 })
        &&& self.resolution == (ViewSize { width: 0, height: 0 })
        &&& self.decoder_codec is None
    }

    /// Takes in what the streaming core reports.
    pub fn on_event(&mut self, event: ClientEvent) -> (res: TrackingStep)
        ensures
            final(self).current_frame_timestamp == old(self).current_frame_timestamp,
            match event {
                ClientEvent::UpdateHudMessage(message) => {
                    &&& res is Keep
                    &&& final(self).hud_message == message
                    &&& final(self).connected == old(self).connected
                    &&& final(self).fps == old(self).fps
                    &&& final(self).resolution == old(self).resolution
                    &&& final(self).decoder_codec == old(self).decoder_codec
                },
                ClientEvent::StreamingStarted { fps, resolution } => {
                    &&& res == TrackingStep::Start(fps)
                    &&& final(self).hud_message == old(self).hud_message
                    &&& final(self).connected
                    &&& final(self).fps == fps
                    &&& final(self).resolution == resolution
                    &&& final(self).decoder_codec == old(self).decoder_codec
                },
                ClientEvent::StreamingStopped => {
                    &&& res is Stop
                    &&& final(self).hud_message == old(self).hud_message
                    &&& final(self).disconnected()
                },
                ClientEvent::DecoderConfig(codec) => {
                    &&& res is Keep
                    &&& final(self).hud_message == old(self).hud_message
                    &&& final(self).connected == old(self).connected
                    &&& final(self).fps == old(self).fps
                    &&& final(self).resolution == old(self).resolution
                    &&& final(self).decoder_codec == Some(codec)
                },
                ClientEvent::Other => res is Keep && *final(self) == *old(self),
            },
    {
        match event {
            ClientEvent::UpdateHudMessage(message) => {
                self.hud_message = message;
                TrackingStep::Keep
            },
            ClientEvent::StreamingStarted { fps, resolution } => {
                self.fps = fps;
                self.connected = true;
                self.resolution = resolution;
                TrackingStep::Start(fps)
            },
            ClientEvent::StreamingStopped => {
                self.fps = FrameRate { num: 1, den: 1 };
                self.connected = false;
                self.resolution = ViewSize { width: 0, height: 0 };
                self.decoder_codec = None;
                TrackingStep::Stop
            },
            ClientEvent::DecoderConfig(codec) => {
                self.decoder_codec = Some(codec);
                TrackingStep::Keep
            },
            ClientEvent::Other => TrackingStep::Keep,
        }
    }
}

/// When view parameters are sent.
pub struct ViewParamsGate {
    /// Ticks so far, as a counter that stops at its end.
    pub ticks: u32,
}

impl ViewParamsGate {
    /// No tick yet.
    pub fn new() -> (res: ViewParamsGate)
        ensures
            res.ticks == 0,
    {
        ViewParamsGate { ticks: 0 }
    }

    /// Whether this tick sends view parameters: each of the first ones does, later ones where the
    /// distance between the eyes has moved since they were sent.
    pub fn tick(&mut self, eyes_moved: bool) -> (res: bool)
        ensures
            final(self).ticks == (if old(self).ticks == u32::MAX {
                u32::MAX as int
            } else {
                old(self).ticks + 1
            }),
            res == (final(self).ticks < EAGER_TICKS || eyes_moved),
    {
        if self.ticks < u32::MAX {
            self.ticks = self.ticks + 1;
        }
        self.ticks < EAGER_TICKS || eyes_moved
    }
}

} // verus!
