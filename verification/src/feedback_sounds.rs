//! Short tones that confirm a capture.

use vstd::prelude::*;

verus! {

/// What a tone confirms.
#[derive(Debug, Clone, Copy, PartialEq, Eq, Structural)]
pub enum FeedbackKind {
    Screenshot,
    RecStart,
    RecStop,
}

/// A sine tone.
#[derive(Debug, Clone, Copy, PartialEq, Eq, Structural)]
pub struct Tone {
    pub hertz: u32,
    pub millis: u64,
    /// Loudness in percent of full scale.
    pub percent: u32,
}

/// The tone for each confirmation.
pub open spec fn tone_of(kind: FeedbackKind) -> Tone {
    match kind {
        FeedbackKind::Screenshot => Tone { hertz: 1200, millis: 60, percent: 20 },
        FeedbackKind::RecStart => Tone { hertz: 880, millis: 120, percent: 20 },
        FeedbackKind::RecStop => Tone { hertz: 440, millis: 120, percent: 20 },
    }
}

/// The tone that confirms `kind`.
pub fn tone(kind: FeedbackKind) -> (res: Tone)
    ensures
        res == tone_of(kind),
{
    match kind {
        FeedbackKind::Screenshot => Tone { hertz: 1200, millis: 60, percent: 20 },
        FeedbackKind::RecStart => Tone { hertz: 880, millis: 120, percent: 20 },
        FeedbackKind::RecStop => Tone { hertz: 440, millis: 120, percent: 20 },
    }
}

/// What to do when a confirmation is asked for.
#[derive(Debug, Clone, Copy, PartialEq, Eq, Structural)]
pub enum PlayStep {
    /// Nothing: tones are switched off.
    Silent,
    /// Open the audio device, then queue the tone.
    OpenAndQueue(Tone),
    /// Queue the tone.
    Queue(Tone),
}

/// Lazy feedback tones: the audio device is opened only on first play, not at driver load.
pub struct FeedbackSounds {
    pub started: bool,
}

impl FeedbackSounds {
    /// The device is not open yet.
    pub fn start() -> (res: FeedbackSounds)
        ensures
            !res.started,
    {
        FeedbackSounds { started: false }
    }

    /// Asks for a confirmation of `kind`, where `enabled` says whether tones are wanted.
    pub fn play(&mut self, kind: FeedbackKind, enabled: bool) -> (res: PlayStep)
        ensures
            final(self).started == (old(self).started || enabled),
            res == (if !enabled {
                PlayStep::Silent
            } else if old(self).started {
                PlayStep::Queue(tone_of(kind))
            } else {
                PlayStep::OpenAndQueue(tone_of(kind))
            }),
    {
        if !enabled {
            return PlayStep::Silent;
        }
        if self.started {
            PlayStep::Queue(tone(kind))
        } else {
            self.started = true;
            PlayStep::OpenAndQueue(tone(kind))
        }
    }
}

/// Each confirmation sounds different, and the start of a recording is higher than its end.
pub proof fn tones_are_distinct(a: FeedbackKind, b: FeedbackKind)
    ensures
        tone_of(a).hertz == tone_of(b).hertz ==> a == b,
        tone_of(FeedbackKind::RecStart).hertz > tone_of(FeedbackKind::RecStop).hertz,
{
}

} // verus!
