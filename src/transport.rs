use vstd::prelude::*;

verus! {

/// Tempo at which the visual position equals the audio position.
pub const REFERENCE_TEMPO_BPM: u32 = 120;

#[derive(Clone, Copy, Debug, PartialEq, Eq, Structural)]
pub enum TransportState {
    Stopped,
    Playing,
    Paused,
}

impl TransportState {
    /// The state stored as a number: 1 Playing, 2 Paused, anything else Stopped.
    pub fn from_u8(value: u8) -> (r: TransportState)
        ensures
            r == (if value == 1 {
                TransportState::Playing
            } else if value == 2 {
                TransportState::Paused
            } else {
                TransportState::Stopped
            }),
    {
        match value {
            1 => TransportState::Playing,
            2 => TransportState::Paused,
            _ => TransportState::Stopped,
        }
    }
}

/// Transport state and the playhead, in frames of the audio domain.
pub struct Transport {
    pub state: TransportState,
    pub playhead_samples: u64,
}

/// A frame position scaled by `num / den`, rounded down and held to `u64`.
pub open spec fn scaled(v: u64, num: u32, den: u32) -> u64
    recommends
        den > 0,
{
    let x = (v as int * num as int) / den as int;
    if x > u64::MAX as int { u64::MAX } else { x as u64 }
}

fn scale(v: u64, num: u32, den: u32) -> (r: u64)
    requires
        den > 0,
    ensures
        r == scaled(v, num, den),
{
    assert(v as int * num as int <= u64::MAX as int * u32::MAX as int) by (nonlinear_arith)
        requires
            v <= u64::MAX,
            num <= u32::MAX;
    assert(u64::MAX as int * u32::MAX as int <= u128::MAX as int);
    let p: u128 = (v as u128) * (num as u128);
    let x: u128 = p / (den as u128);
    if x > u64::MAX as u128 {
        u64::MAX
    } else {
        x as u64
    }
}

/// Playhead after a seek to visual frame `target` at tempo `tempo_bpm`.
pub open spec fn seek_target(target: u64, tempo_bpm: u32) -> u64 {
    scaled(target, REFERENCE_TEMPO_BPM, tempo_bpm)
}

/// Visual position of the playhead at tempo `tempo_bpm`.
pub open spec fn visual_position(playhead: u64, tempo_bpm: u32) -> u64 {
    scaled(playhead, tempo_bpm, REFERENCE_TEMPO_BPM)
}

impl Transport {
    pub fn new() -> (t: Transport)
        ensures
            t.state == TransportState::Stopped,
            t.playhead_samples == 0,
    {
        Transport { state: TransportState::Stopped, playhead_samples: 0 }
    }

    /// Enters Playing. Returns whether the output stream must be started:
    /// false, with nothing changed, when already playing.
    pub fn play(&mut self) -> (start_stream: bool)
        ensures
            start_stream == (old(self).state != TransportState::Playing),
            final(self).state == TransportState::Playing,
            final(self).playhead_samples == old(self).playhead_samples,
    {
        if self.state == TransportState::Playing {
            return false;
        }
        self.state = TransportState::Playing;
        true
    }

    /// Enters Paused; the playhead stays where it is.
    pub fn pause(&mut self)
        ensures
            final(self).state == TransportState::Paused,
            final(self).playhead_samples == old(self).playhead_samples,
    {
        self.state = TransportState::Paused;
    }

    /// Enters Stopped and returns the playhead to the start.
    pub fn stop(&mut self)
        ensures
            final(self).state == TransportState::Stopped,
            final(self).playhead_samples == 0,
    {
        self.state = TransportState::Stopped;
        self.playhead_samples = 0;
    }

    /// Moves the playhead to the audio frame that shows as visual frame
    /// `target` at tempo `tempo_bpm`.
    pub fn seek(&mut self, target: u64, tempo_bpm: u32)
        requires
            tempo_bpm > 0,
        ensures
            final(self).playhead_samples == seek_target(target, tempo_bpm),
            final(self).state == old(self).state,
    {
        self.playhead_samples = scale(target, REFERENCE_TEMPO_BPM, tempo_bpm);
    }

    /// The playhead's visual position at tempo `tempo_bpm`.
    pub fn visual_playhead(&self, tempo_bpm: u32) -> (r: u64)
        ensures
            r == visual_position(self.playhead_samples, tempo_bpm),
    {
        scale(self.playhead_samples, tempo_bpm, REFERENCE_TEMPO_BPM)
    }

    /// Moves the playhead on by one buffer, stopping at the largest frame.
    pub fn advance(&mut self, frames: u64)
        ensures
            final(self).state == old(self).state,
            final(self).playhead_samples as int == if old(self).playhead_samples as int + frames as int > u64::MAX as int {
                u64::MAX as int
            } else {
                old(self).playhead_samples as int + frames as int
            },
    {
        if frames > u64::MAX - self.playhead_samples {
            self.playhead_samples = u64::MAX;
        } else {
            self.playhead_samples = self.playhead_samples + frames;
        }
    }
}

/// At the reference tempo a seek followed by a read of the position gives
/// back the position sought.
pub proof fn lemma_seek_then_position(target: u64)
    ensures
        visual_position(seek_target(target, REFERENCE_TEMPO_BPM), REFERENCE_TEMPO_BPM) == target,
{
    assert((target as int * 120) / 120 == target as int) by (nonlinear_arith);
}

} // verus!
