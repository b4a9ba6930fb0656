use vstd::prelude::*;
use crate::midi::{MidiClip, MidiEvent, quantized_event};
use crate::recorder::{FRAMES_PER_MINUTE, MIN_TEMPO_BPM, MAX_TEMPO_BPM, SAMPLE_RATE, clamp_tempo_spec};

verus! {

#[derive(Clone, Copy, Debug, PartialEq, Eq, Structural)]
pub enum MidiRecordingState {
    Idle,
    Recording,
}

/// Captures live note events into a clip, times relative to the start of
/// the take, optionally snapped to a sixteenth-note grid.
pub struct MidiRecorder {
    pub state: MidiRecordingState,
    pub events: Vec<MidiEvent>,
    /// Playhead frame at which the take began.
    pub start_timestamp: u64,
    pub tempo_bpm: u32,
    /// Quantize grid in frames; zero for none.
    pub quantize_grid_samples: u64,
}

/// A sixteenth note at the given tempo, in frames.
pub open spec fn sixteenth_grid(tempo_bpm: u32) -> u64
    recommends
        tempo_bpm > 0,
{
    ((FRAMES_PER_MINUTE / tempo_bpm as u64) / 4) as u64
}

/// An event's time made relative to the start of the take (zero if earlier).
pub open spec fn relative_event(e: MidiEvent, start: u64) -> MidiEvent {
    MidiEvent {
        event_type: e.event_type,
        timestamp_samples: if e.timestamp_samples >= start { (e.timestamp_samples - start) as u64 } else { 0 },
    }
}

fn sixteenth(tempo_bpm: u32) -> (r: u64)
    requires
        tempo_bpm > 0,
    ensures
        r == sixteenth_grid(tempo_bpm),
{
    (FRAMES_PER_MINUTE / (tempo_bpm as u64)) / 4
}

impl MidiRecorder {
    pub open spec fn wf(&self) -> bool {
        MIN_TEMPO_BPM <= self.tempo_bpm <= MAX_TEMPO_BPM
    }

    pub fn new() -> (r: MidiRecorder)
        ensures
            r.wf(),
            r.state == MidiRecordingState::Idle,
            r.events@.len() == 0,
            r.tempo_bpm == 120,
            r.quantize_grid_samples == 0,
    {
        MidiRecorder {
            state: MidiRecordingState::Idle,
            events: Vec::new(),
            start_timestamp: 0,
            tempo_bpm: 120,
            quantize_grid_samples: 0,
        }
    }

    /// Starts a take at the given playhead frame; refused while recording.
    pub fn start_recording(&mut self, playhead_samples: u64) -> (r: Result<String, String>)
        requires
            old(self).wf(),
        ensures
            final(self).wf(),
            r.is_ok() == (old(self).state == MidiRecordingState::Idle),
            r.is_err() ==> *final(self) == *old(self),
            r matches Err(e) ==> e@ == "Already recording"@,
            r.is_ok() ==> final(self).state == MidiRecordingState::Recording
                && final(self).events@.len() == 0
                && final(self).start_timestamp == playhead_samples
                && final(self).tempo_bpm == old(self).tempo_bpm
                && final(self).quantize_grid_samples == old(self).quantize_grid_samples,
    {
        if self.state != MidiRecordingState::Idle {
            return Err(String::from_str("Already recording"));
        }
        self.start_timestamp = playhead_samples;
        self.events.clear();
        self.state = MidiRecordingState::Recording;
        Ok(String::from_str("Recording started"))
    }

    /// Ends a take; refused when not recording. The events, if any, come back
    /// as a clip, snapped to the grid when one is set.
    pub fn stop_recording(&mut self) -> (r: Result<Option<MidiClip>, String>)
        requires
            old(self).wf(),
        ensures
            final(self).wf(),
            r.is_err() == (old(self).state != MidiRecordingState::Recording),
            r.is_err() ==> *final(self) == *old(self),
            r matches Err(e) ==> e@ == "Not recording"@,
            r.is_ok() ==> final(self).state == MidiRecordingState::Idle
                && final(self).tempo_bpm == old(self).tempo_bpm
                && final(self).quantize_grid_samples == old(self).quantize_grid_samples,
            r matches Ok(None) ==> old(self).events@.len() == 0,
            r matches Ok(Some(c)) ==> old(self).events@.len() > 0
                && c.sample_rate == SAMPLE_RATE
                && c.events@.len() == old(self).events@.len()
                && forall|i: int| 0 <= i < c.events@.len() ==> #[trigger] c.events@[i]
                    == quantized_event(old(self).events@[i], old(self).quantize_grid_samples),
    {
        if self.state != MidiRecordingState::Recording {
            return Err(String::from_str("Not recording"));
        }
        self.state = MidiRecordingState::Idle;
        if self.events.len() == 0 {
            return Ok(None);
        }
        let mut events: Vec<MidiEvent> = Vec::new();
        std::mem::swap(&mut events, &mut self.events);
        let mut clip = MidiClip::with_events(events, SAMPLE_RATE);
        clip.quantize(self.quantize_grid_samples);
        Ok(Some(clip))
    }

    /// Adds a live event while recording, timed from the start of the take;
    /// does nothing otherwise.
    pub fn record_event(&mut self, event: MidiEvent)
        requires
            old(self).wf(),
        ensures
            final(self).wf(),
            old(self).state == MidiRecordingState::Recording ==> final(self).events@ == old(self).events@.push(
                relative_event(event, old(self).start_timestamp),
            ),
            old(self).state != MidiRecordingState::Recording ==> final(self).events@ == old(self).events@,
            final(self).state == old(self).state,
            final(self).start_timestamp == old(self).start_timestamp,
            final(self).tempo_bpm == old(self).tempo_bpm,
            final(self).quantize_grid_samples == old(self).quantize_grid_samples,
    {
        if self.state != MidiRecordingState::Recording {
            return;
        }
        let ts = if event.timestamp_samples >= self.start_timestamp {
            event.timestamp_samples - self.start_timestamp
        } else {
            0
        };
        self.events.push(MidiEvent { event_type: event.event_type, timestamp_samples: ts });
    }

    pub fn get_state(&self) -> (r: MidiRecordingState)
        ensures
            r == self.state,
    {
        self.state
    }

    pub fn is_recording(&self) -> (r: bool)
        ensures
            r == (self.state == MidiRecordingState::Recording),
    {
        self.state == MidiRecordingState::Recording
    }

    /// Sets the tempo, held within [20, 300] BPM; a grid in use follows it.
    pub fn set_tempo(&mut self, bpm: u32)
        requires
            old(self).wf(),
        ensures
            final(self).wf(),
            final(self).tempo_bpm == clamp_tempo_spec(bpm),
            final(self).quantize_grid_samples == if old(self).quantize_grid_samples == 0 {
                0
            } else {
                sixteenth_grid(clamp_tempo_spec(bpm))
            },
            final(self).state == old(self).state,
            final(self).events@ == old(self).events@,
            final(self).start_timestamp == old(self).start_timestamp,
    {
        let t = if bpm < MIN_TEMPO_BPM {
            MIN_TEMPO_BPM
        } else if bpm > MAX_TEMPO_BPM {
            MAX_TEMPO_BPM
        } else {
            bpm
        };
        self.tempo_bpm = t;
        if self.quantize_grid_samples != 0 {
            self.quantize_grid_samples = sixteenth(t);
        }
    }

    pub fn get_tempo(&self) -> (r: u32)
        ensures
            r == self.tempo_bpm,
    {
        self.tempo_bpm
    }

    /// Zero turns quantizing off; any other division turns on a
    /// sixteenth-note grid at the current tempo.
    pub fn set_quantize(&mut self, note_division: u32)
        requires
            old(self).wf(),
        ensures
            final(self).wf(),
            final(self).quantize_grid_samples == if note_division == 0 {
                0
            } else {
                sixteenth_grid(old(self).tempo_bpm)
            },
            final(self).tempo_bpm == old(self).tempo_bpm,
            final(self).state == old(self).state,
            final(self).events@ == old(self).events@,
            final(self).start_timestamp == old(self).start_timestamp,
    {
        if note_division == 0 {
            self.quantize_grid_samples = 0;
        } else {
            self.quantize_grid_samples = sixteenth(self.tempo_bpm);
        }
    }

    pub fn event_count(&self) -> (r: usize)
        ensures
            r == self.events@.len(),
    {
        self.events.len()
    }
}

} // verus!
