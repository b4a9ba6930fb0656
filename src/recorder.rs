use vstd::prelude::*;

verus! {

/// The engine's fixed internal sample rate, in frames per second.
pub const SAMPLE_RATE: u32 = 48000;

/// Frames in one minute at the internal sample rate.
pub const FRAMES_PER_MINUTE: u64 = 2880000;

/// Lowest and highest tempo the recorder accepts, in beats per minute.
pub const MIN_TEMPO_BPM: u32 = 20;
pub const MAX_TEMPO_BPM: u32 = 300;

/// Length of a metronome click, in frames (about 80 ms).
pub const CLICK_FRAMES: u64 = 4000;

#[derive(Clone, Copy, Debug, PartialEq, Eq, Structural)]
pub enum RecordingState {
    Idle,
    CountingIn,
    Recording,
}

/// Where the metronome stands on a frame that sounds a click.
#[derive(Clone, Copy, Debug, PartialEq, Eq, Structural)]
pub struct Click {
    /// The click falls on the first beat of the bar (higher pitch).
    pub downbeat: bool,
    /// Frames since the beat began, below `CLICK_FRAMES`.
    pub position_in_beat: u64,
}

/// A finished take: interleaved stereo samples at the internal rate.
pub struct RecordedClip<S> {
    pub samples: Vec<S>,
    pub channels: u16,
    pub sample_rate: u32,
}

impl<S> RecordedClip<S> {
    /// Number of stereo frames in the take.
    pub fn frame_count(&self) -> (r: usize)
        ensures
            r == self.samples@.len() / 2,
    {
        self.samples.len() / 2
    }
}

/// Captures live input behind a count-in, and keeps the metronome's beat grid.
/// `S` is the type of one audio sample.
pub struct Recorder<S> {
    pub state: RecordingState,
    /// Captured input, interleaved left/right.
    pub recorded: Vec<S>,
    /// Frames since the count-in or the take began.
    pub sample_counter: u64,
    pub count_in_bars: u32,
    pub tempo_bpm: u32,
    pub metronome_enabled: bool,
    /// Beats per bar.
    pub time_signature: u32,
}

pub open spec fn samples_per_beat(tempo_bpm: u32) -> u64
    recommends
        tempo_bpm > 0,
{
    (FRAMES_PER_MINUTE / tempo_bpm as u64) as u64
}

/// The tempo held within the accepted range.
pub open spec fn clamp_tempo_spec(bpm: u32) -> u32 {
    if bpm < MIN_TEMPO_BPM { MIN_TEMPO_BPM } else if bpm > MAX_TEMPO_BPM { MAX_TEMPO_BPM } else { bpm }
}

impl<S> Recorder<S> {
    pub open spec fn wf(&self) -> bool {
        &&& MIN_TEMPO_BPM <= self.tempo_bpm <= MAX_TEMPO_BPM
        &&& 1 <= self.time_signature <= 16
        &&& self.recorded@.len() % 2 == 0
    }

    pub open spec fn samples_per_bar(&self) -> int {
        samples_per_beat(self.tempo_bpm) as int * self.time_signature as int
    }

    /// Idle, two bars of count-in, 120 BPM in 4/4, metronome on.
    pub fn new() -> (r: Recorder<S>)
        ensures
            r.wf(),
            r.state == RecordingState::Idle,
            r.recorded@.len() == 0,
            r.sample_counter == 0,
            r.count_in_bars == 2,
            r.tempo_bpm == 120,
            r.metronome_enabled,
            r.time_signature == 4,
    {
        Recorder {
            state: RecordingState::Idle,
            recorded: Vec::new(),
            sample_counter: 0,
            count_in_bars: 2,
            tempo_bpm: 120,
            metronome_enabled: true,
            time_signature: 4,
        }
    }

    /// Starts a take: refused unless idle; otherwise the old capture is
    /// dropped, the counter reset, and the count-in entered, or recording
    /// itself when there are no count-in bars.
    pub fn start_recording(&mut self) -> (r: Result<(), String>)
        requires
            old(self).wf(),
        ensures
            final(self).wf(),
            r.is_ok() == (old(self).state == RecordingState::Idle),
            r.is_err() ==> *final(self) == *old(self),
            r matches Err(e) ==> e@ == "Already recording or counting in"@,
            r.is_ok() ==> {
                &&& final(self).recorded@.len() == 0
                &&& final(self).sample_counter == 0
                &&& final(self).state == if old(self).count_in_bars > 0 {
                    RecordingState::CountingIn
                } else {
                    RecordingState::Recording
                }
                &&& final(self).count_in_bars == old(self).count_in_bars
                &&& final(self).tempo_bpm == old(self).tempo_bpm
                &&& final(self).time_signature == old(self).time_signature
                &&& final(self).metronome_enabled == old(self).metronome_enabled
            },
    {
        if self.state != RecordingState::Idle {
            return Err(String::from_str("Already recording or counting in"));
        }
        self.recorded.clear();
        self.sample_counter = 0;
        if self.count_in_bars > 0 {
            self.state = RecordingState::CountingIn;
        } else {
            self.state = RecordingState::Recording;
        }
        Ok(())
    }

    /// Ends a take: refused when idle. The capture, if not empty, comes back
    /// as a stereo clip at the internal rate.
    pub fn stop_recording(&mut self) -> (r: Result<Option<RecordedClip<S>>, String>)
        requires
            old(self).wf(),
        ensures
            final(self).wf(),
            r.is_err() == (old(self).state == RecordingState::Idle),
            r.is_err() ==> *final(self) == *old(self),
            r matches Err(e) ==> e@ == "Not recording"@,
            r.is_ok() ==> final(self).state == RecordingState::Idle && final(self).recorded@.len() == 0
                && final(self).tempo_bpm == old(self).tempo_bpm
                && final(self).count_in_bars == old(self).count_in_bars
                && final(self).sample_counter == old(self).sample_counter
                && final(self).metronome_enabled == old(self).metronome_enabled
                && final(self).time_signature == old(self).time_signature,
            r matches Ok(None) ==> old(self).recorded@.len() == 0,
            r matches Ok(Some(c)) ==> {
                &&& old(self).recorded@.len() > 0
                &&& c.samples@ == old(self).recorded@
                &&& c.channels == 2
                &&& c.sample_rate == SAMPLE_RATE
            },
    {
        if self.state == RecordingState::Idle {
            return Err(String::from_str("Not recording"));
        }
        self.state = RecordingState::Idle;
        if self.recorded.len() == 0 {
            return Ok(None);
        }
        let mut samples: Vec<S> = Vec::new();
        std::mem::swap(&mut samples, &mut self.recorded);
        Ok(Some(RecordedClip { samples, channels: 2, sample_rate: SAMPLE_RATE }))
    }

    pub fn get_state(&self) -> (r: RecordingState)
        ensures
            r == self.state,
    {
        self.state
    }

    pub fn set_count_in_bars(&mut self, bars: u32)
        requires
            old(self).wf(),
        ensures
            final(self).wf(),
            *final(self) == (Recorder { count_in_bars: bars, ..*old(self) }),
    {
        self.count_in_bars = bars;
    }

    pub fn get_count_in_bars(&self) -> (r: u32)
        ensures
            r == self.count_in_bars,
    {
        self.count_in_bars
    }

    /// Sets the tempo, held within [20, 300] BPM.
    pub fn set_tempo(&mut self, bpm: u32)
        requires
            old(self).wf(),
        ensures
            final(self).wf(),
            *final(self) == (Recorder { tempo_bpm: clamp_tempo_spec(bpm), ..*old(self) }),
    {
        let t = if bpm < MIN_TEMPO_BPM {
            MIN_TEMPO_BPM
        } else if bpm > MAX_TEMPO_BPM {
            MAX_TEMPO_BPM
        } else {
            bpm
        };
        self.tempo_bpm = t;
    }

    pub fn get_tempo(&self) -> (r: u32)
        ensures
            r == self.tempo_bpm,
    {
        self.tempo_bpm
    }

    pub fn set_metronome_enabled(&mut self, enabled: bool)
        requires
            old(self).wf(),
        ensures
            final(self).wf(),
            *final(self) == (Recorder { metronome_enabled: enabled, ..*old(self) }),
    {
        self.metronome_enabled = enabled;
    }

    pub fn is_metronome_enabled(&self) -> (r: bool)
        ensures
            r == self.metronome_enabled,
    {
        self.metronome_enabled
    }

    /// Number of captured samples (two per frame).
    pub fn get_recorded_sample_count(&self) -> (r: usize)
        ensures
            r == self.recorded@.len(),
    {
        self.recorded.len()
    }

    /// Puts the beat grid back at its start.
    pub fn reset_metronome(&mut self)
        requires
            old(self).wf(),
        ensures
            final(self).wf(),
            *final(self) == (Recorder { sample_counter: 0, ..*old(self) }),
    {
        self.sample_counter = 0;
    }

    /// One output frame of the recorder: counts the frame when playing or not
    /// idle, reports the metronome click sounding on it, leaves the count-in
    /// once its bars have passed, and captures the input pair while recording.
    pub fn process_frame(&mut self, input_left: S, input_right: S, is_playing: bool) -> (click: Option<Click>)
        requires
            old(self).wf(),
            old(self).recorded@.len() + 2 <= usize::MAX,
        ensures
            final(self).wf(),
            final(self).tempo_bpm == old(self).tempo_bpm,
            final(self).count_in_bars == old(self).count_in_bars,
            final(self).time_signature == old(self).time_signature,
            final(self).metronome_enabled == old(self).metronome_enabled,
            old(self).state == RecordingState::Recording ==> final(self).state == RecordingState::Recording
                && final(self).recorded@ == old(self).recorded@.push(input_left).push(input_right),
            old(self).state != RecordingState::Recording ==> final(self).recorded@ == old(self).recorded@,
            old(self).state == RecordingState::Idle ==> final(self).state == RecordingState::Idle,
            old(self).state == RecordingState::CountingIn ==> final(self).state == if old(self).sample_counter
                >= old(self).samples_per_bar() * old(self).count_in_bars {
                RecordingState::Recording
            } else {
                RecordingState::CountingIn
            },
            final(self).sample_counter == if old(self).state == RecordingState::CountingIn && old(self).sample_counter
                >= old(self).samples_per_bar() * old(self).count_in_bars {
                0
            } else if (is_playing || old(self).state != RecordingState::Idle) && old(self).sample_counter < u64::MAX {
                (old(self).sample_counter + 1) as u64
            } else {
                old(self).sample_counter
            },
            click.is_some() <==> old(self).metronome_enabled && (old(self).sample_counter % (
            old(self).samples_per_bar() as u64)) % samples_per_beat(old(self).tempo_bpm) < CLICK_FRAMES,
            click matches Some(c) ==> c.position_in_beat < CLICK_FRAMES
                && c.position_in_beat == (old(self).sample_counter % (old(self).samples_per_bar() as u64))
                % samples_per_beat(old(self).tempo_bpm)
                && c.downbeat == ((old(self).sample_counter % (old(self).samples_per_bar() as u64))
                / samples_per_beat(old(self).tempo_bpm) == 0),
    {
        let should_tick = is_playing || self.state != RecordingState::Idle;
        let sample_idx = self.sample_counter;
        if should_tick && self.sample_counter < u64::MAX {
            self.sample_counter = self.sample_counter + 1;
        }
        let spb: u64 = FRAMES_PER_MINUTE / (self.tempo_bpm as u64);
        assert(spb >= 9600) by {
            assert(FRAMES_PER_MINUTE / (self.tempo_bpm as u64) >= FRAMES_PER_MINUTE / 300) by (nonlinear_arith)
                requires
                    self.tempo_bpm <= 300,
                    self.tempo_bpm >= 20;
        }
        assert(spb <= 144000) by {
            assert(FRAMES_PER_MINUTE / (self.tempo_bpm as u64) <= FRAMES_PER_MINUTE / 20) by (nonlinear_arith)
                requires
                    self.tempo_bpm <= 300,
                    self.tempo_bpm >= 20;
        }
        assert(spb * (self.time_signature as u64) <= 144000 * 16 && spb * (self.time_signature as u64) >= spb)
            by (nonlinear_arith)
            requires
                spb <= 144000,
                1 <= self.time_signature <= 16;
        let spbar: u64 = spb * (self.time_signature as u64);
        let mut click: Option<Click> = None;
        if self.metronome_enabled {
            let position_in_bar = sample_idx % spbar;
            let beat_in_bar = position_in_bar / spb;
            let position_in_beat = position_in_bar % spb;
            if position_in_beat < CLICK_FRAMES {
                click = Some(Click { downbeat: beat_in_bar == 0, position_in_beat });
            }
        }
        match self.state {
            RecordingState::CountingIn => {
                assert(spbar * (self.count_in_bars as u64) <= 144000 * 16 * u32::MAX) by (nonlinear_arith)
                    requires
                        spbar <= 144000 * 16,
                        self.count_in_bars <= u32::MAX;
                let count_in_samples: u64 = spbar * (self.count_in_bars as u64);
                if sample_idx >= count_in_samples {
                    self.state = RecordingState::Recording;
                    self.sample_counter = 0;
                }
            },
            RecordingState::Recording => {
                self.recorded.push(input_left);
                self.recorded.push(input_right);
            },
            RecordingState::Idle => {},
        }
        click
    }
}

/// The capture buffer after recording the given input pairs, in order.
pub open spec fn captured<S>(buf: Seq<S>, inputs: Seq<(S, S)>) -> Seq<S>
    decreases inputs.len(),
{
    if inputs.len() == 0 {
        buf
    } else {
        captured(buf, inputs.drop_last()).push(inputs.last().0).push(inputs.last().1)
    }
}

/// A take started with no count-in and fed `inputs` holds one stereo frame
/// per input pair, so its length in seconds is the pair count over the rate.
pub proof fn lemma_take_frames<S>(inputs: Seq<(S, S)>)
    ensures
        captured(Seq::<S>::empty(), inputs).len() == 2 * inputs.len(),
        captured(Seq::<S>::empty(), inputs).len() / 2 == inputs.len(),
    decreases inputs.len(),
{
    if inputs.len() > 0 {
        lemma_take_frames(inputs.drop_last());
    }
}

/// One recorded frame extends the buffer exactly as `captured` does.
pub proof fn lemma_captured_step<S>(buf: Seq<S>, inputs: Seq<(S, S)>, l: S, r: S)
    ensures
        captured(buf, inputs.push((l, r))) == captured(buf, inputs).push(l).push(r),
{
    assert(inputs.push((l, r)).drop_last() =~= inputs);
}

/// A take that starts empty and grows by one input pair per recorded frame,
/// as `process_frame` grows it while recording, ends holding exactly those
/// pairs in order: one stereo frame per pair.
pub proof fn lemma_take_round_trip<S>(buffers: Seq<Seq<S>>, inputs: Seq<(S, S)>)
    requires
        buffers.len() == inputs.len() + 1,
        buffers[0].len() == 0,
        forall|k: int| 0 <= k < inputs.len() ==> #[trigger] buffers[k + 1] == buffers[k].push(inputs[k].0).push(
            inputs[k].1,
        ),
    ensures
        buffers.last() == captured(Seq::<S>::empty(), inputs),
        buffers.last().len() / 2 == inputs.len(),
    decreases inputs.len(),
{
    if inputs.len() == 0 {
        assert(buffers[0] =~= Seq::<S>::empty());
    } else {
        let n = inputs.len() - 1;
        let b2 = buffers.drop_last();
        let i2 = inputs.drop_last();
        assert forall|k: int| 0 <= k < i2.len() implies #[trigger] b2[k + 1] == b2[k].push(i2[k].0).push(i2[k].1) by {
            assert(buffers[k + 1] == buffers[k].push(inputs[k].0).push(inputs[k].1));
        }
        lemma_take_round_trip(b2, i2);
        assert(buffers[n + 1] == buffers[n].push(inputs[n].0).push(inputs[n].1));
        assert(b2.last() == buffers[n]);
    }
    lemma_take_frames(inputs);
}

} // verus!
