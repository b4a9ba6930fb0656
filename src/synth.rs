use vstd::prelude::*;
use crate::text::{lower_of, lowercase, str_eq};

verus! {

/// Voices in each track's pool.
pub const MAX_VOICES: usize = 16;

#[derive(Clone, Copy, Debug, PartialEq, Eq, Structural)]
pub enum OscillatorType {
    Sine,
    Saw,
    Square,
    Triangle,
}

#[derive(Clone, Copy, Debug, PartialEq, Eq, Structural)]
pub enum FilterType {
    LowPass,
    HighPass,
    BandPass,
}

pub open spec fn oscillator_of(s: Seq<char>) -> OscillatorType {
    if s == "saw"@ {
        OscillatorType::Saw
    } else if s == "square"@ {
        OscillatorType::Square
    } else if s == "triangle"@ {
        OscillatorType::Triangle
    } else {
        OscillatorType::Sine
    }
}

pub open spec fn filter_of(s: Seq<char>) -> FilterType {
    if s == "highpass"@ {
        FilterType::HighPass
    } else if s == "bandpass"@ {
        FilterType::BandPass
    } else {
        FilterType::LowPass
    }
}

impl OscillatorType {
    /// The waveform named by an already lower-case name; Sine for any other.
    pub fn from_lowercase(s: &str) -> (r: OscillatorType)
        ensures
            r == oscillator_of(s@),
    {
        if str_eq(s, "saw") {
            OscillatorType::Saw
        } else if str_eq(s, "square") {
            OscillatorType::Square
        } else if str_eq(s, "triangle") {
            OscillatorType::Triangle
        } else {
            OscillatorType::Sine
        }
    }

    /// The waveform named by `s` in any case; Sine for any other name.
    pub fn from_str(s: &str) -> (r: OscillatorType)
        ensures
            r == oscillator_of(lower_of(s@)),
    {
        let l = lowercase(s);
        OscillatorType::from_lowercase(l.as_str())
    }
}

impl FilterType {
    /// The filter named by an already lower-case name; LowPass for any other.
    pub fn from_lowercase(s: &str) -> (r: FilterType)
        ensures
            r == filter_of(s@),
    {
        if str_eq(s, "highpass") {
            FilterType::HighPass
        } else if str_eq(s, "bandpass") {
            FilterType::BandPass
        } else {
            FilterType::LowPass
        }
    }

    /// The filter named by `s` in any case; LowPass for any other name.
    pub fn from_str(s: &str) -> (r: FilterType)
        ensures
            r == filter_of(lower_of(s@)),
    {
        let l = lowercase(s);
        FilterType::from_lowercase(l.as_str())
    }
}

#[derive(Clone, Copy, Debug, PartialEq, Eq, Structural)]
pub enum EnvelopeStage {
    Idle,
    Attack,
    Decay,
    Sustain,
    Release,
}

/// Envelope stage lengths, in frames.
#[derive(Clone, Copy, Debug, PartialEq, Eq, Structural)]
pub struct EnvelopeTimes {
    pub attack_frames: u64,
    pub decay_frames: u64,
    pub release_frames: u64,
}

/// One slot of a voice pool: the note it plays and where its envelope stands.
#[derive(Clone, Copy, Debug, PartialEq, Eq, Structural)]
pub struct Voice {
    pub note: u8,
    pub velocity: u8,
    pub active: bool,
    pub stage: EnvelopeStage,
    /// Frames spent in the current stage.
    pub stage_frames: u64,
}

/// A voice after one frame: each stage runs for its length and hands on to
/// the next; the release ends the voice.
pub open spec fn step_voice(v: Voice, env: EnvelopeTimes) -> Voice {
    if !v.active {
        v
    } else {
        let t = if v.stage_frames < u64::MAX { (v.stage_frames + 1) as u64 } else { v.stage_frames };
        match v.stage {
            EnvelopeStage::Idle => Voice { active: false, stage_frames: 0, ..v },
            EnvelopeStage::Attack => if t >= env.attack_frames {
                Voice { stage: EnvelopeStage::Decay, stage_frames: 0, ..v }
            } else {
                Voice { stage_frames: t, ..v }
            },
            EnvelopeStage::Decay => if t >= env.decay_frames {
                Voice { stage: EnvelopeStage::Sustain, stage_frames: 0, ..v }
            } else {
                Voice { stage_frames: t, ..v }
            },
            EnvelopeStage::Sustain => Voice { stage_frames: t, ..v },
            EnvelopeStage::Release => if t >= env.release_frames {
                Voice { active: false, stage: EnvelopeStage::Idle, stage_frames: 0, ..v }
            } else {
                Voice { stage_frames: t, ..v }
            },
        }
    }
}

/// A voice after `n` frames.
pub open spec fn step_voice_n(v: Voice, env: EnvelopeTimes, n: nat) -> Voice
    decreases n,
{
    if n == 0 { v } else { step_voice_n(step_voice(v, env), env, (n - 1) as nat) }
}

fn silent_voice() -> (v: Voice)
    ensures
        !v.active,
        v.stage == EnvelopeStage::Idle,
{
    Voice { note: 0, velocity: 0, active: false, stage: EnvelopeStage::Idle, stage_frames: 0 }
}

/// The polyphonic voice pool of one track, with the timbre its voices share.
pub struct TrackSynthesizer {
    pub voices: Vec<Voice>,
    pub osc1_type: OscillatorType,
    pub osc2_type: OscillatorType,
    pub filter_type: FilterType,
    pub envelope: EnvelopeTimes,
}

pub open spec fn count_active(vs: Seq<Voice>) -> nat
    decreases vs.len(),
{
    if vs.len() == 0 {
        0
    } else {
        count_active(vs.drop_last()) + if vs.last().active { 1nat } else { 0nat }
    }
}

proof fn lemma_count_active_update(vs: Seq<Voice>, i: int, v: Voice)
    requires
        0 <= i < vs.len(),
        v.active,
    ensures
        count_active(vs.update(i, v)) >= 1,
    decreases vs.len(),
{
    if i == vs.len() - 1 {
        assert(vs.update(i, v).last() == v);
    } else {
        assert(vs.update(i, v).drop_last() =~= vs.drop_last().update(i, v));
        lemma_count_active_update(vs.drop_last(), i, v);
    }
}

/// A voice after a note-off for `note`: released if it was sounding that note.
pub open spec fn release_voice(v: Voice, note: u8) -> Voice {
    if v.active && v.note == note {
        Voice { stage: EnvelopeStage::Release, stage_frames: 0, ..v }
    } else {
        v
    }
}

/// A pool after a note-off for `note`: every voice released accordingly,
/// the timbre kept.
pub open spec fn pool_released(before: TrackSynthesizer, after: TrackSynthesizer, note: u8) -> bool {
    &&& after.voices@.len() == before.voices@.len()
    &&& forall|i: int| 0 <= i < before.voices@.len() ==> #[trigger] after.voices@[i] == release_voice(before.voices@[i], note)
    &&& after.osc1_type == before.osc1_type
    &&& after.osc2_type == before.osc2_type
    &&& after.filter_type == before.filter_type
    &&& after.envelope == before.envelope
}

/// A pool after a note-on: the chosen slot starts the note in attack, the
/// other slots and the timbre are kept.
pub open spec fn pool_started(before: TrackSynthesizer, after: TrackSynthesizer, note: u8, velocity: u8) -> bool {
    &&& after.voices@ == before.voices@.update(
        chosen_slot(before.voices@),
        Voice { note, velocity, active: true, stage: EnvelopeStage::Attack, stage_frames: 0 },
    )
    &&& after.osc1_type == before.osc1_type
    &&& after.osc2_type == before.osc2_type
    &&& after.filter_type == before.filter_type
    &&& after.envelope == before.envelope
}

/// The voices after one event: a note-on starts the note on the chosen slot,
/// a note-off releases every voice sounding that note.
pub open spec fn voices_after(vs: Seq<Voice>, e: crate::midi::MidiEvent) -> Seq<Voice> {
    match e.event_type {
        crate::midi::MidiEventType::NoteOn { note, velocity } => vs.update(
            chosen_slot(vs),
            Voice { note, velocity, active: true, stage: EnvelopeStage::Attack, stage_frames: 0 },
        ),
        crate::midi::MidiEventType::NoteOff { note, velocity } => Seq::new(vs.len(), |i: int| release_voice(vs[i], note)),
    }
}

/// The voices after a run of events, in order.
pub open spec fn voices_after_all(vs: Seq<Voice>, es: Seq<crate::midi::MidiEvent>) -> Seq<Voice>
    decreases es.len(),
{
    if es.len() == 0 {
        vs
    } else {
        voices_after(voices_after_all(vs, es.drop_last()), es.last())
    }
}

/// The slot a note-on takes: the first inactive voice, else the first voice.
pub open spec fn chosen_slot(vs: Seq<Voice>) -> int {
    if exists|i: int| 0 <= i < vs.len() && !vs[i].active {
        choose|i: int| 0 <= i < vs.len() && !vs[i].active && forall|k: int| 0 <= k < i ==> vs[k].active
    } else {
        0
    }
}

impl TrackSynthesizer {
    pub open spec fn wf(&self) -> bool {
        self.voices@.len() == MAX_VOICES
    }

    /// A pool of silent voices: saw and square oscillators, low-pass filter,
    /// 10 ms attack, 100 ms decay, 200 ms release.
    pub fn new() -> (s: TrackSynthesizer)
        ensures
            s.wf(),
            forall|i: int| 0 <= i < MAX_VOICES ==> !(#[trigger] s.voices@[i]).active,
    {
        let mut voices: Vec<Voice> = Vec::new();
        let mut i: usize = 0;
        while i < MAX_VOICES
            invariant
                i <= MAX_VOICES,
                voices@.len() == i,
                forall|k: int| 0 <= k < i ==> !(#[trigger] voices@[k]).active,
            decreases MAX_VOICES - i,
        {
            voices.push(silent_voice());
            i = i + 1;
        }
        TrackSynthesizer {
            voices,
            osc1_type: OscillatorType::Saw,
            osc2_type: OscillatorType::Square,
            filter_type: FilterType::LowPass,
            envelope: EnvelopeTimes { attack_frames: 480, decay_frames: 4800, release_frames: 9600 },
        }
    }

    /// Index of the first inactive voice, or the first voice when all play.
    pub fn find_free_voice(&self) -> (r: usize)
        requires
            self.wf(),
        ensures
            r < MAX_VOICES,
            r as int == chosen_slot(self.voices@),
    {
        let mut i: usize = 0;
        while i < self.voices.len()
            invariant
                i <= self.voices@.len(),
                self.voices@.len() == MAX_VOICES,
                forall|k: int| 0 <= k < i ==> self.voices@[k].active,
            decreases self.voices@.len() - i,
        {
            if !self.voices[i].active {
                proof {
                    let w = choose|j: int| 0 <= j < self.voices@.len() && !self.voices@[j].active && forall|k: int|
                        0 <= k < j ==> self.voices@[k].active;
                    assert(0 <= w < self.voices@.len() && !self.voices@[w].active && forall|k: int|
                        0 <= k < w ==> self.voices@[k].active);
                    if w < i {
                    } else if w > i {
                        assert(self.voices@[i as int].active);
                    }
                }
                return i;
            }
            i = i + 1;
        }
        0
    }

    /// Starts a note on the slot that `find_free_voice` picks: active, in
    /// attack from its first frame.
    pub fn note_on(&mut self, note: u8, velocity: u8) -> (slot: usize)
        requires
            old(self).wf(),
        ensures
            final(self).wf(),
            slot as int == chosen_slot(old(self).voices@),
            final(self).voices@ == old(self).voices@.update(
                slot as int,
                Voice { note, velocity, active: true, stage: EnvelopeStage::Attack, stage_frames: 0 },
            ),
            final(self).envelope == old(self).envelope,
            count_active(final(self).voices@) >= 1,
            pool_started(*old(self), *final(self), note, velocity),
    {
        let i = self.find_free_voice();
        let v = Voice { note, velocity, active: true, stage: EnvelopeStage::Attack, stage_frames: 0 };
        self.voices.set(i, v);
        proof {
            lemma_count_active_update(old(self).voices@, i as int, v);
        }
        i
    }

    /// Sends every active voice playing `note` into its release.
    pub fn note_off(&mut self, note: u8)
        requires
            old(self).wf(),
        ensures
            final(self).wf(),
            pool_released(*old(self), *final(self), note),
            final(self).envelope == old(self).envelope,
            forall|i: int| 0 <= i < MAX_VOICES ==> #[trigger] final(self).voices@[i] == if old(self).voices@[i].active
                && old(self).voices@[i].note == note {
                Voice { stage: EnvelopeStage::Release, stage_frames: 0, ..old(self).voices@[i] }
            } else {
                old(self).voices@[i]
            },
    {
        let mut i: usize = 0;
        while i < self.voices.len()
            invariant
                self.voices@.len() == MAX_VOICES,
                i <= MAX_VOICES,
                self.envelope == old(self).envelope,
                self.osc1_type == old(self).osc1_type,
                self.osc2_type == old(self).osc2_type,
                self.filter_type == old(self).filter_type,
                forall|k: int| 0 <= k < i ==> #[trigger] self.voices@[k] == if old(self).voices@[k].active
                    && old(self).voices@[k].note == note {
                    Voice { stage: EnvelopeStage::Release, stage_frames: 0, ..old(self).voices@[k] }
                } else {
                    old(self).voices@[k]
                },
                forall|k: int| i <= k < MAX_VOICES ==> #[trigger] self.voices@[k] == old(self).voices@[k],
            decreases MAX_VOICES - i,
        {
            let v = self.voices[i];
            if v.active && v.note == note {
                self.voices.set(i, Voice { stage: EnvelopeStage::Release, stage_frames: 0, ..v });
            }
            i = i + 1;
        }
    }

    /// Moves every voice's envelope on by one frame.
    pub fn advance(&mut self)
        requires
            old(self).wf(),
        ensures
            final(self).wf(),
            final(self).envelope == old(self).envelope,
            forall|i: int| 0 <= i < MAX_VOICES ==> #[trigger] final(self).voices@[i] == step_voice(
                old(self).voices@[i],
                old(self).envelope,
            ),
    {
        let env = self.envelope;
        let mut i: usize = 0;
        while i < self.voices.len()
            invariant
                self.voices@.len() == MAX_VOICES,
                i <= MAX_VOICES,
                self.envelope == env,
                env == old(self).envelope,
                forall|k: int| 0 <= k < i ==> #[trigger] self.voices@[k] == step_voice(old(self).voices@[k], env),
                forall|k: int| i <= k < MAX_VOICES ==> #[trigger] self.voices@[k] == old(self).voices@[k],
            decreases MAX_VOICES - i,
        {
            let v = self.voices[i];
            let nv = step_one(v, env);
            self.voices.set(i, nv);
            i = i + 1;
        }
    }

    /// Silences every voice at once.
    pub fn all_notes_off(&mut self)
        requires
            old(self).wf(),
        ensures
            final(self).wf(),
            final(self).envelope == old(self).envelope,
            forall|i: int| 0 <= i < MAX_VOICES ==> !(#[trigger] final(self).voices@[i]).active,
    {
        let mut i: usize = 0;
        while i < self.voices.len()
            invariant
                self.voices@.len() == MAX_VOICES,
                i <= MAX_VOICES,
                self.envelope == old(self).envelope,
                forall|k: int| 0 <= k < i ==> !(#[trigger] self.voices@[k]).active,
            decreases MAX_VOICES - i,
        {
            self.voices.set(i, silent_voice());
            i = i + 1;
        }
    }

    /// Number of voices still sounding.
    pub fn active_voice_count(&self) -> (r: usize)
        ensures
            r == count_active(self.voices@),
    {
        let mut n: usize = 0;
        let mut i: usize = 0;
        while i < self.voices.len()
            invariant
                i <= self.voices@.len(),
                n == count_active(self.voices@.subrange(0, i as int)),
                n <= i,
            decreases self.voices@.len() - i,
        {
            proof {
                assert(self.voices@.subrange(0, i + 1).drop_last() =~= self.voices@.subrange(0, i as int));
            }
            if self.voices[i].active {
                n = n + 1;
            }
            i = i + 1;
        }
        assert(self.voices@.subrange(0, self.voices@.len() as int) =~= self.voices@);
        n
    }

    /// Whether any voice still sounds.
    pub fn is_active(&self) -> (r: bool)
        ensures
            r == (count_active(self.voices@) > 0),
    {
        self.active_voice_count() > 0
    }

    /// Plays or releases the note an event carries.
    pub fn process_event(&mut self, event: &crate::midi::MidiEvent)
        requires
            old(self).wf(),
        ensures
            final(self).wf(),
            final(self).envelope == old(self).envelope,
            event.event_type matches crate::midi::MidiEventType::NoteOn { note, velocity } ==> final(self).voices@
                == old(self).voices@.update(
                chosen_slot(old(self).voices@),
                Voice { note, velocity, active: true, stage: EnvelopeStage::Attack, stage_frames: 0 },
            ),
            event.event_type matches crate::midi::MidiEventType::NoteOff { note, velocity } ==> forall|i: int|
                0 <= i < MAX_VOICES ==> #[trigger] final(self).voices@[i] == if old(self).voices@[i].active
                && old(self).voices@[i].note == note {
                Voice { stage: EnvelopeStage::Release, stage_frames: 0, ..old(self).voices@[i] }
            } else {
                old(self).voices@[i]
            },
            final(self).voices@ == voices_after(old(self).voices@, *event),
            final(self).osc1_type == old(self).osc1_type,
            final(self).osc2_type == old(self).osc2_type,
            final(self).filter_type == old(self).filter_type,
    {
        match event.event_type {
            crate::midi::MidiEventType::NoteOn { note, velocity } => {
                self.note_on(note, velocity);
            },
            crate::midi::MidiEventType::NoteOff { note, velocity: _ } => {
                self.note_off(note);
                proof {
                    assert(self.voices@ =~= voices_after(old(self).voices@, *event));
                }
            },
        }
    }

    /// Plays or releases the notes of several events, in order.
    pub fn process_events(&mut self, events: &Vec<crate::midi::MidiEvent>)
        requires
            old(self).wf(),
        ensures
            final(self).wf(),
            final(self).voices@ == voices_after_all(old(self).voices@, events@),
            final(self).envelope == old(self).envelope,
            final(self).osc1_type == old(self).osc1_type,
            final(self).osc2_type == old(self).osc2_type,
            final(self).filter_type == old(self).filter_type,
    {
        let mut i: usize = 0;
        while i < events.len()
            invariant
                self.wf(),
                i <= events@.len(),
                self.voices@ == voices_after_all(old(self).voices@, events@.subrange(0, i as int)),
                self.envelope == old(self).envelope,
                self.osc1_type == old(self).osc1_type,
                self.osc2_type == old(self).osc2_type,
                self.filter_type == old(self).filter_type,
            decreases events@.len() - i,
        {
            proof {
                assert(events@.subrange(0, i + 1).drop_last() =~= events@.subrange(0, i as int));
                assert(events@.subrange(0, i + 1).last() == events@[i as int]);
            }
            self.process_event(&events[i]);
            i = i + 1;
        }
        assert(events@.subrange(0, events@.len() as int) =~= events@);
    }

    /// Sets a waveform or filter parameter by name (`osc1_type`, `osc2_type`,
    /// `filter_type`). Returns whether the name was one of these.
    pub fn set_type_parameter(&mut self, key: &str, value: &str) -> (r: bool)
        requires
            old(self).wf(),
        ensures
            final(self).wf(),
            final(self).voices@ == old(self).voices@,
            final(self).envelope == old(self).envelope,
            r == (key@ == "osc1_type"@ || key@ == "osc2_type"@ || key@ == "filter_type"@),
            key@ == "osc1_type"@ ==> final(self).osc1_type == oscillator_of(lower_of(value@)),
            key@ != "osc1_type"@ ==> final(self).osc1_type == old(self).osc1_type,
            key@ == "osc2_type"@ ==> final(self).osc2_type == oscillator_of(lower_of(value@)),
            key@ != "osc2_type"@ ==> final(self).osc2_type == old(self).osc2_type,
            key@ == "filter_type"@ ==> final(self).filter_type == filter_of(lower_of(value@)),
            key@ != "filter_type"@ ==> final(self).filter_type == old(self).filter_type,
    {
        proof {
            reveal_strlit("osc1_type");
            reveal_strlit("osc2_type");
            reveal_strlit("filter_type");
            assert("osc1_type"@[3] != "osc2_type"@[3]);
            assert("osc1_type"@[0] != "filter_type"@[0]);
            assert("osc2_type"@[0] != "filter_type"@[0]);
        }
        if str_eq(key, "osc1_type") {
            self.osc1_type = OscillatorType::from_str(value);
            true
        } else if str_eq(key, "osc2_type") {
            self.osc2_type = OscillatorType::from_str(value);
            true
        } else if str_eq(key, "filter_type") {
            self.filter_type = FilterType::from_str(value);
            true
        } else {
            false
        }
    }

    /// Sets the envelope's stage lengths, shared by every voice.
    pub fn set_envelope_times(&mut self, env: EnvelopeTimes)
        requires
            old(self).wf(),
        ensures
            final(self).wf(),
            final(self).envelope == env,
            final(self).voices@ == old(self).voices@,
    {
        self.envelope = env;
    }
}

fn step_one(v: Voice, env: EnvelopeTimes) -> (r: Voice)
    ensures
        r == step_voice(v, env),
{
    if !v.active {
        return v;
    }
    let t = if v.stage_frames < u64::MAX { v.stage_frames + 1 } else { v.stage_frames };
    match v.stage {
        EnvelopeStage::Idle => Voice { active: false, stage_frames: 0, ..v },
        EnvelopeStage::Attack => if t >= env.attack_frames {
            Voice { stage: EnvelopeStage::Decay, stage_frames: 0, ..v }
        } else {
            Voice { stage_frames: t, ..v }
        },
        EnvelopeStage::Decay => if t >= env.decay_frames {
            Voice { stage: EnvelopeStage::Sustain, stage_frames: 0, ..v }
        } else {
            Voice { stage_frames: t, ..v }
        },
        EnvelopeStage::Sustain => Voice { stage_frames: t, ..v },
        EnvelopeStage::Release => if t >= env.release_frames {
            Voice { active: false, stage: EnvelopeStage::Idle, stage_frames: 0, ..v }
        } else {
            Voice { stage_frames: t, ..v }
        },
    }
}

/// A released voice keeps sounding through its release and falls silent once
/// the release length has passed (and stays silent after).
pub proof fn lemma_release_ends(v: Voice, env: EnvelopeTimes, n: nat)
    requires
        v.active,
        v.stage == EnvelopeStage::Release,
        v.stage_frames == 0,
        env.release_frames < u64::MAX,
    ensures
        (n < env.release_frames ==> step_voice_n(v, env, n).active),
        (n >= env.release_frames && n >= 1 ==> !step_voice_n(v, env, n).active),
    decreases n,
{
    lemma_release_from(v, env, n);
}

proof fn lemma_release_from(v: Voice, env: EnvelopeTimes, n: nat)
    requires
        v.active,
        v.stage == EnvelopeStage::Release,
        env.release_frames < u64::MAX,
        v.stage_frames < env.release_frames || v.stage_frames == 0,
    ensures
        (v.stage_frames + n < env.release_frames ==> step_voice_n(v, env, n).active
            && step_voice_n(v, env, n).stage == EnvelopeStage::Release),
        (v.stage_frames + n >= env.release_frames && n >= 1 ==> !step_voice_n(v, env, n).active),
    decreases n,
{
    if n == 0 {
    } else {
        let w = step_voice(v, env);
        if v.stage_frames + 1 >= env.release_frames {
            assert(!w.active);
            lemma_inactive_stays(w, env, (n - 1) as nat);
        } else {
            lemma_release_from(w, env, (n - 1) as nat);
        }
    }
}

proof fn lemma_inactive_stays(v: Voice, env: EnvelopeTimes, n: nat)
    requires
        !v.active,
    ensures
        step_voice_n(v, env, n) == v,
    decreases n,
{
    if n > 0 {
        lemma_inactive_stays(step_voice(v, env), env, (n - 1) as nat);
    }
}

/// Voices moved on one frame at a time, as `advance` moves each of them,
/// stand where `step_voice_n` puts them after that many frames.
pub proof fn lemma_advance_frames(vs: Seq<Voice>, env: EnvelopeTimes)
    requires
        vs.len() >= 1,
        forall|k: int| 0 <= k < vs.len() - 1 ==> #[trigger] vs[k + 1] == step_voice(vs[k], env),
    ensures
        vs.last() == step_voice_n(vs[0], env, (vs.len() - 1) as nat),
    decreases vs.len(),
{
    if vs.len() > 1 {
        let tail = vs.subrange(1, vs.len() as int);
        assert forall|k: int| 0 <= k < tail.len() - 1 implies #[trigger] tail[k + 1] == step_voice(tail[k], env) by {
            assert(vs[k + 2] == step_voice(vs[k + 1], env));
        }
        lemma_advance_frames(tail, env);
        assert(vs[1] == step_voice(vs[0], env));
        assert(tail.last() == vs.last());
    }
}

/// A voice released and then moved on frame by frame is still sounding
/// before its release length has passed and silent once it has.
pub proof fn lemma_released_voice_retires(vs: Seq<Voice>, env: EnvelopeTimes)
    requires
        vs.len() >= 1,
        vs[0].active,
        vs[0].stage == EnvelopeStage::Release,
        vs[0].stage_frames == 0,
        env.release_frames < u64::MAX,
        forall|k: int| 0 <= k < vs.len() - 1 ==> #[trigger] vs[k + 1] == step_voice(vs[k], env),
    ensures
        vs.len() - 1 < env.release_frames ==> vs.last().active,
        vs.len() - 1 >= env.release_frames && vs.len() >= 2 ==> !vs.last().active,
{
    lemma_advance_frames(vs, env);
    lemma_release_ends(vs[0], env, (vs.len() - 1) as nat);
}

/// One pool per track that has an instrument.
pub struct TrackSynthManager {
    pub synths: Vec<(u64, TrackSynthesizer)>,
}

impl TrackSynthManager {
    pub open spec fn wf(&self) -> bool {
        &&& forall|i: int| 0 <= i < self.synths@.len() ==> (#[trigger] self.synths@[i]).1.wf()
        &&& forall|i: int, j: int| 0 <= i < j < self.synths@.len() ==> self.synths@[i].0 != self.synths@[j].0
    }

    pub open spec fn has(&self, track_id: u64) -> bool {
        exists|i: int| 0 <= i < self.synths@.len() && self.synths@[i].0 == track_id
    }

    pub fn new() -> (m: TrackSynthManager)
        ensures
            m.wf(),
            m.synths@.len() == 0,
    {
        TrackSynthManager { synths: Vec::new() }
    }

    fn find(&self, track_id: u64) -> (r: Option<usize>)
        ensures
            r matches Some(i) ==> i < self.synths@.len() && self.synths@[i as int].0 == track_id,
            r.is_none() ==> !self.has(track_id),
    {
        let mut i: usize = 0;
        while i < self.synths.len()
            invariant
                i <= self.synths@.len(),
                forall|k: int| 0 <= k < i ==> self.synths@[k].0 != track_id,
            decreases self.synths@.len() - i,
        {
            if self.synths[i].0 == track_id {
                return Some(i);
            }
            i = i + 1;
        }
        None
    }

    pub fn has_synth(&self, track_id: u64) -> (r: bool)
        ensures
            r == self.has(track_id),
    {
        self.find(track_id).is_some()
    }

    /// Gives a track a fresh, silent pool (replacing any it had).
    pub fn create_synth(&mut self, track_id: u64) -> (r: u64)
        requires
            old(self).wf(),
        ensures
            final(self).wf(),
            r == track_id,
            final(self).has(track_id),
            final(self).synths@.len() >= old(self).synths@.len(),
            forall|k: int| 0 <= k < final(self).synths@.len() && final(self).synths@[k].0 == track_id ==> count_active(
                #[trigger] final(self).synths@[k].1.voices@,
            ) == 0,
            forall|k: int| 0 <= k < old(self).synths@.len() && old(self).synths@[k].0 != track_id ==> #[trigger] final(self).synths@[k]
                == old(self).synths@[k],
    {
        let fresh = TrackSynthesizer::new();
        proof {
            lemma_none_active(fresh.voices@);
        }
        match self.find(track_id) {
            Some(i) => {
                self.synths.set(i, (track_id, fresh));
                proof {
                    assert(final(self).synths@[i as int].0 == track_id);
                }
            },
            None => {
                self.synths.push((track_id, fresh));
                proof {
                    assert(final(self).synths@[final(self).synths@.len() - 1].0 == track_id);
                }
            },
        }
        track_id
    }

    /// Drops a track's pool; returns whether it had one.
    pub fn remove_synth(&mut self, track_id: u64) -> (r: bool)
        requires
            old(self).wf(),
        ensures
            final(self).wf(),
            r == old(self).has(track_id),
            !final(self).has(track_id),
    {
        match self.find(track_id) {
            Some(i) => {
                let ghost pre = self.synths@;
                self.synths.remove(i);
                proof {
                    assert(self.synths@ =~= pre.remove(i as int));
                    assert forall|k: int| 0 <= k < self.synths@.len() implies self.synths@[k].0 != track_id by {
                        if k < i {
                            assert(pre[k].0 != pre[i as int].0);
                        } else {
                            assert(pre[k + 1].0 != pre[i as int].0);
                        }
                    }
                    assert forall|a: int, b: int| 0 <= a < b < self.synths@.len() implies self.synths@[a].0
                        != self.synths@[b].0 by {
                        let a2 = if a < i { a } else { a + 1 };
                        let b2 = if b < i { b } else { b + 1 };
                        assert(pre[a2].0 != pre[b2].0);
                    }
                    assert forall|k: int| 0 <= k < self.synths@.len() implies (#[trigger] self.synths@[k]).1.wf() by {
                        if k >= i {
                            assert(pre[k + 1].1.wf());
                        }
                    }
                }
                true
            },
            None => false,
        }
    }

    /// Starts a note on a track's pool; `None` when the track has none,
    /// else the slot that sounds it.
    pub fn note_on(&mut self, track_id: u64, note: u8, velocity: u8) -> (r: Option<usize>)
        requires
            old(self).wf(),
        ensures
            final(self).wf(),
            r.is_some() == old(self).has(track_id),
            r.is_none() ==> final(self).synths@ == old(self).synths@,
            r.is_some() ==> exists|i: int| 0 <= i < old(self).synths@.len() && old(self).synths@[i].0 == track_id
                && final(self).synths@.len() == old(self).synths@.len()
                && count_active(final(self).synths@[i].1.voices@) >= 1,
            final(self).synths@.len() == old(self).synths@.len(),
            forall|k: int| 0 <= k < final(self).synths@.len() ==> (#[trigger] final(self).synths@[k]).0 == old(self).synths@[k].0,
            forall|k: int| 0 <= k < old(self).synths@.len() && old(self).synths@[k].0 == track_id ==> r == Some(
                chosen_slot(old(self).synths@[k].1.voices@) as usize,
            ) && pool_started(old(self).synths@[k].1, #[trigger] final(self).synths@[k].1, note, velocity),
            forall|k: int| 0 <= k < old(self).synths@.len() && old(self).synths@[k].0 != track_id ==> #[trigger] final(self).synths@[k] == old(self).synths@[k],
    {
        match self.find(track_id) {
            Some(i) => {
                let slot = self.synths[i].1.note_on(note, velocity);
                proof {
                    assert forall|k: int| 0 <= k < self.synths@.len() implies (#[trigger] self.synths@[k]).1.wf() by {
                        if k != i {
                            assert(self.synths@[k] == old(self).synths@[k]);
                        }
                    }
                    assert forall|a: int, b: int| 0 <= a < b < self.synths@.len() implies self.synths@[a].0
                        != self.synths@[b].0 by {
                        assert(self.synths@[a].0 == old(self).synths@[a].0);
                        assert(self.synths@[b].0 == old(self).synths@[b].0);
                    }
                }
                Some(slot)
            },
            None => None,
        }
    }

    /// Releases a note on a track's pool; returns whether the track has one.
    pub fn note_off(&mut self, track_id: u64, note: u8) -> (r: bool)
        requires
            old(self).wf(),
        ensures
            final(self).wf(),
            r == old(self).has(track_id),
            !r ==> final(self).synths@ == old(self).synths@,
            final(self).synths@.len() == old(self).synths@.len(),
            forall|k: int| 0 <= k < old(self).synths@.len() && old(self).synths@[k].0 == track_id ==> final(self).synths@[k].0
                == track_id && pool_released(old(self).synths@[k].1, #[trigger] final(self).synths@[k].1, note),
            forall|k: int| 0 <= k < old(self).synths@.len() && old(self).synths@[k].0 != track_id ==> #[trigger] final(self).synths@[k] == old(self).synths@[k],
    {
        match self.find(track_id) {
            Some(i) => {
                self.synths[i].1.note_off(note);
                proof {
                    assert forall|k: int| 0 <= k < self.synths@.len() implies (#[trigger] self.synths@[k]).1.wf() by {
                        if k != i {
                            assert(self.synths@[k] == old(self).synths@[k]);
                        }
                    }
                    assert forall|a: int, b: int| 0 <= a < b < self.synths@.len() implies self.synths@[a].0
                        != self.synths@[b].0 by {
                        assert(self.synths@[a].0 == old(self).synths@[a].0);
                        assert(self.synths@[b].0 == old(self).synths@[b].0);
                    }
                }
                true
            },
            None => false,
        }
    }

    /// Gives `dest` a fresh pool with the timbre of `source`'s pool; returns
    /// whether `source` has one.
    pub fn copy_synth(&mut self, source: u64, dest: u64) -> (r: bool)
        requires
            old(self).wf(),
        ensures
            final(self).wf(),
            r == old(self).has(source),
            !r ==> final(self).synths@ == old(self).synths@,
            r ==> exists|i: int, j: int| 0 <= i < old(self).synths@.len() && old(self).synths@[i].0 == source
                && 0 <= j < final(self).synths@.len() && final(self).synths@[j].0 == dest
                && final(self).synths@[j].1.osc1_type == old(self).synths@[i].1.osc1_type
                && final(self).synths@[j].1.osc2_type == old(self).synths@[i].1.osc2_type
                && final(self).synths@[j].1.filter_type == old(self).synths@[i].1.filter_type
                && final(self).synths@[j].1.envelope == old(self).synths@[i].1.envelope
                && count_active(final(self).synths@[j].1.voices@) == 0,
    {
        let si = match self.find(source) {
            Some(i) => i,
            None => return false,
        };
        let src = &self.synths[si].1;
        let mut fresh = TrackSynthesizer::new();
        fresh.osc1_type = src.osc1_type;
        fresh.osc2_type = src.osc2_type;
        fresh.filter_type = src.filter_type;
        fresh.envelope = src.envelope;
        proof {
            lemma_none_active(fresh.voices@);
        }
        match self.find(dest) {
            Some(j) => {
                self.synths.set(j, (dest, fresh));
                proof {
                    assert forall|k: int| 0 <= k < self.synths@.len() implies (#[trigger] self.synths@[k]).1.wf() by {
                        if k != j {
                            assert(self.synths@[k] == old(self).synths@[k]);
                        }
                    }
                    assert forall|a: int, b: int| 0 <= a < b < self.synths@.len() implies self.synths@[a].0
                        != self.synths@[b].0 by {
                        assert(self.synths@[a].0 == old(self).synths@[a].0);
                        assert(self.synths@[b].0 == old(self).synths@[b].0);
                    }
                    assert(self.synths@[j as int].0 == dest);
                }
            },
            None => {
                self.synths.push((dest, fresh));
                proof {
                    let n = self.synths@.len() - 1;
                    assert(self.synths@[n].0 == dest);
                    assert forall|k: int| 0 <= k < self.synths@.len() implies (#[trigger] self.synths@[k]).1.wf() by {
                        if k < n {
                            assert(self.synths@[k] == old(self).synths@[k]);
                        }
                    }
                    assert forall|a: int, b: int| 0 <= a < b < self.synths@.len() implies self.synths@[a].0
                        != self.synths@[b].0 by {
                        if b == n {
                            assert(self.synths@[a] == old(self).synths@[a]);
                        } else {
                            assert(self.synths@[a] == old(self).synths@[a]);
                            assert(self.synths@[b] == old(self).synths@[b]);
                        }
                    }
                }
            },
        }
        true
    }

    /// Sets a waveform or filter parameter on a track's pool; returns
    /// whether the track has a pool and the name is such a parameter.
    pub fn set_type_parameter(&mut self, track_id: u64, key: &str, value: &str) -> (r: bool)
        requires
            old(self).wf(),
        ensures
            final(self).wf(),
            final(self).synths@.len() == old(self).synths@.len(),
            r == (old(self).has(track_id) && (key@ == "osc1_type"@ || key@ == "osc2_type"@ || key@ == "filter_type"@)),
            forall|i: int| 0 <= i < final(self).synths@.len() ==> (#[trigger] final(self).synths@[i]).0 == old(self).synths@[i].0
                && final(self).synths@[i].1.voices@ == old(self).synths@[i].1.voices@,
            forall|i: int| 0 <= i < final(self).synths@.len() && final(self).synths@[i].0 == track_id && key@ == "osc1_type"@
                ==> final(self).synths@[i].1.osc1_type == oscillator_of(lower_of(value@)),
            forall|i: int| 0 <= i < final(self).synths@.len() && final(self).synths@[i].0 == track_id && key@ == "osc2_type"@
                ==> final(self).synths@[i].1.osc2_type == oscillator_of(lower_of(value@)),
            forall|i: int| 0 <= i < final(self).synths@.len() && final(self).synths@[i].0 == track_id && key@ == "filter_type"@
                ==> final(self).synths@[i].1.filter_type == filter_of(lower_of(value@)),
    {
        match self.find(track_id) {
            Some(i) => {
                let r = self.synths[i].1.set_type_parameter(key, value);
                proof {
                    assert forall|k: int| 0 <= k < self.synths@.len() implies (#[trigger] self.synths@[k]).1.wf() by {
                        if k != i {
                            assert(self.synths@[k] == old(self).synths@[k]);
                        }
                    }
                    assert forall|a: int, b: int| 0 <= a < b < self.synths@.len() implies self.synths@[a].0
                        != self.synths@[b].0 by {
                        assert(self.synths@[a].0 == old(self).synths@[a].0);
                        assert(self.synths@[b].0 == old(self).synths@[b].0);
                    }
                    assert forall|k: int| 0 <= k < self.synths@.len() && self.synths@[k].0 == track_id implies k == i by {
                        if k != i {
                            assert(old(self).synths@[k].0 != old(self).synths@[i as int].0);
                        }
                    }
                }
                r
            },
            None => false,
        }
    }

    /// Plays the events due on a frame on a track's pool, in order; returns
    /// whether the track has a pool.
    pub fn dispatch_events(&mut self, track_id: u64, events: &Vec<crate::midi::MidiEvent>) -> (r: bool)
        requires
            old(self).wf(),
        ensures
            final(self).wf(),
            r == old(self).has(track_id),
            final(self).synths@.len() == old(self).synths@.len(),
            forall|k: int| 0 <= k < old(self).synths@.len() && old(self).synths@[k].0 == track_id ==> (#[trigger] final(
                self).synths@[k]).0 == track_id && final(self).synths@[k].1.voices@ == voices_after_all(
                old(self).synths@[k].1.voices@,
                events@,
            ),
            forall|k: int| 0 <= k < old(self).synths@.len() && old(self).synths@[k].0 != track_id ==> #[trigger] final(self).synths@[k]
                == old(self).synths@[k],
    {
        match self.find(track_id) {
            Some(i) => {
                self.synths[i].1.process_events(events);
                proof {
                    assert forall|k: int| 0 <= k < self.synths@.len() implies (#[trigger] self.synths@[k]).1.wf() by {
                        if k != i {
                            assert(self.synths@[k] == old(self).synths@[k]);
                        }
                    }
                    assert forall|a: int, b: int| 0 <= a < b < self.synths@.len() implies self.synths@[a].0
                        != self.synths@[b].0 by {
                        assert(self.synths@[a].0 == old(self).synths@[a].0);
                        assert(self.synths@[b].0 == old(self).synths@[b].0);
                    }
                    assert forall|k: int| 0 <= k < old(self).synths@.len() && old(self).synths@[k].0 == track_id implies k
                        == i by {
                        if k != i {
                            assert(old(self).synths@[k].0 != old(self).synths@[i as int].0);
                        }
                    }
                }
                true
            },
            None => false,
        }
    }

    /// Silences every voice of every track.
    pub fn all_notes_off_all_tracks(&mut self)
        requires
            old(self).wf(),
        ensures
            final(self).wf(),
            final(self).synths@.len() == old(self).synths@.len(),
            forall|i: int| 0 <= i < final(self).synths@.len() ==> final(self).synths@[i].0 == old(self).synths@[i].0
                && count_active(#[trigger] final(self).synths@[i].1.voices@) == 0,
    {
        let mut i: usize = 0;
        while i < self.synths.len()
            invariant
                i <= self.synths@.len(),
                self.synths@.len() == old(self).synths@.len(),
                forall|k: int| 0 <= k < self.synths@.len() ==> self.synths@[k].0 == old(self).synths@[k].0,
                forall|k: int| 0 <= k < self.synths@.len() ==> (#[trigger] self.synths@[k]).1.wf(),
                forall|k: int| 0 <= k < i ==> count_active(#[trigger] self.synths@[k].1.voices@) == 0,
                old(self).wf(),
            decreases self.synths@.len() - i,
        {
            self.synths[i].1.all_notes_off();
            proof {
                lemma_none_active(self.synths@[i as int].1.voices@);
            }
            i = i + 1;
        }
        proof {
            assert forall|a: int, b: int| 0 <= a < b < self.synths@.len() implies self.synths@[a].0
                != self.synths@[b].0 by {
                assert(self.synths@[a].0 == old(self).synths@[a].0);
                assert(self.synths@[b].0 == old(self).synths@[b].0);
            }
        }
    }
}

pub(crate) proof fn lemma_none_active(vs: Seq<Voice>)
    requires
        forall|i: int| 0 <= i < vs.len() ==> !(#[trigger] vs[i]).active,
    ensures
        count_active(vs) == 0,
    decreases vs.len(),
{
    if vs.len() > 0 {
        lemma_none_active(vs.drop_last());
    }
}

} // verus!
