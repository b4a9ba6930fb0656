use vstd::prelude::*;
use crate::devices::DeviceSelection;
use crate::effects::EffectManager;
use crate::midi::MidiClip;
use crate::midi_recorder::MidiRecorder;
use crate::recorder::Recorder;
use crate::synth::{TrackSynthManager, TrackSynthesizer};
use crate::track::{AudioClipPlacement, TrackManager, TrackType};
use crate::transport::{Transport, TransportState, seek_target, visual_position};

verus! {

/// The saved state of one track, as a project file holds it.
pub struct TrackSnapshot {
    pub name: String,
    pub track_type: TrackType,
    pub volume_centi_db: i32,
    pub pan_centi: i32,
    pub mute: bool,
    pub solo: bool,
    pub armed: bool,
    /// The kinds of the track's effects, in chain order.
    pub effects: Vec<crate::effects::EffectKind>,
}

/// A track holds what a saved track describes, levels held to their ranges.
pub open spec fn restored_as(t: crate::track::Track, s: TrackSnapshot) -> bool {
    &&& t.name@ == s.name@
    &&& t.track_type == s.track_type
    &&& t.volume_centi_db as int == crate::track::clamp_spec(
        s.volume_centi_db as int,
        crate::track::MIN_VOLUME_CENTI_DB as int,
        crate::track::MAX_VOLUME_CENTI_DB as int,
    )
    &&& t.pan_centi as int == crate::track::clamp_spec(
        s.pan_centi as int,
        -crate::track::MAX_PAN_CENTI as int,
        crate::track::MAX_PAN_CENTI as int,
    )
    &&& t.mute == s.mute
    &&& t.solo == s.solo
    &&& t.armed == s.armed
}

/// The saved tracks other than the master, in order.
pub open spec fn non_master(s: Seq<TrackSnapshot>) -> Seq<TrackSnapshot>
    decreases s.len(),
{
    if s.len() == 0 {
        Seq::empty()
    } else if s.last().track_type != TrackType::Master {
        non_master(s.drop_last()).push(s.last())
    } else {
        non_master(s.drop_last())
    }
}

/// A MIDI clip on the timeline, with the track it belongs to, if any.
pub struct TimelineMidiClip {
    pub id: u64,
    pub clip: MidiClip,
    pub start_frame: u64,
    pub track_id: Option<u64>,
}

/// The events due at timeline frame `frame` on a track, clip by clip in
/// timeline order.
pub open spec fn track_events_at(cs: Seq<TimelineMidiClip>, track_id: u64, frame: u64) -> Seq<crate::midi::MidiEvent>
    decreases cs.len(),
{
    if cs.len() == 0 {
        Seq::empty()
    } else {
        let rest = track_events_at(cs.drop_last(), track_id, frame);
        let c = cs.last();
        if c.track_id == Some(track_id) {
            match crate::mix::midi_frame_spec(c.start_frame, c.clip.duration_samples, frame) {
                Some(at) => rest + crate::mix::events_at_spec(c.clip.events@, at),
                None => rest,
            }
        } else {
            rest
        }
    }
}

/// Every MIDI clip but the one at `i` is kept, and none is added or lost.
pub open spec fn clips_kept(before: Seq<TimelineMidiClip>, after: Seq<TimelineMidiClip>, i: int) -> bool {
    &&& after.len() == before.len()
    &&& forall|k: int| 0 <= k < before.len() && k != i ==> #[trigger] after[k] == before[k]
}

/// The control-side state of the engine: everything the audio callback
/// snapshots, and every decision the control calls make. `S` is the type of
/// one audio sample captured by the recorder.
pub struct AudioGraph<S> {
    pub transport: Transport,
    pub tracks: TrackManager,
    pub effects: EffectManager,
    pub recorder: Recorder<S>,
    pub midi_recorder: MidiRecorder,
    pub synths: TrackSynthManager,
    /// The instrument played from the on-screen keyboard.
    pub live_synth: TrackSynthesizer,
    pub midi_clips: Vec<TimelineMidiClip>,
    pub next_clip_id: u64,
    pub audio_inputs: DeviceSelection,
    pub midi_inputs: DeviceSelection,
}

impl<S> AudioGraph<S> {
    pub open spec fn wf(&self) -> bool {
        &&& self.tracks.wf()
        &&& self.effects.wf()
        &&& self.recorder.wf()
        &&& self.midi_recorder.wf()
        &&& self.synths.wf()
        &&& self.live_synth.wf()
        &&& forall|i: int, j: int| 0 <= i < j < self.midi_clips@.len() ==> self.midi_clips@[i].id != self.midi_clips@[j].id
        &&& forall|i: int| 0 <= i < self.midi_clips@.len() ==> self.midi_clips@[i].id < self.next_clip_id
        &&& forall|i: int, j: int| 0 <= i < self.tracks.tracks@.len() && 0 <= j < self.tracks.tracks@[i].audio_clips@.len()
            ==> #[trigger] self.tracks.tracks@[i].audio_clips@[j].id < self.next_clip_id
    }

    pub open spec fn has_midi_clip(&self, id: u64) -> bool {
        exists|i: int| 0 <= i < self.midi_clips@.len() && self.midi_clips@[i].id == id
    }

    /// Stopped at frame zero, the master track alone, nothing recorded.
    pub fn new() -> (g: AudioGraph<S>)
        ensures
            g.wf(),
            g.transport.state == TransportState::Stopped,
            g.transport.playhead_samples == 0,
            g.tracks.tracks@.len() == 1,
            g.tracks.tracks@[0].name@ == "Master"@,
            g.tracks.tracks@[0].is_default(),
            g.tracks.next_id == 1,
            g.midi_clips@.len() == 0,
            g.recorder.state == crate::recorder::RecordingState::Idle,
            g.recorder.count_in_bars == 2,
            g.recorder.tempo_bpm == 120,
            g.recorder.metronome_enabled,
            g.midi_recorder.state == crate::midi_recorder::MidiRecordingState::Idle,
            g.next_clip_id == 0,
    {
        AudioGraph {
            transport: Transport::new(),
            tracks: TrackManager::new(),
            effects: EffectManager::new(),
            recorder: Recorder::new(),
            midi_recorder: MidiRecorder::new(),
            synths: TrackSynthManager::new(),
            live_synth: TrackSynthesizer::new(),
            midi_clips: Vec::new(),
            next_clip_id: 0,
            audio_inputs: DeviceSelection::new(),
            midi_inputs: DeviceSelection::new(),
        }
    }

    /// Enters Playing; true when the output stream must be started.
    pub fn play(&mut self) -> (start_stream: bool)
        requires
            old(self).wf(),
        ensures
            final(self).wf(),
            start_stream == (old(self).transport.state != TransportState::Playing),
            final(self).transport.state == TransportState::Playing,
            final(self).transport.playhead_samples == old(self).transport.playhead_samples,
            !start_stream ==> *final(self) == *old(self),
            *final(self) == (AudioGraph { transport: final(self).transport, ..*old(self) }),
    {
        self.transport.play()
    }

    /// Enters Paused; the playhead stays.
    pub fn pause(&mut self)
        requires
            old(self).wf(),
        ensures
            final(self).wf(),
            final(self).transport.state == TransportState::Paused,
            final(self).transport.playhead_samples == old(self).transport.playhead_samples,
            *final(self) == (AudioGraph { transport: final(self).transport, ..*old(self) }),
    {
        self.transport.pause();
    }

    /// Enters Stopped: every voice of every instrument falls silent, the
    /// playhead returns to zero and the metronome to the start of its grid.
    pub fn stop(&mut self)
        requires
            old(self).wf(),
        ensures
            final(self).wf(),
            final(self).transport.state == TransportState::Stopped,
            final(self).transport.playhead_samples == 0,
            final(self).recorder.sample_counter == 0,
            final(self).recorder.state == old(self).recorder.state,
            forall|i: int| 0 <= i < final(self).synths.synths@.len() ==> crate::synth::count_active(
                #[trigger] final(self).synths.synths@[i].1.voices@,
            ) == 0,
            crate::synth::count_active(final(self).live_synth.voices@) == 0,
            final(self).tracks == old(self).tracks,
            final(self).effects == old(self).effects,
    {
        self.transport.stop();
        self.synths.all_notes_off_all_tracks();
        self.live_synth.all_notes_off();
        proof {
            crate::synth::lemma_none_active(self.live_synth.voices@);
        }
        self.recorder.reset_metronome();
    }

    /// Moves the playhead so that it shows visual frame `target` at the
    /// current tempo.
    pub fn seek(&mut self, target: u64)
        requires
            old(self).wf(),
        ensures
            final(self).wf(),
            final(self).transport.playhead_samples == seek_target(target, old(self).recorder.tempo_bpm),
            final(self).transport.state == old(self).transport.state,
            final(self).recorder.tempo_bpm == old(self).recorder.tempo_bpm,
    {
        let tempo = self.recorder.get_tempo();
        self.transport.seek(target, tempo);
    }

    /// The playhead's visual frame at the current tempo.
    pub fn get_playhead_position(&self) -> (r: u64)
        ensures
            r == visual_position(self.transport.playhead_samples, self.recorder.tempo_bpm),
    {
        self.transport.visual_playhead(self.recorder.tempo_bpm)
    }

    pub fn get_state(&self) -> (r: TransportState)
        ensures
            r == self.transport.state,
    {
        self.transport.state
    }

    fn take_clip_id(&mut self) -> (r: Option<u64>)
        ensures
            r.is_none() <==> old(self).next_clip_id == u64::MAX,
            r.is_none() ==> *final(self) == *old(self),
            r.is_some() ==> r == Some(old(self).next_clip_id) && final(self).next_clip_id == old(self).next_clip_id
                + 1,
            final(self).transport == old(self).transport,
            final(self).tracks == old(self).tracks,
            final(self).effects == old(self).effects,
            final(self).recorder == old(self).recorder,
            final(self).midi_recorder == old(self).midi_recorder,
            final(self).synths == old(self).synths,
            final(self).live_synth == old(self).live_synth,
            final(self).midi_clips == old(self).midi_clips,
    {
        if self.next_clip_id == u64::MAX {
            return None;
        }
        let id = self.next_clip_id;
        self.next_clip_id = id + 1;
        Some(id)
    }

    /// Places an audio clip of `clip_frames` frames at `start_frame` on a
    /// track, under a fresh clip id; `None` for an unknown track or when
    /// clip ids are used up.
    pub fn add_clip_to_track(&mut self, track_id: u64, clip_frames: u64, channels: u16, start_frame: u64) -> (r:
        Option<u64>)
        requires
            old(self).wf(),
        ensures
            final(self).wf(),
            r.is_some() == (old(self).tracks.has(track_id) && old(self).next_clip_id < u64::MAX),
            r.is_some() ==> r == Some(old(self).next_clip_id) && exists|i: int| 0 <= i < final(self).tracks.tracks@.len()
                && final(self).tracks.tracks@[i].id == track_id
                && final(self).tracks.tracks@[i].audio_clips@ == old(self).tracks.tracks@[i].audio_clips@.push(
                    AudioClipPlacement {
                        id: old(self).next_clip_id,
                        start_frame,
                        offset_frames: 0,
                        duration_frames: None,
                        clip_frames,
                        channels,
                    },
                ) && crate::track::same_but_clips(final(self).tracks.tracks@[i], old(self).tracks.tracks@[i])
                && crate::track::others_kept(old(self).tracks.tracks@, final(self).tracks.tracks@, i),
            r.is_none() ==> *final(self) == *old(self),
            final(self).tracks.tracks@.len() == old(self).tracks.tracks@.len(),
            final(self).tracks.ids() == old(self).tracks.ids(),
            forall|k: int| 0 <= k < final(self).tracks.tracks@.len() ==> (#[trigger] final(self).tracks.tracks@[k]).track_type
                == old(self).tracks.tracks@[k].track_type,
            final(self).midi_recorder == old(self).midi_recorder,
            final(self).midi_clips == old(self).midi_clips,
    {
        let idx = match self.tracks.find_index(track_id) {
            Some(i) => i,
            None => return None,
        };
        let id = match self.take_clip_id() {
            Some(id) => id,
            None => return None,
        };
        let p = AudioClipPlacement { id, start_frame, offset_frames: 0, duration_frames: None, clip_frames, channels };
        self.tracks.tracks[idx].audio_clips.push(p);
        proof {
            lemma_tracks_same_shape(&old(self).tracks, &self.tracks, idx as int);
            assert(crate::track::same_but_clips(self.tracks.tracks@[idx as int], old(self).tracks.tracks@[idx as int]));
            assert(crate::track::others_kept(old(self).tracks.tracks@, self.tracks.tracks@, idx as int));
        }
        Some(id)
    }

    /// Puts a MIDI clip on the timeline at `start_frame` under a fresh id;
    /// `None` when clip ids are used up.
    pub fn add_midi_clip(&mut self, clip: MidiClip, start_frame: u64) -> (r: Option<u64>)
        requires
            old(self).wf(),
        ensures
            final(self).wf(),
            r.is_none() <==> old(self).next_clip_id == u64::MAX,
            r.is_some() ==> r == Some(old(self).next_clip_id) && final(self).midi_clips@.len() == old(self).midi_clips@.len()
                + 1 && final(self).midi_clips@.last().id == old(self).next_clip_id
                && final(self).midi_clips@.last().start_frame == start_frame
                && final(self).midi_clips@.last().track_id.is_none()
                && final(self).midi_clips@.last().clip == clip
                && final(self).midi_clips@ == old(self).midi_clips@.push(final(self).midi_clips@.last()),
            r.is_none() ==> final(self).midi_clips@ == old(self).midi_clips@,
            final(self).tracks == old(self).tracks,
            final(self).midi_recorder == old(self).midi_recorder,
            final(self).recorder == old(self).recorder,
            final(self).transport == old(self).transport,
    {
        let id = match self.take_clip_id() {
            Some(id) => id,
            None => return None,
        };
        self.midi_clips.push(TimelineMidiClip { id, clip, start_frame, track_id: None });
        Some(id)
    }

    /// Number of MIDI clips on the timeline.
    pub fn midi_clip_count(&self) -> (r: usize)
        ensures
            r == self.midi_clips@.len(),
    {
        self.midi_clips.len()
    }

    /// Position of the MIDI clip with this id.
    pub fn find_midi_clip(&self, clip_id: u64) -> (r: Option<usize>)
        ensures
            r matches Some(i) ==> i < self.midi_clips@.len() && self.midi_clips@[i as int].id == clip_id,
            r.is_none() ==> !self.has_midi_clip(clip_id),
    {
        let mut i: usize = 0;
        while i < self.midi_clips.len()
            invariant
                i <= self.midi_clips@.len(),
                forall|k: int| 0 <= k < i ==> self.midi_clips@[k].id != clip_id,
            decreases self.midi_clips@.len() - i,
        {
            if self.midi_clips[i].id == clip_id {
                return Some(i);
            }
            i = i + 1;
        }
        None
    }

    /// Attaches a timeline MIDI clip to a track: the clip plays on that
    /// track's instrument and the track lists it. Unknown ids are refused.
    pub fn add_midi_clip_to_track(&mut self, track_id: u64, clip_id: u64) -> (r: bool)
        requires
            old(self).wf(),
        ensures
            final(self).wf(),
            r == (old(self).tracks.has(track_id) && old(self).has_midi_clip(clip_id)),
            !r ==> *final(self) == *old(self),
            r ==> exists|i: int| 0 <= i < final(self).midi_clips@.len() && final(self).midi_clips@[i].id == clip_id
                && final(self).midi_clips@[i].track_id == Some(track_id),
            final(self).tracks.ids() == old(self).tracks.ids(),
            final(self).midi_clips@.len() == old(self).midi_clips@.len(),
    {
        let ti = match self.tracks.find_index(track_id) {
            Some(i) => i,
            None => return false,
        };
        let ci = match self.find_midi_clip(clip_id) {
            Some(i) => i,
            None => return false,
        };
        self.midi_clips[ci].track_id = Some(track_id);
        self.tracks.tracks[ti].midi_clip_ids.push(clip_id);
        proof {
            assert(old(self).tracks.tracks@[ti as int].wf());
            lemma_tracks_same_shape_levels(&old(self).tracks, &self.tracks, ti as int);
            assert forall|a: int, b: int| 0 <= a < b < self.midi_clips@.len() implies self.midi_clips@[a].id
                != self.midi_clips@[b].id by {
                assert(self.midi_clips@[a].id == old(self).midi_clips@[a].id);
                assert(self.midi_clips@[b].id == old(self).midi_clips@[b].id);
            }
            assert forall|a: int| 0 <= a < self.midi_clips@.len() implies self.midi_clips@[a].id < self.next_clip_id by {
                assert(self.midi_clips@[a].id == old(self).midi_clips@[a].id);
            }
            assert(self.midi_clips@[ci as int].id == clip_id);
        }
        true
    }

    /// Brings back one saved track: the master's levels and flags are
    /// updated in place; any other track is created anew with its levels
    /// (held to their ranges), flags and a fresh effect for each saved one.
    /// Returns the id restored, `None` when ids ran out.
    pub fn restore_track(&mut self, snap: &TrackSnapshot) -> (r: Option<u64>)
        requires
            old(self).wf(),
        ensures
            final(self).wf(),
            snap.track_type == TrackType::Master ==> r == Some(crate::track::MASTER_TRACK_ID)
                && final(self).tracks.tracks@.len() == old(self).tracks.tracks@.len()
                && final(self).tracks.tracks@[0].volume_centi_db as int == crate::track::clamp_spec(snap.volume_centi_db as int,
                crate::track::MIN_VOLUME_CENTI_DB as int, crate::track::MAX_VOLUME_CENTI_DB as int)
                && final(self).tracks.tracks@[0].pan_centi as int == crate::track::clamp_spec(snap.pan_centi as int,
                -crate::track::MAX_PAN_CENTI as int, crate::track::MAX_PAN_CENTI as int)
                && final(self).tracks.tracks@[0].mute == snap.mute && final(self).tracks.tracks@[0].solo == snap.solo,
            snap.track_type != TrackType::Master && r.is_some() ==> {
                &&& r == Some(old(self).tracks.next_id)
                &&& final(self).tracks.tracks@.len() == old(self).tracks.tracks@.len() + 1
                &&& final(self).tracks.tracks@.last().id == old(self).tracks.next_id
                &&& final(self).tracks.tracks@.last().name@ == snap.name@
                &&& final(self).tracks.tracks@.last().track_type == snap.track_type
                &&& final(self).tracks.tracks@.last().volume_centi_db as int == crate::track::clamp_spec(
                    snap.volume_centi_db as int,
                    crate::track::MIN_VOLUME_CENTI_DB as int,
                    crate::track::MAX_VOLUME_CENTI_DB as int,
                )
                &&& final(self).tracks.tracks@.last().pan_centi as int == crate::track::clamp_spec(
                    snap.pan_centi as int,
                    -crate::track::MAX_PAN_CENTI as int,
                    crate::track::MAX_PAN_CENTI as int,
                )
                &&& final(self).tracks.tracks@.last().mute == snap.mute
                &&& final(self).tracks.tracks@.last().solo == snap.solo
                &&& final(self).tracks.tracks@.last().armed == snap.armed
                &&& final(self).tracks.tracks@.last().fx_chain@.len() <= snap.effects@.len()
            },
            snap.track_type != TrackType::Master ==> (r.is_none() <==> old(self).tracks.next_id == u64::MAX),
            final(self).tracks.tracks@.len() <= old(self).tracks.tracks@.len() + 1,
            final(self).transport == old(self).transport,
            final(self).recorder == old(self).recorder,
            snap.track_type != TrackType::Master && r.is_some() && old(self).effects.next_id as int + snap.effects@.len()
                < u64::MAX as int ==> final(self).tracks.tracks@.last().fx_chain@.len() == snap.effects@.len()
                && crate::effects::registered_kinds(final(self).effects.effects@, final(self).tracks.tracks@.last().fx_chain@)
                == snap.effects@,
            final(self).tracks.next_id as int <= old(self).tracks.next_id as int + 1,
            forall|j: int| 1 <= j < old(self).tracks.tracks@.len() ==> final(self).tracks.tracks@[j] == old(self).tracks.tracks@[j],
            snap.track_type != TrackType::Master && r.is_some() ==> restored_as(final(self).tracks.tracks@.last(), *snap),
            snap.track_type == TrackType::Master || r.is_none() ==> final(self).tracks.tracks@.len() == old(self).tracks.tracks@.len(),
    {
        let vol = crate::track::clamp_volume(snap.volume_centi_db);
        let pan = crate::track::clamp_pan(snap.pan_centi);
        if snap.track_type == TrackType::Master {
            self.tracks.tracks[0].volume_centi_db = vol;
            self.tracks.tracks[0].pan_centi = pan;
            self.tracks.tracks[0].mute = snap.mute;
            self.tracks.tracks[0].solo = snap.solo;
            proof {
                lemma_tracks_same_shape_levels(&old(self).tracks, &self.tracks, 0);
            }
            return Some(crate::track::MASTER_TRACK_ID);
        }
        let name = snap.name.clone();
        let id = match self.tracks.create_track(snap.track_type, name) {
            Some(id) => id,
            None => return None,
        };
        let ghost created = self.tracks;
        proof {
            assert(created.tracks@.subrange(0, old(self).tracks.tracks@.len() as int) == old(self).tracks.tracks@);
            assert forall|i: int| 0 <= i < old(self).tracks.tracks@.len() implies created.tracks@[i] == old(self).tracks.tracks@[i] by {
                assert(created.tracks@.subrange(0, old(self).tracks.tracks@.len() as int)[i] == created.tracks@[i]);
            }
            lemma_clip_ids_grow(old(self).tracks.tracks@, created.tracks@, self.next_clip_id);
        }
        let last = self.tracks.tracks.len() - 1;
        self.tracks.tracks[last].volume_centi_db = vol;
        self.tracks.tracks[last].pan_centi = pan;
        self.tracks.tracks[last].mute = snap.mute;
        self.tracks.tracks[last].solo = snap.solo;
        self.tracks.tracks[last].armed = snap.armed;
        let ghost mid = self.tracks;
        proof {
            assert(mid.tracks@[last as int].wf());
        }
        let mut k: usize = 0;
        while k < snap.effects.len()
            invariant
                self.wf(),
                k <= snap.effects@.len(),
                self.tracks.tracks@.len() == mid.tracks@.len(),
                last == self.tracks.tracks@.len() - 1,
                self.tracks.next_id == mid.next_id,
                forall|j: int| 0 <= j < last ==> self.tracks.tracks@[j] == mid.tracks@[j],
                self.tracks.tracks@[last as int].id == id,
                self.tracks.tracks@[last as int].name@ == snap.name@,
                self.tracks.tracks@[last as int].track_type == snap.track_type,
                self.tracks.tracks@[last as int].volume_centi_db == vol,
                self.tracks.tracks@[last as int].pan_centi == pan,
                self.tracks.tracks@[last as int].mute == snap.mute,
                self.tracks.tracks@[last as int].solo == snap.solo,
                self.tracks.tracks@[last as int].armed == snap.armed,
                self.tracks.tracks@[last as int].fx_chain@.len() <= k,
                self.transport == old(self).transport,
                self.recorder == old(self).recorder,
                self.effects.next_id as int <= old(self).effects.next_id as int + k,
                forall|j: int| 0 <= j < self.tracks.tracks@[last as int].fx_chain@.len()
                    ==> #[trigger] self.tracks.tracks@[last as int].fx_chain@[j] < self.effects.next_id,
                old(self).effects.next_id as int + snap.effects@.len() < u64::MAX as int ==> {
                    &&& self.tracks.tracks@[last as int].fx_chain@.len() == k
                    &&& crate::effects::registered_kinds(self.effects.effects@, self.tracks.tracks@[last as int].fx_chain@)
                        == snap.effects@.subrange(0, k as int)
                },
            decreases snap.effects@.len() - k,
        {
            let ghost reg0 = self.effects.effects@;
            let ghost chain0 = self.tracks.tracks@[last as int].fx_chain@;
            match self.effects.create_effect(snap.effects[k]) {
                Some(eid) => {
                    let ghost before = self.tracks;
                    self.tracks.tracks[last].fx_chain.push(eid);
                    proof {
                        assert(before.tracks@[last as int].wf());
                        lemma_tracks_same_shape_levels(&before, &self.tracks, last as int);
                        let x = (eid, snap.effects@[k as int]);
                        assert forall|j: int| 0 <= j < chain0.len() implies chain0[j] != x.0 by {
                            assert(chain0[j] < eid);
                        }
                        crate::effects::lemma_registered_kinds_push(reg0, x, chain0);
                        let chain1 = self.tracks.tracks@[last as int].fx_chain@;
                        assert(chain1 == chain0.push(eid));
                        assert(chain1.drop_last() =~= chain0);
                        assert(self.effects.effects@ == reg0.push(x));
                        assert(self.effects.effects@.drop_last() =~= reg0);
                        assert(crate::effects::kind_of(self.effects.effects@, eid) == Some(snap.effects@[k as int]));
                        assert(snap.effects@.subrange(0, k + 1) =~= snap.effects@.subrange(0, k as int).push(
                            snap.effects@[k as int],
                        ));
                        assert forall|j: int| 0 <= j < chain1.len() implies #[trigger] chain1[j] < self.effects.next_id by {
                            if j < chain0.len() {
                                assert(chain1[j] == chain0[j]);
                            }
                        }
                    }
                },
                None => {},
            }
            k = k + 1;
        }
        proof {
            assert(snap.effects@.subrange(0, snap.effects@.len() as int) =~= snap.effects@);
            assert forall|j: int| 1 <= j < old(self).tracks.tracks@.len() implies self.tracks.tracks@[j]
                == old(self).tracks.tracks@[j] by {
                assert(created.tracks@.subrange(0, old(self).tracks.tracks@.len() as int)[j] == created.tracks@[j]);
                assert(mid.tracks@[j] == created.tracks@[j]);
            }
        }
        Some(id)
    }

    /// Brings back a saved project's tracks in place of the current ones:
    /// playback stops, every track but the master goes, the tempo is set,
    /// and each saved track is restored in order.
    pub fn restore_tracks(&mut self, tempo_bpm: u32, snaps: &Vec<TrackSnapshot>)
        requires
            old(self).wf(),
        ensures
            final(self).wf(),
            final(self).transport.state == TransportState::Stopped,
            final(self).transport.playhead_samples == 0,
            final(self).recorder.tempo_bpm == crate::recorder::clamp_tempo_spec(tempo_bpm),
            final(self).tracks.tracks@.len() <= 1 + snaps@.len(),
            old(self).tracks.next_id as int + snaps@.len() < u64::MAX as int ==> {
                &&& final(self).tracks.tracks@.len() == 1 + non_master(snaps@).len()
                &&& forall|k: int| 0 <= k < non_master(snaps@).len() ==> restored_as(
                    #[trigger] final(self).tracks.tracks@[k + 1],
                    non_master(snaps@)[k],
                )
            },
    {
        self.stop();
        self.tracks.clear_tracks();
        proof {
            lemma_clip_ids_grow(old(self).tracks.tracks@, self.tracks.tracks@, self.next_clip_id);
        }
        self.recorder.set_tempo(tempo_bpm);
        let ghost start = self.tracks.next_id;
        let mut i: usize = 0;
        while i < snaps.len()
            invariant
                self.wf(),
                i <= snaps@.len(),
                self.transport.state == TransportState::Stopped,
                self.transport.playhead_samples == 0,
                self.recorder.tempo_bpm == crate::recorder::clamp_tempo_spec(tempo_bpm),
                start == old(self).tracks.next_id,
                self.tracks.next_id as int <= start as int + i,
                start as int + snaps@.len() < u64::MAX as int ==> {
                    &&& self.tracks.tracks@.len() == 1 + non_master(snaps@.subrange(0, i as int)).len()
                    &&& forall|k: int| 0 <= k < non_master(snaps@.subrange(0, i as int)).len() ==> restored_as(
                        #[trigger] self.tracks.tracks@[k + 1],
                        non_master(snaps@.subrange(0, i as int))[k],
                    )
                },
                self.tracks.tracks@.len() <= 1 + i,
            decreases snaps@.len() - i,
        {
            let ghost before = self.tracks;
            let r = self.restore_track(&snaps[i]);
            proof {
                let pre = snaps@.subrange(0, i as int);
                let post = snaps@.subrange(0, i + 1);
                assert(post.drop_last() =~= pre);
                assert(post.last() == snaps@[i as int]);
                if start as int + snaps@.len() < u64::MAX as int {
                    if snaps@[i as int].track_type != TrackType::Master {
                        assert(r.is_some());
                        assert(non_master(post) == non_master(pre).push(snaps@[i as int]));
                        assert forall|k: int| 0 <= k < non_master(post).len() implies restored_as(
                            #[trigger] self.tracks.tracks@[k + 1],
                            non_master(post)[k],
                        ) by {
                            if k < non_master(pre).len() {
                                assert(self.tracks.tracks@[k + 1] == before.tracks@[k + 1]);
                                assert(non_master(post)[k] == non_master(pre)[k]);
                            } else {
                                assert(self.tracks.tracks@[k + 1] == self.tracks.tracks@.last());
                            }
                        }
                    } else {
                        assert(non_master(post) == non_master(pre));
                        assert forall|k: int| 0 <= k < non_master(post).len() implies restored_as(
                            #[trigger] self.tracks.tracks@[k + 1],
                            non_master(post)[k],
                        ) by {
                            assert(self.tracks.tracks@[k + 1] == before.tracks@[k + 1]);
                        }
                    }
                }
            }
            i = i + 1;
        }
        proof {
            assert(snaps@.subrange(0, snaps@.len() as int) =~= snaps@);
        }
    }

    /// The MIDI events to dispatch on a track at timeline frame `frame`.
    pub fn midi_events_at(&self, track_id: u64, frame: u64) -> (r: Vec<crate::midi::MidiEvent>)
        ensures
            r@ == track_events_at(self.midi_clips@, track_id, frame),
    {
        let mut out: Vec<crate::midi::MidiEvent> = Vec::new();
        let mut i: usize = 0;
        while i < self.midi_clips.len()
            invariant
                i <= self.midi_clips@.len(),
                out@ == track_events_at(self.midi_clips@.subrange(0, i as int), track_id, frame),
            decreases self.midi_clips@.len() - i,
        {
            proof {
                assert(self.midi_clips@.subrange(0, i + 1).drop_last() =~= self.midi_clips@.subrange(0, i as int));
                assert(self.midi_clips@.subrange(0, i + 1).last() == self.midi_clips@[i as int]);
            }
            let c = &self.midi_clips[i];
            if c.track_id == Some(track_id) {
                match crate::mix::midi_clip_frame(c.start_frame, c.clip.duration_samples, frame) {
                    Some(at) => {
                        let mut evs = crate::mix::events_at(&c.clip, at);
                        out.append(&mut evs);
                    },
                    None => {},
                }
            }
            i = i + 1;
        }
        assert(self.midi_clips@.subrange(0, self.midi_clips@.len() as int) =~= self.midi_clips@);
        out
    }

    /// The kinds of the registered effects among `ids`, in order; ids that
    /// are not registered are skipped.
    pub fn effect_kinds(&self, ids: &Vec<u64>) -> (r: Vec<crate::effects::EffectKind>)
        ensures
            r@.len() <= ids@.len(),
            (forall|k: int| 0 <= k < ids@.len() ==> self.effects.has(ids@[k])) ==> r@.len() == ids@.len(),
            self.effects.wf() ==> r@ == crate::effects::registered_kinds(self.effects.effects@, ids@),
    {
        let mut out: Vec<crate::effects::EffectKind> = Vec::new();
        let mut k: usize = 0;
        while k < ids.len()
            invariant
                k <= ids@.len(),
                out@.len() <= k,
                (forall|j: int| 0 <= j < k ==> self.effects.has(ids@[j])) ==> out@.len() == k,
                self.effects.wf() ==> out@ == crate::effects::registered_kinds(
                    self.effects.effects@,
                    ids@.subrange(0, k as int),
                ),
            decreases ids@.len() - k,
        {
            proof {
                assert(ids@.subrange(0, k + 1).drop_last() =~= ids@.subrange(0, k as int));
                assert(ids@.subrange(0, k + 1).last() == ids@[k as int]);
            }
            match self.effects.get_effect(ids[k]) {
                Some(kind) => out.push(kind),
                None => {},
            }
            k = k + 1;
        }
        assert(ids@.subrange(0, ids@.len() as int) =~= ids@);
        out
    }

    /// The saved state of every track, master first, as `restore_tracks`
    /// takes it back.
    pub fn export_tracks(&self) -> (r: Vec<TrackSnapshot>)
        ensures
            r@.len() == self.tracks.tracks@.len(),
            forall|i: int| 0 <= i < r@.len() ==> {
                &&& (#[trigger] r@[i]).name@ == self.tracks.tracks@[i].name@
                &&& r@[i].track_type == self.tracks.tracks@[i].track_type
                &&& r@[i].volume_centi_db == self.tracks.tracks@[i].volume_centi_db
                &&& r@[i].pan_centi == self.tracks.tracks@[i].pan_centi
                &&& r@[i].mute == self.tracks.tracks@[i].mute
                &&& r@[i].solo == self.tracks.tracks@[i].solo
                &&& r@[i].armed == self.tracks.tracks@[i].armed
                &&& r@[i].effects@.len() <= self.tracks.tracks@[i].fx_chain@.len()
                &&& self.effects.wf() ==> r@[i].effects@ == crate::effects::registered_kinds(
                    self.effects.effects@,
                    self.tracks.tracks@[i].fx_chain@,
                )
            },
    {
        let mut out: Vec<TrackSnapshot> = Vec::new();
        let mut i: usize = 0;
        while i < self.tracks.tracks.len()
            invariant
                i <= self.tracks.tracks@.len(),
                out@.len() == i,
                forall|j: int| 0 <= j < i ==> {
                    &&& (#[trigger] out@[j]).name@ == self.tracks.tracks@[j].name@
                    &&& out@[j].track_type == self.tracks.tracks@[j].track_type
                    &&& out@[j].volume_centi_db == self.tracks.tracks@[j].volume_centi_db
                    &&& out@[j].pan_centi == self.tracks.tracks@[j].pan_centi
                    &&& out@[j].mute == self.tracks.tracks@[j].mute
                    &&& out@[j].solo == self.tracks.tracks@[j].solo
                    &&& out@[j].armed == self.tracks.tracks@[j].armed
                    &&& out@[j].effects@.len() <= self.tracks.tracks@[j].fx_chain@.len()
                    &&& self.effects.wf() ==> out@[j].effects@ == crate::effects::registered_kinds(
                        self.effects.effects@,
                        self.tracks.tracks@[j].fx_chain@,
                    )
                },
            decreases self.tracks.tracks@.len() - i,
        {
            let t = &self.tracks.tracks[i];
            let effects = self.effect_kinds(&t.fx_chain);
            out.push(TrackSnapshot {
                name: t.name.clone(),
                track_type: t.track_type,
                volume_centi_db: t.volume_centi_db,
                pan_centi: t.pan_centi,
                mute: t.mute,
                solo: t.solo,
                armed: t.armed,
                effects,
            });
            i = i + 1;
        }
        out
    }
}

/// Changing one track's clips keeps every track's id, type, and levels.
proof fn lemma_tracks_same_shape(before: &TrackManager, after: &TrackManager, idx: int)
    requires
        before.wf(),
        0 <= idx < before.tracks@.len(),
        after.tracks@.len() == before.tracks@.len(),
        after.next_id == before.next_id,
        forall|k: int| 0 <= k < before.tracks@.len() && k != idx ==> after.tracks@[k] == before.tracks@[k],
        after.tracks@[idx].id == before.tracks@[idx].id,
        after.tracks@[idx].track_type == before.tracks@[idx].track_type,
        after.tracks@[idx].volume_centi_db == before.tracks@[idx].volume_centi_db,
        after.tracks@[idx].pan_centi == before.tracks@[idx].pan_centi,
    ensures
        after.wf(),
        after.ids() == before.ids(),
{
    assert forall|k: int| 0 <= k < after.tracks@.len() implies #[trigger] after.tracks@[k].wf() by {
        assert(before.tracks@[k].wf());
    }
    assert(after.ids() =~= before.ids());
}

/// Changing one track's levels or flags keeps the registry well formed.
pub(crate) proof fn lemma_tracks_same_shape_levels(before: &TrackManager, after: &TrackManager, idx: int)
    requires
        before.wf(),
        0 <= idx < before.tracks@.len(),
        after.tracks@.len() == before.tracks@.len(),
        after.next_id == before.next_id,
        forall|k: int| 0 <= k < before.tracks@.len() && k != idx ==> after.tracks@[k] == before.tracks@[k],
        after.tracks@[idx].id == before.tracks@[idx].id,
        after.tracks@[idx].track_type == before.tracks@[idx].track_type,
        after.tracks@[idx].wf(),
    ensures
        after.wf(),
        after.ids() == before.ids(),
{
    assert forall|k: int| 0 <= k < after.tracks@.len() implies #[trigger] after.tracks@[k].wf() by {
        if k != idx {
            assert(before.tracks@[k].wf());
        }
    }
    assert(after.ids() =~= before.ids());
}

proof fn lemma_non_master_tail(s: Seq<TrackSnapshot>)
    requires
        s.len() >= 1,
        s[0].track_type == TrackType::Master,
        forall|i: int| 1 <= i < s.len() ==> s[i].track_type != TrackType::Master,
    ensures
        non_master(s) == s.subrange(1, s.len() as int),
    decreases s.len(),
{
    if s.len() == 1 {
        assert(s.drop_last() =~= Seq::<TrackSnapshot>::empty());
        assert(non_master(s.drop_last()) =~= Seq::<TrackSnapshot>::empty());
        assert(s.last().track_type == TrackType::Master);
        assert(non_master(s) == non_master(s.drop_last()));
        assert(s.subrange(1, 1) =~= Seq::<TrackSnapshot>::empty());
    } else {
        lemma_non_master_tail(s.drop_last());
        assert(s.last() == s[s.len() - 1]);
        assert(s.last().track_type != TrackType::Master);
        assert(non_master(s) == non_master(s.drop_last()).push(s.last()));
        assert(s.subrange(1, s.len() as int) =~= s.drop_last().subrange(1, s.len() - 1).push(s.last()));
    }
}

/// Saving a project's tracks and restoring them into a graph gives every
/// track but the master back with the same name, type, levels and flags, in
/// the same order.
pub proof fn lemma_export_restore(tm: crate::track::TrackManager, snaps: Seq<TrackSnapshot>, restored: Seq<crate::track::Track>)
    requires
        tm.wf(),
        snaps.len() == tm.tracks@.len(),
        forall|i: int| 0 <= i < snaps.len() ==> {
            &&& (#[trigger] snaps[i]).name@ == tm.tracks@[i].name@
            &&& snaps[i].track_type == tm.tracks@[i].track_type
            &&& snaps[i].volume_centi_db == tm.tracks@[i].volume_centi_db
            &&& snaps[i].pan_centi == tm.tracks@[i].pan_centi
            &&& snaps[i].mute == tm.tracks@[i].mute
            &&& snaps[i].solo == tm.tracks@[i].solo
            &&& snaps[i].armed == tm.tracks@[i].armed
        },
        restored.len() == 1 + non_master(snaps).len(),
        forall|k: int| 0 <= k < non_master(snaps).len() ==> restored_as(#[trigger] restored[k + 1], non_master(snaps)[k]),
    ensures
        restored.len() == tm.tracks@.len(),
        forall|i: int| 1 <= i < restored.len() ==> {
            &&& (#[trigger] restored[i]).name@ == tm.tracks@[i].name@
            &&& restored[i].track_type == tm.tracks@[i].track_type
            &&& restored[i].volume_centi_db == tm.tracks@[i].volume_centi_db
            &&& restored[i].pan_centi == tm.tracks@[i].pan_centi
            &&& restored[i].mute == tm.tracks@[i].mute
            &&& restored[i].solo == tm.tracks@[i].solo
            &&& restored[i].armed == tm.tracks@[i].armed
        },
{
    assert(snaps[0].track_type == TrackType::Master);
    lemma_non_master_tail(snaps);
    assert forall|i: int| 1 <= i < restored.len() implies {
        &&& (#[trigger] restored[i]).name@ == tm.tracks@[i].name@
        &&& restored[i].track_type == tm.tracks@[i].track_type
        &&& restored[i].volume_centi_db == tm.tracks@[i].volume_centi_db
        &&& restored[i].pan_centi == tm.tracks@[i].pan_centi
        &&& restored[i].mute == tm.tracks@[i].mute
        &&& restored[i].solo == tm.tracks@[i].solo
        &&& restored[i].armed == tm.tracks@[i].armed
    } by {
        assert(restored_as(restored[(i - 1) + 1], non_master(snaps)[i - 1]));
        assert(non_master(snaps)[i - 1] == snaps[i]);
        assert(tm.tracks@[i].wf());
    }
}

/// Adding an empty track, or keeping a prefix of the tracks, keeps every
/// audio clip id below the bound.
pub(crate) proof fn lemma_clip_ids_grow(before: Seq<crate::track::Track>, after: Seq<crate::track::Track>, bound: u64)
    requires
        after.len() <= before.len() + 1,
        forall|i: int| 0 <= i < after.len() && i < before.len() ==> after[i] == before[i],
        after.len() == before.len() + 1 ==> after.last().audio_clips@.len() == 0,
        forall|i: int, j: int| 0 <= i < before.len() && 0 <= j < before[i].audio_clips@.len()
            ==> #[trigger] before[i].audio_clips@[j].id < bound,
    ensures
        forall|i: int, j: int| 0 <= i < after.len() && 0 <= j < after[i].audio_clips@.len()
            ==> #[trigger] after[i].audio_clips@[j].id < bound,
{
    assert forall|i: int, j: int| 0 <= i < after.len() && 0 <= j < after[i].audio_clips@.len()
        implies #[trigger] after[i].audio_clips@[j].id < bound by {
        if i < before.len() {
            assert(after[i] == before[i]);
        } else {
            assert(after[i] == after.last());
        }
    }
}

} // verus!
