use vstd::prelude::*;

verus! {

/// Id of the master track, reserved at construction.
pub const MASTER_TRACK_ID: u64 = 0;

/// Lowest track volume, in hundredths of a decibel.
pub const MIN_VOLUME_CENTI_DB: i32 = -9600;

/// Highest track volume, in hundredths of a decibel.
pub const MAX_VOLUME_CENTI_DB: i32 = 600;

/// Pan limit in hundredths (full left is the negation).
pub const MAX_PAN_CENTI: i32 = 100;

#[derive(Clone, Copy, Debug, PartialEq, Eq, Structural)]
pub enum TrackType {
    Audio,
    Midi,
    Return,
    Group,
    Master,
}

/// An audio clip placed on a track's timeline, all positions in frames.
#[derive(Clone, Copy, Debug, PartialEq, Eq, Structural)]
pub struct AudioClipPlacement {
    pub id: u64,
    /// Frame of the timeline at which the clip starts.
    pub start_frame: u64,
    /// Frames trimmed from the start of the clip.
    pub offset_frames: u64,
    /// How long the clip plays; `None` plays the clip's natural length.
    pub duration_frames: Option<u64>,
    /// Natural length of the clip.
    pub clip_frames: u64,
    /// Channel count of the clip's audio.
    pub channels: u16,
}

/// A mixing channel.
pub struct Track {
    pub id: u64,
    pub name: String,
    pub track_type: TrackType,
    /// Volume in hundredths of a decibel, within [-9600, 600].
    pub volume_centi_db: i32,
    /// Pan in hundredths, within [-100, 100].
    pub pan_centi: i32,
    pub mute: bool,
    pub solo: bool,
    pub armed: bool,
    pub audio_clips: Vec<AudioClipPlacement>,
    pub midi_clip_ids: Vec<u64>,
    /// Effect ids, processed in this order.
    pub fx_chain: Vec<u64>,
}

pub open spec fn clamp_spec(v: int, lo: int, hi: int) -> int {
    if v < lo { lo } else if v > hi { hi } else { v }
}

/// A volume in hundredths of a decibel held within [-96 dB, +6 dB].
pub fn clamp_volume(v: i32) -> (r: i32)
    ensures
        r as int == clamp_spec(v as int, MIN_VOLUME_CENTI_DB as int, MAX_VOLUME_CENTI_DB as int),
        MIN_VOLUME_CENTI_DB <= r <= MAX_VOLUME_CENTI_DB,
{
    if v < MIN_VOLUME_CENTI_DB {
        MIN_VOLUME_CENTI_DB
    } else if v > MAX_VOLUME_CENTI_DB {
        MAX_VOLUME_CENTI_DB
    } else {
        v
    }
}

/// A pan in hundredths held within [-1, +1].
pub fn clamp_pan(p: i32) -> (r: i32)
    ensures
        r as int == clamp_spec(p as int, -MAX_PAN_CENTI as int, MAX_PAN_CENTI as int),
        -MAX_PAN_CENTI <= r <= MAX_PAN_CENTI,
{
    if p < -MAX_PAN_CENTI {
        -MAX_PAN_CENTI
    } else if p > MAX_PAN_CENTI {
        MAX_PAN_CENTI
    } else {
        p
    }
}

impl Track {
    pub open spec fn is_default(&self) -> bool {
        &&& self.volume_centi_db == 0
        &&& self.pan_centi == 0
        &&& !self.mute
        &&& !self.solo
        &&& !self.armed
        &&& self.audio_clips@.len() == 0
        &&& self.midi_clip_ids@.len() == 0
        &&& self.fx_chain@.len() == 0
    }

    pub open spec fn wf(&self) -> bool {
        &&& MIN_VOLUME_CENTI_DB <= self.volume_centi_db <= MAX_VOLUME_CENTI_DB
        &&& -MAX_PAN_CENTI <= self.pan_centi <= MAX_PAN_CENTI
    }

    /// A track at 0 dB, centred, unmuted, unsoloed, unarmed, with no clips or effects.
    pub fn new(id: u64, track_type: TrackType, name: String) -> (t: Track)
        ensures
            t.id == id,
            t.track_type == track_type,
            t.name@ == name@,
            t.is_default(),
            t.wf(),
    {
        Track {
            id,
            name,
            track_type,
            volume_centi_db: 0,
            pan_centi: 0,
            mute: false,
            solo: false,
            armed: false,
            audio_clips: Vec::new(),
            midi_clip_ids: Vec::new(),
            fx_chain: Vec::new(),
        }
    }

    /// Display name of the track's type.
    pub fn kind_label(&self) -> (r: &'static str)
        ensures
            r@ == kind_label_spec(self.track_type),
    {
        match self.track_type {
            TrackType::Audio => "Audio",
            TrackType::Midi => "MIDI",
            TrackType::Return => "Return",
            TrackType::Group => "Group",
            TrackType::Master => "Master",
        }
    }
}

pub open spec fn kind_label_spec(t: TrackType) -> Seq<char> {
    match t {
        TrackType::Audio => "Audio"@,
        TrackType::Midi => "MIDI"@,
        TrackType::Return => "Return"@,
        TrackType::Group => "Group"@,
        TrackType::Master => "Master"@,
    }
}

/// Every track but the one at `i` is kept, and no track is added or lost.
pub open spec fn others_kept(before: Seq<Track>, after: Seq<Track>, i: int) -> bool {
    &&& after.len() == before.len()
    &&& forall|k: int| 0 <= k < before.len() && k != i ==> #[trigger] after[k] == before[k]
}

/// Two tracks agree on everything but their effect chains.
pub open spec fn same_but_fx(a: Track, b: Track) -> bool {
    &&& a.id == b.id
    &&& a.name == b.name
    &&& a.track_type == b.track_type
    &&& a.volume_centi_db == b.volume_centi_db
    &&& a.pan_centi == b.pan_centi
    &&& a.mute == b.mute
    &&& a.solo == b.solo
    &&& a.armed == b.armed
    &&& a.audio_clips == b.audio_clips
    &&& a.midi_clip_ids == b.midi_clip_ids
}

/// Two tracks agree on everything but their audio clips.
pub open spec fn same_but_clips(a: Track, b: Track) -> bool {
    &&& a.id == b.id
    &&& a.name == b.name
    &&& a.track_type == b.track_type
    &&& a.volume_centi_db == b.volume_centi_db
    &&& a.pan_centi == b.pan_centi
    &&& a.mute == b.mute
    &&& a.solo == b.solo
    &&& a.armed == b.armed
    &&& a.fx_chain == b.fx_chain
    &&& a.midi_clip_ids == b.midi_clip_ids
}

/// `i` is the position of the first audio track.
pub open spec fn first_audio(ts: Seq<Track>, i: int) -> bool {
    &&& 0 <= i < ts.len()
    &&& ts[i].track_type == TrackType::Audio
    &&& forall|k: int| 0 <= k < i ==> ts[k].track_type != TrackType::Audio
}

/// Owns every track, the master track first.
pub struct TrackManager {
    pub tracks: Vec<Track>,
    pub next_id: u64,
}

impl TrackManager {
    pub open spec fn ids(&self) -> Seq<u64> {
        self.tracks@.map_values(|t: Track| t.id)
    }

    pub open spec fn has(&self, id: u64) -> bool {
        exists|i: int| 0 <= i < self.tracks@.len() && self.tracks@[i].id == id
    }

    /// The master track stands first under the reserved id, no other track is a
    /// master, ids rise strictly and stay below the next id to hand out.
    pub open spec fn wf(&self) -> bool {
        &&& self.tracks@.len() >= 1
        &&& self.tracks@[0].id == MASTER_TRACK_ID
        &&& self.tracks@[0].track_type == TrackType::Master
        &&& forall|i: int| 1 <= i < self.tracks@.len() ==> self.tracks@[i].track_type != TrackType::Master
        &&& forall|i: int, j: int| 0 <= i < j < self.tracks@.len() ==> self.tracks@[i].id < self.tracks@[j].id
        &&& forall|i: int| 0 <= i < self.tracks@.len() ==> self.tracks@[i].id < self.next_id
        &&& forall|i: int| 0 <= i < self.tracks@.len() ==> #[trigger] self.tracks@[i].wf()
    }

    /// Any non-master track soloed.
    pub open spec fn has_solo_spec(&self) -> bool {
        exists|i: int| 1 <= i < self.tracks@.len() && self.tracks@[i].solo
    }

    /// A registry holding the master track alone.
    pub fn new() -> (m: TrackManager)
        ensures
            m.wf(),
            m.tracks@.len() == 1,
            m.tracks@[0].name@ == "Master"@,
            m.tracks@[0].is_default(),
            m.next_id == 1,
    {
        let mut tracks: Vec<Track> = Vec::new();
        let name = String::from_str("Master");
        tracks.push(Track::new(MASTER_TRACK_ID, TrackType::Master, name));
        TrackManager { tracks, next_id: 1 }
    }

    /// Adds a track in default state under the next id. A master track is
    /// refused, as is a registry whose ids are used up.
    pub fn create_track(&mut self, track_type: TrackType, name: String) -> (r: Option<u64>)
        requires
            old(self).wf(),
        ensures
            final(self).wf(),
            r.is_none() <==> (track_type == TrackType::Master || old(self).next_id == u64::MAX),
            r.is_none() ==> *final(self) == *old(self),
            r.is_some() ==> {
                &&& r == Some(old(self).next_id)
                &&& final(self).next_id == old(self).next_id + 1
                &&& final(self).tracks@.len() == old(self).tracks@.len() + 1
                &&& final(self).tracks@.subrange(0, old(self).tracks@.len() as int) == old(self).tracks@
                &&& final(self).tracks@.last().id == old(self).next_id
                &&& final(self).tracks@.last().track_type == track_type
                &&& final(self).tracks@.last().name@ == name@
                &&& final(self).tracks@.last().is_default()
            },
    {
        if track_type == TrackType::Master || self.next_id == u64::MAX {
            return None;
        }
        let id = self.next_id;
        self.tracks.push(Track::new(id, track_type, name));
        self.next_id = id + 1;
        proof {
            assert(final(self).tracks@.subrange(0, old(self).tracks@.len() as int) =~= old(self).tracks@);
        }
        Some(id)
    }

    /// Position of the track with the given id.
    pub fn find_index(&self, id: u64) -> (r: Option<usize>)
        ensures
            r matches Some(i) ==> i < self.tracks@.len() && self.tracks@[i as int].id == id,
            r.is_none() ==> !self.has(id),
    {
        let mut i: usize = 0;
        while i < self.tracks.len()
            invariant
                i <= self.tracks@.len(),
                forall|k: int| 0 <= k < i ==> self.tracks@[k].id != id,
            decreases self.tracks@.len() - i,
        {
            if self.tracks[i].id == id {
                return Some(i);
            }
            i = i + 1;
        }
        None
    }

    pub fn get_track(&self, id: u64) -> (r: Option<&Track>)
        ensures
            r matches Some(t) ==> t.id == id && self.has(id),
            r.is_none() ==> !self.has(id),
    {
        match self.find_index(id) {
            Some(i) => Some(&self.tracks[i]),
            None => None,
        }
    }

    /// Drops a track; the master track and unknown ids are refused.
    pub fn remove_track(&mut self, id: u64) -> (r: bool)
        requires
            old(self).wf(),
        ensures
            final(self).wf(),
            r == (id != MASTER_TRACK_ID && old(self).has(id)),
            !r ==> *final(self) == *old(self),
            r ==> !final(self).has(id),
            r ==> final(self).next_id == old(self).next_id,
            r ==> exists|i: int| 1 <= i < old(self).tracks@.len() && old(self).tracks@[i].id == id
                && final(self).tracks@ == old(self).tracks@.remove(i),
    {
        if id == MASTER_TRACK_ID {
            return false;
        }
        match self.find_index(id) {
            None => false,
            Some(i) => {
                let ghost pre = self.tracks@;
                assert(i != 0);
                let _t = self.tracks.remove(i);
                proof {
                    assert(self.tracks@ =~= pre.remove(i as int));
                    assert forall|k: int| 0 <= k < self.tracks@.len() implies self.tracks@[k].id != id by {
                        if k < i {
                            assert(pre[k].id < pre[i as int].id);
                        } else {
                            assert(pre[k + 1].id > pre[i as int].id);
                        }
                    }
                    assert forall|a: int, b: int| 0 <= a < b < self.tracks@.len() implies
                        self.tracks@[a].id < self.tracks@[b].id by {
                        let a2 = if a < i { a } else { a + 1 };
                        let b2 = if b < i { b } else { b + 1 };
                        assert(pre[a2].id < pre[b2].id);
                    }
                    assert forall|k: int| 0 <= k < self.tracks@.len() implies #[trigger] self.tracks@[k].wf() by {
                        if k >= i {
                            assert(pre[k + 1].wf());
                        }
                    }
                }
                true
            }
        }
    }

    /// Drops every track but the master.
    pub fn clear_tracks(&mut self)
        requires
            old(self).wf(),
        ensures
            final(self).wf(),
            final(self).tracks@ == old(self).tracks@.subrange(0, 1),
            final(self).next_id == old(self).next_id,
    {
        self.tracks.truncate(1);
        proof {
            assert(self.tracks@ =~= old(self).tracks@.subrange(0, 1));
        }
    }

    /// Whether any non-master track is soloed.
    pub fn has_solo(&self) -> (r: bool)
        ensures
            r == self.has_solo_spec(),
    {
        let mut i: usize = 1;
        while i < self.tracks.len()
            invariant
                1 <= i,
                i <= self.tracks@.len() || self.tracks@.len() == 0,
                forall|k: int| 1 <= k < i && k < self.tracks@.len() ==> !self.tracks@[k].solo,
            decreases self.tracks@.len() - i,
        {
            if self.tracks[i].solo {
                return true;
            }
            i = i + 1;
        }
        false
    }

    /// The ids of all tracks, master first.
    pub fn track_ids(&self) -> (r: Vec<u64>)
        ensures
            r@ == self.ids(),
    {
        let mut v: Vec<u64> = Vec::new();
        let mut i: usize = 0;
        while i < self.tracks.len()
            invariant
                i <= self.tracks@.len(),
                v@ == self.tracks@.subrange(0, i as int).map_values(|t: Track| t.id),
            decreases self.tracks@.len() - i,
        {
            v.push(self.tracks[i].id);
            proof {
                assert(self.tracks@.subrange(0, i + 1).map_values(|t: Track| t.id) =~= self.tracks@.subrange(
                    0,
                    i as int,
                ).map_values(|t: Track| t.id).push(self.tracks@[i as int].id));
            }
            i = i + 1;
        }
        assert(self.tracks@.subrange(0, self.tracks@.len() as int) =~= self.tracks@);
        v
    }
}

/// A track just created is never the master and is present, so removing it
/// succeeds (see `remove_track`), while removing the master never does.
pub proof fn lemma_fresh_track_removable(before: TrackManager, after: TrackManager)
    requires
        before.wf(),
        after.wf(),
        after.tracks@.len() == before.tracks@.len() + 1,
        after.tracks@.last().id == before.next_id,
    ensures
        before.next_id != MASTER_TRACK_ID,
        after.has(before.next_id),
        after.has(MASTER_TRACK_ID),
{
    assert(before.tracks@[0].id < before.next_id);
    assert(after.tracks@[after.tracks@.len() - 1].id == before.next_id);
    assert(after.tracks@[0].id == MASTER_TRACK_ID);
}

} // verus!
