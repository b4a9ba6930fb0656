//! The control-thread operations of the engine, one per user action. Each
//! works on an explicitly held graph and reports failure as a message.

use vstd::prelude::*;
use crate::effects::{EffectKind, effect_kind_of};
use crate::graph::AudioGraph;
use crate::devices::DeviceSelection;
use crate::recorder::{RecordedClip, Recorder, RecordingState};
use crate::midi_recorder::MidiRecordingState;
use crate::midi::{MidiClip, MidiEvent, MidiEventType};
use crate::synth::OscillatorType;
use crate::text::{centi_seq, csv_seq, dec_seq, format_centi, format_u64, join_u64_csv, lower_of, lowercase, str_eq};
use crate::track::{kind_label_spec, clamp_spec, TrackType, MIN_VOLUME_CENTI_DB, MAX_VOLUME_CENTI_DB, MAX_PAN_CENTI};
use crate::transport::{TransportState, seek_target, visual_position};

verus! {

/// `a` followed by the decimal form of `n` and then `b`.
pub open spec fn num_msg(a: Seq<char>, n: u64, b: Seq<char>) -> Seq<char> {
    a + dec_seq(n as nat) + b
}

fn msg_num(a: &str, n: u64, b: &str) -> (r: String)
    ensures
        r@ == num_msg(a@, n, b@),
{
    let mut s = a.to_owned();
    let d = format_u64(n);
    s.append(d.as_str());
    s.append(b);
    s
}

/// The message for an unknown track id.
pub open spec fn track_not_found(id: u64) -> Seq<char> {
    num_msg("Track "@, id, " not found"@)
}

fn err_track_not_found(id: u64) -> (r: String)
    ensures
        r@ == track_not_found(id),
{
    msg_num("Track ", id, " not found")
}

fn ok_msg(s: &str) -> (r: Result<String, String>)
    ensures
        r matches Ok(m) && m@ == s@,
{
    Ok(s.to_owned())
}

/// Builds a graph with its master track; construction cannot fail.
pub fn init_audio_graph<S>() -> (r: Result<AudioGraph<S>, String>)
    ensures
        r matches Ok(g) && g.wf() && g.transport.state == TransportState::Stopped && g.transport.playhead_samples
            == 0 && g.tracks.tracks@.len() == 1 && g.tracks.tracks@[0].name@ == "Master"@
            && g.tracks.tracks@[0].is_default() && g.tracks.next_id == 1,
{
    Ok(AudioGraph::new())
}

// ---------------------------------------------------------------------------
// Transport
// ---------------------------------------------------------------------------

/// Starts playback; a second call while playing changes nothing.
pub fn transport_play<S>(graph: &mut AudioGraph<S>) -> (r: Result<String, String>)
    requires
        old(graph).wf(),
    ensures
        final(graph).wf(),
        r matches Ok(m) && m@ == "Playing"@,
        final(graph).transport.state == TransportState::Playing,
        final(graph).transport.playhead_samples == old(graph).transport.playhead_samples,
        old(graph).transport.state == TransportState::Playing ==> *final(graph) == *old(graph),
{
    graph.play();
    ok_msg("Playing")
}

/// Pauses playback, keeping the playhead.
pub fn transport_pause<S>(graph: &mut AudioGraph<S>) -> (r: Result<String, String>)
    requires
        old(graph).wf(),
    ensures
        final(graph).wf(),
        r matches Ok(m) && m@ == "Paused"@,
        final(graph).transport.state == TransportState::Paused,
        final(graph).transport.playhead_samples == old(graph).transport.playhead_samples,
{
    graph.pause();
    ok_msg("Paused")
}

/// Stops playback: playhead at zero, every note released at once.
pub fn transport_stop<S>(graph: &mut AudioGraph<S>) -> (r: Result<String, String>)
    requires
        old(graph).wf(),
    ensures
        final(graph).wf(),
        r matches Ok(m) && m@ == "Stopped"@,
        final(graph).transport.state == TransportState::Stopped,
        final(graph).transport.playhead_samples == 0,
        final(graph).recorder.sample_counter == 0,
{
    graph.stop();
    ok_msg("Stopped")
}

/// Moves the playhead to visual frame `target_frame` at the current tempo.
pub fn transport_seek<S>(graph: &mut AudioGraph<S>, target_frame: u64) -> (r: Result<String, String>)
    requires
        old(graph).wf(),
    ensures
        final(graph).wf(),
        r.is_ok(),
        final(graph).transport.playhead_samples == seek_target(target_frame, old(graph).recorder.tempo_bpm),
        final(graph).transport.state == old(graph).transport.state,
        final(graph).recorder.tempo_bpm == old(graph).recorder.tempo_bpm,
{
    graph.seek(target_frame);
    Ok(msg_num("Seeked to frame ", target_frame, ""))
}

/// The playhead's visual frame at the current tempo.
pub fn get_playhead_position<S>(graph: &AudioGraph<S>) -> (r: Result<u64, String>)
    ensures
        r == Ok::<u64, String>(visual_position(graph.transport.playhead_samples, graph.recorder.tempo_bpm)),
{
    Ok(graph.get_playhead_position())
}

pub open spec fn transport_code(s: TransportState) -> i32 {
    match s {
        TransportState::Stopped => 0,
        TransportState::Playing => 1,
        TransportState::Paused => 2,
    }
}

/// 0 for Stopped, 1 for Playing, 2 for Paused.
pub fn get_transport_state<S>(graph: &AudioGraph<S>) -> (r: Result<i32, String>)
    ensures
        r == Ok::<i32, String>(transport_code(graph.transport.state)),
{
    let c = match graph.get_state() {
        TransportState::Stopped => 0,
        TransportState::Playing => 1,
        TransportState::Paused => 2,
    };
    Ok(c)
}

// ---------------------------------------------------------------------------
// Tracks
// ---------------------------------------------------------------------------

/// The track type named by a lower-case name (master included).
pub open spec fn track_type_of(s: Seq<char>) -> Option<TrackType> {
    if s == "audio"@ {
        Some(TrackType::Audio)
    } else if s == "midi"@ {
        Some(TrackType::Midi)
    } else if s == "return"@ {
        Some(TrackType::Return)
    } else if s == "group"@ {
        Some(TrackType::Group)
    } else if s == "master"@ {
        Some(TrackType::Master)
    } else {
        None
    }
}

/// The track type named by an already lower-case name.
pub fn track_type_from_lowercase(s: &str) -> (r: Option<TrackType>)
    ensures
        r == track_type_of(s@),
{
    if str_eq(s, "audio") {
        Some(TrackType::Audio)
    } else if str_eq(s, "midi") {
        Some(TrackType::Midi)
    } else if str_eq(s, "return") {
        Some(TrackType::Return)
    } else if str_eq(s, "group") {
        Some(TrackType::Group)
    } else if str_eq(s, "master") {
        Some(TrackType::Master)
    } else {
        None
    }
}

/// Creates a track of the type named (in any case) by `track_type_str`.
/// A second master track, an unknown type name and used-up ids are refused.
pub fn create_track<S>(graph: &mut AudioGraph<S>, track_type_str: &str, name: String) -> (r: Result<u64, String>)
    requires
        old(graph).wf(),
    ensures
        final(graph).wf(),
        track_type_of(lower_of(track_type_str@)) == Some(TrackType::Master) ==> (r matches Err(e)
            && e@ == "Cannot create additional master tracks"@),
        track_type_of(lower_of(track_type_str@)).is_none() ==> (r matches Err(e) && e@ == "Unknown track type: "@
            + track_type_str@),
        r.is_err() ==> *final(graph) == *old(graph),
        r.is_ok() <==> (track_type_of(lower_of(track_type_str@)) matches Some(t) && t != TrackType::Master
            && old(graph).tracks.next_id < u64::MAX),
        r matches Ok(id) ==> {
            &&& id == old(graph).tracks.next_id
            &&& final(graph).tracks.tracks@.len() == old(graph).tracks.tracks@.len() + 1
            &&& final(graph).tracks.tracks@.last().id == id
            &&& Some(final(graph).tracks.tracks@.last().track_type) == track_type_of(lower_of(track_type_str@))
            &&& final(graph).tracks.tracks@.last().name@ == name@
            &&& final(graph).tracks.tracks@.last().is_default()
        },
{
    let lowered = lowercase(track_type_str);
    let kind = track_type_from_lowercase(lowered.as_str());
    match kind {
        None => {
            let mut e = "Unknown track type: ".to_owned();
            e.append(track_type_str);
            Err(e)
        },
        Some(TrackType::Master) => Err("Cannot create additional master tracks".to_owned()),
        Some(t) => match graph.tracks.create_track(t, name) {
            Some(id) => {
                proof {
                    assert forall|i: int| 0 <= i < old(graph).tracks.tracks@.len() implies graph.tracks.tracks@[i]
                        == old(graph).tracks.tracks@[i] by {
                        assert(graph.tracks.tracks@.subrange(0, old(graph).tracks.tracks@.len() as int)[i]
                            == graph.tracks.tracks@[i]);
                    }
                    crate::graph::lemma_clip_ids_grow(old(graph).tracks.tracks@, graph.tracks.tracks@, graph.next_clip_id);
                }
                Ok(id)
            },
            None => Err("Track ids exhausted".to_owned()),
        },
    }
}

/// Sets a track's volume, given in hundredths of a decibel and held within
/// [-96 dB, +6 dB].
pub fn set_track_volume<S>(graph: &mut AudioGraph<S>, track_id: u64, volume_centi_db: i32) -> (r: Result<String, String>)
    requires
        old(graph).wf(),
    ensures
        final(graph).wf(),
        r.is_ok() == old(graph).tracks.has(track_id),
        r matches Err(e) ==> e@ == track_not_found(track_id),
        r.is_err() ==> *final(graph) == *old(graph),
        r.is_ok() ==> exists|i: int| 0 <= i < final(graph).tracks.tracks@.len() && final(graph).tracks.tracks@[i].id == track_id
            && final(graph).tracks.tracks@[i].volume_centi_db as int == clamp_spec(volume_centi_db as int,
            MIN_VOLUME_CENTI_DB as int, MAX_VOLUME_CENTI_DB as int)
            && final(graph).tracks.tracks@[i] == (crate::track::Track {
                volume_centi_db: final(graph).tracks.tracks@[i].volume_centi_db,
                ..old(graph).tracks.tracks@[i]
            }) && crate::track::others_kept(old(graph).tracks.tracks@, final(graph).tracks.tracks@, i),
        final(graph).tracks.ids() == old(graph).tracks.ids(),
        r.is_ok() ==> *final(graph) == (AudioGraph { tracks: final(graph).tracks, ..*old(graph) }),
        r.is_ok() ==> final(graph).tracks.next_id == old(graph).tracks.next_id,
{
    match graph.tracks.find_index(track_id) {
        None => Err(err_track_not_found(track_id)),
        Some(i) => {
            let v = crate::track::clamp_volume(volume_centi_db);
            graph.tracks.tracks[i].volume_centi_db = v;
            proof {
                assert(old(graph).tracks.tracks@[i as int].wf());
                crate::graph::lemma_tracks_same_shape_levels(&old(graph).tracks, &graph.tracks, i as int);
            }
            let mut m = msg_num("Track ", track_id, " volume set to ");
            let f = format_centi(v);
            m.append(f.as_str());
            m.append(" dB");
            Ok(m)
        },
    }
}

/// Sets a track's pan, given in hundredths and held within [-1, +1].
pub fn set_track_pan<S>(graph: &mut AudioGraph<S>, track_id: u64, pan_centi: i32) -> (r: Result<String, String>)
    requires
        old(graph).wf(),
    ensures
        final(graph).wf(),
        r.is_ok() == old(graph).tracks.has(track_id),
        r matches Err(e) ==> e@ == track_not_found(track_id),
        r.is_err() ==> *final(graph) == *old(graph),
        r.is_ok() ==> exists|i: int| 0 <= i < final(graph).tracks.tracks@.len() && final(graph).tracks.tracks@[i].id == track_id
            && final(graph).tracks.tracks@[i].pan_centi as int == clamp_spec(pan_centi as int,
            -MAX_PAN_CENTI as int, MAX_PAN_CENTI as int)
            && final(graph).tracks.tracks@[i] == (crate::track::Track {
                pan_centi: final(graph).tracks.tracks@[i].pan_centi,
                ..old(graph).tracks.tracks@[i]
            }) && crate::track::others_kept(old(graph).tracks.tracks@, final(graph).tracks.tracks@, i),
        final(graph).tracks.ids() == old(graph).tracks.ids(),
        r.is_ok() ==> *final(graph) == (AudioGraph { tracks: final(graph).tracks, ..*old(graph) }),
        r.is_ok() ==> final(graph).tracks.next_id == old(graph).tracks.next_id,
{
    match graph.tracks.find_index(track_id) {
        None => Err(err_track_not_found(track_id)),
        Some(i) => {
            let p = crate::track::clamp_pan(pan_centi);
            graph.tracks.tracks[i].pan_centi = p;
            proof {
                assert(old(graph).tracks.tracks@[i as int].wf());
                crate::graph::lemma_tracks_same_shape_levels(&old(graph).tracks, &graph.tracks, i as int);
            }
            let mut m = msg_num("Track ", track_id, " pan set to ");
            let f = format_centi(p);
            m.append(f.as_str());
            Ok(m)
        },
    }
}

fn bool_word(b: bool) -> (r: &'static str)
    ensures
        r@ == (if b { "true"@ } else { "false"@ }),
{
    if b { "true" } else { "false" }
}

/// Mutes or unmutes a track.
pub fn set_track_mute<S>(graph: &mut AudioGraph<S>, track_id: u64, mute: bool) -> (r: Result<String, String>)
    requires
        old(graph).wf(),
    ensures
        final(graph).wf(),
        r.is_ok() == old(graph).tracks.has(track_id),
        r matches Err(e) ==> e@ == track_not_found(track_id),
        r.is_err() ==> *final(graph) == *old(graph),
        r.is_ok() ==> exists|i: int| 0 <= i < final(graph).tracks.tracks@.len() && final(graph).tracks.tracks@[i].id == track_id
            && final(graph).tracks.tracks@[i] == (crate::track::Track { mute, ..old(graph).tracks.tracks@[i] })
            && crate::track::others_kept(old(graph).tracks.tracks@, final(graph).tracks.tracks@, i),
        final(graph).tracks.ids() == old(graph).tracks.ids(),
        r.is_ok() ==> *final(graph) == (AudioGraph { tracks: final(graph).tracks, ..*old(graph) }),
        r.is_ok() ==> final(graph).tracks.next_id == old(graph).tracks.next_id,
{
    match graph.tracks.find_index(track_id) {
        None => Err(err_track_not_found(track_id)),
        Some(i) => {
            graph.tracks.tracks[i].mute = mute;
            proof {
                assert(old(graph).tracks.tracks@[i as int].wf());
                crate::graph::lemma_tracks_same_shape_levels(&old(graph).tracks, &graph.tracks, i as int);
            }
            let mut m = msg_num("Track ", track_id, " mute: ");
            m.append(bool_word(mute));
            Ok(m)
        },
    }
}

/// Solos or unsolos a track.
pub fn set_track_solo<S>(graph: &mut AudioGraph<S>, track_id: u64, solo: bool) -> (r: Result<String, String>)
    requires
        old(graph).wf(),
    ensures
        final(graph).wf(),
        r.is_ok() == old(graph).tracks.has(track_id),
        r matches Err(e) ==> e@ == track_not_found(track_id),
        r.is_err() ==> *final(graph) == *old(graph),
        r.is_ok() ==> exists|i: int| 0 <= i < final(graph).tracks.tracks@.len() && final(graph).tracks.tracks@[i].id == track_id
            && final(graph).tracks.tracks@[i] == (crate::track::Track { solo, ..old(graph).tracks.tracks@[i] })
            && crate::track::others_kept(old(graph).tracks.tracks@, final(graph).tracks.tracks@, i),
        final(graph).tracks.ids() == old(graph).tracks.ids(),
        r.is_ok() ==> *final(graph) == (AudioGraph { tracks: final(graph).tracks, ..*old(graph) }),
        r.is_ok() ==> final(graph).tracks.next_id == old(graph).tracks.next_id,
{
    match graph.tracks.find_index(track_id) {
        None => Err(err_track_not_found(track_id)),
        Some(i) => {
            graph.tracks.tracks[i].solo = solo;
            proof {
                assert(old(graph).tracks.tracks@[i as int].wf());
                crate::graph::lemma_tracks_same_shape_levels(&old(graph).tracks, &graph.tracks, i as int);
            }
            let mut m = msg_num("Track ", track_id, " solo: ");
            m.append(bool_word(solo));
            Ok(m)
        },
    }
}

/// Number of tracks, the master included.
pub fn get_track_count<S>(graph: &AudioGraph<S>) -> (r: Result<usize, String>)
    ensures
        r == Ok::<usize, String>(graph.tracks.tracks@.len() as usize),
{
    Ok(graph.tracks.tracks.len())
}

/// The ids of all tracks, master first, separated by commas.
pub fn get_all_track_ids<S>(graph: &AudioGraph<S>) -> (r: Result<String, String>)
    ensures
        r matches Ok(s) && s@ == csv_seq(graph.tracks.ids()),
{
    let ids = graph.tracks.track_ids();
    Ok(join_u64_csv(&ids))
}

/// `id,name,type,volume_db,pan,mute,solo` with volume and pan to two decimals
/// and mute and solo as 0 or 1.
pub open spec fn track_info_spec(t: crate::track::Track) -> Seq<char> {
    dec_seq(t.id as nat) + ","@ + t.name@ + ","@ + kind_label_spec(t.track_type) + ","@ + centi_seq(
        t.volume_centi_db as int,
    ) + ","@ + centi_seq(t.pan_centi as int) + ","@ + (if t.mute { "1"@ } else { "0"@ }) + ","@ + (if t.solo {
        "1"@
    } else {
        "0"@
    })
}

fn flag_digit(b: bool) -> (r: &'static str)
    ensures
        r@ == (if b { "1"@ } else { "0"@ }),
{
    if b { "1" } else { "0" }
}

/// The track's state as one line of comma-separated fields.
pub fn get_track_info<S>(graph: &AudioGraph<S>, track_id: u64) -> (r: Result<String, String>)
    ensures
        r.is_ok() == graph.tracks.has(track_id),
        r matches Err(e) ==> e@ == track_not_found(track_id),
        r matches Ok(s) ==> exists|i: int| 0 <= i < graph.tracks.tracks@.len() && graph.tracks.tracks@[i].id == track_id
            && s@ == track_info_spec(graph.tracks.tracks@[i]),
{
    match graph.tracks.find_index(track_id) {
        None => Err(err_track_not_found(track_id)),
        Some(i) => {
            let t = &graph.tracks.tracks[i];
            let mut s = format_u64(t.id);
            s.append(",");
            s.append(t.name.as_str());
            s.append(",");
            s.append(t.kind_label());
            s.append(",");
            let v = format_centi(t.volume_centi_db);
            s.append(v.as_str());
            s.append(",");
            let p = format_centi(t.pan_centi);
            s.append(p.as_str());
            s.append(",");
            s.append(flag_digit(t.mute));
            s.append(",");
            s.append(flag_digit(t.solo));
            Ok(s)
        },
    }
}

/// Deletes a track; the master track and unknown ids are refused.
pub fn delete_track<S>(graph: &mut AudioGraph<S>, track_id: u64) -> (r: Result<String, String>)
    requires
        old(graph).wf(),
    ensures
        final(graph).wf(),
        r.is_ok() == (track_id != crate::track::MASTER_TRACK_ID && old(graph).tracks.has(track_id)),
        r.is_err() ==> *final(graph) == *old(graph),
        r matches Err(e) ==> e@ == num_msg("Cannot delete track "@, track_id, " (either not found or is master track)"@),
        r.is_ok() ==> !final(graph).tracks.has(track_id),
        r.is_ok() ==> exists|i: int| 1 <= i < old(graph).tracks.tracks@.len() && old(graph).tracks.tracks@[i].id == track_id
            && final(graph).tracks.tracks@ == old(graph).tracks.tracks@.remove(i),
        r.is_ok() ==> final(graph).tracks.next_id == old(graph).tracks.next_id,
        r.is_ok() ==> !final(graph).synths.has(track_id),
        final(graph).transport == old(graph).transport,
        final(graph).effects == old(graph).effects,
        final(graph).recorder == old(graph).recorder,
        final(graph).midi_recorder == old(graph).midi_recorder,
        final(graph).midi_clips == old(graph).midi_clips,
        final(graph).live_synth == old(graph).live_synth,
{
    if graph.tracks.remove_track(track_id) {
        graph.synths.remove_synth(track_id);
        Ok(msg_num("Track ", track_id, " deleted"))
    } else {
        Err(msg_num("Cannot delete track ", track_id, " (either not found or is master track)"))
    }
}

// ---------------------------------------------------------------------------
// Effects
// ---------------------------------------------------------------------------

/// Adds an effect of the kind named (in any case) to the end of a track's
/// chain and returns its id. Unknown kinds and tracks are refused before
/// anything is created.
pub fn add_effect_to_track<S>(graph: &mut AudioGraph<S>, track_id: u64, effect_type_str: &str) -> (r: Result<u64, String>)
    requires
        old(graph).wf(),
    ensures
        final(graph).wf(),
        r.is_ok() == (effect_kind_of(lower_of(effect_type_str@)).is_some() && old(graph).tracks.has(track_id)
            && old(graph).effects.next_id < u64::MAX),
        effect_kind_of(lower_of(effect_type_str@)).is_none() ==> (r matches Err(e) && e@ == "Unknown effect type: "@
            + effect_type_str@),
        r.is_err() ==> *final(graph) == *old(graph),
        r matches Ok(id) ==> id == old(graph).effects.next_id && final(graph).effects.has(id)
            && exists|i: int| 0 <= i < final(graph).tracks.tracks@.len() && final(graph).tracks.tracks@[i].id == track_id
            && final(graph).tracks.tracks@[i].fx_chain@ == old(graph).tracks.tracks@[i].fx_chain@.push(id),
        final(graph).tracks.ids() == old(graph).tracks.ids(),
{
    let kind = match EffectKind::from_name(effect_type_str) {
        Some(k) => k,
        None => {
            let mut e = "Unknown effect type: ".to_owned();
            e.append(effect_type_str);
            return Err(e);
        },
    };
    let i = match graph.tracks.find_index(track_id) {
        Some(i) => i,
        None => return Err(err_track_not_found(track_id)),
    };
    let id = match graph.effects.create_effect(kind) {
        Some(id) => id,
        None => return Err("Effect ids exhausted".to_owned()),
    };
    graph.tracks.tracks[i].fx_chain.push(id);
    proof {
        assert(old(graph).tracks.tracks@[i as int].wf());
        crate::graph::lemma_tracks_same_shape_levels(&old(graph).tracks, &graph.tracks, i as int);
        assert(graph.effects.effects@.last() == (id, kind));
        assert(graph.effects.effects@[graph.effects.effects@.len() - 1].0 == id);
    }
    Ok(id)
}

/// Position of `id` in a chain.
fn position_of(chain: &Vec<u64>, id: u64) -> (r: Option<usize>)
    ensures
        r matches Some(i) ==> i < chain@.len() && chain@[i as int] == id,
        r.is_none() ==> !chain@.contains(id),
{
    let mut i: usize = 0;
    while i < chain.len()
        invariant
            i <= chain@.len(),
            forall|k: int| 0 <= k < i ==> chain@[k] != id,
        decreases chain@.len() - i,
    {
        if chain[i] == id {
            return Some(i);
        }
        i = i + 1;
    }
    None
}

/// Takes an effect out of a track's chain and out of the registry.
pub fn remove_effect_from_track<S>(graph: &mut AudioGraph<S>, track_id: u64, effect_id: u64) -> (r: Result<String, String>)
    requires
        old(graph).wf(),
    ensures
        final(graph).wf(),
        r.is_ok() == (exists|i: int| 0 <= i < old(graph).tracks.tracks@.len() && old(graph).tracks.tracks@[i].id == track_id
            && old(graph).tracks.tracks@[i].fx_chain@.contains(effect_id)),
        r.is_err() ==> *final(graph) == *old(graph),
        r.is_ok() ==> !final(graph).effects.has(effect_id),
        final(graph).tracks.ids() == old(graph).tracks.ids(),
        r.is_ok() ==> exists|i: int, p: int| {
            &&& 0 <= i < old(graph).tracks.tracks@.len()
            &&& old(graph).tracks.tracks@[i].id == track_id
            &&& 0 <= p < old(graph).tracks.tracks@[i].fx_chain@.len()
            &&& old(graph).tracks.tracks@[i].fx_chain@[p] == effect_id
            &&& final(graph).tracks.tracks@[i].fx_chain@ == old(graph).tracks.tracks@[i].fx_chain@.remove(p)
            &&& crate::track::same_but_fx(final(graph).tracks.tracks@[i], old(graph).tracks.tracks@[i])
            &&& crate::track::others_kept(old(graph).tracks.tracks@, final(graph).tracks.tracks@, i)
        },
        r.is_ok() && old(graph).effects.has(effect_id) ==> exists|j: int| 0 <= j < old(graph).effects.effects@.len()
            && old(graph).effects.effects@[j].0 == effect_id && final(graph).effects.effects@ == old(graph).effects.effects@.remove(j),
        r.is_ok() && !old(graph).effects.has(effect_id) ==> final(graph).effects.effects@ == old(graph).effects.effects@,
        r.is_ok() ==> final(graph).tracks.next_id == old(graph).tracks.next_id,
{
    let i = match graph.tracks.find_index(track_id) {
        Some(i) => i,
        None => {
            proof {
                assert forall|k: int| 0 <= k < old(graph).tracks.tracks@.len() && old(graph).tracks.tracks@[k].id == track_id
                    implies !old(graph).tracks.tracks@[k].fx_chain@.contains(effect_id) by {
                    assert(old(graph).tracks.has(track_id));
                }
            }
            return Err(err_track_not_found(track_id));
        },
    };
    let pos = match position_of(&graph.tracks.tracks[i].fx_chain, effect_id) {
        Some(p) => p,
        None => {
            proof {
                assert forall|k: int| 0 <= k < old(graph).tracks.tracks@.len() && old(graph).tracks.tracks@[k].id == track_id
                    implies !old(graph).tracks.tracks@[k].fx_chain@.contains(effect_id) by {
                    if k < i {
                        assert(old(graph).tracks.tracks@[k].id < old(graph).tracks.tracks@[i as int].id);
                    } else if k > i {
                        assert(old(graph).tracks.tracks@[i as int].id < old(graph).tracks.tracks@[k].id);
                    }
                }
            }
            let mut e = msg_num("Effect ", effect_id, " not found in track ");
            let t = format_u64(track_id);
            e.append(t.as_str());
            e.append("'s FX chain");
            return Err(e);
        },
    };
    graph.tracks.tracks[i].fx_chain.remove(pos);
    graph.effects.remove_effect(effect_id);
    proof {
        assert(old(graph).tracks.tracks@[i as int].wf());
        crate::graph::lemma_tracks_same_shape_levels(&old(graph).tracks, &graph.tracks, i as int);
    }
    let mut m = msg_num("Effect ", effect_id, " removed from track ");
    let t = format_u64(track_id);
    m.append(t.as_str());
    Ok(m)
}

/// A track's effect ids, in processing order, separated by commas.
pub fn get_track_effects<S>(graph: &AudioGraph<S>, track_id: u64) -> (r: Result<String, String>)
    ensures
        r.is_ok() == graph.tracks.has(track_id),
        r matches Err(e) ==> e@ == track_not_found(track_id),
        r matches Ok(s) ==> exists|i: int| 0 <= i < graph.tracks.tracks@.len() && graph.tracks.tracks@[i].id == track_id
            && s@ == csv_seq(graph.tracks.tracks@[i].fx_chain@),
{
    match graph.tracks.find_index(track_id) {
        None => Err(err_track_not_found(track_id)),
        Some(i) => Ok(join_u64_csv(&graph.tracks.tracks[i].fx_chain)),
    }
}

// ---------------------------------------------------------------------------
// Recording
// ---------------------------------------------------------------------------

/// Starts a take: refused unless the recorder is idle; otherwise playback
/// runs (so the callback records) and the count-in or the take begins.
pub fn start_recording<S>(graph: &mut AudioGraph<S>) -> (r: Result<String, String>)
    requires
        old(graph).wf(),
    ensures
        final(graph).wf(),
        r.is_ok() == (old(graph).recorder.state == RecordingState::Idle),
        r.is_err() ==> *final(graph) == *old(graph),
        r.is_ok() ==> final(graph).transport.state == TransportState::Playing
            && final(graph).recorder.recorded@.len() == 0
            && final(graph).recorder.state == if old(graph).recorder.count_in_bars > 0 {
                RecordingState::CountingIn
            } else {
                RecordingState::Recording
            },
{
    if graph.recorder.get_state() != RecordingState::Idle {
        return Err("Already recording or counting in".to_owned());
    }
    graph.play();
    let _ = graph.recorder.start_recording();
    if graph.recorder.get_state() == RecordingState::CountingIn {
        ok_msg("Recording started: CountingIn")
    } else {
        ok_msg("Recording started: Recording")
    }
}

/// Ends a take; refused when idle. Returns the captured clip, if any.
pub fn stop_recording<S>(graph: &mut AudioGraph<S>) -> (r: Result<Option<RecordedClip<S>>, String>)
    requires
        old(graph).wf(),
    ensures
        final(graph).wf(),
        r.is_err() == (old(graph).recorder.state == RecordingState::Idle),
        r matches Err(e) ==> e@ == "Not recording"@,
        r.is_ok() ==> final(graph).recorder.state == RecordingState::Idle,
        r matches Ok(Some(c)) ==> c.samples@ == old(graph).recorder.recorded@ && c.channels == 2,
        r matches Ok(None) ==> old(graph).recorder.recorded@.len() == 0,
{
    graph.recorder.stop_recording()
}

pub open spec fn recording_code(s: RecordingState) -> i32 {
    match s {
        RecordingState::Idle => 0,
        RecordingState::CountingIn => 1,
        RecordingState::Recording => 2,
    }
}

/// 0 for Idle, 1 for CountingIn, 2 for Recording.
pub fn get_recording_state<S>(graph: &AudioGraph<S>) -> (r: Result<i32, String>)
    ensures
        r == Ok::<i32, String>(recording_code(graph.recorder.state)),
{
    let c = match graph.recorder.get_state() {
        RecordingState::Idle => 0,
        RecordingState::CountingIn => 1,
        RecordingState::Recording => 2,
    };
    Ok(c)
}

pub fn set_count_in_bars<S>(graph: &mut AudioGraph<S>, bars: u32) -> (r: Result<String, String>)
    requires
        old(graph).wf(),
    ensures
        final(graph).wf(),
        final(graph).recorder.count_in_bars == bars,
        *final(graph) == (AudioGraph { recorder: Recorder { count_in_bars: bars, ..old(graph).recorder }, ..*old(graph) }),
        r matches Ok(m) && m@ == num_msg("Count-in set to "@, bars as u64, " bars"@),
{
    graph.recorder.set_count_in_bars(bars);
    Ok(msg_num("Count-in set to ", bars as u64, " bars"))
}

pub fn get_count_in_bars<S>(graph: &AudioGraph<S>) -> (r: Result<u32, String>)
    ensures
        r == Ok::<u32, String>(graph.recorder.count_in_bars),
{
    Ok(graph.recorder.get_count_in_bars())
}

/// Sets the tempo, held within [20, 300] BPM.
pub fn set_tempo<S>(graph: &mut AudioGraph<S>, bpm: u32) -> (r: Result<String, String>)
    requires
        old(graph).wf(),
    ensures
        final(graph).wf(),
        final(graph).recorder.tempo_bpm == crate::recorder::clamp_tempo_spec(bpm),
        *final(graph) == (AudioGraph {
            recorder: Recorder { tempo_bpm: crate::recorder::clamp_tempo_spec(bpm), ..old(graph).recorder },
            ..*old(graph)
        }),
        r matches Ok(m) && m@ == num_msg("Tempo set to "@, crate::recorder::clamp_tempo_spec(bpm) as u64, " BPM"@),
{
    graph.recorder.set_tempo(bpm);
    let t = graph.recorder.get_tempo();
    Ok(msg_num("Tempo set to ", t as u64, " BPM"))
}

pub fn get_tempo<S>(graph: &AudioGraph<S>) -> (r: Result<u32, String>)
    ensures
        r == Ok::<u32, String>(graph.recorder.tempo_bpm),
{
    Ok(graph.recorder.get_tempo())
}

pub fn set_metronome_enabled<S>(graph: &mut AudioGraph<S>, enabled: bool) -> (r: Result<String, String>)
    requires
        old(graph).wf(),
    ensures
        final(graph).wf(),
        final(graph).recorder.metronome_enabled == enabled,
        *final(graph) == (AudioGraph {
            recorder: Recorder { metronome_enabled: enabled, ..old(graph).recorder },
            ..*old(graph)
        }),
        r matches Ok(m) && m@ == (if enabled { "Metronome enabled"@ } else { "Metronome disabled"@ }),
{
    graph.recorder.set_metronome_enabled(enabled);
    if enabled {
        ok_msg("Metronome enabled")
    } else {
        ok_msg("Metronome disabled")
    }
}

pub fn is_metronome_enabled<S>(graph: &AudioGraph<S>) -> (r: Result<bool, String>)
    ensures
        r == Ok::<bool, String>(graph.recorder.metronome_enabled),
{
    Ok(graph.recorder.is_metronome_enabled())
}

// ---------------------------------------------------------------------------
// Audio clips
// ---------------------------------------------------------------------------

/// Index of the first audio track, if any.
fn first_audio_track(graph_tracks: &crate::track::TrackManager) -> (r: Option<usize>)
    ensures
        r matches Some(i) ==> i < graph_tracks.tracks@.len() && graph_tracks.tracks@[i as int].track_type
            == TrackType::Audio && forall|k: int| 0 <= k < i ==> graph_tracks.tracks@[k].track_type != TrackType::Audio,
        r.is_none() ==> forall|k: int| 0 <= k < graph_tracks.tracks@.len() ==> graph_tracks.tracks@[k].track_type
            != TrackType::Audio,
{
    let mut i: usize = 0;
    while i < graph_tracks.tracks.len()
        invariant
            i <= graph_tracks.tracks@.len(),
            forall|k: int| 0 <= k < i ==> graph_tracks.tracks@[k].track_type != TrackType::Audio,
        decreases graph_tracks.tracks@.len() - i,
    {
        if graph_tracks.tracks[i].track_type == TrackType::Audio {
            return Some(i);
        }
        i = i + 1;
    }
    None
}

/// Places a freshly decoded clip of `clip_frames` frames at the start of
/// the first audio track, creating "Audio 1" when there is none, and
/// returns the clip's id.
pub fn load_audio_file_api<S>(graph: &mut AudioGraph<S>, clip_frames: u64, channels: u16) -> (r: Result<u64, String>)
    requires
        old(graph).wf(),
    ensures
        final(graph).wf(),
        r matches Ok(id) ==> id == old(graph).next_clip_id,
        r.is_err() ==> *final(graph) == *old(graph),
        (exists|k: int| crate::track::first_audio(old(graph).tracks.tracks@, k)) ==> {
            &&& r.is_ok() == (old(graph).next_clip_id < u64::MAX)
            &&& r.is_ok() ==> exists|i: int| {
                &&& crate::track::first_audio(old(graph).tracks.tracks@, i)
                &&& final(graph).tracks.tracks@[i].audio_clips@ == old(graph).tracks.tracks@[i].audio_clips@.push(
                    loaded_placement(old(graph).next_clip_id, clip_frames, channels),
                )
                &&& crate::track::same_but_clips(final(graph).tracks.tracks@[i], old(graph).tracks.tracks@[i])
                &&& crate::track::others_kept(old(graph).tracks.tracks@, final(graph).tracks.tracks@, i)
            }
        },
        (forall|k: int| !crate::track::first_audio(old(graph).tracks.tracks@, k)) ==> {
            &&& r.is_ok() == (old(graph).tracks.next_id < u64::MAX && old(graph).next_clip_id < u64::MAX)
            &&& r.is_ok() ==> {
                &&& final(graph).tracks.tracks@.len() == old(graph).tracks.tracks@.len() + 1
                &&& final(graph).tracks.tracks@.last().name@ == "Audio 1"@
                &&& final(graph).tracks.tracks@.last().track_type == TrackType::Audio
                &&& final(graph).tracks.tracks@.last().audio_clips@ == seq![
                    loaded_placement(old(graph).next_clip_id, clip_frames, channels),
                ]
                &&& forall|k: int| 0 <= k < old(graph).tracks.tracks@.len() ==> final(graph).tracks.tracks@[k]
                    == old(graph).tracks.tracks@[k]
            }
        },
{
    if graph.next_clip_id == u64::MAX {
        return Err("Clip ids exhausted".to_owned());
    }
    let found = first_audio_track(&graph.tracks);
    let idx = match found {
        Some(i) => {
            proof {
                assert(crate::track::first_audio(old(graph).tracks.tracks@, i as int));
            }
            i
        },
        None => {
            proof {
                assert forall|k: int| !crate::track::first_audio(old(graph).tracks.tracks@, k) by {}
            }
            match graph.tracks.create_track(TrackType::Audio, "Audio 1".to_owned()) {
                Some(_) => {
                    proof {
                        assert forall|i: int| 0 <= i < old(graph).tracks.tracks@.len() implies graph.tracks.tracks@[i]
                            == old(graph).tracks.tracks@[i] by {
                            assert(graph.tracks.tracks@.subrange(0, old(graph).tracks.tracks@.len() as int)[i]
                                == graph.tracks.tracks@[i]);
                        }
                        crate::graph::lemma_clip_ids_grow(old(graph).tracks.tracks@, graph.tracks.tracks@, graph.next_clip_id);
                    }
                },
                None => {
                    proof {
                        reveal_strlit("Audio 1");
                    }
                    return Err("Track ids exhausted".to_owned());
                },
            }
            graph.tracks.tracks.len() - 1
        },
    };
    let track_id = graph.tracks.tracks[idx].id;
    let ghost before = graph.tracks;
    assert(idx < before.tracks@.len() && before.tracks@[idx as int].track_type == TrackType::Audio);
    assert(graph.next_clip_id == old(graph).next_clip_id);
    assert(before.tracks@[idx as int].id == track_id);
    assert(before.has(track_id));
    match graph.add_clip_to_track(track_id, clip_frames, channels, 0) {
        Some(id) => {
            proof {
                let p = loaded_placement(old(graph).next_clip_id, clip_frames, channels);
                let j = choose|j: int| 0 <= j < graph.tracks.tracks@.len() && graph.tracks.tracks@[j].id == track_id
                    && graph.tracks.tracks@[j].audio_clips@ == before.tracks@[j].audio_clips@.push(p)
                    && crate::track::same_but_clips(graph.tracks.tracks@[j], before.tracks@[j])
                    && crate::track::others_kept(before.tracks@, graph.tracks.tracks@, j);
                assert(graph.tracks.ids()[j] == before.ids()[j]);
                assert(before.tracks@[j].id == track_id);
                assert(before.wf());
                if j < idx {
                    assert(before.tracks@[j].id < before.tracks@[idx as int].id);
                } else if j > idx {
                    assert(before.tracks@[idx as int].id < before.tracks@[j].id);
                }
                assert(j == idx);
                if found.is_none() {
                    assert(before.tracks@[idx as int].audio_clips@.len() == 0);
                    assert(before.tracks@[idx as int].audio_clips@.push(p) =~= seq![p]);
                    assert forall|k: int| 0 <= k < old(graph).tracks.tracks@.len() implies graph.tracks.tracks@[k]
                        == old(graph).tracks.tracks@[k] by {
                        assert(graph.tracks.tracks@[k] == before.tracks@[k]);
                    }
                    assert(graph.tracks.tracks@.last() == graph.tracks.tracks@[idx as int]);
                } else {
                    assert(before == old(graph).tracks);
                }
            }
            Ok(id)
        },
        None => Err(msg_num("Failed to add clip to track ", track_id, "")),
    }
}

/// Where a freshly loaded clip is placed: at the start, untrimmed, full length.
pub open spec fn loaded_placement(id: u64, clip_frames: u64, channels: u16) -> crate::track::AudioClipPlacement {
    crate::track::AudioClipPlacement { id, start_frame: 0, offset_frames: 0, duration_frames: None, clip_frames, channels }
}

// ---------------------------------------------------------------------------
// MIDI devices, input and recording
// ---------------------------------------------------------------------------

fn device_tuples(devs: Vec<crate::devices::MidiDevice>) -> (r: Vec<(String, String, bool)>)
    ensures
        r@.len() == devs@.len(),
        forall|i: int| 0 <= i < r@.len() ==> (#[trigger] r@[i]).0@ == devs@[i].id@ && r@[i].1@ == devs@[i].name@
            && r@[i].2 == devs@[i].is_default,
{
    let mut out: Vec<(String, String, bool)> = Vec::new();
    let mut i: usize = 0;
    while i < devs.len()
        invariant
            i <= devs@.len(),
            out@.len() == i,
            forall|k: int| 0 <= k < i ==> (#[trigger] out@[k]).0@ == devs@[k].id@ && out@[k].1@ == devs@[k].name@
                && out@[k].2 == devs@[k].is_default,
        decreases devs@.len() - i,
    {
        let d = &devs[i];
        out.push((d.id.clone(), d.name.clone(), d.is_default));
        i = i + 1;
    }
    out
}

/// The MIDI inputs as (id, name, is default), ids `midi_0`, `midi_1`, ...
pub fn get_midi_input_devices<S>(graph: &AudioGraph<S>) -> (r: Result<Vec<(String, String, bool)>, String>)
    ensures
        r matches Ok(v) && v@.len() == graph.midi_inputs.names@.len() && forall|i: int| 0 <= i < v@.len() ==> (
        #[trigger] v@[i]).0@ == "midi_"@ + dec_seq(i as nat) && v@[i].1@ == graph.midi_inputs.names@[i]@ && v@[i].2 == (
        i == 0),
{
    let devs = graph.midi_inputs.get_devices("midi_");
    Ok(device_tuples(devs))
}

/// Replaces the list of MIDI inputs with the names just enumerated.
pub fn refresh_midi_devices<S>(graph: &mut AudioGraph<S>, names: Vec<String>) -> (r: Result<String, String>)
    requires
        old(graph).wf(),
    ensures
        final(graph).wf(),
        final(graph).midi_inputs.names@ == names@,
        r matches Ok(m) && m@ == "MIDI devices refreshed"@,
{
    graph.midi_inputs.set_device_names(names);
    ok_msg("MIDI devices refreshed")
}

/// Chooses a MIDI input; negative and unknown indices are refused.
pub fn select_midi_input_device<S>(graph: &mut AudioGraph<S>, device_index: i32) -> (r: Result<String, String>)
    requires
        old(graph).wf(),
    ensures
        final(graph).wf(),
        r.is_ok() == (0 <= device_index && (device_index as int) < old(graph).midi_inputs.names@.len()),
        device_index < 0 ==> (r matches Err(e) && e@ == "Invalid device index"@),
        r.is_ok() ==> final(graph).midi_inputs.selected == Some(device_index as usize),
        r.is_err() ==> *final(graph) == *old(graph),
        r.is_ok() ==> *final(graph) == (AudioGraph {
            midi_inputs: DeviceSelection { selected: Some(device_index as usize), ..old(graph).midi_inputs },
            ..*old(graph)
        }),
{
    if device_index < 0 {
        return Err("Invalid device index".to_owned());
    }
    match graph.midi_inputs.select_device(device_index as usize) {
        Ok(()) => Ok(msg_num("Selected MIDI input device ", device_index as u64, "")),
        Err(e) => Err(e),
    }
}

/// Decides how to start MIDI capture: `Ok(None)` when it already runs,
/// `Ok(Some(port))` for the port to open, an error when there is none.
pub fn start_midi_input<S>(graph: &mut AudioGraph<S>) -> (r: Result<Option<usize>, String>)
    requires
        old(graph).wf(),
    ensures
        final(graph).wf(),
        old(graph).midi_inputs.capturing ==> r == Ok::<Option<usize>, String>(None),
        !old(graph).midi_inputs.capturing ==> r.is_ok() == (crate::devices::capture_port_spec(
            old(graph).midi_inputs.selected,
        ) < old(graph).midi_inputs.names@.len()),
        r matches Ok(Some(p)) ==> p == crate::devices::capture_port_spec(old(graph).midi_inputs.selected),
        r.is_ok() ==> final(graph).midi_inputs.capturing,
{
    graph.midi_inputs.begin_capture()
}

/// Marks MIDI capture as stopped.
pub fn stop_midi_input<S>(graph: &mut AudioGraph<S>) -> (r: Result<String, String>)
    requires
        old(graph).wf(),
    ensures
        final(graph).wf(),
        !final(graph).midi_inputs.capturing,
        *final(graph) == (AudioGraph {
            midi_inputs: DeviceSelection { capturing: false, ..old(graph).midi_inputs },
            ..*old(graph)
        }),
        r matches Ok(m) && m@ == "MIDI input stopped"@,
{
    graph.midi_inputs.end_capture();
    ok_msg("MIDI input stopped")
}

/// The audio inputs as (id, name, is default), ids `input_0`, `input_1`, ...
pub fn get_audio_input_devices<S>(graph: &AudioGraph<S>) -> (r: Result<Vec<(String, String, bool)>, String>)
    ensures
        r matches Ok(v) && v@.len() == graph.audio_inputs.names@.len() && forall|i: int| 0 <= i < v@.len() ==> (
        #[trigger] v@[i]).0@ == "input_"@ + dec_seq(i as nat) && v@[i].1@ == graph.audio_inputs.names@[i]@ && v@[i].2
            == (i == 0),
{
    let devs = graph.audio_inputs.get_devices("input_");
    Ok(device_tuples(devs))
}

/// Chooses an audio input; negative and unknown indices are refused.
pub fn set_audio_input_device<S>(graph: &mut AudioGraph<S>, device_index: i32) -> (r: Result<String, String>)
    requires
        old(graph).wf(),
    ensures
        final(graph).wf(),
        r.is_ok() == (0 <= device_index && (device_index as int) < old(graph).audio_inputs.names@.len()),
        device_index < 0 ==> (r matches Err(e) && e@ == "Invalid device index"@),
        r.is_ok() ==> final(graph).audio_inputs.selected == Some(device_index as usize),
        r.is_err() ==> *final(graph) == *old(graph),
        r.is_ok() ==> *final(graph) == (AudioGraph {
            audio_inputs: DeviceSelection { selected: Some(device_index as usize), ..old(graph).audio_inputs },
            ..*old(graph)
        }),
{
    if device_index < 0 {
        return Err("Invalid device index".to_owned());
    }
    match graph.audio_inputs.select_device(device_index as usize) {
        Ok(()) => Ok(msg_num("Selected input device ", device_index as u64, "")),
        Err(e) => Err(e),
    }
}

/// Decides how to start audio capture, as for MIDI input.
pub fn start_audio_input<S>(graph: &mut AudioGraph<S>) -> (r: Result<Option<usize>, String>)
    requires
        old(graph).wf(),
    ensures
        final(graph).wf(),
        old(graph).audio_inputs.capturing ==> r == Ok::<Option<usize>, String>(None),
        !old(graph).audio_inputs.capturing ==> r.is_ok() == (crate::devices::capture_port_spec(
            old(graph).audio_inputs.selected,
        ) < old(graph).audio_inputs.names@.len()),
        r matches Ok(Some(p)) ==> p == crate::devices::capture_port_spec(old(graph).audio_inputs.selected),
        r.is_ok() ==> final(graph).audio_inputs.capturing,
{
    graph.audio_inputs.begin_capture()
}

/// Marks audio capture as stopped.
pub fn stop_audio_input<S>(graph: &mut AudioGraph<S>) -> (r: Result<String, String>)
    requires
        old(graph).wf(),
    ensures
        final(graph).wf(),
        !final(graph).audio_inputs.capturing,
        *final(graph) == (AudioGraph {
            audio_inputs: DeviceSelection { capturing: false, ..old(graph).audio_inputs },
            ..*old(graph)
        }),
        r matches Ok(m) && m@ == "Audio input stopped"@,
{
    graph.audio_inputs.end_capture();
    ok_msg("Audio input stopped")
}

/// Starts a MIDI take at the current playhead; refused while recording.
pub fn start_midi_recording<S>(graph: &mut AudioGraph<S>) -> (r: Result<String, String>)
    requires
        old(graph).wf(),
    ensures
        final(graph).wf(),
        r.is_ok() == (old(graph).midi_recorder.state == MidiRecordingState::Idle),
        r matches Err(e) ==> e@ == "Already recording"@,
        r.is_ok() ==> final(graph).midi_recorder.state == MidiRecordingState::Recording
            && final(graph).midi_recorder.start_timestamp == old(graph).transport.playhead_samples
            && final(graph).midi_recorder.events@.len() == 0,
        r matches Ok(m) ==> m@ == "MIDI recording started"@,
        r.is_err() ==> *final(graph) == *old(graph),
        *final(graph) == (AudioGraph { midi_recorder: final(graph).midi_recorder, ..*old(graph) }),
{
    let at = graph.transport.playhead_samples;
    match graph.midi_recorder.start_recording(at) {
        Ok(_) => ok_msg("MIDI recording started"),
        Err(e) => Err(e),
    }
}

/// Ends a MIDI take; the clip, if any events came, goes on the timeline at
/// the start and its id comes back.
pub fn stop_midi_recording<S>(graph: &mut AudioGraph<S>) -> (r: Result<Option<u64>, String>)
    requires
        old(graph).wf(),
    ensures
        final(graph).wf(),
        old(graph).midi_recorder.state != MidiRecordingState::Recording ==> (r matches Err(e) && e@ == "Not recording"@),
        r.is_ok() ==> final(graph).midi_recorder.state == MidiRecordingState::Idle,
        r matches Ok(Some(id)) ==> id == old(graph).next_clip_id && final(graph).has_midi_clip(id),
        r matches Ok(None) ==> old(graph).midi_recorder.events@.len() == 0,
        old(graph).midi_recorder.state == MidiRecordingState::Recording && old(graph).next_clip_id < u64::MAX ==> r.is_ok(),
        old(graph).midi_recorder.state == MidiRecordingState::Recording && old(graph).midi_recorder.events@.len() > 0
            && old(graph).next_clip_id < u64::MAX ==> r == Ok::<Option<u64>, String>(Some(old(graph).next_clip_id)),
{
    match graph.midi_recorder.stop_recording() {
        Err(e) => Err(e),
        Ok(None) => Ok(None),
        Ok(Some(clip)) => match graph.add_midi_clip(clip, 0) {
            Some(id) => {
                proof {
                    assert(graph.midi_clips@[graph.midi_clips@.len() - 1].id == id);
                }
                Ok(Some(id))
            },
            None => Err("Clip ids exhausted".to_owned()),
        },
    }
}

pub open spec fn midi_recording_code(s: MidiRecordingState) -> i32 {
    match s {
        MidiRecordingState::Idle => 0,
        MidiRecordingState::Recording => 1,
    }
}

/// 0 for Idle, 1 for Recording.
pub fn get_midi_recording_state<S>(graph: &AudioGraph<S>) -> (r: Result<i32, String>)
    ensures
        r == Ok::<i32, String>(midi_recording_code(graph.midi_recorder.state)),
{
    match graph.midi_recorder.get_state() {
        MidiRecordingState::Idle => Ok(0),
        MidiRecordingState::Recording => Ok(1),
    }
}

// ---------------------------------------------------------------------------
// Instruments
// ---------------------------------------------------------------------------

pub open spec fn oscillator_code(c: i32) -> Option<OscillatorType> {
    if c == 0 {
        Some(OscillatorType::Sine)
    } else if c == 1 {
        Some(OscillatorType::Saw)
    } else if c == 2 {
        Some(OscillatorType::Square)
    } else {
        None
    }
}

/// Sets the keyboard instrument's waveform: 0 sine, 1 saw, 2 square.
pub fn set_synth_oscillator_type<S>(graph: &mut AudioGraph<S>, osc_type: i32) -> (r: Result<String, String>)
    requires
        old(graph).wf(),
    ensures
        final(graph).wf(),
        r.is_ok() == oscillator_code(osc_type).is_some(),
        r matches Err(e) ==> e@ == "Invalid oscillator type"@,
        r.is_err() ==> *final(graph) == *old(graph),
        oscillator_code(osc_type) matches Some(o) ==> final(graph).live_synth.osc1_type == o,
{
    let (osc, m) = if osc_type == 0 {
        (OscillatorType::Sine, "Oscillator type set to Sine")
    } else if osc_type == 1 {
        (OscillatorType::Saw, "Oscillator type set to Saw")
    } else if osc_type == 2 {
        (OscillatorType::Square, "Oscillator type set to Square")
    } else {
        return Err("Invalid oscillator type".to_owned());
    };
    graph.live_synth.osc1_type = osc;
    ok_msg(m)
}

/// Plays a note on the keyboard instrument.
pub fn send_midi_note_on<S>(graph: &mut AudioGraph<S>, note: u8, velocity: u8) -> (r: Result<String, String>)
    requires
        old(graph).wf(),
    ensures
        final(graph).wf(),
        r.is_ok(),
        crate::synth::count_active(final(graph).live_synth.voices@) >= 1,
{
    graph.live_synth.note_on(note, velocity);
    let mut m = msg_num("Note On: ", note as u64, " (velocity: ");
    let v = format_u64(velocity as u64);
    m.append(v.as_str());
    m.append(")");
    Ok(m)
}

/// Releases a note on the keyboard instrument.
pub fn send_midi_note_off<S>(graph: &mut AudioGraph<S>, note: u8, velocity: u8) -> (r: Result<String, String>)
    requires
        old(graph).wf(),
    ensures
        final(graph).wf(),
        r.is_ok(),
        forall|i: int| 0 <= i < crate::synth::MAX_VOICES ==> #[trigger] final(graph).live_synth.voices@[i] == if old(
            graph,
        ).live_synth.voices@[i].active && old(graph).live_synth.voices@[i].note == note {
            crate::synth::Voice {
                stage: crate::synth::EnvelopeStage::Release,
                stage_frames: 0,
                ..old(graph).live_synth.voices@[i]
            }
        } else {
            old(graph).live_synth.voices@[i]
        },
{
    graph.live_synth.note_off(note);
    let mut m = msg_num("Note Off: ", note as u64, " (velocity: ");
    let v = format_u64(velocity as u64);
    m.append(v.as_str());
    m.append(")");
    Ok(m)
}

/// Gives a track a fresh instrument and returns its id (the track's id).
pub fn set_track_instrument<S>(graph: &mut AudioGraph<S>, track_id: u64) -> (r: Result<u64, String>)
    requires
        old(graph).wf(),
    ensures
        final(graph).wf(),
        r == Ok::<u64, String>(track_id),
        final(graph).synths.has(track_id),
        forall|k: int| 0 <= k < final(graph).synths.synths@.len() && final(graph).synths.synths@[k].0 == track_id
            ==> crate::synth::count_active(#[trigger] final(graph).synths.synths@[k].1.voices@) == 0,
        forall|k: int| 0 <= k < old(graph).synths.synths@.len() && old(graph).synths.synths@[k].0 != track_id
            ==> #[trigger] final(graph).synths.synths@[k] == old(graph).synths.synths@[k],
{
    Ok(graph.synths.create_synth(track_id))
}

/// Sets a waveform or filter parameter of a track's instrument by name;
/// other names are left to the caller, which owns the continuous values.
pub fn set_synth_parameter<S>(graph: &mut AudioGraph<S>, track_id: u64, param_name: String, value: String) -> (r: Result<String, String>)
    requires
        old(graph).wf(),
    ensures
        final(graph).wf(),
        r.is_ok(),
        final(graph).synths.synths@.len() == old(graph).synths.synths@.len(),
        forall|i: int| 0 <= i < final(graph).synths.synths@.len() && final(graph).synths.synths@[i].0 == track_id
            && param_name@ == "osc1_type"@ ==> final(graph).synths.synths@[i].1.osc1_type == crate::synth::oscillator_of(
            lower_of(value@)),
        forall|i: int| 0 <= i < final(graph).synths.synths@.len() && final(graph).synths.synths@[i].0 == track_id
            && param_name@ == "osc2_type"@ ==> final(graph).synths.synths@[i].1.osc2_type == crate::synth::oscillator_of(
            lower_of(value@)),
        forall|i: int| 0 <= i < final(graph).synths.synths@.len() && final(graph).synths.synths@[i].0 == track_id
            && param_name@ == "filter_type"@ ==> final(graph).synths.synths@[i].1.filter_type == crate::synth::filter_of(
            lower_of(value@)),
{
    graph.synths.set_type_parameter(track_id, param_name.as_str(), value.as_str());
    let mut m = "Set ".to_owned();
    m.append(param_name.as_str());
    m.append(" = ");
    m.append(value.as_str());
    let t = msg_num(" for track ", track_id, "");
    m.append(t.as_str());
    Ok(m)
}

/// The parameters of a track's instrument as text; none are reported yet.
pub fn get_synth_parameters<S>(graph: &AudioGraph<S>, track_id: u64) -> (r: Result<String, String>)
    ensures
        r matches Ok(s) && s@.len() == 0,
{
    Ok(String::new())
}

/// Plays a note on a track's instrument, and records it when a MIDI take
/// runs, timed at the playhead.
pub fn send_track_midi_note_on<S>(graph: &mut AudioGraph<S>, track_id: u64, note: u8, velocity: u8) -> (r: Result<String, String>)
    requires
        old(graph).wf(),
    ensures
        final(graph).wf(),
        r.is_ok(),
        old(graph).midi_recorder.state == MidiRecordingState::Recording ==> final(graph).midi_recorder.events@
            == old(graph).midi_recorder.events@.push(crate::midi_recorder::relative_event(
            MidiEvent { event_type: MidiEventType::NoteOn { note, velocity }, timestamp_samples: old(graph).transport.playhead_samples },
            old(graph).midi_recorder.start_timestamp,
        )),
        old(graph).midi_recorder.state != MidiRecordingState::Recording ==> final(graph).midi_recorder.events@
            == old(graph).midi_recorder.events@,
        old(graph).synths.has(track_id) ==> exists|i: int| 0 <= i < final(graph).synths.synths@.len()
            && final(graph).synths.synths@[i].0 == track_id
            && crate::synth::count_active(final(graph).synths.synths@[i].1.voices@) >= 1,
        final(graph).synths.synths@.len() == old(graph).synths.synths@.len(),
        forall|k: int| 0 <= k < old(graph).synths.synths@.len() && old(graph).synths.synths@[k].0 == track_id
            ==> crate::synth::pool_started(old(graph).synths.synths@[k].1, #[trigger] final(graph).synths.synths@[k].1, note, velocity),
        forall|k: int| 0 <= k < old(graph).synths.synths@.len() && old(graph).synths.synths@[k].0 != track_id
            ==> #[trigger] final(graph).synths.synths@[k] == old(graph).synths.synths@[k],
        final(graph).tracks == old(graph).tracks,
{
    let ts = graph.transport.playhead_samples;
    graph.midi_recorder.record_event(MidiEvent::note_on(note, velocity, ts));
    let ghost mid = graph.synths;
    let slot = graph.synths.note_on(track_id, note, velocity);
    proof {
        if slot.is_some() {
            let i = choose|i: int| 0 <= i < mid.synths@.len() && mid.synths@[i].0 == track_id
                && graph.synths.synths@.len() == mid.synths@.len()
                && crate::synth::count_active(graph.synths.synths@[i].1.voices@) >= 1;
            assert(graph.synths.synths@[i].0 == mid.synths@[i].0);
        }
    }
    let mut m = msg_num("Track ", track_id, " note on: ");
    let n = format_u64(note as u64);
    m.append(n.as_str());
    Ok(m)
}

/// Releases a note on a track's instrument, and records it when a MIDI take
/// runs.
pub fn send_track_midi_note_off<S>(graph: &mut AudioGraph<S>, track_id: u64, note: u8, velocity: u8) -> (r: Result<String, String>)
    requires
        old(graph).wf(),
    ensures
        final(graph).wf(),
        r.is_ok(),
        old(graph).midi_recorder.state == MidiRecordingState::Recording ==> final(graph).midi_recorder.events@
            == old(graph).midi_recorder.events@.push(crate::midi_recorder::relative_event(
            MidiEvent { event_type: MidiEventType::NoteOff { note, velocity }, timestamp_samples: old(graph).transport.playhead_samples },
            old(graph).midi_recorder.start_timestamp,
        )),
        old(graph).midi_recorder.state != MidiRecordingState::Recording ==> final(graph).midi_recorder.events@
            == old(graph).midi_recorder.events@,
        final(graph).synths.synths@.len() == old(graph).synths.synths@.len(),
        forall|k: int| 0 <= k < old(graph).synths.synths@.len() && old(graph).synths.synths@[k].0 == track_id
            ==> crate::synth::pool_released(old(graph).synths.synths@[k].1, #[trigger] final(graph).synths.synths@[k].1, note),
        forall|k: int| 0 <= k < old(graph).synths.synths@.len() && old(graph).synths.synths@[k].0 != track_id
            ==> #[trigger] final(graph).synths.synths@[k] == old(graph).synths.synths@[k],
        final(graph).tracks == old(graph).tracks,
{
    let ts = graph.transport.playhead_samples;
    graph.midi_recorder.record_event(MidiEvent::note_off(note, velocity, ts));
    graph.synths.note_off(track_id, note);
    let mut m = msg_num("Track ", track_id, " note off: ");
    let n = format_u64(note as u64);
    m.append(n.as_str());
    Ok(m)
}

// ---------------------------------------------------------------------------
// MIDI clip editing
// ---------------------------------------------------------------------------

/// Number of MIDI clips on the timeline.
pub fn get_midi_clip_count<S>(graph: &AudioGraph<S>) -> (r: Result<usize, String>)
    ensures
        r == Ok::<usize, String>(graph.midi_clips@.len() as usize),
{
    Ok(graph.midi_clip_count())
}

/// Puts an empty MIDI clip on the timeline at the start.
pub fn create_midi_clip<S>(graph: &mut AudioGraph<S>) -> (r: Result<u64, String>)
    requires
        old(graph).wf(),
    ensures
        final(graph).wf(),
        r.is_ok() == (old(graph).next_clip_id < u64::MAX),
        r matches Ok(id) ==> id == old(graph).next_clip_id && final(graph).midi_clips@.len() == old(graph).midi_clips@.len() + 1
            && final(graph).midi_clips@.last().id == id && final(graph).midi_clips@.last().clip.events@.len() == 0,
        r matches Ok(id) ==> (forall|i: int| 0 <= i < old(graph).midi_clips@.len() ==> old(graph).midi_clips@[i].id != id)
            && (forall|i: int, j: int| 0 <= i < old(graph).tracks.tracks@.len() && 0 <= j < old(
            graph).tracks.tracks@[i].audio_clips@.len() ==> #[trigger] old(graph).tracks.tracks@[i].audio_clips@[j].id != id),
        r matches Ok(_) ==> final(graph).midi_clips@.subrange(0, old(graph).midi_clips@.len() as int) == old(graph).midi_clips@,
{
    let clip = MidiClip::new(crate::recorder::SAMPLE_RATE);
    match graph.add_midi_clip(clip, 0) {
        Some(id) => Ok(id),
        None => Err("Clip ids exhausted".to_owned()),
    }
}

/// The message for an unknown MIDI clip.
pub open spec fn midi_clip_missing() -> Seq<char> {
    "MIDI clip not found"@
}

/// Adds a note (a note-on and, `duration_frames` later, a note-off at
/// velocity 64) to a clip; times are frames from the clip's start.
pub fn add_midi_note_to_clip<S>(
    graph: &mut AudioGraph<S>,
    clip_id: u64,
    note: u8,
    velocity: u8,
    start_frame: u64,
    duration_frames: u64,
) -> (r: Result<String, String>)
    requires
        old(graph).wf(),
    ensures
        final(graph).wf(),
        r.is_ok() == (old(graph).has_midi_clip(clip_id) && start_frame as int + duration_frames as int <= u64::MAX
            && (forall|i: int| 0 <= i < old(graph).midi_clips@.len() && old(graph).midi_clips@[i].id == clip_id
            ==> old(graph).midi_clips@[i].clip.events@.len() + 2 < usize::MAX)),
        r.is_err() ==> *final(graph) == *old(graph),
        r.is_ok() ==> exists|i: int| 0 <= i < final(graph).midi_clips@.len() && final(graph).midi_clips@[i].id == clip_id
            && final(graph).midi_clips@[i].clip.events@.len() == old(graph).midi_clips@[i].clip.events@.len() + 2
            && final(graph).midi_clips@[i].clip.events@.contains(MidiEvent {
                event_type: MidiEventType::NoteOn { note, velocity },
                timestamp_samples: start_frame,
            })
            && final(graph).midi_clips@[i].clip.events@.contains(MidiEvent {
                event_type: MidiEventType::NoteOff { note, velocity: 64 },
                timestamp_samples: (start_frame + duration_frames) as u64,
            })
            && (forall|k: int| 0 <= k < old(graph).midi_clips@[i].clip.events@.len()
                ==> final(graph).midi_clips@[i].clip.events@.contains(old(graph).midi_clips@[i].clip.events@[k]))
            && crate::graph::clips_kept(old(graph).midi_clips@, final(graph).midi_clips@, i),
        r.is_ok() ==> *final(graph) == (AudioGraph { midi_clips: final(graph).midi_clips, ..*old(graph) }),
        final(graph).midi_clips@.len() == old(graph).midi_clips@.len(),
{
    let i = match graph.find_midi_clip(clip_id) {
        Some(i) => i,
        None => return Err("MIDI clip not found".to_owned()),
    };
    if duration_frames > u64::MAX - start_frame || graph.midi_clips[i].clip.events.len() >= usize::MAX - 2 {
        proof {
            assert forall|k: int| 0 <= k < old(graph).midi_clips@.len() && old(graph).midi_clips@[k].id == clip_id implies
                !(old(graph).midi_clips@[k].clip.events@.len() + 2 < usize::MAX && start_frame as int + duration_frames as int <= u64::MAX) by {
                assert(k == i as int);
            }
        }
        return Err("Note does not fit in the clip".to_owned());
    }
    let on = MidiEvent::note_on(note, velocity, start_frame);
    let off = MidiEvent::note_off(note, 64, start_frame + duration_frames);
    let ghost e0 = graph.midi_clips@[i as int].clip.events@;
    graph.midi_clips[i].clip.add_event(on);
    let ghost e1 = graph.midi_clips@[i as int].clip.events@;
    proof {
        let p = choose|p: int| 0 <= p <= e0.len() && e1 == e0.insert(p, on) && (forall|k: int| 0 <= k < p
            ==> e0[k].timestamp_samples <= on.timestamp_samples) && (p < e0.len() ==> e0[p].timestamp_samples
            > on.timestamp_samples);
        assert(e1[p] == on);
        assert forall|k: int| 0 <= k < e0.len() implies e1.contains(e0[k]) by {
            if k < p {
                assert(e1[k] == e0[k]);
            } else {
                assert(e1[k + 1] == e0[k]);
            }
        }
    }
    graph.midi_clips[i].clip.add_event(off);
    proof {
        let e2 = graph.midi_clips@[i as int].clip.events@;
        let p = choose|p: int| 0 <= p <= e1.len() && e2 == e1.insert(p, off) && (forall|k: int| 0 <= k < p
            ==> e1[k].timestamp_samples <= off.timestamp_samples) && (p < e1.len() ==> e1[p].timestamp_samples
            > off.timestamp_samples);
        assert(e2[p] == off);
        assert forall|k: int| 0 <= k < e1.len() implies e2.contains(e1[k]) by {
            if k < p {
                assert(e2[k] == e1[k]);
            } else {
                assert(e2[k + 1] == e1[k]);
            }
        }
        assert forall|k: int| 0 <= k < e0.len() implies e2.contains(e0[k]) by {
            let j = choose|j: int| 0 <= j < e1.len() && e1[j] == e0[k];
            assert(e2.contains(e1[j]));
        }
        assert(e1.contains(on));
        let j = choose|j: int| 0 <= j < e1.len() && e1[j] == on;
        assert(e2.contains(e1[j]));
        lemma_midi_clips_same_ids(old(graph), graph, i as int);
        assert(crate::graph::clips_kept(old(graph).midi_clips@, graph.midi_clips@, i as int));
    }
    ok_msg("Added note")
}

/// An event as (kind, note, velocity, frame): kind 0 for a note-on, 1 for
/// a note-off.
pub open spec fn event_tuple(e: MidiEvent) -> (i32, u8, u8, u64) {
    match e.event_type {
        MidiEventType::NoteOn { note, velocity } => (0, note, velocity, e.timestamp_samples),
        MidiEventType::NoteOff { note, velocity } => (1, note, velocity, e.timestamp_samples),
    }
}

/// A clip's events, in order, as (kind, note, velocity, frame).
pub fn get_midi_clip_events<S>(graph: &AudioGraph<S>, clip_id: u64) -> (r: Result<Vec<(i32, u8, u8, u64)>, String>)
    ensures
        r.is_ok() == graph.has_midi_clip(clip_id),
        r matches Err(e) ==> e@ == midi_clip_missing(),
        r matches Ok(v) ==> exists|i: int| 0 <= i < graph.midi_clips@.len() && graph.midi_clips@[i].id == clip_id
            && v@ == graph.midi_clips@[i].clip.events@.map_values(|e: MidiEvent| event_tuple(e)),
{
    let i = match graph.find_midi_clip(clip_id) {
        Some(i) => i,
        None => return Err("MIDI clip not found".to_owned()),
    };
    let events = &graph.midi_clips[i].clip.events;
    let mut out: Vec<(i32, u8, u8, u64)> = Vec::new();
    let mut k: usize = 0;
    while k < events.len()
        invariant
            k <= events@.len(),
            out@ == events@.subrange(0, k as int).map_values(|e: MidiEvent| event_tuple(e)),
        decreases events@.len() - k,
    {
        let e = events[k];
        let t = match e.event_type {
            MidiEventType::NoteOn { note, velocity } => (0i32, note, velocity, e.timestamp_samples),
            MidiEventType::NoteOff { note, velocity } => (1i32, note, velocity, e.timestamp_samples),
        };
        out.push(t);
        proof {
            assert(events@.subrange(0, k + 1).map_values(|e: MidiEvent| event_tuple(e)) =~= events@.subrange(
                0,
                k as int,
            ).map_values(|e: MidiEvent| event_tuple(e)).push(event_tuple(events@[k as int])));
        }
        k = k + 1;
    }
    assert(events@.subrange(0, events@.len() as int) =~= events@);
    Ok(out)
}

/// Takes the event at `event_index` out of a clip.
pub fn remove_midi_event<S>(graph: &mut AudioGraph<S>, clip_id: u64, event_index: usize) -> (r: Result<String, String>)
    requires
        old(graph).wf(),
    ensures
        final(graph).wf(),
        !old(graph).has_midi_clip(clip_id) ==> (r matches Err(e) && e@ == midi_clip_missing()),
        r.is_ok() == exists|i: int| 0 <= i < old(graph).midi_clips@.len() && old(graph).midi_clips@[i].id == clip_id
            && event_index < old(graph).midi_clips@[i].clip.events@.len(),
        r.is_err() ==> *final(graph) == *old(graph),
        r.is_ok() ==> exists|i: int| 0 <= i < old(graph).midi_clips@.len() && old(graph).midi_clips@[i].id == clip_id
            && final(graph).midi_clips@[i].clip.events@ == old(graph).midi_clips@[i].clip.events@.remove(event_index as int)
            && final(graph).midi_clips@[i].id == clip_id
            && final(graph).midi_clips@[i].start_frame == old(graph).midi_clips@[i].start_frame
            && final(graph).midi_clips@[i].track_id == old(graph).midi_clips@[i].track_id
            && crate::graph::clips_kept(old(graph).midi_clips@, final(graph).midi_clips@, i),
        old(graph).has_midi_clip(clip_id) && r.is_err() ==> (r matches Err(e) && e@ == "Event index out of bounds"@),
        r matches Ok(m) ==> m@ == num_msg("Removed event at index "@, event_index as u64, ""@),
        r.is_ok() ==> *final(graph) == (AudioGraph { midi_clips: final(graph).midi_clips, ..*old(graph) }),
        final(graph).midi_clips@.len() == old(graph).midi_clips@.len(),
{
    let i = match graph.find_midi_clip(clip_id) {
        Some(i) => i,
        None => return Err("MIDI clip not found".to_owned()),
    };
    if event_index >= graph.midi_clips[i].clip.events.len() {
        proof {
            assert forall|k: int| 0 <= k < old(graph).midi_clips@.len() && old(graph).midi_clips@[k].id == clip_id implies
                !(event_index < old(graph).midi_clips@[k].clip.events@.len()) by {
                assert(k == i as int);
            }
        }
        return Err("Event index out of bounds".to_owned());
    }
    graph.midi_clips[i].clip.remove_event(event_index);
    proof {
        lemma_midi_clips_same_ids(old(graph), graph, i as int);
        assert(crate::graph::clips_kept(old(graph).midi_clips@, graph.midi_clips@, i as int));
    }
    Ok(msg_num("Removed event at index ", event_index as u64, ""))
}

/// Drops every event of a clip.
pub fn clear_midi_clip<S>(graph: &mut AudioGraph<S>, clip_id: u64) -> (r: Result<String, String>)
    requires
        old(graph).wf(),
    ensures
        final(graph).wf(),
        r.is_ok() == old(graph).has_midi_clip(clip_id),
        r matches Err(e) ==> e@ == midi_clip_missing(),
        r.is_err() ==> *final(graph) == *old(graph),
        r.is_ok() ==> forall|i: int| 0 <= i < final(graph).midi_clips@.len() && final(graph).midi_clips@[i].id == clip_id
            ==> final(graph).midi_clips@[i].clip.events@.len() == 0,
        r matches Ok(m) ==> m@ == "Cleared all events"@,
        r.is_ok() ==> exists|i: int| 0 <= i < old(graph).midi_clips@.len() && old(graph).midi_clips@[i].id == clip_id
            && crate::graph::clips_kept(old(graph).midi_clips@, final(graph).midi_clips@, i),
        r.is_ok() ==> *final(graph) == (AudioGraph { midi_clips: final(graph).midi_clips, ..*old(graph) }),
{
    let i = match graph.find_midi_clip(clip_id) {
        Some(i) => i,
        None => return Err("MIDI clip not found".to_owned()),
    };
    graph.midi_clips[i].clip.clear();
    proof {
        lemma_midi_clips_same_ids(old(graph), graph, i as int);
        assert(crate::graph::clips_kept(old(graph).midi_clips@, graph.midi_clips@, i as int));
        assert forall|k: int| 0 <= k < graph.midi_clips@.len() && graph.midi_clips@[k].id == clip_id implies
            graph.midi_clips@[k].clip.events@.len() == 0 by {
            if k != i {
                assert(old(graph).midi_clips@[k].id == graph.midi_clips@[k].id);
            }
        }
    }
    ok_msg("Cleared all events")
}

/// Frames in one beat at the reference tempo of 120 BPM.
pub const FRAMES_PER_REFERENCE_BEAT: u64 = 24000;

/// Snaps a clip's events to a grid of one beat at 120 BPM divided by
/// `grid_division`; a division of zero is refused.
pub fn quantize_midi_clip<S>(graph: &mut AudioGraph<S>, clip_id: u64, grid_division: u32) -> (r: Result<String, String>)
    requires
        old(graph).wf(),
    ensures
        final(graph).wf(),
        r.is_ok() == (old(graph).has_midi_clip(clip_id) && grid_division > 0),
        !old(graph).has_midi_clip(clip_id) ==> (r matches Err(e) && e@ == midi_clip_missing()),
        r.is_err() ==> *final(graph) == *old(graph),
        r.is_ok() ==> exists|i: int| 0 <= i < old(graph).midi_clips@.len() && old(graph).midi_clips@[i].id == clip_id
            && final(graph).midi_clips@[i].clip.events@.len() == old(graph).midi_clips@[i].clip.events@.len()
            && forall|k: int| 0 <= k < old(graph).midi_clips@[i].clip.events@.len() ==> #[trigger] final(graph).midi_clips@[i].clip.events@[k]
                == crate::midi::quantized_event(
                old(graph).midi_clips@[i].clip.events@[k],
                (FRAMES_PER_REFERENCE_BEAT / grid_division as u64) as u64,
            ),
{
    let i = match graph.find_midi_clip(clip_id) {
        Some(i) => i,
        None => return Err("MIDI clip not found".to_owned()),
    };
    if grid_division == 0 {
        return Err("Invalid grid division".to_owned());
    }
    let grid = FRAMES_PER_REFERENCE_BEAT / (grid_division as u64);
    graph.midi_clips[i].clip.quantize(grid);
    proof {
        lemma_midi_clips_same_ids(old(graph), graph, i as int);
    }
    Ok(msg_num("Quantized to 1/", grid_division as u64, " note grid"))
}

/// Editing one clip's events keeps the ids of every clip, so the graph stays
/// well formed.
proof fn lemma_midi_clips_same_ids<S>(before: &AudioGraph<S>, after: &AudioGraph<S>, idx: int)
    requires
        before.wf(),
        0 <= idx < before.midi_clips@.len(),
        after.midi_clips@.len() == before.midi_clips@.len(),
        forall|k: int| 0 <= k < before.midi_clips@.len() && k != idx ==> after.midi_clips@[k] == before.midi_clips@[k],
        after.midi_clips@[idx].id == before.midi_clips@[idx].id,
        after.next_clip_id == before.next_clip_id,
        after.tracks == before.tracks,
        after.effects == before.effects,
        after.recorder == before.recorder,
        after.midi_recorder == before.midi_recorder,
        after.synths == before.synths,
        after.live_synth == before.live_synth,
    ensures
        after.wf(),
        forall|k: int| 0 <= k < after.midi_clips@.len() ==> after.midi_clips@[k].id == before.midi_clips@[k].id,
{
    assert forall|k: int| 0 <= k < after.midi_clips@.len() implies after.midi_clips@[k].id == before.midi_clips@[k].id by {
        if k != idx {
            assert(after.midi_clips@[k] == before.midi_clips@[k]);
        }
    }
}

/// Checks that an effect exists and has the named parameter, and returns
/// its kind; the caller then stores the value, which only it holds.
pub fn set_effect_parameter<S>(graph: &AudioGraph<S>, effect_id: u64, param_name: &str) -> (r: Result<EffectKind, String>)
    requires
        graph.wf(),
    ensures
        !graph.effects.has(effect_id) ==> (r matches Err(e) && e@ == num_msg("Effect "@, effect_id, " not found"@)),
        r.is_ok() == (exists|i: int| 0 <= i < graph.effects.effects@.len() && graph.effects.effects@[i].0 == effect_id
            && crate::effects::has_parameter_spec(graph.effects.effects@[i].1, param_name@)),
        r matches Ok(k) ==> exists|i: int| 0 <= i < graph.effects.effects@.len() && graph.effects.effects@[i] == (effect_id, k),
        graph.effects.has(effect_id) && r.is_err() ==> exists|i: int| 0 <= i < graph.effects.effects@.len()
            && graph.effects.effects@[i].0 == effect_id && (r matches Err(e) && e@ == "Unknown "@
            + crate::effects::effect_label_spec(graph.effects.effects@[i].1) + " parameter: "@ + param_name@),
{
    match graph.effects.get_effect(effect_id) {
        None => Err(msg_num("Effect ", effect_id, " not found")),
        Some(kind) => {
            if kind.has_parameter(param_name) {
                Ok(kind)
            } else {
                proof {
                    assert forall|i: int| 0 <= i < graph.effects.effects@.len() && graph.effects.effects@[i].0 == effect_id implies
                        !crate::effects::has_parameter_spec(graph.effects.effects@[i].1, param_name@) by {
                        let j = choose|j: int| 0 <= j < graph.effects.effects@.len() && graph.effects.effects@[j] == (effect_id, kind);
                        if i < j {
                            assert(graph.effects.effects@[i].0 < graph.effects.effects@[j].0);
                        } else if i > j {
                            assert(graph.effects.effects@[j].0 < graph.effects.effects@[i].0);
                        }
                    }
                }
                let mut e = "Unknown ".to_owned();
                e.append(kind.label());
                e.append(" parameter: ");
                e.append(param_name);
                Err(e)
            }
        },
    }
}

/// The track type a project file names (as saved, case included); an
/// unknown name restores as an audio track.
pub open spec fn saved_track_type(s: Seq<char>) -> TrackType {
    if s == "Midi"@ || s == "MIDI"@ {
        TrackType::Midi
    } else if s == "Return"@ {
        TrackType::Return
    } else if s == "Group"@ {
        TrackType::Group
    } else if s == "Master"@ {
        TrackType::Master
    } else {
        TrackType::Audio
    }
}

pub fn track_type_from_saved(s: &str) -> (r: TrackType)
    ensures
        r == saved_track_type(s@),
{
    if str_eq(s, "Midi") || str_eq(s, "MIDI") {
        TrackType::Midi
    } else if str_eq(s, "Return") {
        TrackType::Return
    } else if str_eq(s, "Group") {
        TrackType::Group
    } else if str_eq(s, "Master") {
        TrackType::Master
    } else {
        TrackType::Audio
    }
}

} // verus!
