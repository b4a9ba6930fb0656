use vstd::prelude::*;
use crate::graph::TimelineMidiClip;
use crate::midi::{MidiClip, MidiEvent};
use crate::recorder::SAMPLE_RATE;
use crate::track::{AudioClipPlacement, Track, TrackManager};

verus! {

/// A track sounds unless muted, or unless some track is soloed and it is not.
pub open spec fn audible_spec(muted: bool, soloed: bool, any_solo: bool) -> bool {
    !muted && (!any_solo || soloed)
}

pub fn track_is_audible(muted: bool, soloed: bool, any_solo: bool) -> (r: bool)
    ensures
        r == audible_spec(muted, soloed, any_solo),
{
    !muted && (!any_solo || soloed)
}

/// Ids of the non-master tracks that sound, in registry order.
pub open spec fn audible_ids_spec(ts: Seq<Track>, any_solo: bool) -> Seq<u64>
    decreases ts.len(),
{
    if ts.len() <= 1 {
        Seq::empty()
    } else {
        let rest = audible_ids_spec(ts.drop_last(), any_solo);
        let t = ts.last();
        if audible_spec(t.mute, t.solo, any_solo) { rest.push(t.id) } else { rest }
    }
}

proof fn lemma_audible_ids_members(ts: Seq<Track>, any_solo: bool, id: u64)
    ensures
        audible_ids_spec(ts, any_solo).contains(id) <==> exists|i: int| 1 <= i < ts.len() && ts[i].id == id
            && audible_spec(ts[i].mute, ts[i].solo, any_solo),
    decreases ts.len(),
{
    if ts.len() <= 1 {
    } else {
        let pre = ts.drop_last();
        lemma_audible_ids_members(pre, any_solo, id);
        let rest = audible_ids_spec(pre, any_solo);
        let t = ts.last();
        if exists|i: int| 1 <= i < ts.len() && ts[i].id == id && audible_spec(ts[i].mute, ts[i].solo, any_solo) {
            let i = choose|i: int| 1 <= i < ts.len() && ts[i].id == id && audible_spec(ts[i].mute, ts[i].solo, any_solo);
            if i < ts.len() - 1 {
                assert(pre[i] == ts[i]);
                if audible_spec(t.mute, t.solo, any_solo) {
                    assert(rest.contains(id));
                    let j = choose|j: int| 0 <= j < rest.len() && rest[j] == id;
                    assert(rest.push(t.id)[j] == id);
                }
            } else {
                assert(audible_ids_spec(ts, any_solo) == rest.push(t.id));
                assert(rest.push(t.id)[rest.len() as int] == id);
            }
        } else {
            if rest.contains(id) {
                let i = choose|i: int| 1 <= i < pre.len() && pre[i].id == id && audible_spec(pre[i].mute, pre[i].solo, any_solo);
                assert(ts[i] == pre[i]);
            }
            if audible_spec(t.mute, t.solo, any_solo) {
                assert(t.id != id) by {
                    if t.id == id {
                        assert(ts[ts.len() - 1] == t);
                    }
                }
                assert forall|j: int| 0 <= j < rest.push(t.id).len() implies rest.push(t.id)[j] != id by {
                    if j < rest.len() {
                        assert(rest.push(t.id)[j] == rest[j]);
                    }
                }
            }
        }
    }
}

/// The ids of the non-master tracks that sound on this buffer.
pub fn audible_track_ids(tm: &TrackManager) -> (r: Vec<u64>)
    requires
        tm.wf(),
    ensures
        r@ == audible_ids_spec(tm.tracks@, tm.has_solo_spec()),
        forall|id: u64| r@.contains(id) <==> exists|i: int| 1 <= i < tm.tracks@.len() && tm.tracks@[i].id == id
            && audible_spec(tm.tracks@[i].mute, tm.tracks@[i].solo, tm.has_solo_spec()),
{
    let any_solo = tm.has_solo();
    let mut v: Vec<u64> = Vec::new();
    let mut i: usize = 1;
    while i < tm.tracks.len()
        invariant
            1 <= i <= tm.tracks@.len(),
            any_solo == tm.has_solo_spec(),
            v@ == audible_ids_spec(tm.tracks@.subrange(0, i as int), any_solo),
        decreases tm.tracks@.len() - i,
    {
        proof {
            assert(tm.tracks@.subrange(0, i + 1).drop_last() =~= tm.tracks@.subrange(0, i as int));
        }
        if track_is_audible(tm.tracks[i].mute, tm.tracks[i].solo, any_solo) {
            v.push(tm.tracks[i].id);
        }
        i = i + 1;
    }
    proof {
        assert(tm.tracks@.subrange(0, tm.tracks@.len() as int) =~= tm.tracks@);
        assert forall|id: u64| v@.contains(id) <==> exists|i: int| 1 <= i < tm.tracks@.len() && tm.tracks@[i].id == id
            && audible_spec(tm.tracks@[i].mute, tm.tracks@[i].solo, tm.has_solo_spec()) by {
            lemma_audible_ids_members(tm.tracks@, any_solo, id);
        }
    }
    v
}

/// With a soloed track in the registry, a track that is not soloed is left
/// out of the mix even when unmuted; with no track soloed, every unmuted
/// track is mixed.
pub proof fn lemma_mute_solo(tm: &TrackManager, a: int, b: int)
    requires
        tm.wf(),
        1 <= a < tm.tracks@.len(),
        1 <= b < tm.tracks@.len(),
    ensures
        tm.tracks@[b].solo && !tm.tracks@[a].solo ==> !audible_ids_spec(tm.tracks@, tm.has_solo_spec()).contains(
            tm.tracks@[a].id,
        ),
        !tm.has_solo_spec() && !tm.tracks@[a].mute ==> audible_ids_spec(tm.tracks@, tm.has_solo_spec()).contains(
            tm.tracks@[a].id,
        ),
{
    let ts = tm.tracks@;
    lemma_audible_ids_members(ts, tm.has_solo_spec(), ts[a].id);
    if ts[b].solo && !ts[a].solo {
        assert(tm.has_solo_spec());
        if audible_ids_spec(ts, tm.has_solo_spec()).contains(ts[a].id) {
            let i = choose|i: int| 1 <= i < ts.len() && ts[i].id == ts[a].id && audible_spec(ts[i].mute, ts[i].solo, tm.has_solo_spec());
            if i < a {
                assert(ts[i].id < ts[a].id);
            } else if i > a {
                assert(ts[a].id < ts[i].id);
            }
        }
    }
}

/// Length a placed clip plays, in frames.
pub open spec fn play_length(p: AudioClipPlacement) -> u64 {
    match p.duration_frames {
        Some(d) => d,
        None => p.clip_frames,
    }
}

/// First frame after a placed clip, held to the largest frame.
pub open spec fn placement_end(p: AudioClipPlacement) -> u64 {
    if p.start_frame as int + play_length(p) as int > u64::MAX as int {
        u64::MAX
    } else {
        (p.start_frame + play_length(p)) as u64
    }
}

pub fn clip_end_frame(p: &AudioClipPlacement) -> (r: u64)
    ensures
        r == placement_end(*p),
{
    let len = match p.duration_frames {
        Some(d) => d,
        None => p.clip_frames,
    };
    if len > u64::MAX - p.start_frame {
        u64::MAX
    } else {
        p.start_frame + len
    }
}

/// The frame of the clip's audio heard at timeline frame `frame`: `None`
/// outside the span the clip plays or past the end of its audio.
pub open spec fn clip_frame_spec(p: AudioClipPlacement, frame: u64) -> Option<u64> {
    if p.start_frame <= frame && frame < placement_end(p)
        && (frame - p.start_frame) + p.offset_frames < p.clip_frames {
        Some(((frame - p.start_frame) + p.offset_frames) as u64)
    } else {
        None
    }
}

pub fn clip_frame_at(p: &AudioClipPlacement, frame: u64) -> (r: Option<u64>)
    ensures
        r == clip_frame_spec(*p, frame),
{
    let end = clip_end_frame(p);
    if p.start_frame <= frame && frame < end {
        let into = frame - p.start_frame;
        if into < p.clip_frames && p.offset_frames < p.clip_frames - into {
            return Some(into + p.offset_frames);
        }
    }
    None
}

/// The frame inside a MIDI clip placed at `start` that timeline frame
/// `frame` falls on; the clip's last frame is included so that a note-off
/// at its very end still fires.
pub open spec fn midi_frame_spec(start: u64, duration: u64, frame: u64) -> Option<u64> {
    if start <= frame && frame as int <= start as int + duration as int {
        Some((frame - start) as u64)
    } else {
        None
    }
}

pub fn midi_clip_frame(start: u64, duration: u64, frame: u64) -> (r: Option<u64>)
    ensures
        r == midi_frame_spec(start, duration, frame),
{
    if start <= frame && frame - start <= duration {
        Some(frame - start)
    } else {
        None
    }
}

/// The events of a clip timed exactly at `at`, in clip order.
pub open spec fn events_at_spec(es: Seq<MidiEvent>, at: u64) -> Seq<MidiEvent>
    decreases es.len(),
{
    if es.len() == 0 {
        Seq::empty()
    } else {
        let rest = events_at_spec(es.drop_last(), at);
        if es.last().timestamp_samples == at { rest.push(es.last()) } else { rest }
    }
}

/// The events to dispatch on the frame `at` of a clip.
pub fn events_at(clip: &MidiClip, at: u64) -> (r: Vec<MidiEvent>)
    ensures
        r@ == events_at_spec(clip.events@, at),
{
    let mut v: Vec<MidiEvent> = Vec::new();
    let mut i: usize = 0;
    while i < clip.events.len()
        invariant
            i <= clip.events@.len(),
            v@ == events_at_spec(clip.events@.subrange(0, i as int), at),
        decreases clip.events@.len() - i,
    {
        proof {
            assert(clip.events@.subrange(0, i + 1).drop_last() =~= clip.events@.subrange(0, i as int));
        }
        if clip.events[i].timestamp_samples == at {
            v.push(clip.events[i]);
        }
        i = i + 1;
    }
    assert(clip.events@.subrange(0, clip.events@.len() as int) =~= clip.events@);
    v
}

/// The latest end among placements.
pub open spec fn max_end(ps: Seq<AudioClipPlacement>) -> u64
    decreases ps.len(),
{
    if ps.len() == 0 {
        0
    } else {
        let m = max_end(ps.drop_last());
        let e = placement_end(ps.last());
        if e > m { e } else { m }
    }
}

/// The latest clip end over tracks.
pub open spec fn project_end_spec(ts: Seq<Track>) -> u64
    decreases ts.len(),
{
    if ts.len() == 0 {
        0
    } else {
        let m = project_end_spec(ts.drop_last());
        let e = max_end(ts.last().audio_clips@);
        if e > m { e } else { m }
    }
}

fn placements_end(ps: &Vec<AudioClipPlacement>) -> (r: u64)
    ensures
        r == max_end(ps@),
{
    let mut m: u64 = 0;
    let mut i: usize = 0;
    while i < ps.len()
        invariant
            i <= ps@.len(),
            m == max_end(ps@.subrange(0, i as int)),
        decreases ps@.len() - i,
    {
        proof {
            assert(ps@.subrange(0, i + 1).drop_last() =~= ps@.subrange(0, i as int));
        }
        let e = clip_end_frame(&ps[i]);
        if e > m {
            m = e;
        }
        i = i + 1;
    }
    assert(ps@.subrange(0, ps@.len() as int) =~= ps@);
    m
}

/// The frame at which the last clip of any track ends.
pub fn project_end_frame(tm: &TrackManager) -> (r: u64)
    ensures
        r == project_end_spec(tm.tracks@),
{
    let mut m: u64 = 0;
    let mut i: usize = 0;
    while i < tm.tracks.len()
        invariant
            i <= tm.tracks@.len(),
            m == project_end_spec(tm.tracks@.subrange(0, i as int)),
        decreases tm.tracks@.len() - i,
    {
        proof {
            assert(tm.tracks@.subrange(0, i + 1).drop_last() =~= tm.tracks@.subrange(0, i as int));
        }
        let e = placements_end(&tm.tracks[i].audio_clips);
        if e > m {
            m = e;
        }
        i = i + 1;
    }
    assert(tm.tracks@.subrange(0, tm.tracks@.len() as int) =~= tm.tracks@);
    m
}

/// The latest end among the MIDI clips placed on a track, each ending at
/// its start plus its length (held to the largest frame).
pub open spec fn midi_end_spec(cs: Seq<TimelineMidiClip>) -> u64
    decreases cs.len(),
{
    if cs.len() == 0 {
        0
    } else {
        let m = midi_end_spec(cs.drop_last());
        let c = cs.last();
        let e: u64 = if c.start_frame as int + c.clip.duration_samples as int > u64::MAX as int {
            u64::MAX
        } else {
            (c.start_frame + c.clip.duration_samples) as u64
        };
        if c.track_id.is_some() && e > m { e } else { m }
    }
}

/// The frame at which the last MIDI clip placed on a track ends.
pub fn midi_clips_end_frame(cs: &Vec<TimelineMidiClip>) -> (r: u64)
    ensures
        r == midi_end_spec(cs@),
{
    let mut m: u64 = 0;
    let mut i: usize = 0;
    while i < cs.len()
        invariant
            i <= cs@.len(),
            m == midi_end_spec(cs@.subrange(0, i as int)),
        decreases cs@.len() - i,
    {
        proof {
            assert(cs@.subrange(0, i + 1).drop_last() =~= cs@.subrange(0, i as int));
        }
        let c = &cs[i];
        let e = if c.clip.duration_samples > u64::MAX - c.start_frame {
            u64::MAX
        } else {
            c.start_frame + c.clip.duration_samples
        };
        if c.track_id.is_some() && e > m {
            m = e;
        }
        i = i + 1;
    }
    assert(cs@.subrange(0, cs@.len() as int) =~= cs@);
    m
}

/// Frames an export renders: the latest end of any audio clip or placed
/// MIDI clip, plus one second of tail.
pub open spec fn render_frames_spec(ts: Seq<Track>, cs: Seq<TimelineMidiClip>) -> int {
    (if project_end_spec(ts) >= midi_end_spec(cs) { project_end_spec(ts) } else { midi_end_spec(cs) }) as int
        + SAMPLE_RATE as int
}

/// Number of frames an offline render produces, `None` where it passes the
/// largest frame.
pub fn render_frame_count(tm: &TrackManager, midi_clips: &Vec<TimelineMidiClip>) -> (r: Option<u64>)
    ensures
        r matches Some(n) ==> n as int == render_frames_spec(tm.tracks@, midi_clips@),
        r.is_none() <==> render_frames_spec(tm.tracks@, midi_clips@) > u64::MAX as int,
{
    let audio_end = project_end_frame(tm);
    let midi_end = midi_clips_end_frame(midi_clips);
    let end = if audio_end >= midi_end { audio_end } else { midi_end };
    if end > u64::MAX - (SAMPLE_RATE as u64) {
        None
    } else {
        Some(end + SAMPLE_RATE as u64)
    }
}

/// Number of interleaved stereo samples an offline render produces.
pub fn render_sample_count(tm: &TrackManager, midi_clips: &Vec<TimelineMidiClip>) -> (r: Option<u64>)
    ensures
        r matches Some(n) ==> n as int == 2 * render_frames_spec(tm.tracks@, midi_clips@),
        r.is_none() <==> 2 * render_frames_spec(tm.tracks@, midi_clips@) > u64::MAX as int,
{
    match render_frame_count(tm, midi_clips) {
        Some(n) => if n > u64::MAX / 2 {
            None
        } else {
            Some(n * 2)
        },
        None => None,
    }
}

proof fn lemma_midi_end_unplaced(cs: Seq<TimelineMidiClip>)
    requires
        forall|i: int| 0 <= i < cs.len() ==> cs[i].track_id.is_none(),
    ensures
        midi_end_spec(cs) == 0,
    decreases cs.len(),
{
    if cs.len() > 0 {
        lemma_midi_end_unplaced(cs.drop_last());
        assert(cs.last().track_id.is_none());
    }
}

/// A project whose only clip is an audio clip that starts at the beginning
/// and plays its full length renders that length plus one second, in stereo.
pub proof fn lemma_single_clip_render(tm: &TrackManager, midi_clips: Seq<TimelineMidiClip>, k: int)
    requires
        tm.wf(),
        forall|i: int| 0 <= i < midi_clips.len() ==> midi_clips[i].track_id.is_none(),
        0 <= k < tm.tracks@.len(),
        tm.tracks@[k].audio_clips@.len() == 1,
        tm.tracks@[k].audio_clips@[0].start_frame == 0,
        forall|j: int| 0 <= j < tm.tracks@.len() && j != k ==> tm.tracks@[j].audio_clips@.len() == 0,
    ensures
        2 * render_frames_spec(tm.tracks@, midi_clips) == 2 * (play_length(tm.tracks@[k].audio_clips@[0]) as int
            + SAMPLE_RATE as int),
{
    let p = tm.tracks@[k].audio_clips@[0];
    assert(tm.tracks@[k].audio_clips@.drop_last() =~= Seq::<AudioClipPlacement>::empty());
    assert(max_end(tm.tracks@[k].audio_clips@.drop_last()) == 0);
    assert(tm.tracks@[k].audio_clips@.last() == p);
    assert(max_end(tm.tracks@[k].audio_clips@) == placement_end(p));
    lemma_project_end_single(tm.tracks@, k, placement_end(p));
    lemma_midi_end_unplaced(midi_clips);
}

proof fn lemma_project_end_single(ts: Seq<Track>, k: int, e: u64)
    requires
        0 <= k < ts.len(),
        max_end(ts[k].audio_clips@) == e,
        forall|j: int| 0 <= j < ts.len() && j != k ==> ts[j].audio_clips@.len() == 0,
    ensures
        project_end_spec(ts) == e,
    decreases ts.len(),
{
    if ts.len() - 1 == k {
        lemma_project_end_empty(ts.drop_last());
    } else {
        lemma_project_end_single(ts.drop_last(), k, e);
        assert(ts.last().audio_clips@.len() == 0);
    }
}

proof fn lemma_project_end_empty(ts: Seq<Track>)
    requires
        forall|j: int| 0 <= j < ts.len() ==> ts[j].audio_clips@.len() == 0,
    ensures
        project_end_spec(ts) == 0,
    decreases ts.len(),
{
    if ts.len() > 0 {
        lemma_project_end_empty(ts.drop_last());
        assert(ts.last().audio_clips@.len() == 0);
    }
}

} // verus!
