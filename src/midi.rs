use vstd::prelude::*;

verus! {

#[derive(Clone, Copy, Debug, PartialEq, Eq, Structural)]
pub enum MidiEventType {
    NoteOn { note: u8, velocity: u8 },
    NoteOff { note: u8, velocity: u8 },
}

/// A note event, timed in frames from the start of its clip.
#[derive(Clone, Copy, Debug, PartialEq, Eq, Structural)]
pub struct MidiEvent {
    pub event_type: MidiEventType,
    pub timestamp_samples: u64,
}

impl MidiEvent {
    pub fn note_on(note: u8, velocity: u8, timestamp_samples: u64) -> (e: MidiEvent)
        ensures
            e == (MidiEvent { event_type: MidiEventType::NoteOn { note, velocity }, timestamp_samples }),
    {
        MidiEvent { event_type: MidiEventType::NoteOn { note, velocity }, timestamp_samples }
    }

    pub fn note_off(note: u8, velocity: u8, timestamp_samples: u64) -> (e: MidiEvent)
        ensures
            e == (MidiEvent { event_type: MidiEventType::NoteOff { note, velocity }, timestamp_samples }),
    {
        MidiEvent { event_type: MidiEventType::NoteOff { note, velocity }, timestamp_samples }
    }
}

/// The event that a raw message stands for: a note-on (status 0x9n) with
/// velocity 0 is a note-off; a note-off is status 0x8n; every other message,
/// and one shorter than three bytes, stands for none.
pub open spec fn parse_spec(m: Seq<u8>, timestamp: u64) -> Option<MidiEvent> {
    if m.len() < 3 {
        None
    } else if m[0] / 16 == 9 {
        if m[2] == 0 {
            Some(MidiEvent { event_type: MidiEventType::NoteOff { note: m[1], velocity: 0 }, timestamp_samples: timestamp })
        } else {
            Some(MidiEvent { event_type: MidiEventType::NoteOn { note: m[1], velocity: m[2] }, timestamp_samples: timestamp })
        }
    } else if m[0] / 16 == 8 {
        Some(MidiEvent { event_type: MidiEventType::NoteOff { note: m[1], velocity: m[2] }, timestamp_samples: timestamp })
    } else {
        None
    }
}

/// Decodes a raw MIDI input message.
pub fn parse_midi_message(message: &[u8], timestamp: u64) -> (r: Option<MidiEvent>)
    ensures
        r == parse_spec(message@, timestamp),
{
    if message.len() < 3 {
        return None;
    }
    let status = message[0];
    let message_type = status / 16;
    let note = message[1];
    let velocity = message[2];
    if message_type == 9 {
        if velocity == 0 {
            Some(MidiEvent::note_off(note, velocity, timestamp))
        } else {
            Some(MidiEvent::note_on(note, velocity, timestamp))
        }
    } else if message_type == 8 {
        Some(MidiEvent::note_off(note, velocity, timestamp))
    } else {
        None
    }
}

/// The multiple of `grid` nearest to `t`, halves rounding up; where rounding
/// up would pass the largest frame, the multiple below.
pub open spec fn snap_spec(t: u64, grid: u64) -> u64
    recommends
        grid > 0,
{
    let lo = (t / grid) * grid;
    if 2 * (t % grid) >= grid && lo + grid <= u64::MAX {
        (lo + grid) as u64
    } else {
        lo as u64
    }
}

pub fn snap_to_grid(t: u64, grid: u64) -> (r: u64)
    requires
        grid > 0,
    ensures
        r == snap_spec(t, grid),
{
    assert((t / grid) * grid <= t) by (nonlinear_arith)
        requires
            grid > 0;
    let lo = (t / grid) * grid;
    if (t % grid) >= grid - (t % grid) && grid <= u64::MAX - lo {
        lo + grid
    } else {
        lo
    }
}

/// Snapping hits a multiple of the grid that lies within half a grid step of
/// the timestamp, so no other multiple is nearer.
pub proof fn lemma_snap_nearest(t: u64, grid: u64)
    requires
        grid > 0,
        t as int + grid as int <= u64::MAX as int,
    ensures
        snap_spec(t, grid) % grid == 0,
        2 * (snap_spec(t, grid) as int - t as int) <= grid as int,
        2 * (t as int - snap_spec(t, grid) as int) <= grid as int,
{
    let q: int = t as int / grid as int;
    let r: int = t as int % grid as int;
    let g: int = grid as int;
    assert(t as int == q * g + r && 0 <= r < g) by (nonlinear_arith)
        requires
            g > 0,
            q == t as int / g,
            r == t as int % g;
    assert(q * g <= t as int) by (nonlinear_arith)
        requires
            t as int == q * g + r,
            r >= 0;
    assert((q * g) % g == 0) by (nonlinear_arith)
        requires
            g > 0;
    assert((q * g + g) % g == 0) by (nonlinear_arith)
        requires
            g > 0;
}

/// The event moved to the nearest grid line; a grid of zero leaves it.
pub open spec fn quantized_event(e: MidiEvent, grid: u64) -> MidiEvent {
    if grid == 0 {
        e
    } else {
        MidiEvent { event_type: e.event_type, timestamp_samples: snap_spec(e.timestamp_samples, grid) }
    }
}

/// Where the multiple above does not fit in a frame count, snapping keeps the
/// multiple below, which is then the highest multiple of the grid that fits:
/// the nearest one a timestamp can hold.
pub proof fn lemma_snap_at_top(t: u64, grid: u64)
    requires
        grid > 0,
        (t / grid) * grid + grid > u64::MAX,
    ensures
        snap_spec(t, grid) % grid == 0,
        snap_spec(t, grid) <= t,
        t - snap_spec(t, grid) < grid,
        snap_spec(t, grid) + grid > u64::MAX,
{
    let q: int = t as int / grid as int;
    let r: int = t as int % grid as int;
    let g: int = grid as int;
    assert(t as int == q * g + r && 0 <= r < g) by (nonlinear_arith)
        requires
            g > 0,
            q == t as int / g,
            r == t as int % g;
    assert((q * g) % g == 0) by (nonlinear_arith)
        requires
            g > 0;
}

/// A clip of note events; `duration_samples` is its length in frames.
#[derive(Debug)]
pub struct MidiClip {
    pub events: Vec<MidiEvent>,
    pub duration_samples: u64,
    pub sample_rate: u32,
}

impl MidiClip {
    pub fn new(sample_rate: u32) -> (c: MidiClip)
        ensures
            c.events@.len() == 0,
            c.duration_samples == 0,
            c.sample_rate == sample_rate,
    {
        MidiClip { events: Vec::new(), duration_samples: 0, sample_rate }
    }

    /// A clip holding the events given, long enough to reach the last of them.
    pub fn with_events(events: Vec<MidiEvent>, sample_rate: u32) -> (c: MidiClip)
        ensures
            c.events@ == events@,
            c.sample_rate == sample_rate,
            forall|i: int| 0 <= i < events@.len() ==> events@[i].timestamp_samples <= c.duration_samples,
    {
        let mut d: u64 = 0;
        let mut i: usize = 0;
        while i < events.len()
            invariant
                i <= events@.len(),
                forall|k: int| 0 <= k < i ==> events@[k].timestamp_samples <= d,
            decreases events@.len() - i,
        {
            if events[i].timestamp_samples > d {
                d = events[i].timestamp_samples;
            }
            i = i + 1;
        }
        MidiClip { events, duration_samples: d, sample_rate }
    }

    /// Inserts an event after every event at the same time or earlier that
    /// stands before the first later one, and lengthens the clip to reach it.
    pub fn add_event(&mut self, event: MidiEvent)
        requires
            old(self).events@.len() < usize::MAX,
        ensures
            exists|pos: int| 0 <= pos <= old(self).events@.len()
                && final(self).events@ == old(self).events@.insert(pos, event)
                && (forall|k: int| 0 <= k < pos ==> old(self).events@[k].timestamp_samples <= event.timestamp_samples)
                && (pos < old(self).events@.len() ==> old(self).events@[pos].timestamp_samples > event.timestamp_samples),
            final(self).duration_samples == if event.timestamp_samples > old(self).duration_samples {
                event.timestamp_samples
            } else {
                old(self).duration_samples
            },
            final(self).sample_rate == old(self).sample_rate,
    {
        let mut pos: usize = 0;
        while pos < self.events.len() && self.events[pos].timestamp_samples <= event.timestamp_samples
            invariant
                pos <= self.events@.len(),
                forall|k: int| 0 <= k < pos ==> self.events@[k].timestamp_samples <= event.timestamp_samples,
            decreases self.events@.len() - pos,
        {
            pos = pos + 1;
        }
        self.events.insert(pos, event);
        if event.timestamp_samples > self.duration_samples {
            self.duration_samples = event.timestamp_samples;
        }
    }

    /// Takes out the event at `index`, if there is one.
    pub fn remove_event(&mut self, index: usize) -> (r: Option<MidiEvent>)
        ensures
            index < old(self).events@.len() ==> r == Some(old(self).events@[index as int])
                && final(self).events@ == old(self).events@.remove(index as int),
            index >= old(self).events@.len() ==> r.is_none() && final(self).events@ == old(self).events@,
            final(self).duration_samples == old(self).duration_samples,
            final(self).sample_rate == old(self).sample_rate,
    {
        if index < self.events.len() {
            Some(self.events.remove(index))
        } else {
            None
        }
    }

    /// Drops every event.
    pub fn clear(&mut self)
        ensures
            final(self).events@.len() == 0,
            final(self).duration_samples == old(self).duration_samples,
            final(self).sample_rate == old(self).sample_rate,
    {
        self.events.clear();
    }

    /// Snaps every event's time to the nearest multiple of `grid_samples`;
    /// a grid of zero leaves the clip as it is.
    pub fn quantize(&mut self, grid_samples: u64)
        ensures
            final(self).events@.len() == old(self).events@.len(),
            final(self).duration_samples == old(self).duration_samples,
            final(self).sample_rate == old(self).sample_rate,
            forall|i: int| 0 <= i < old(self).events@.len() ==> #[trigger] final(self).events@[i]
                == quantized_event(old(self).events@[i], grid_samples),
    {
        if grid_samples == 0 {
            return;
        }
        let ghost pre = self.events@;
        let mut i: usize = 0;
        while i < self.events.len()
            invariant
                self.events@.len() == pre.len(),
                i <= pre.len(),
                forall|k: int| 0 <= k < i ==> #[trigger] self.events@[k] == quantized_event(pre[k], grid_samples),
                forall|k: int| i <= k < pre.len() ==> #[trigger] self.events@[k] == pre[k],
                grid_samples > 0,
                self.duration_samples == old(self).duration_samples,
                self.sample_rate == old(self).sample_rate,
            decreases pre.len() - i,
        {
            let t = self.events[i].timestamp_samples;
            self.events[i].timestamp_samples = snap_to_grid(t, grid_samples);
            i = i + 1;
        }
    }
}

} // verus!
