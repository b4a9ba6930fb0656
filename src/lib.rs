//! Real-time audio core of a multitrack engine: track registry, transport,
//! recorder state machine, MIDI clips and recording, per-track voice pools,
//! effect registry and the mixing decisions made once per frame.

mod text;
mod track;
mod transport;
mod recorder;
mod midi;
mod midi_recorder;
mod synth;
mod effects;
mod mix;
mod progress;
mod devices;
mod graph;
mod engine;
pub mod api;

pub use text::{decimal_digits, format_centi, format_u64, join_u64_csv, str_eq};
pub use track::{clamp_pan, clamp_volume, AudioClipPlacement, Track, TrackManager, TrackType, MASTER_TRACK_ID};
pub use transport::{Transport, TransportState};
pub use recorder::{Click, RecordedClip, Recorder, RecordingState, SAMPLE_RATE};
pub use midi::{parse_midi_message, snap_to_grid, MidiClip, MidiEvent, MidiEventType};
pub use midi_recorder::{MidiRecorder, MidiRecordingState};
pub use synth::{EnvelopeStage, EnvelopeTimes, FilterType, OscillatorType, TrackSynthManager, TrackSynthesizer, Voice, MAX_VOICES};
pub use effects::{EffectKind, EffectManager};
pub use mix::{audible_track_ids, clip_end_frame, clip_frame_at, events_at, midi_clip_frame, midi_clips_end_frame, project_end_frame, render_frame_count, render_sample_count, track_is_audible};
pub use progress::{ExportProgressInfo, ExportProgressState};
pub use devices::{DeviceSelection, MidiDevice};
pub use graph::{AudioGraph, TimelineMidiClip, TrackSnapshot};
pub use engine::AudioEngine;
