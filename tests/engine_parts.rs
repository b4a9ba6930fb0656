use daw_engine::api::{
    add_effect_to_track, add_midi_note_to_clip, clear_midi_clip, create_midi_clip, create_track,
    get_count_in_bars, get_midi_clip_count, get_midi_clip_events, get_midi_input_devices, get_midi_recording_state,
    get_playhead_position, get_recording_state, get_track_effects, get_transport_state, init_audio_graph,
    is_metronome_enabled, load_audio_file_api, quantize_midi_clip, refresh_midi_devices, remove_effect_from_track,
    remove_midi_event, select_midi_input_device, send_midi_note_on, send_track_midi_note_on, set_count_in_bars,
    set_metronome_enabled, set_synth_oscillator_type, set_track_instrument, set_track_solo, start_midi_input,
    start_midi_recording, start_recording, stop_midi_input, stop_midi_recording, stop_recording, transport_pause,
    transport_play, transport_seek, transport_stop,
};
use daw_engine::api::{get_tempo, track_type_from_saved};
use daw_engine::{TrackSnapshot, TrackType};
use daw_engine::{
    audible_track_ids, clip_frame_at, events_at, midi_clip_frame, parse_midi_message, render_frame_count,
    render_sample_count, snap_to_grid, AudioClipPlacement, AudioGraph, EffectKind, EnvelopeStage,
    ExportProgressInfo, ExportProgressState, FilterType, MidiClip, MidiEvent, MidiEventType, MidiRecorder,
    MidiRecordingState, OscillatorType, Recorder, RecordingState, TrackSynthManager, TrackSynthesizer, Transport,
    TransportState,
};

fn graph() -> AudioGraph<f32> {
    init_audio_graph::<f32>().unwrap()
}

#[test]
fn test_audio_graph_creation() {
    let g = init_audio_graph::<f32>();
    assert!(g.is_ok());
}

#[test]
fn test_playhead_position() {
    let mut g = graph();
    assert_eq!(get_playhead_position(&g).unwrap(), 0);
    // 5.5 s at 48 kHz
    transport_seek(&mut g, 264000).unwrap();
    assert_eq!(get_playhead_position(&g).unwrap(), 264000);
}

#[test]
fn test_transport_state() {
    let mut g = graph();
    assert_eq!(g.get_state(), TransportState::Stopped);
    transport_stop(&mut g).unwrap();
    assert_eq!(g.get_state(), TransportState::Stopped);
}

#[test]
fn play_twice_is_idempotent_and_stop_resets() {
    let mut g = graph();
    assert!(g.play());
    assert!(!g.play());
    assert_eq!(get_transport_state(&g).unwrap(), 1);
    transport_seek(&mut g, 1000).unwrap();
    assert_eq!(transport_play(&mut g).unwrap(), "Playing");
    assert_eq!(g.transport.playhead_samples, 1000);
    transport_pause(&mut g).unwrap();
    assert_eq!(get_transport_state(&g).unwrap(), 2);
    assert_eq!(g.transport.playhead_samples, 1000);
    transport_stop(&mut g).unwrap();
    assert_eq!(get_transport_state(&g).unwrap(), 0);
    assert_eq!(g.transport.playhead_samples, 0);
}

#[test]
fn seek_scales_with_tempo() {
    let mut t = Transport::new();
    t.seek(48000, 240);
    assert_eq!(t.playhead_samples, 24000);
    assert_eq!(t.visual_playhead(240), 48000);
    t.seek(12345, 120);
    assert_eq!(t.visual_playhead(120), 12345);
    t.advance(5);
    assert_eq!(t.playhead_samples, 12350);
}

#[test]
fn test_recorder_creation() {
    let recorder: Recorder<f32> = Recorder::new();
    assert_eq!(recorder.get_state(), RecordingState::Idle);
}

#[test]
fn test_start_stop_recording() {
    let mut recorder: Recorder<f32> = Recorder::new();
    recorder.set_count_in_bars(0);
    assert!(recorder.start_recording().is_ok());
    assert_eq!(recorder.get_state(), RecordingState::Recording);
    let result = recorder.stop_recording();
    assert!(result.is_ok());
    assert_eq!(recorder.get_state(), RecordingState::Idle);
}

#[test]
fn test_count_in() {
    let mut recorder: Recorder<f32> = Recorder::new();
    recorder.set_count_in_bars(2);
    assert_eq!(recorder.get_count_in_bars(), 2);
    assert!(recorder.start_recording().is_ok());
    assert_eq!(recorder.get_state(), RecordingState::CountingIn);
}

#[test]
fn test_tempo() {
    let mut recorder: Recorder<f32> = Recorder::new();
    recorder.set_tempo(140);
    assert_eq!(recorder.get_tempo(), 140);
    recorder.set_tempo(500);
    assert_eq!(recorder.get_tempo(), 300);
    recorder.set_tempo(10);
    assert_eq!(recorder.get_tempo(), 20);
}

#[test]
fn test_metronome_toggle() {
    let mut recorder: Recorder<f32> = Recorder::new();
    assert!(recorder.is_metronome_enabled());
    recorder.set_metronome_enabled(false);
    assert!(!recorder.is_metronome_enabled());
}

#[test]
fn recording_round_trip_keeps_every_frame() {
    let mut recorder: Recorder<f32> = Recorder::new();
    recorder.set_count_in_bars(0);
    recorder.start_recording().unwrap();
    assert_eq!(recorder.get_state(), RecordingState::Recording);
    for i in 0..4800 {
        recorder.process_frame(i as f32, -(i as f32), true);
    }
    let clip = recorder.stop_recording().unwrap().unwrap();
    assert_eq!(clip.frame_count(), 4800);
    assert_eq!(clip.channels, 2);
    let seconds = clip.frame_count() as f64 / clip.sample_rate as f64;
    assert!((seconds - 0.1).abs() < 1e-9);
    assert_eq!(clip.samples[2], 1.0);
    assert_eq!(clip.samples[3], -1.0);
}

#[test]
fn stop_recording_when_idle_is_an_error() {
    let mut recorder: Recorder<f32> = Recorder::new();
    assert_eq!(recorder.stop_recording().err().unwrap(), "Not recording");
    recorder.set_count_in_bars(0);
    recorder.start_recording().unwrap();
    assert!(recorder.start_recording().is_err());
    assert!(recorder.stop_recording().unwrap().is_none());
}

#[test]
fn count_in_ends_after_its_bars() {
    let mut recorder: Recorder<f32> = Recorder::new();
    recorder.set_count_in_bars(1);
    recorder.start_recording().unwrap();
    // one 4/4 bar at 120 BPM is 96000 frames
    for _ in 0..96000 {
        recorder.process_frame(0.0, 0.0, false);
    }
    assert_eq!(recorder.get_state(), RecordingState::CountingIn);
    recorder.process_frame(0.0, 0.0, false);
    assert_eq!(recorder.get_state(), RecordingState::Recording);
    assert_eq!(recorder.get_recorded_sample_count(), 0);
    recorder.process_frame(0.5, 0.25, false);
    assert_eq!(recorder.get_recorded_sample_count(), 2);
}

#[test]
fn metronome_clicks_on_beats() {
    let mut recorder: Recorder<f32> = Recorder::new();
    let first = recorder.process_frame(0.0, 0.0, true).unwrap();
    assert!(first.downbeat);
    assert_eq!(first.position_in_beat, 0);
    for _ in 1..4000 {
        recorder.process_frame(0.0, 0.0, true);
    }
    assert!(recorder.process_frame(0.0, 0.0, true).is_none());
    for _ in 4001..24000 {
        recorder.process_frame(0.0, 0.0, true);
    }
    let second = recorder.process_frame(0.0, 0.0, true).unwrap();
    assert!(!second.downbeat);
    recorder.reset_metronome();
    assert_eq!(recorder.sample_counter, 0);
}

#[test]
fn test_parse_note_on() {
    let message = vec![0x90, 60, 100];
    let event = parse_midi_message(&message, 1000);
    assert!(event.is_some());
    match event.unwrap().event_type {
        MidiEventType::NoteOn { note, velocity } => {
            assert_eq!(note, 60);
            assert_eq!(velocity, 100);
        }
        _ => panic!("Expected NoteOn"),
    }
}

#[test]
fn test_parse_note_off() {
    let message = vec![0x80, 60, 64];
    let event = parse_midi_message(&message, 1000);
    assert!(event.is_some());
    match event.unwrap().event_type {
        MidiEventType::NoteOff { note, velocity } => {
            assert_eq!(note, 60);
            assert_eq!(velocity, 64);
        }
        _ => panic!("Expected NoteOff"),
    }
}

#[test]
fn test_parse_note_on_zero_velocity() {
    let message = vec![0x90, 60, 0];
    let event = parse_midi_message(&message, 1000);
    assert!(event.is_some());
    match event.unwrap().event_type {
        MidiEventType::NoteOff { note, velocity } => {
            assert_eq!(note, 60);
            assert_eq!(velocity, 0);
        }
        _ => panic!("Expected NoteOff"),
    }
}

#[test]
fn parse_ignores_other_messages() {
    assert!(parse_midi_message(&[0xB0, 7, 100], 0).is_none());
    assert!(parse_midi_message(&[0x90, 60], 0).is_none());
    assert!(parse_midi_message(&[], 0).is_none());
    assert_eq!(parse_midi_message(&[0x93, 61, 5], 7).unwrap().timestamp_samples, 7);
}

#[test]
fn test_midi_recorder_start_stop() {
    let mut recorder = MidiRecorder::new();
    assert_eq!(recorder.get_state(), MidiRecordingState::Idle);
    recorder.start_recording(0).unwrap();
    assert_eq!(recorder.get_state(), MidiRecordingState::Recording);
    let result = recorder.stop_recording().unwrap();
    assert!(result.is_none());
    assert_eq!(recorder.get_state(), MidiRecordingState::Idle);
}

#[test]
fn test_midi_recorder_record_events() {
    let mut recorder = MidiRecorder::new();
    recorder.start_recording(0).unwrap();
    recorder.record_event(MidiEvent::note_on(60, 100, 1000));
    recorder.record_event(MidiEvent::note_off(60, 64, 2000));
    assert_eq!(recorder.event_count(), 2);
    let clip = recorder.stop_recording().unwrap();
    assert!(clip.is_some());
    assert_eq!(clip.unwrap().events.len(), 2);
}

#[test]
fn test_midi_recorder_quantization() {
    let mut recorder = MidiRecorder::new();
    recorder.set_tempo(120);
    recorder.set_quantize(16);
    recorder.start_recording(0).unwrap();
    recorder.record_event(MidiEvent::note_on(60, 100, 1010));
    let clip = recorder.stop_recording().unwrap();
    assert!(clip.is_some());
    let clip = clip.unwrap();
    assert!(clip.events.len() > 0);
    // a sixteenth at 120 BPM is 6000 frames
    assert_eq!(clip.events[0].timestamp_samples, 0);
}

#[test]
fn midi_recorder_times_events_from_take_start() {
    let mut recorder = MidiRecorder::new();
    recorder.start_recording(500).unwrap();
    recorder.record_event(MidiEvent::note_on(60, 100, 1500));
    recorder.record_event(MidiEvent::note_on(61, 100, 100));
    let clip = recorder.stop_recording().unwrap().unwrap();
    assert_eq!(clip.events[0].timestamp_samples, 1000);
    assert_eq!(clip.events[1].timestamp_samples, 0);
    assert_eq!(recorder.stop_recording().err().unwrap(), "Not recording");
}

#[test]
fn quantize_snaps_to_nearest_grid_line() {
    assert_eq!(snap_to_grid(1010, 6000), 0);
    assert_eq!(snap_to_grid(2999, 6000), 0);
    assert_eq!(snap_to_grid(3000, 6000), 6000);
    assert_eq!(snap_to_grid(8999, 6000), 6000);
    assert_eq!(snap_to_grid(9001, 6000), 12000);
    let mut clip = MidiClip::new(48000);
    clip.add_event(MidiEvent::note_on(60, 100, 8999));
    clip.add_event(MidiEvent::note_off(60, 0, 14000));
    clip.quantize(6000);
    assert_eq!(clip.events[0].timestamp_samples, 6000);
    assert_eq!(clip.events[1].timestamp_samples, 12000);
    clip.quantize(0);
    assert_eq!(clip.events[1].timestamp_samples, 12000);
}

#[test]
fn midi_clip_keeps_events_in_time_order() {
    let mut clip = MidiClip::new(48000);
    clip.add_event(MidiEvent::note_on(60, 100, 500));
    clip.add_event(MidiEvent::note_on(62, 100, 100));
    clip.add_event(MidiEvent::note_off(60, 0, 500));
    let ts: Vec<u64> = clip.events.iter().map(|e| e.timestamp_samples).collect();
    assert_eq!(ts, vec![100, 500, 500]);
    assert_eq!(clip.duration_samples, 500);
    assert_eq!(clip.remove_event(0).unwrap().timestamp_samples, 100);
    assert!(clip.remove_event(5).is_none());
    clip.clear();
    assert!(clip.events.is_empty());
}

#[test]
fn test_synth_note_on_off() {
    let mut synth = TrackSynthesizer::new();
    synth.note_on(60, 100);
    assert_eq!(synth.active_voice_count(), 1);
    for _ in 0..1000 {
        synth.advance();
    }
    synth.note_off(60);
    assert!(synth.active_voice_count() > 0);
}

#[test]
fn test_synth_polyphony() {
    let mut synth = TrackSynthesizer::new();
    for note in 60..65 {
        synth.note_on(note, 100);
    }
    assert_eq!(synth.active_voice_count(), 5);
}

#[test]
fn released_voice_retires_after_release_time() {
    let mut synth = TrackSynthesizer::new();
    synth.note_on(60, 100);
    synth.note_off(60);
    assert_eq!(synth.voices[0].stage, EnvelopeStage::Release);
    let release = synth.envelope.release_frames;
    for _ in 0..release - 1 {
        synth.advance();
    }
    assert_eq!(synth.active_voice_count(), 1);
    synth.advance();
    assert_eq!(synth.active_voice_count(), 0);
}

#[test]
fn voice_stealing_takes_first_slot_when_full() {
    let mut synth = TrackSynthesizer::new();
    for n in 0..16u8 {
        assert_eq!(synth.note_on(40 + n, 100), n as usize);
    }
    assert_eq!(synth.note_on(90, 100), 0);
    assert_eq!(synth.voices[0].note, 90);
    assert_eq!(synth.active_voice_count(), 16);
    synth.all_notes_off();
    assert_eq!(synth.active_voice_count(), 0);
}

#[test]
fn waveform_and_filter_names() {
    assert_eq!(OscillatorType::from_str("SAW"), OscillatorType::Saw);
    assert_eq!(OscillatorType::from_str("triangle"), OscillatorType::Triangle);
    assert_eq!(OscillatorType::from_str("noise"), OscillatorType::Sine);
    assert_eq!(FilterType::from_str("HighPass"), FilterType::HighPass);
    assert_eq!(FilterType::from_str("bandpass"), FilterType::BandPass);
    assert_eq!(FilterType::from_str("other"), FilterType::LowPass);
    let mut synth = TrackSynthesizer::new();
    assert!(synth.set_type_parameter("osc2_type", "Triangle"));
    assert_eq!(synth.osc2_type, OscillatorType::Triangle);
    assert!(!synth.set_type_parameter("osc1_level", "0.5"));
}

#[test]
fn synth_manager_routes_by_track() {
    let mut m = TrackSynthManager::new();
    assert!(m.note_on(3, 60, 100).is_none());
    m.create_synth(3);
    assert!(m.has_synth(3));
    assert_eq!(m.note_on(3, 60, 100), Some(0));
    assert!(m.note_off(3, 60));
    m.all_notes_off_all_tracks();
    assert_eq!(m.synths[0].1.active_voice_count(), 0);
    assert!(m.remove_synth(3));
    assert!(!m.has_synth(3));
}

#[test]
fn solo_silences_other_tracks() {
    let mut g = graph();
    let a = create_track(&mut g, "audio", "A".to_string()).unwrap();
    let b = create_track(&mut g, "audio", "B".to_string()).unwrap();
    assert_eq!(audible_track_ids(&g.tracks), vec![a, b]);
    set_track_solo(&mut g, b, true).unwrap();
    assert_eq!(audible_track_ids(&g.tracks), vec![b]);
    daw_engine::api::set_track_mute(&mut g, b, true).unwrap();
    assert!(audible_track_ids(&g.tracks).is_empty());
}

#[test]
fn clip_frames_follow_placement() {
    let p = AudioClipPlacement {
        id: 0,
        start_frame: 100,
        offset_frames: 10,
        duration_frames: Some(50),
        clip_frames: 1000,
        channels: 2,
    };
    assert_eq!(clip_frame_at(&p, 99), None);
    assert_eq!(clip_frame_at(&p, 100), Some(10));
    assert_eq!(clip_frame_at(&p, 149), Some(59));
    assert_eq!(clip_frame_at(&p, 150), None);
    assert_eq!(midi_clip_frame(100, 50, 150), Some(50));
    assert_eq!(midi_clip_frame(100, 50, 151), None);
    let mut clip = MidiClip::new(48000);
    clip.add_event(MidiEvent::note_on(60, 100, 10));
    clip.add_event(MidiEvent::note_off(60, 0, 20));
    assert_eq!(events_at(&clip, 10).len(), 1);
    assert!(events_at(&clip, 11).is_empty());
}

#[test]
fn offline_render_length_adds_one_second_tail() {
    let mut g = graph();
    let id = load_audio_file_api(&mut g, 48000, 2).unwrap();
    assert_eq!(id, 0);
    assert_eq!(render_frame_count(&g.tracks, &g.midi_clips), Some(96000));
    assert_eq!(render_sample_count(&g.tracks, &g.midi_clips), Some(192000));
    assert_eq!(g.tracks.tracks.len(), 2);
    assert_eq!(g.tracks.tracks[1].name, "Audio 1");
}

#[test]
fn effects_chain_add_and_remove() {
    let mut g = graph();
    let t = create_track(&mut g, "audio", "FX".to_string()).unwrap();
    let e0 = add_effect_to_track(&mut g, t, "Reverb").unwrap();
    let e1 = add_effect_to_track(&mut g, t, "delay").unwrap();
    assert_eq!(get_track_effects(&g, t).unwrap(), format!("{},{}", e0, e1));
    assert_eq!(g.effects.get_effect(e0), Some(EffectKind::Reverb));
    assert_eq!(add_effect_to_track(&mut g, t, "flanger").unwrap_err(), "Unknown effect type: flanger");
    assert!(add_effect_to_track(&mut g, 77, "eq").is_err());
    remove_effect_from_track(&mut g, t, e0).unwrap();
    assert_eq!(get_track_effects(&g, t).unwrap(), format!("{}", e1));
    assert!(remove_effect_from_track(&mut g, t, e0).is_err());
}

#[test]
fn recording_through_the_graph() {
    let mut g = graph();
    assert_eq!(get_count_in_bars(&g).unwrap(), 2);
    set_count_in_bars(&mut g, 0).unwrap();
    start_recording(&mut g).unwrap();
    assert_eq!(get_recording_state(&g).unwrap(), 2);
    assert_eq!(get_transport_state(&g).unwrap(), 1);
    assert!(start_recording(&mut g).is_err());
    g.recorder.process_frame(0.1, 0.2, true);
    let clip = stop_recording(&mut g).unwrap().unwrap();
    assert_eq!(clip.frame_count(), 1);
    assert!(stop_recording(&mut g).is_err());
    set_metronome_enabled(&mut g, false).unwrap();
    assert!(!is_metronome_enabled(&g).unwrap());
}

#[test]
fn midi_take_through_the_graph() {
    let mut g = graph();
    let t = create_track(&mut g, "midi", "Keys".to_string()).unwrap();
    set_track_instrument(&mut g, t).unwrap();
    start_midi_recording(&mut g).unwrap();
    assert_eq!(get_midi_recording_state(&g).unwrap(), 1);
    send_track_midi_note_on(&mut g, t, 60, 90).unwrap();
    let id = stop_midi_recording(&mut g).unwrap().unwrap();
    assert_eq!(get_midi_clip_count(&g).unwrap(), 1);
    assert_eq!(get_midi_clip_events(&g, id).unwrap(), vec![(0, 60, 90, 0)]);
    assert_eq!(g.synths.synths[0].1.active_voice_count(), 1);
}

#[test]
fn midi_clip_editing() {
    let mut g = graph();
    let id = create_midi_clip(&mut g).unwrap();
    add_midi_note_to_clip(&mut g, id, 64, 100, 1010, 6000).unwrap();
    assert_eq!(get_midi_clip_events(&g, id).unwrap(), vec![(0, 64, 100, 1010), (1, 64, 64, 7010)]);
    quantize_midi_clip(&mut g, id, 4).unwrap();
    assert_eq!(get_midi_clip_events(&g, id).unwrap(), vec![(0, 64, 100, 0), (1, 64, 64, 6000)]);
    assert!(quantize_midi_clip(&mut g, id, 0).is_err());
    remove_midi_event(&mut g, id, 0).unwrap();
    assert!(remove_midi_event(&mut g, id, 3).is_err());
    assert_eq!(get_midi_clip_events(&g, id).unwrap().len(), 1);
    clear_midi_clip(&mut g, id).unwrap();
    assert!(get_midi_clip_events(&g, id).unwrap().is_empty());
    assert_eq!(clear_midi_clip(&mut g, 99).unwrap_err(), "MIDI clip not found");
}

#[test]
fn keyboard_synth_and_waveform() {
    let mut g = graph();
    assert_eq!(send_midi_note_on(&mut g, 60, 100).unwrap(), "Note On: 60 (velocity: 100)");
    assert_eq!(g.live_synth.active_voice_count(), 1);
    assert!(set_synth_oscillator_type(&mut g, 1).is_ok());
    assert_eq!(g.live_synth.osc1_type, OscillatorType::Saw);
    assert_eq!(set_synth_oscillator_type(&mut g, 9).unwrap_err(), "Invalid oscillator type");
    transport_stop(&mut g).unwrap();
    assert_eq!(g.live_synth.active_voice_count(), 0);
}

#[test]
fn midi_device_selection() {
    let mut g = graph();
    assert!(start_midi_input(&mut g).is_err());
    refresh_midi_devices(&mut g, vec!["Keys".to_string(), "Pads".to_string()]).unwrap();
    let devs = get_midi_input_devices(&g).unwrap();
    assert_eq!(devs[1], ("midi_1".to_string(), "Pads".to_string(), false));
    assert!(devs[0].2);
    assert_eq!(select_midi_input_device(&mut g, -1).unwrap_err(), "Invalid device index");
    assert!(select_midi_input_device(&mut g, 2).is_err());
    select_midi_input_device(&mut g, 1).unwrap();
    assert_eq!(start_midi_input(&mut g).unwrap(), Some(1));
    assert_eq!(start_midi_input(&mut g).unwrap(), None);
    stop_midi_input(&mut g).unwrap();
    assert!(!g.midi_inputs.is_capturing());
}

#[test]
fn export_progress_lifecycle() {
    let mut p = ExportProgressState::new();
    p.start("Rendering");
    assert!(p.is_running());
    p.update(150, "Mixing");
    assert_eq!(p.get_progress(), 100);
    assert_eq!(p.get_status(), "Mixing");
    p.cancel();
    assert!(p.is_cancelled());
    p.fail("disk full");
    assert!(!p.is_running());
    assert_eq!(p.get_error(), Some("disk full".to_string()));
    let info = ExportProgressInfo::current(&p);
    assert_eq!(info.status, "Export failed");
    p.reset();
    assert_eq!(p.get_progress(), 0);
    assert!(p.get_error().is_none());
    p.complete();
    assert_eq!(p.get_status(), "Export complete");
}

#[test]
fn copied_synth_keeps_timbre_but_no_voices() {
    let mut m = TrackSynthManager::new();
    m.create_synth(1);
    m.synths[0].1.set_type_parameter("osc1_type", "triangle");
    m.note_on(1, 60, 100);
    assert!(m.copy_synth(1, 2));
    assert_eq!(m.synths[1].0, 2);
    assert_eq!(m.synths[1].1.osc1_type, OscillatorType::Triangle);
    assert_eq!(m.synths[1].1.active_voice_count(), 0);
    assert!(!m.copy_synth(9, 3));
}

#[test]
fn midi_clip_attached_to_track_plays_there() {
    let mut g = graph();
    let t = create_track(&mut g, "midi", "Keys".to_string()).unwrap();
    let c = create_midi_clip(&mut g).unwrap();
    assert!(g.add_midi_clip_to_track(t, c));
    assert_eq!(g.midi_clips[0].track_id, Some(t));
    assert_eq!(g.tracks.tracks[1].midi_clip_ids, vec![c]);
    assert!(!g.add_midi_clip_to_track(t, 99));
    assert!(!g.add_midi_clip_to_track(99, c));
}

#[test]
fn effect_parameters_are_checked_by_kind() {
    let mut g = graph();
    let t = create_track(&mut g, "audio", "FX".to_string()).unwrap();
    let e = add_effect_to_track(&mut g, t, "compressor").unwrap();
    assert_eq!(daw_engine::api::set_effect_parameter(&g, e, "ratio").unwrap(), EffectKind::Compressor);
    assert_eq!(
        daw_engine::api::set_effect_parameter(&g, e, "room_size").unwrap_err(),
        "Unknown Compressor parameter: room_size"
    );
    assert_eq!(daw_engine::api::set_effect_parameter(&g, 42, "ratio").unwrap_err(), "Effect 42 not found");
}

#[test]
fn restoring_a_project_rebuilds_tracks() {
    let mut g = graph();
    create_track(&mut g, "audio", "Old".to_string()).unwrap();
    transport_play(&mut g).unwrap();
    assert_eq!(track_type_from_saved("MIDI"), TrackType::Midi);
    assert_eq!(track_type_from_saved("Unknown"), TrackType::Audio);
    let snaps = vec![
        TrackSnapshot {
            name: "Master".to_string(),
            track_type: TrackType::Master,
            volume_centi_db: -300,
            pan_centi: 0,
            mute: false,
            solo: false,
            armed: false,
            effects: vec![],
        },
        TrackSnapshot {
            name: "Drums".to_string(),
            track_type: track_type_from_saved("Audio"),
            volume_centi_db: 900,
            pan_centi: -250,
            mute: true,
            solo: false,
            armed: true,
            effects: vec![EffectKind::EQ, EffectKind::Limiter],
        },
    ];
    g.restore_tracks(140, &snaps);
    assert_eq!(get_transport_state(&g).unwrap(), 0);
    assert_eq!(get_tempo(&g).unwrap(), 140);
    assert_eq!(g.tracks.tracks.len(), 2);
    assert_eq!(g.tracks.tracks[0].volume_centi_db, -300);
    let t = &g.tracks.tracks[1];
    assert_eq!(t.name, "Drums");
    assert_eq!((t.volume_centi_db, t.pan_centi, t.mute, t.armed), (600, -100, true, true));
    assert_eq!(t.fx_chain.len(), 2);
}

#[test]
fn transport_state_from_number() {
    assert_eq!(TransportState::from_u8(1), TransportState::Playing);
    assert_eq!(TransportState::from_u8(2), TransportState::Paused);
    assert_eq!(TransportState::from_u8(0), TransportState::Stopped);
    assert_eq!(TransportState::from_u8(7), TransportState::Stopped);
}

#[test]
fn synth_follows_midi_events() {
    let mut synth = TrackSynthesizer::new();
    synth.process_event(&MidiEvent::note_on(64, 90, 0));
    assert_eq!(synth.active_voice_count(), 1);
    assert_eq!(synth.voices[0].note, 64);
    synth.process_event(&MidiEvent::note_off(64, 0, 0));
    assert_eq!(synth.voices[0].stage, EnvelopeStage::Release);
}

#[test]
fn engine_marks_running() {
    let mut e = daw_engine::AudioEngine::new().unwrap();
    assert!(!e.is_running());
    e.mark_running();
    assert!(e.is_running());
}

#[test]
fn exported_tracks_restore_to_the_same_mix() {
    let mut g = graph();
    let t = create_track(&mut g, "group", "Bus".to_string()).unwrap();
    daw_engine::api::set_track_volume(&mut g, t, -450).unwrap();
    add_effect_to_track(&mut g, t, "chorus").unwrap();
    let snaps = g.export_tracks();
    assert_eq!(snaps.len(), 2);
    assert_eq!(snaps[1].effects, vec![EffectKind::Chorus]);
    let mut h = graph();
    h.restore_tracks(120, &snaps);
    assert_eq!(h.tracks.tracks.len(), 2);
    assert_eq!(h.tracks.tracks[1].name, "Bus");
    assert_eq!(h.tracks.tracks[1].track_type, TrackType::Group);
    assert_eq!(h.tracks.tracks[1].volume_centi_db, -450);
    assert_eq!(h.effects.get_effect(h.tracks.tracks[1].fx_chain[0]), Some(EffectKind::Chorus));
}

#[test]
fn midi_only_project_renders_its_clip_length() {
    let mut g = graph();
    let t = create_track(&mut g, "midi", "Keys".to_string()).unwrap();
    let c = create_midi_clip(&mut g).unwrap();
    add_midi_note_to_clip(&mut g, c, 60, 100, 0, 96000).unwrap();
    // not yet on a track: only the tail
    assert_eq!(render_frame_count(&g.tracks, &g.midi_clips), Some(48000));
    assert!(g.add_midi_clip_to_track(t, c));
    assert_eq!(render_frame_count(&g.tracks, &g.midi_clips), Some(144000));
    assert_eq!(render_sample_count(&g.tracks, &g.midi_clips), Some(288000));
}

#[test]
fn events_of_a_placed_clip_reach_its_track_instrument() {
    let mut g = graph();
    let t = create_track(&mut g, "midi", "Keys".to_string()).unwrap();
    set_track_instrument(&mut g, t).unwrap();
    let c = create_midi_clip(&mut g).unwrap();
    add_midi_note_to_clip(&mut g, c, 60, 100, 10, 5).unwrap();
    assert!(g.midi_events_at(t, 10).is_empty());
    assert!(g.add_midi_clip_to_track(t, c));
    let on = g.midi_events_at(t, 10);
    assert_eq!(on, vec![MidiEvent::note_on(60, 100, 10)]);
    assert!(g.synths.dispatch_events(t, &on));
    assert_eq!(g.synths.synths[0].1.active_voice_count(), 1);
    let off = g.midi_events_at(t, 15);
    assert_eq!(off, vec![MidiEvent::note_off(60, 64, 15)]);
    g.synths.dispatch_events(t, &off);
    assert_eq!(g.synths.synths[0].1.voices[0].stage, EnvelopeStage::Release);
    assert!(!g.synths.dispatch_events(99, &off));
}

#[test]
fn track_note_off_releases_only_that_note() {
    let mut g = graph();
    let t = create_track(&mut g, "midi", "Keys".to_string()).unwrap();
    set_track_instrument(&mut g, t).unwrap();
    send_track_midi_note_on(&mut g, t, 60, 100).unwrap();
    send_track_midi_note_on(&mut g, t, 64, 100).unwrap();
    daw_engine::api::send_track_midi_note_off(&mut g, t, 60, 0).unwrap();
    let voices = &g.synths.synths[0].1.voices;
    assert_eq!(voices[0].stage, EnvelopeStage::Release);
    assert_eq!(voices[1].stage, EnvelopeStage::Attack);
}
