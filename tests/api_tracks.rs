use daw_engine::api::{
    create_track, delete_track, get_all_track_ids, get_track_count, get_track_info, init_audio_graph,
    set_track_mute, set_track_pan, set_track_solo, set_track_volume,
};
use daw_engine::{AudioEngine, AudioGraph};

fn setup_test_graph() -> AudioGraph<f32> {
    init_audio_graph::<f32>().unwrap()
}

#[test]
fn test_engine_creation() {
    let engine = AudioEngine::new();
    assert!(engine.is_ok());
}

#[test]
fn test_track_creation_audio() {
    let mut g = setup_test_graph();
    let result = create_track(&mut g, "audio", "Test Audio Track".to_string());
    assert!(result.is_ok(), "Failed to create audio track: {:?}", result);
    let track_id = result.unwrap();
    assert!(track_id >= 1, "Track ID should be >= 1 (master is 0)");
}

#[test]
fn test_track_creation_midi() {
    let mut g = setup_test_graph();
    let result = create_track(&mut g, "midi", "Test MIDI Track".to_string());
    assert!(result.is_ok(), "Failed to create MIDI track");
}

#[test]
fn test_track_creation_return() {
    let mut g = setup_test_graph();
    let result = create_track(&mut g, "return", "Test Return Track".to_string());
    assert!(result.is_ok(), "Failed to create return track");
}

#[test]
fn test_track_creation_invalid_type() {
    let mut g = setup_test_graph();
    let result = create_track(&mut g, "invalid_type", "Test".to_string());
    assert!(result.is_err(), "Should reject invalid track type");
    assert!(result.unwrap_err().contains("Unknown track type"));
}

#[test]
fn test_cannot_create_master_track() {
    let mut g = setup_test_graph();
    let result = create_track(&mut g, "master", "Another Master".to_string());
    assert!(result.is_err(), "Should not allow creating additional master tracks");
    assert!(result.unwrap_err().contains("Cannot create additional master tracks"));
}

#[test]
fn test_track_count() {
    let mut g = setup_test_graph();
    let initial_count = get_track_count(&g).unwrap();
    assert!(initial_count >= 1, "Should have at least master track");
    let _ = create_track(&mut g, "audio", "Count Test".to_string()).unwrap();
    let new_count = get_track_count(&g).unwrap();
    assert_eq!(new_count, initial_count + 1, "Track count should increase by 1");
}

#[test]
fn test_set_track_volume() {
    let mut g = setup_test_graph();
    let track_id = create_track(&mut g, "audio", "Volume Test".to_string()).unwrap();
    let test_cases = vec![
        (-600, -6.0f32, "Set to -6 dB"),
        (0, 0.0, "Set to unity (0 dB)"),
        (300, 3.0, "Set to +3 dB"),
        (-9600, -96.0, "Set to silent (-96 dB)"),
        (600, 6.0, "Set to max (+6 dB)"),
    ];
    for (volume_centi_db, volume_db, desc) in test_cases {
        let result = set_track_volume(&mut g, track_id, volume_centi_db);
        assert!(result.is_ok(), "{} failed: {:?}", desc, result);
        let info = get_track_info(&g, track_id).unwrap();
        let parts: Vec<&str> = info.split(',').collect();
        let stored_volume: f32 = parts[3].parse().unwrap();
        assert!((stored_volume - volume_db).abs() < 0.01, "{}: expected {}, got {}", desc, volume_db, stored_volume);
    }
}

#[test]
fn test_volume_clamping() {
    let mut g = setup_test_graph();
    let track_id = create_track(&mut g, "audio", "Clamp Test".to_string()).unwrap();
    set_track_volume(&mut g, track_id, 10000).unwrap();
    let info = get_track_info(&g, track_id).unwrap();
    let parts: Vec<&str> = info.split(',').collect();
    let volume: f32 = parts[3].parse().unwrap();
    assert!(volume <= 6.0, "Volume should clamp to max +6 dB, got {}", volume);
    assert_eq!(parts[3], "6.00");

    set_track_volume(&mut g, track_id, -20000).unwrap();
    let info = get_track_info(&g, track_id).unwrap();
    let parts: Vec<&str> = info.split(',').collect();
    let volume: f32 = parts[3].parse().unwrap();
    assert!(volume >= -96.0, "Volume should clamp to min -96 dB, got {}", volume);
    assert_eq!(parts[3], "-96.00");
}

#[test]
fn test_set_track_pan() {
    let mut g = setup_test_graph();
    let track_id = create_track(&mut g, "audio", "Pan Test".to_string()).unwrap();
    let test_cases = vec![
        (-100, -1.0f32, "Full left"),
        (0, 0.0, "Center"),
        (100, 1.0, "Full right"),
        (-50, -0.5, "Half left"),
        (50, 0.5, "Half right"),
    ];
    for (pan_centi, pan, desc) in test_cases {
        let result = set_track_pan(&mut g, track_id, pan_centi);
        assert!(result.is_ok(), "{} failed: {:?}", desc, result);
        let info = get_track_info(&g, track_id).unwrap();
        let parts: Vec<&str> = info.split(',').collect();
        let stored_pan: f32 = parts[4].parse().unwrap();
        assert!((stored_pan - pan).abs() < 0.01, "{}: expected {}, got {}", desc, pan, stored_pan);
    }
}

#[test]
fn test_pan_clamping() {
    let mut g = setup_test_graph();
    let track_id = create_track(&mut g, "audio", "Pan Clamp Test".to_string()).unwrap();
    set_track_pan(&mut g, track_id, 500).unwrap();
    let info = get_track_info(&g, track_id).unwrap();
    let parts: Vec<&str> = info.split(',').collect();
    let pan: f32 = parts[4].parse().unwrap();
    assert!(pan <= 1.0, "Pan should clamp to max +1.0, got {}", pan);
    assert_eq!(parts[4], "1.00");

    set_track_pan(&mut g, track_id, -500).unwrap();
    let info = get_track_info(&g, track_id).unwrap();
    let parts: Vec<&str> = info.split(',').collect();
    let pan: f32 = parts[4].parse().unwrap();
    assert!(pan >= -1.0, "Pan should clamp to min -1.0, got {}", pan);
    assert_eq!(parts[4], "-1.00");
}

#[test]
fn test_track_mute() {
    let mut g = setup_test_graph();
    let track_id = create_track(&mut g, "audio", "Mute Test".to_string()).unwrap();
    set_track_mute(&mut g, track_id, true).unwrap();
    let info = get_track_info(&g, track_id).unwrap();
    let parts: Vec<&str> = info.split(',').collect();
    let mute: u8 = parts[5].parse().unwrap();
    assert_eq!(mute, 1, "Mute should be 1 when enabled");
    set_track_mute(&mut g, track_id, false).unwrap();
    let info = get_track_info(&g, track_id).unwrap();
    let parts: Vec<&str> = info.split(',').collect();
    let mute: u8 = parts[5].parse().unwrap();
    assert_eq!(mute, 0, "Mute should be 0 when disabled");
}

#[test]
fn test_track_solo() {
    let mut g = setup_test_graph();
    let track_id = create_track(&mut g, "audio", "Solo Test".to_string()).unwrap();
    set_track_solo(&mut g, track_id, true).unwrap();
    let info = get_track_info(&g, track_id).unwrap();
    let parts: Vec<&str> = info.split(',').collect();
    let solo: u8 = parts[6].parse().unwrap();
    assert_eq!(solo, 1, "Solo should be 1 when enabled");
    set_track_solo(&mut g, track_id, false).unwrap();
    let info = get_track_info(&g, track_id).unwrap();
    let parts: Vec<&str> = info.split(',').collect();
    let solo: u8 = parts[6].parse().unwrap();
    assert_eq!(solo, 0, "Solo should be 0 when disabled");
}

#[test]
fn test_get_track_info_format() {
    let mut g = setup_test_graph();
    let track_id = create_track(&mut g, "audio", "Info Test".to_string()).unwrap();
    let info = get_track_info(&g, track_id).unwrap();
    let parts: Vec<&str> = info.split(',').collect();
    assert_eq!(parts.len(), 7, "Track info should have 7 fields");
    let id: u64 = parts[0].parse().expect("ID should be u64");
    assert_eq!(id, track_id, "ID should match");
    assert_eq!(parts[1], "Info Test", "Name should match");
    assert_eq!(parts[2], "Audio", "Type should be Audio");
    let volume: f32 = parts[3].parse().expect("Volume should be f32");
    assert_eq!(volume, 0.0, "Default volume should be 0 dB");
    let pan: f32 = parts[4].parse().expect("Pan should be f32");
    assert_eq!(pan, 0.0, "Default pan should be 0.0 (center)");
    let mute: u8 = parts[5].parse().expect("Mute should be u8");
    assert_eq!(mute, 0, "Default mute should be 0");
    let solo: u8 = parts[6].parse().expect("Solo should be u8");
    assert_eq!(solo, 0, "Default solo should be 0");
}

#[test]
fn test_master_track_info() {
    let g = setup_test_graph();
    let info = get_track_info(&g, 0).unwrap();
    let parts: Vec<&str> = info.split(',').collect();
    assert_eq!(parts[0], "0", "Master track ID should be 0");
    assert_eq!(parts[1], "Master", "Master track name should be 'Master'");
    assert_eq!(parts[2], "Master", "Master track type should be 'Master'");
}

#[test]
fn test_invalid_track_operations() {
    let mut g = setup_test_graph();
    let invalid_id = 9999u64;
    assert!(get_track_info(&g, invalid_id).is_err(), "get_track_info should fail");
    assert!(set_track_volume(&mut g, invalid_id, 0).is_err(), "set_track_volume should fail");
    assert!(set_track_pan(&mut g, invalid_id, 0).is_err(), "set_track_pan should fail");
    assert!(set_track_mute(&mut g, invalid_id, true).is_err(), "set_track_mute should fail");
    assert!(set_track_solo(&mut g, invalid_id, true).is_err(), "set_track_solo should fail");
}

#[test]
fn test_multiple_tracks_independence() {
    let mut g = setup_test_graph();
    let track1 = create_track(&mut g, "audio", "Track 1".to_string()).unwrap();
    let track2 = create_track(&mut g, "audio", "Track 2".to_string()).unwrap();
    let track3 = create_track(&mut g, "audio", "Track 3".to_string()).unwrap();
    set_track_volume(&mut g, track1, -600).unwrap();
    set_track_volume(&mut g, track2, 0).unwrap();
    set_track_volume(&mut g, track3, 300).unwrap();
    set_track_pan(&mut g, track1, -100).unwrap();
    set_track_pan(&mut g, track2, 0).unwrap();
    set_track_pan(&mut g, track3, 100).unwrap();
    set_track_mute(&mut g, track1, true).unwrap();
    set_track_solo(&mut g, track3, true).unwrap();

    let info1 = get_track_info(&g, track1).unwrap();
    let parts1: Vec<&str> = info1.split(',').collect();
    assert_eq!(parts1[3], "-6.00", "Track 1 volume");
    assert_eq!(parts1[4], "-1.00", "Track 1 pan");
    assert_eq!(parts1[5], "1", "Track 1 mute");
    assert_eq!(parts1[6], "0", "Track 1 solo");

    let info2 = get_track_info(&g, track2).unwrap();
    let parts2: Vec<&str> = info2.split(',').collect();
    assert_eq!(parts2[3], "0.00", "Track 2 volume");
    assert_eq!(parts2[4], "0.00", "Track 2 pan");
    assert_eq!(parts2[5], "0", "Track 2 mute");
    assert_eq!(parts2[6], "0", "Track 2 solo");

    let info3 = get_track_info(&g, track3).unwrap();
    let parts3: Vec<&str> = info3.split(',').collect();
    assert_eq!(parts3[3], "3.00", "Track 3 volume");
    assert_eq!(parts3[4], "1.00", "Track 3 pan");
    assert_eq!(parts3[5], "0", "Track 3 mute");
    assert_eq!(parts3[6], "1", "Track 3 solo");
}

#[test]
fn test_track_type_names() {
    let mut g = setup_test_graph();
    let audio = create_track(&mut g, "audio", "A".to_string()).unwrap();
    let midi = create_track(&mut g, "midi", "M".to_string()).unwrap();
    let return_track = create_track(&mut g, "return", "R".to_string()).unwrap();
    assert!(get_track_info(&g, audio).unwrap().contains("Audio"), "Audio track should have 'Audio' type");
    assert!(get_track_info(&g, midi).unwrap().contains("MIDI"), "MIDI track should have 'MIDI' type");
    assert!(get_track_info(&g, return_track).unwrap().contains("Return"), "Return track should have 'Return' type");
}

#[test]
fn create_track_type_name_ignores_case() {
    let mut g = setup_test_graph();
    let id = create_track(&mut g, "AuDiO", "Upper".to_string()).unwrap();
    assert!(get_track_info(&g, id).unwrap().contains(",Audio,"));
    let e = create_track(&mut g, "MASTER", "M".to_string()).unwrap_err();
    assert_eq!(e, "Cannot create additional master tracks");
}

#[test]
fn master_track_exists_first_and_cannot_be_deleted() {
    let mut g = setup_test_graph();
    assert_eq!(get_all_track_ids(&g).unwrap(), "0");
    assert!(delete_track(&mut g, 0).is_err());
    let id = create_track(&mut g, "audio", "Temp".to_string()).unwrap();
    assert_eq!(id, 1);
    assert_eq!(get_all_track_ids(&g).unwrap(), "0,1");
    assert_eq!(delete_track(&mut g, id).unwrap(), "Track 1 deleted");
    assert_eq!(get_all_track_ids(&g).unwrap(), "0");
    assert!(get_track_info(&g, id).is_err());
    assert!(delete_track(&mut g, id).is_err());
}

#[test]
fn new_track_info_is_default() {
    let mut g = setup_test_graph();
    let id = create_track(&mut g, "group", "Bus".to_string()).unwrap();
    assert_eq!(get_track_info(&g, id).unwrap(), "1,Bus,Group,0.00,0.00,0,0");
}

#[test]
fn volume_message_and_fraction_formatting() {
    let mut g = setup_test_graph();
    let id = create_track(&mut g, "audio", "V".to_string()).unwrap();
    assert_eq!(set_track_volume(&mut g, id, -5).unwrap(), "Track 1 volume set to -0.05 dB");
    assert_eq!(set_track_volume(&mut g, id, 123).unwrap(), "Track 1 volume set to 1.23 dB");
    assert_eq!(set_track_pan(&mut g, id, -7).unwrap(), "Track 1 pan set to -0.07");
    assert_eq!(set_track_volume(&mut g, 42, 0).unwrap_err(), "Track 42 not found");
}
