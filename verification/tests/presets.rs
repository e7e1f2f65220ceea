use effective_recorder::presets::{
    create_preset, create_preset_at, default_camera_shape, default_camera_size, default_presets,
    default_presets_at, delete_preset, duplicate_preset, duplicate_preset_at, find_preset,
    get_valid_encoder_presets, is_valid_x264_preset, presets_or_defaults, reset_presets_to_defaults,
    update_preset, update_preset_at, QualityPreset,
};

const NOW: &str = "2024-05-01T10:20:30.123456+00:00";

fn now() -> String {
    String::from(NOW)
}

fn user_preset(id: &str) -> QualityPreset {
    QualityPreset {
        id: id.to_string(),
        name: format!("Preset {}", id),
        description: String::from("custom"),
        target_height: 720,
        fps: 10,
        crf: 28,
        preset: String::from("fast"),
        audio_bitrate: 64_000,
        audio_channels: 1,
        is_system: true,
        created_at: None,
        updated_at: None,
        auto_transcribe: false,
        camera_overlay_enabled: false,
        camera_device_id: None,
        camera_overlay_size: String::from("medium"),
        camera_overlay_shape: String::from("circle"),
    }
}

fn ids(list: &[QualityPreset]) -> Vec<String> {
    list.iter().map(|p| p.id.clone()).collect()
}

#[test]
fn builtin_presets_match_the_readme_table() {
    let d = default_presets_at(&now());
    let rows: Vec<(&str, u32, u32)> = d.iter().map(|p| (p.name.as_str(), p.target_height, p.fps)).collect();
    assert_eq!(
        rows,
        vec![("Voice-first", 360, 5), ("Daily Lite", 720, 8), ("Meeting", 720, 12), ("Presentation", 900, 10), ("Loom HD", 1080, 24)]
    );
    assert_eq!(ids(&d), vec!["voice", "daily", "meeting", "presentation", "loom"]);
}

#[test]
fn builtin_presets_are_system_presets_stamped_with_the_time() {
    for p in default_presets_at(&now()) {
        assert!(p.is_system);
        assert_eq!(p.created_at.as_deref(), Some(NOW));
        assert_eq!(p.updated_at.as_deref(), Some(NOW));
        assert_eq!(p.camera_device_id, None);
    }
}

#[test]
fn builtin_presets_details() {
    let d = default_presets_at(&now());
    let crf: Vec<u32> = d.iter().map(|p| p.crf).collect();
    assert_eq!(crf, vec![38, 32, 29, 26, 23]);
    let enc: Vec<&str> = d.iter().map(|p| p.preset.as_str()).collect();
    assert_eq!(enc, vec!["veryfast", "veryfast", "fast", "medium", "veryfast"]);
    let bitrate: Vec<usize> = d.iter().map(|p| p.audio_bitrate).collect();
    assert_eq!(bitrate, vec![32_000, 48_000, 64_000, 64_000, 128_000]);
    let channels: Vec<u32> = d.iter().map(|p| p.audio_channels).collect();
    assert_eq!(channels, vec![1, 1, 1, 1, 2]);
    assert_eq!(d[0].description, "~60-90 MB/h");
    assert_eq!(d[4].description, "~500-800 MB/h");
    assert!(d[4].auto_transcribe && d[4].camera_overlay_enabled);
    assert_eq!(d[4].camera_overlay_size, "large");
    assert!(!d[1].auto_transcribe && !d[1].camera_overlay_enabled);
    assert_eq!(d[1].camera_overlay_size, "medium");
    assert!(d.iter().all(|p| p.camera_overlay_shape == "circle"));
}

#[test]
fn every_builtin_preset_is_valid() {
    for p in default_presets_at(&now()) {
        assert_eq!(p.validate(), Ok(()));
    }
}

#[test]
fn default_presets_now_are_stamped_with_an_rfc3339_time() {
    let d = default_presets();
    let stamp = d[0].created_at.clone().unwrap();
    assert!(stamp.len() >= 19);
    assert_eq!(&stamp[4..5], "-");
    assert_eq!(&stamp[10..11], "T");
    assert!(d.iter().all(|p| p.created_at.as_deref() == Some(stamp.as_str())));
    assert_eq!(ids(&reset_presets_to_defaults()), ids(&d));
}

#[test]
fn camera_defaults() {
    assert_eq!(default_camera_size(), "medium");
    assert_eq!(default_camera_shape(), "circle");
}

#[test]
fn valid_encoder_presets_in_order() {
    assert_eq!(
        get_valid_encoder_presets(),
        vec!["ultrafast", "superfast", "veryfast", "faster", "fast", "medium", "slow", "slower", "veryslow"]
    );
    assert!(is_valid_x264_preset(&String::from("slower")));
    assert!(!is_valid_x264_preset(&String::from("placebo")));
    assert!(!is_valid_x264_preset(&String::from("")));
}

#[test]
fn validate_reports_the_first_rule_broken() {
    let mut p = user_preset("");
    p.name = String::new();
    assert_eq!(p.validate(), Err(String::from("ID is required")));
    let mut p = user_preset("a");
    p.name = String::new();
    assert_eq!(p.validate(), Err(String::from("Name is required")));
    let mut p = user_preset("a");
    p.fps = 4;
    assert_eq!(p.validate(), Err(String::from("FPS must be 5-24")));
    p.fps = 25;
    assert_eq!(p.validate(), Err(String::from("FPS must be 5-24")));
    p.fps = 24;
    p.target_height = 239;
    assert_eq!(p.validate(), Err(String::from("Height must be 240-1080")));
    p.target_height = 1081;
    assert_eq!(p.validate(), Err(String::from("Height must be 240-1080")));
    p.target_height = 240;
    p.crf = 52;
    assert_eq!(p.validate(), Err(String::from("CRF must be 0-51")));
    p.crf = 51;
    p.audio_bitrate = 15_999;
    assert_eq!(p.validate(), Err(String::from("Audio bitrate must be 16000-320000")));
    p.audio_bitrate = 320_001;
    assert_eq!(p.validate(), Err(String::from("Audio bitrate must be 16000-320000")));
    p.audio_bitrate = 320_000;
    p.audio_channels = 3;
    assert_eq!(p.validate(), Err(String::from("Audio channels must be 1 or 2")));
    p.audio_channels = 0;
    assert_eq!(p.validate(), Err(String::from("Audio channels must be 1 or 2")));
    p.audio_channels = 2;
    p.preset = String::from("placebo");
    assert_eq!(
        p.validate(),
        Err(String::from(
            "Invalid encoder preset 'placebo'. Valid: [\"ultrafast\", \"superfast\", \"veryfast\", \"faster\", \"fast\", \"medium\", \"slow\", \"slower\", \"veryslow\"]"
        ))
    );
    p.preset = String::from("veryslow");
    assert_eq!(p.validate(), Ok(()));
}

#[test]
fn create_preset_adds_a_user_preset() {
    let mut list = default_presets_at(&now());
    let created = create_preset_at(&mut list, user_preset("mine"), &String::from("2024-06-01T00:00:00+00:00")).unwrap();
    assert!(!created.is_system);
    assert_eq!(created.created_at.as_deref(), Some("2024-06-01T00:00:00+00:00"));
    assert_eq!(created.updated_at.as_deref(), Some("2024-06-01T00:00:00+00:00"));
    assert_eq!(list.len(), 6);
    assert_eq!(list[5].id, "mine");
    assert!(!list[5].is_system);
    let found = find_preset(&list, "mine");
    assert_eq!(found.name, "Preset mine");
    assert_eq!(found.created_at, created.created_at);
}

#[test]
fn create_preset_refuses_a_taken_id_and_invalid_presets() {
    let mut list = default_presets_at(&now());
    assert_eq!(
        create_preset_at(&mut list, user_preset("daily"), &now()).map(|p| p.id),
        Err(String::from("Preset with id 'daily' already exists"))
    );
    let mut bad = user_preset("new");
    bad.crf = 60;
    assert_eq!(create_preset_at(&mut list, bad, &now()).map(|p| p.id), Err(String::from("CRF must be 0-51")));
    assert_eq!(list.len(), 5);
}

#[test]
fn create_preset_now_stamps_the_current_time() {
    let mut list = Vec::new();
    let created = create_preset(&mut list, user_preset("x")).unwrap();
    let stamp = created.created_at.clone().unwrap();
    assert_eq!(&stamp[10..11], "T");
    assert_eq!(created.updated_at, created.created_at);
    assert_eq!(list.len(), 1);
}

#[test]
fn update_preset_keeps_origin_and_creation_time() {
    let mut list = default_presets_at(&now());
    let mut changed = user_preset("meeting");
    changed.fps = 15;
    changed.is_system = false;
    changed.created_at = Some(String::from("forged"));
    let later = String::from("2025-01-01T00:00:00+00:00");
    let updated = update_preset_at(&mut list, changed, &later).unwrap();
    assert!(updated.is_system);
    assert_eq!(updated.created_at.as_deref(), Some(NOW));
    assert_eq!(updated.updated_at.as_deref(), Some("2025-01-01T00:00:00+00:00"));
    assert_eq!(list[2].fps, 15);
    assert_eq!(list[2].name, "Preset meeting");
    assert_eq!(list.len(), 5);
}

#[test]
fn update_preset_errors() {
    let mut list = default_presets_at(&now());
    assert_eq!(
        update_preset_at(&mut list, user_preset("nope"), &now()).map(|p| p.id),
        Err(String::from("Preset 'nope' not found"))
    );
    let mut bad = user_preset("daily");
    bad.fps = 1;
    assert_eq!(update_preset(&mut list, bad).map(|p| p.id), Err(String::from("FPS must be 5-24")));
    let mut ok = user_preset("daily");
    ok.crf = 30;
    let u = update_preset(&mut list, ok).unwrap();
    assert_ne!(u.updated_at.as_deref(), Some(NOW));
    assert_eq!(list[1].crf, 30);
}

#[test]
fn delete_preset_rules() {
    let mut list = default_presets_at(&now());
    assert_eq!(delete_preset(&mut list, "zzz"), Err(String::from("Preset 'zzz' not found")));
    assert_eq!(delete_preset(&mut list, "voice"), Err(String::from("Cannot delete system preset. Duplicate it first.")));
    create_preset_at(&mut list, user_preset("mine"), &now()).unwrap();
    assert_eq!(delete_preset(&mut list, "mine"), Ok(()));
    assert_eq!(ids(&list), vec!["voice", "daily", "meeting", "presentation", "loom"]);
    let mut single = Vec::new();
    create_preset_at(&mut single, user_preset("only"), &now()).unwrap();
    assert_eq!(delete_preset(&mut single, "only"), Err(String::from("Cannot delete the last preset")));
    assert_eq!(single.len(), 1);
}

#[test]
fn duplicate_preset_names_the_copy_after_the_seconds() {
    let mut list = default_presets_at(&now());
    let stamp = String::from("2024-05-01T10:20:45.5+00:00");
    let copy = duplicate_preset_at(&mut list, "loom", &stamp).unwrap();
    assert_eq!(copy.id, "loom-copy-45");
    assert_eq!(copy.name, "Loom HD (copy)");
    assert!(!copy.is_system);
    assert_eq!(copy.created_at.as_deref(), Some("2024-05-01T10:20:45.5+00:00"));
    assert_eq!(copy.fps, 24);
    assert_eq!(list.len(), 6);
    assert_eq!(
        duplicate_preset_at(&mut list, "loom", &stamp).map(|p| p.id),
        Err(String::from("Preset with id 'loom-copy-45' already exists"))
    );
    assert_eq!(duplicate_preset_at(&mut list, "none", &stamp).map(|p| p.id), Err(String::from("Preset 'none' not found")));
    assert_eq!(list.len(), 6);
}

#[test]
fn duplicate_preset_now() {
    let mut list = default_presets_at(&now());
    let copy = duplicate_preset(&mut list, "voice").unwrap();
    assert!(copy.id.starts_with("voice-copy-"));
    assert_eq!(copy.id.len(), "voice-copy-".len() + 2);
    assert_eq!(list.len(), 6);
}

#[test]
fn find_preset_falls_back_to_the_first_then_to_daily() {
    let list = default_presets_at(&now());
    assert_eq!(find_preset(&list, "meeting").id, "meeting");
    assert_eq!(find_preset(&list, "unknown").id, "voice");
    let fallback = find_preset(&Vec::new(), "anything");
    assert_eq!(fallback.id, "daily");
    assert_eq!(fallback.name, "Daily Lite");
    assert!(fallback.is_system);
}

#[test]
fn loaded_presets_are_kept_unless_empty() {
    let mine = vec![user_preset("a")];
    let (kept, save) = presets_or_defaults(Some(mine));
    assert_eq!(ids(&kept), vec!["a"]);
    assert!(!save);
    let (d, save) = presets_or_defaults(Some(Vec::new()));
    assert_eq!(d.len(), 5);
    assert!(save);
    let (d, save) = presets_or_defaults(None);
    assert_eq!(d[1].id, "daily");
    assert!(save);
}

#[test]
fn ids_stay_unique_through_the_operations() {
    let mut list = default_presets_at(&now());
    let _ = create_preset_at(&mut list, user_preset("a"), &now());
    let _ = create_preset_at(&mut list, user_preset("a"), &now());
    let _ = duplicate_preset_at(&mut list, "a", &String::from("2024-05-01T10:20:07Z"));
    let _ = duplicate_preset_at(&mut list, "a", &String::from("2024-05-01T10:20:07Z"));
    let _ = update_preset_at(&mut list, user_preset("a"), &now());
    let _ = delete_preset(&mut list, "a-copy-07");
    let mut all = ids(&list);
    let n = all.len();
    all.sort();
    all.dedup();
    assert_eq!(all.len(), n);
    assert_eq!(n, 6);
}
