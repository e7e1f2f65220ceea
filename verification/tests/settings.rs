use effective_recorder::settings::{
    default_20, default_30, default_500, default_false, default_preset, migrate_legacy, AppSettings,
    SettingsManager, StoragePolicy,
};

fn settings_with(selected: &str, quality: Option<&str>) -> AppSettings {
    let mut s = AppSettings::default();
    s.selected_preset_id = selected.to_string();
    s.quality = quality.map(|q| q.to_string());
    s
}

#[test]
fn serde_default_values() {
    assert!(!default_false());
    assert_eq!(default_30(), 30);
    assert_eq!(default_500(), 500);
    assert_eq!(default_20(), 20);
    assert_eq!(default_preset(), "daily");
}

#[test]
fn fresh_settings() {
    let s = AppSettings::default();
    assert_eq!(s.output_dir, None);
    assert_eq!(s.selected_preset_id, "daily");
    assert_eq!(s.audio_device, None);
    assert_eq!(s.quality, None);
    let p = StoragePolicy::default();
    assert!(!p.cleanup_enabled);
    assert_eq!(p.retention_days, 30);
    assert!(!p.delete_large_old_files);
    assert_eq!(p.large_file_threshold_mb, 500);
    assert_eq!(p.max_files_to_delete_per_run, 20);
    assert_eq!(s.storage_policy.retention_days, 30);
}

#[test]
fn legacy_quality_replaces_the_default_selection() {
    let m = migrate_legacy(settings_with("daily", Some("loom")));
    assert_eq!(m.selected_preset_id, "loom");
    assert_eq!(m.quality, None);
}

#[test]
fn legacy_quality_does_not_override_a_choice() {
    let m = migrate_legacy(settings_with("meeting", Some("loom")));
    assert_eq!(m.selected_preset_id, "meeting");
    assert_eq!(m.quality, None);
    let again = migrate_legacy(m);
    assert_eq!(again.selected_preset_id, "meeting");
    let plain = migrate_legacy(settings_with("voice", None));
    assert_eq!(plain.selected_preset_id, "voice");
}

#[test]
fn manager_starts_from_the_file_or_defaults() {
    let m = SettingsManager::new(String::from("/cfg/settings.json"), None);
    assert_eq!(m.path(), "/cfg/settings.json");
    assert_eq!(m.get().selected_preset_id, "daily");
    let loaded = SettingsManager::new(String::from("/cfg/settings.json"), Some(settings_with("daily", Some("voice"))));
    assert_eq!(loaded.get().selected_preset_id, "voice");
    assert_eq!(loaded.get().quality, None);
}

#[test]
fn save_takes_the_settings_only_when_written() {
    let mut m = SettingsManager::new(String::from("s.json"), None);
    assert_eq!(m.save(settings_with("loom", None), Err(String::from("disk full"))), Err(String::from("disk full")));
    assert_eq!(m.get().selected_preset_id, "daily");
    assert_eq!(m.save(settings_with("loom", None), Ok(())), Ok(()));
    assert_eq!(m.get().selected_preset_id, "loom");
}

#[test]
fn output_dir_prefers_a_non_empty_choice() {
    let mut m = SettingsManager::new(String::from("s.json"), None);
    assert_eq!(m.output_dir(String::from("/home/u/Movies")), "/home/u/Movies");
    let mut s = AppSettings::default();
    s.output_dir = Some(String::new());
    m.save(s, Ok(())).unwrap();
    assert_eq!(m.output_dir(String::from("/home/u/Movies")), "/home/u/Movies");
    let mut s = AppSettings::default();
    s.output_dir = Some(String::from("/data/rec"));
    m.save(s, Ok(())).unwrap();
    assert_eq!(m.output_dir(String::from("/home/u/Movies")), "/data/rec");
}
