use effective_recorder::commands::{
    after_recording, cleanup_plan, cleanup_plan_at, reconcile_selected_preset, recording_choices, selection_after_delete,
    selection_after_reset,
};
use effective_recorder::history::{CleanupFacts, HistoryManager};
use effective_recorder::presets::default_presets_at;
use effective_recorder::recorder::{
    audio_params_or_default, new_recording_filename, preset_for_recording, recording_filename, RecordingSession,
    RecordingStatus,
};
use effective_recorder::settings::AppSettings;

fn presets() -> Vec<effective_recorder::presets::QualityPreset> {
    default_presets_at(&String::from("2024-01-01T00:00:00Z"))
}

#[test]
fn recording_files_are_named_after_the_start_time() {
    assert_eq!(recording_filename("2024-05-01_10-20-30"), "recording_2024-05-01_10-20-30.mp4");
    let n = new_recording_filename();
    assert!(n.starts_with("recording_") && n.ends_with(".mp4"));
    assert_eq!(n.len(), "recording_2024-05-01_10-20-30.mp4".len());
}

#[test]
fn audio_falls_back_to_mono_44100() {
    assert_eq!(audio_params_or_default(None), (44_100, 1));
    assert_eq!(audio_params_or_default(Some((48_000, 2))), (48_000, 2));
}

#[test]
fn recordings_use_the_asked_preset_or_daily() {
    let list = presets();
    assert_eq!(preset_for_recording(&list, Some(String::from("loom"))).id, "loom");
    assert_eq!(preset_for_recording(&list, None).id, "daily");
    assert_eq!(preset_for_recording(&list, Some(String::from("gone"))).id, "voice");
}

#[test]
fn one_recording_at_a_time() {
    let mut s = RecordingSession::new();
    assert!(!s.is_recording());
    assert_eq!(s.finish(), Err(String::from("No recording in progress")));
    assert_eq!(s.begin(String::from("/r/a.mp4")), Ok(()));
    assert!(s.is_recording());
    assert_eq!(s.begin(String::from("/r/b.mp4")), Err(String::from("Recording is already in progress")));
    assert_eq!(s.finish(), Ok(String::from("/r/a.mp4")));
    assert!(!s.is_recording());
    let status = RecordingStatus { elapsed_seconds: 3, file_size_bytes: 10 };
    assert_eq!(status.elapsed_seconds + status.file_size_bytes, 13);
}

#[test]
fn selection_stays_valid() {
    let list = presets();
    let mut s = AppSettings::default();
    assert_eq!(reconcile_selected_preset(&s, &list), None);
    s.selected_preset_id = String::from("gone");
    assert_eq!(reconcile_selected_preset(&s, &list), Some(String::from("voice")));
    assert_eq!(reconcile_selected_preset(&s, &Vec::new()), None);
    assert_eq!(selection_after_delete(&String::from("mine"), "mine", &list), Some(String::from("voice")));
    assert_eq!(selection_after_delete(&String::from("daily"), "mine", &list), None);
    assert_eq!(selection_after_delete(&String::from("mine"), "mine", &Vec::new()), None);
    assert_eq!(selection_after_reset(&list), Some(String::from("voice")));
    assert_eq!(selection_after_reset(&Vec::new()), None);
}

#[test]
fn recording_choices_prefer_the_request() {
    let mut s = AppSettings::default();
    s.audio_device = Some(String::from("USB"));
    assert_eq!(recording_choices(None, None, &s), (Some(String::from("USB")), String::from("daily")));
    assert_eq!(
        recording_choices(Some(String::from("Mic")), Some(String::from("loom")), &s),
        (Some(String::from("Mic")), String::from("loom"))
    );
}

#[test]
fn cleanup_plan_follows_the_policy() {
    let mut h = HistoryManager::new(String::from("h.json"), None);
    h.add_recording_at("/r/a.mp4", "a", 1, true, 1, "d", "D", &String::from("2023-01-01T00:00:00Z"));
    let facts = vec![CleanupFacts { in_recordings_dir: true, exists: true }];
    let mut s = AppSettings::default();
    assert!(cleanup_plan_at(&s, &h, &facts, 1_706_745_600, 0).is_empty());
    s.storage_policy.cleanup_enabled = true;
    assert_eq!(cleanup_plan_at(&s, &h, &facts, 1_706_745_600, 0), vec!["/r/a.mp4"]);
    assert_eq!(cleanup_plan(&s, &h, &facts), vec!["/r/a.mp4"]);
    s.storage_policy.max_files_to_delete_per_run = 0;
    assert!(cleanup_plan(&s, &h, &facts).is_empty());
}

#[test]
fn a_recording_is_transcribed_when_its_preset_says_so() {
    let list = presets();
    let mut s = AppSettings::default();
    s.selected_preset_id = String::from("loom");
    let (p, transcribe) = after_recording(&s, &list);
    assert_eq!(p.id, "loom");
    assert!(transcribe);
    s.selected_preset_id = String::from("daily");
    let (p, transcribe) = after_recording(&s, &list);
    assert_eq!(p.id, "daily");
    assert!(!transcribe);
    let (p, transcribe) = after_recording(&s, &Vec::new());
    assert_eq!(p.id, "daily");
    assert!(!transcribe);
}

#[test]
fn new_recording_file_names_carry_a_date_and_time() {
    let n = new_recording_filename();
    let stamp = &n["recording_".len()..n.len() - ".mp4".len()];
    let b = stamp.as_bytes();
    assert_eq!(b.len(), 19);
    for (i, c) in b.iter().enumerate() {
        match i {
            4 | 7 | 13 | 16 => assert_eq!(*c, b'-'),
            10 => assert_eq!(*c, b'_'),
            _ => assert!(c.is_ascii_digit()),
        }
    }
}
