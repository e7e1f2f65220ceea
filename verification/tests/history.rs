use effective_recorder::history::{
    is_cleanup_pick, newest_first_order, CleanupFacts, FileState, HistoryManager, RecordingEntry, DISPLAY_LIMIT, MAX_HISTORY,
};

fn add(h: &mut HistoryManager, path: &str, recorded_at: &str) {
    h.add_recording_at(path, "f.mp4", 10, true, 5, "daily", "Daily Lite", &recorded_at.to_string());
}

fn paths(h: &HistoryManager) -> Vec<String> {
    h.all_entries().iter().map(|e| e.path.clone()).collect()
}

fn present(n: usize) -> Vec<FileState> {
    (0..n).map(|_| FileState::Present(None)).collect()
}

#[test]
fn new_history_is_empty_or_loaded() {
    let h = HistoryManager::new(String::from("/cfg/recordings_history.json"), None);
    assert_eq!(h.path(), "/cfg/recordings_history.json");
    assert!(h.all_entries().is_empty());
    let mut src = HistoryManager::new(String::from("a"), None);
    add(&mut src, "/r/1.mp4", "2024-01-01T00:00:00Z");
    let loaded: Vec<RecordingEntry> = src.all_entries().iter().map(|e| e.copy_entry()).collect();
    let h = HistoryManager::new(String::from("a"), Some(loaded));
    assert_eq!(paths(&h), vec!["/r/1.mp4"]);
}

#[test]
fn add_recording_puts_the_newest_first() {
    let mut h = HistoryManager::new(String::from("h.json"), None);
    add(&mut h, "/r/1.mp4", "2024-01-01T00:00:00Z");
    h.add_recording_at("/r/2.mp4", "2.mp4", 2048, false, 61, "loom", "Loom HD", &String::from("2024-01-02T00:00:00Z"));
    assert_eq!(paths(&h), vec!["/r/2.mp4", "/r/1.mp4"]);
    let e = &h.all_entries()[0];
    assert_eq!(e.filename, "2.mp4");
    assert_eq!(e.size_bytes, 2048);
    assert_eq!(e.duration_seconds, 61);
    assert_eq!(e.status, "missing");
    assert_eq!(e.preset_id, "loom");
    assert_eq!(e.preset_name, "Loom HD");
    assert_eq!(e.recorded_at, "2024-01-02T00:00:00Z");
    assert_eq!(e.transcript_path, None);
    assert_eq!(e.transcription_status, None);
    assert_eq!(h.all_entries()[1].status, "exists");
}

#[test]
fn add_recording_now_stamps_the_time() {
    let mut h = HistoryManager::new(String::from("h.json"), None);
    h.add_recording("/r/a.mp4", "a.mp4", 1, true, 1, "voice", "Voice-first");
    let stamp = &h.all_entries()[0].recorded_at;
    assert_eq!(&stamp[10..11], "T");
}

#[test]
fn history_keeps_at_most_500() {
    let mut h = HistoryManager::new(String::from("h.json"), None);
    for i in 0..(MAX_HISTORY + 3) {
        add(&mut h, &format!("/r/{}.mp4", i), "2024-01-01T00:00:00Z");
    }
    assert_eq!(h.all_entries().len(), 500);
    assert_eq!(h.all_entries()[0].path, "/r/502.mp4");
    assert_eq!(h.all_entries()[499].path, "/r/3.mp4");
}

#[test]
fn get_entries_syncs_statuses_and_shows_200() {
    let mut h = HistoryManager::new(String::from("h.json"), None);
    for i in 0..250 {
        add(&mut h, &format!("/r/{}.mp4", i), "2024-01-01T00:00:00Z");
    }
    let mut seen = present(250);
    seen[0] = FileState::Present(Some(999));
    seen[1] = FileState::Missing;
    let shown = h.get_entries(&seen);
    assert_eq!(shown.len(), DISPLAY_LIMIT);
    assert_eq!(shown[0].size_bytes, 999);
    assert_eq!(shown[0].status, "exists");
    assert_eq!(shown[1].status, "missing");
    assert_eq!(shown[2].size_bytes, 10);
    assert_eq!(h.all_entries().len(), 250);
    assert_eq!(h.all_entries()[1].status, "missing");
    let again = h.rescan(&present(250));
    assert_eq!(again[1].status, "exists");
}

#[test]
fn remove_entry_forgets_every_entry_of_the_path() {
    let mut h = HistoryManager::new(String::from("h.json"), None);
    add(&mut h, "/r/a.mp4", "x");
    add(&mut h, "/r/b.mp4", "x");
    add(&mut h, "/r/a.mp4", "x");
    h.remove_entry("/r/a.mp4");
    assert_eq!(paths(&h), vec!["/r/b.mp4"]);
    h.remove_entry("/r/zzz.mp4");
    assert_eq!(paths(&h), vec!["/r/b.mp4"]);
}

#[test]
fn remove_missing_counts_what_it_removes() {
    let mut h = HistoryManager::new(String::from("h.json"), None);
    add(&mut h, "/r/1.mp4", "x");
    add(&mut h, "/r/2.mp4", "x");
    add(&mut h, "/r/3.mp4", "x");
    assert_eq!(h.remove_missing(&vec![true, false, false]), 2);
    assert_eq!(paths(&h), vec!["/r/3.mp4"]);
    assert_eq!(h.remove_missing(&vec![true]), 0);
}

#[test]
fn transcription_status_goes_to_the_first_matching_entry() {
    let mut h = HistoryManager::new(String::from("h.json"), None);
    add(&mut h, "/r/1.mp4", "x");
    add(&mut h, "/r/2.mp4", "x");
    assert!(h.update_transcription_status("/r/1.mp4", "pending", None));
    assert_eq!(h.all_entries()[1].transcription_status.as_deref(), Some("pending"));
    assert!(h.update_transcription_status("/r/1.mp4", "completed", Some("/r/1.srt")));
    assert_eq!(h.all_entries()[1].transcript_path.as_deref(), Some("/r/1.srt"));
    assert!(h.update_transcription_status("/r/1.mp4", "failed", None));
    assert_eq!(h.all_entries()[1].transcript_path.as_deref(), Some("/r/1.srt"));
    assert_eq!(h.all_entries()[1].transcription_status.as_deref(), Some("failed"));
    assert!(!h.update_transcription_status("/r/none.mp4", "pending", None));
    assert_eq!(h.all_entries()[0].transcription_status, None);
}

fn facts(n: usize) -> Vec<CleanupFacts> {
    (0..n).map(|_| CleanupFacts { in_recordings_dir: true, exists: true }).collect()
}

// 2024-02-01T00:00:00Z
const FEB_1: i64 = 1_706_745_600;

#[test]
fn cleanup_picks_old_recordings_by_whole_days() {
    let mut h = HistoryManager::new(String::from("h.json"), None);
    add(&mut h, "/r/old.mp4", "2024-01-01T00:00:00Z");
    add(&mut h, "/r/edge.mp4", "2024-01-02T00:00:00Z");
    add(&mut h, "/r/young.mp4", "2024-01-02T00:00:01Z");
    add(&mut h, "/r/offset.mp4", "2024-01-02T05:00:00+05:00");
    add(&mut h, "/r/bad.mp4", "not a time");
    let picked = h.get_cleanup_candidates_at(30, false, 500, 20, &facts(5), FEB_1, 0);
    assert_eq!(picked, vec!["/r/offset.mp4", "/r/edge.mp4", "/r/old.mp4"]);
}

#[test]
fn cleanup_respects_folder_existence_and_limit() {
    let mut h = HistoryManager::new(String::from("h.json"), None);
    for i in 0..5 {
        add(&mut h, &format!("/r/{}.mp4", i), "2023-01-01T00:00:00Z");
    }
    let mut f = facts(5);
    f[0].in_recordings_dir = false;
    f[1].exists = false;
    let picked = h.get_cleanup_candidates_at(30, false, 500, 2, &f, FEB_1, 0);
    assert_eq!(picked, vec!["/r/2.mp4", "/r/1.mp4"]);
    assert!(h.get_cleanup_candidates_at(30, false, 500, 0, &f, FEB_1, 0).is_empty());
}

#[test]
fn cleanup_removes_large_files_older_than_a_day() {
    let mut h = HistoryManager::new(String::from("h.json"), None);
    h.add_recording_at("/r/big_old.mp4", "b", 600 * 1024 * 1024, true, 1, "d", "D", &String::from("2024-01-30T00:00:00Z"));
    h.add_recording_at("/r/big_new.mp4", "b", 600 * 1024 * 1024, true, 1, "d", "D", &String::from("2024-01-31T12:00:00Z"));
    h.add_recording_at("/r/small_old.mp4", "s", 499 * 1024 * 1024, true, 1, "d", "D", &String::from("2024-01-30T00:00:00Z"));
    h.add_recording_at("/r/edge.mp4", "e", 500 * 1024 * 1024, true, 1, "d", "D", &String::from("2024-01-30T00:00:00Z"));
    let picked = h.get_cleanup_candidates_at(30, true, 500, 20, &facts(4), FEB_1, 0);
    assert_eq!(picked, vec!["/r/edge.mp4", "/r/big_old.mp4"]);
    let none = h.get_cleanup_candidates_at(30, false, 500, 20, &facts(4), FEB_1, 0);
    assert!(none.is_empty());
}

#[test]
fn cleanup_now_is_bounded_by_the_limit() {
    let mut h = HistoryManager::new(String::from("h.json"), None);
    for i in 0..4 {
        add(&mut h, &format!("/r/{}.mp4", i), "2000-01-01T00:00:00Z");
    }
    let picked = h.get_cleanup_candidates(30, false, 500, 3, &facts(4));
    assert_eq!(picked, vec!["/r/3.mp4", "/r/2.mp4", "/r/1.mp4"]);
}

#[test]
fn execute_cleanup_forgets_removed_recordings() {
    let mut h = HistoryManager::new(String::from("h.json"), None);
    add(&mut h, "/r/1.mp4", "x");
    add(&mut h, "/r/2.mp4", "x");
    add(&mut h, "/r/3.mp4", "x");
    let n = h.execute_cleanup(&vec![String::from("/r/1.mp4"), String::from("/r/3.mp4")]);
    assert_eq!(n, 2);
    assert_eq!(paths(&h), vec!["/r/2.mp4"]);
}

#[test]
fn cleanup_pick_follows_the_policy_rules() {
    let mut h = HistoryManager::new(String::from("h.json"), None);
    h.add_recording_at("/rec/a.mp4", "a.mp4", 600 * 1024 * 1024, true, 5, "daily", "Daily", &String::from("2024-01-01T00:00:00Z"));
    let e = &h.all_entries()[0];
    let ok = CleanupFacts { in_recordings_dir: true, exists: true };
    // Old enough for the retention rule.
    assert!(is_cleanup_pick(e, ok, Some(30), 30, false, 500));
    assert!(!is_cleanup_pick(e, ok, Some(29), 30, false, 500));
    // Large and at least a day old.
    assert!(is_cleanup_pick(e, ok, Some(1), 30, true, 500));
    assert!(!is_cleanup_pick(e, ok, Some(0), 30, true, 500));
    assert!(!is_cleanup_pick(e, ok, Some(1), 30, true, 601));
    // A stamp that did not parse, or a file outside the folder or gone.
    assert!(!is_cleanup_pick(e, ok, None, 0, true, 0));
    assert!(!is_cleanup_pick(e, CleanupFacts { in_recordings_dir: false, exists: true }, Some(99), 30, false, 500));
    assert!(!is_cleanup_pick(e, CleanupFacts { in_recordings_dir: true, exists: false }, Some(99), 30, false, 500));
}

#[test]
fn get_entries_shows_the_newest_first() {
    let mut h = HistoryManager::new(String::from("h.json"), None);
    // Stored oldest first, as a hand-edited or older file may hold them.
    add(&mut h, "/r/new.mp4", "2024-03-01T00:00:00Z");
    add(&mut h, "/r/bad.mp4", "not a time");
    add(&mut h, "/r/tie-b.mp4", "2024-02-01T00:00:00Z");
    add(&mut h, "/r/tie-a.mp4", "2024-02-01T01:00:00+01:00");
    add(&mut h, "/r/old.mp4", "2024-01-01T00:00:00Z");
    assert_eq!(paths(&h), vec!["/r/old.mp4", "/r/tie-a.mp4", "/r/tie-b.mp4", "/r/bad.mp4", "/r/new.mp4"]);
    let shown: Vec<String> = h.get_entries(&present(5)).iter().map(|e| e.path.clone()).collect();
    assert_eq!(shown, vec!["/r/new.mp4", "/r/tie-a.mp4", "/r/tie-b.mp4", "/r/old.mp4", "/r/bad.mp4"]);
    // The stored order is kept.
    assert_eq!(paths(&h), vec!["/r/old.mp4", "/r/tie-a.mp4", "/r/tie-b.mp4", "/r/bad.mp4", "/r/new.mp4"]);
}

#[test]
fn newest_first_order_sorts_by_instant_and_keeps_ties() {
    let keys = vec![Some((10, 0)), None, Some((20, 5)), Some((20, 5)), Some((20, 7)), None];
    assert_eq!(newest_first_order(&keys), vec![4, 2, 3, 0, 1, 5]);
    assert!(newest_first_order(&Vec::new()).is_empty());
}
