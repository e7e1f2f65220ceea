//! Decisions of the application's commands that span several parts: the
//! cleanup run, keeping the selected preset valid, and what a recording
//! is started with.

use vstd::prelude::*;

use crate::clock::{rfc3339_shaped, utc_now_instant};
use crate::history::{cleanup_candidates, is_cleanup_result, CleanupFacts, HistoryManager};
use crate::presets::{default_presets_spec, find_preset, first_with_id, has_id, position_of_id, QualityPreset};
use crate::settings::AppSettings;
use crate::text::{clone_opt_string, eq_str};

verus! {

/// The recordings that a cleanup run at the instant `now_secs`.`now_nanos`
/// deletes: none when cleanup is off, otherwise those that the settings'
/// storage policy picks from the history.
pub fn cleanup_plan_at(
    settings: &AppSettings,
    history: &HistoryManager,
    facts: &Vec<CleanupFacts>,
    now_secs: i64,
    now_nanos: u32,
) -> (r: Vec<String>)
    requires
        facts@.len() == history.entries().len(),
    ensures
        !settings.storage_policy.cleanup_enabled ==> r@.len() == 0,
        settings.storage_policy.cleanup_enabled ==> ({
            let p = settings.storage_policy;
            let c = cleanup_candidates(history.entries(), facts@, history.entries().len() as int,
                p.retention_days, p.delete_large_old_files, p.large_file_threshold_mb,
                p.max_files_to_delete_per_run, now_secs, now_nanos);
            &&& r@.len() == c.len()
            &&& forall|k: int| 0 <= k < r@.len() ==> #[trigger] r@[k]@ == c[k]
        }),
{
    let policy = &settings.storage_policy;
    if !policy.cleanup_enabled {
        return Vec::new();
    }
    history.get_cleanup_candidates_at(
        policy.retention_days,
        policy.delete_large_old_files,
        policy.large_file_threshold_mb,
        policy.max_files_to_delete_per_run,
        facts,
        now_secs,
        now_nanos,
    )
}

/// The recordings that a cleanup run now deletes, as `cleanup_plan_at`
/// says for the current instant: none when cleanup is off, and never more
/// than the policy's limit.
pub fn cleanup_plan(settings: &AppSettings, history: &HistoryManager, facts: &Vec<CleanupFacts>) -> (r: Vec<String>)
    requires
        facts@.len() == history.entries().len(),
    ensures
        !settings.storage_policy.cleanup_enabled ==> r@.len() == 0,
        r@.len() <= settings.storage_policy.max_files_to_delete_per_run,
        settings.storage_policy.cleanup_enabled ==> exists|now_secs: i64, now_nanos: u32|
            #[trigger] is_cleanup_result(r@, history.entries(), facts@, settings.storage_policy.retention_days,
                settings.storage_policy.delete_large_old_files, settings.storage_policy.large_file_threshold_mb,
                settings.storage_policy.max_files_to_delete_per_run, now_secs, now_nanos),
{
    let (secs, nanos) = utc_now_instant();
    let r = cleanup_plan_at(settings, history, facts, secs, nanos);
    proof {
        let p = settings.storage_policy;
        crate::history::lemma_candidates_bounded(history.entries(), facts@, history.entries().len() as int,
            p.retention_days, p.delete_large_old_files, p.large_file_threshold_mb,
            p.max_files_to_delete_per_run, secs, nanos);
        if p.cleanup_enabled {
            assert(is_cleanup_result(r@, history.entries(), facts@, p.retention_days, p.delete_large_old_files,
                p.large_file_threshold_mb, p.max_files_to_delete_per_run, secs, nanos));
        }
    }
    r
}

/// What follows a finished recording: the preset it was made with (the
/// selected one, chosen from `presets` as `find_preset` chooses), and whether
/// the recording is queued for transcription, which it is exactly when that
/// preset has auto-transcription on.
pub fn after_recording(settings: &AppSettings, presets: &Vec<QualityPreset>) -> (r: (QualityPreset, bool))
    ensures
        r.1 == r.0.auto_transcribe,
        forall|i: int| first_with_id(presets@, settings.selected_preset_id@, i) ==> r.0 == presets@[i],
        !has_id(presets@, settings.selected_preset_id@) && presets@.len() > 0 ==> r.0 == presets@[0],
        presets@.len() == 0 ==> (r.0@.created_at matches Some(t) && rfc3339_shaped(t)
            && r.0@ == default_presets_spec(t)[1]),
{
    let preset = find_preset(presets, settings.selected_preset_id.as_str());
    let transcribe = preset.auto_transcribe;
    (preset, transcribe)
}

/// The preset to select instead when the selected one is not among
/// `presets`: the first of them. `None` when the selection stands, or when
/// there is no preset at all.
pub fn reconcile_selected_preset(settings: &AppSettings, presets: &Vec<QualityPreset>) -> (r: Option<String>)
    ensures
        has_id(presets@, settings.selected_preset_id@) ==> r is None,
        !has_id(presets@, settings.selected_preset_id@) && presets@.len() > 0 ==> (r matches Some(id)
            && id@ == presets@[0].id@),
        presets@.len() == 0 ==> r is None,
{
    match position_of_id(presets, &settings.selected_preset_id) {
        Some(_) => None,
        None => {
            if presets.len() > 0 {
                Some(presets[0].id.clone())
            } else {
                None
            }
        },
    }
}

/// The preset to select after the preset `deleted_id` was deleted: the
/// first remaining one when the deleted preset was the selected one.
/// `None` when the selection stands, or when no preset remains.
pub fn selection_after_delete(selected: &String, deleted_id: &str, remaining: &Vec<QualityPreset>) -> (r: Option<String>)
    ensures
        selected@ != deleted_id@ ==> r is None,
        selected@ == deleted_id@ && remaining@.len() > 0 ==> (r matches Some(id) && id@ == remaining@[0].id@),
        remaining@.len() == 0 ==> r is None,
{
    if eq_str(selected, deleted_id) && remaining.len() > 0 {
        Some(remaining[0].id.clone())
    } else {
        None
    }
}

/// The preset to select after the presets were reset: the first of them.
pub fn selection_after_reset(presets: &Vec<QualityPreset>) -> (r: Option<String>)
    ensures
        presets@.len() > 0 ==> (r matches Some(id) && id@ == presets@[0].id@),
        presets@.len() == 0 ==> r is None,
{
    if presets.len() > 0 {
        Some(presets[0].id.clone())
    } else {
        None
    }
}

/// The microphone and preset a recording starts with: those asked for,
/// else those of the settings.
pub fn recording_choices(
    requested_device: Option<String>,
    requested_preset: Option<String>,
    settings: &AppSettings,
) -> (r: (Option<String>, String))
    ensures
        r.0 == match requested_device {
            Some(d) => Some(d),
            None => settings.audio_device,
        },
        r.1 == match requested_preset {
            Some(p) => p,
            None => settings.selected_preset_id,
        },
{
    let device = match requested_device {
        Some(d) => Some(d),
        None => clone_opt_string(&settings.audio_device),
    };
    let preset = match requested_preset {
        Some(p) => p,
        None => settings.selected_preset_id.clone(),
    };
    (device, preset)
}

} // verus!
