//! Application settings: the storage policy, the chosen preset and devices,
//! and their keeper.

use vstd::prelude::*;

use crate::presets::opt_view;
use crate::text::{clone_opt_string, eq_str, owned};

verus! {

/// When and what old recordings are cleaned up.
#[derive(Debug, Clone, Copy)]
pub struct StoragePolicy {
    pub cleanup_enabled: bool,
    pub retention_days: u32,
    pub delete_large_old_files: bool,
    pub large_file_threshold_mb: u32,
    pub max_files_to_delete_per_run: u32,
}

/// The settings that the user can change.
#[derive(Debug, Clone)]
pub struct AppSettings {
    pub output_dir: Option<String>,
    pub selected_preset_id: String,
    pub audio_device: Option<String>,
    pub storage_policy: StoragePolicy,
    /// Older name of the selected preset, read from old settings files only.
    pub quality: Option<String>,
}

/// Settings with their strings taken as character sequences.
pub struct AppSettingsView {
    pub output_dir: Option<Seq<char>>,
    pub selected_preset_id: Seq<char>,
    pub audio_device: Option<Seq<char>>,
    pub storage_policy: StoragePolicy,
    pub quality: Option<Seq<char>>,
}

impl View for AppSettings {
    type V = AppSettingsView;

    open spec fn view(&self) -> AppSettingsView {
        AppSettingsView {
            output_dir: opt_view(self.output_dir),
            selected_preset_id: self.selected_preset_id@,
            audio_device: opt_view(self.audio_device),
            storage_policy: self.storage_policy,
            quality: opt_view(self.quality),
        }
    }
}

/// Default for a missing `cleanup_enabled` or `delete_large_old_files`.
pub fn default_false() -> (r: bool)
    ensures
        !r,
{
    false
}

/// Default for a missing `retention_days`.
pub fn default_30() -> (r: u32)
    ensures
        r == 30,
{
    30
}

/// Default for a missing `large_file_threshold_mb`.
pub fn default_500() -> (r: u32)
    ensures
        r == 500,
{
    500
}

/// Default for a missing `max_files_to_delete_per_run`.
pub fn default_20() -> (r: u32)
    ensures
        r == 20,
{
    20
}

/// Default for a missing `selected_preset_id`.
pub fn default_preset() -> (r: String)
    ensures
        r@ == "daily"@,
{
    owned("daily")
}

/// The storage policy of a fresh installation: no cleanup, 30 days of
/// retention, large files from 500 MB, at most 20 files per run.
pub open spec fn default_storage_policy() -> StoragePolicy {
    StoragePolicy {
        cleanup_enabled: false,
        retention_days: 30,
        delete_large_old_files: false,
        large_file_threshold_mb: 500,
        max_files_to_delete_per_run: 20,
    }
}

/// The settings of a fresh installation.
pub open spec fn default_settings() -> AppSettingsView {
    AppSettingsView {
        output_dir: None,
        selected_preset_id: "daily"@,
        audio_device: None,
        storage_policy: default_storage_policy(),
        quality: None,
    }
}

impl Default for StoragePolicy {
    fn default() -> (r: Self)
        ensures
            r == default_storage_policy(),
    {
        StoragePolicy {
            cleanup_enabled: false,
            retention_days: 30,
            delete_large_old_files: false,
            large_file_threshold_mb: 500,
            max_files_to_delete_per_run: 20,
        }
    }
}

impl Default for AppSettings {
    fn default() -> (r: Self)
        ensures
            r@ == default_settings(),
    {
        AppSettings {
            output_dir: None,
            selected_preset_id: owned("daily"),
            audio_device: None,
            storage_policy: StoragePolicy::default(),
            quality: None,
        }
    }
}

impl StoragePolicy {
    /// A copy of this policy.
    pub fn copy_policy(&self) -> (r: StoragePolicy)
        ensures
            r == *self,
    {
        StoragePolicy {
            cleanup_enabled: self.cleanup_enabled,
            retention_days: self.retention_days,
            delete_large_old_files: self.delete_large_old_files,
            large_file_threshold_mb: self.large_file_threshold_mb,
            max_files_to_delete_per_run: self.max_files_to_delete_per_run,
        }
    }
}

impl AppSettings {
    /// A copy of these settings.
    pub fn copy_settings(&self) -> (r: AppSettings)
        ensures
            r == *self,
    {
        AppSettings {
            output_dir: clone_opt_string(&self.output_dir),
            selected_preset_id: self.selected_preset_id.clone(),
            audio_device: clone_opt_string(&self.audio_device),
            storage_policy: self.storage_policy.copy_policy(),
            quality: clone_opt_string(&self.quality),
        }
    }
}

/// Settings as read from an older file: a `quality` value becomes the
/// selected preset when the selection is still the default "daily"; the old
/// field is dropped either way.
pub open spec fn migrated(s: AppSettingsView) -> AppSettingsView {
    match s.quality {
        Some(q) => if s.selected_preset_id == "daily"@ {
            AppSettingsView { selected_preset_id: q, quality: None, ..s }
        } else {
            AppSettingsView { quality: None, ..s }
        },
        None => s,
    }
}

/// Moves an old `quality` value into the selected preset, as `migrated` says.
pub fn migrate_legacy(settings: AppSettings) -> (r: AppSettings)
    ensures
        r@ == migrated(settings@),
{
    let mut s = settings;
    match s.quality {
        Some(q) => {
            s.quality = None;
            if eq_str(&s.selected_preset_id, "daily") {
                s.selected_preset_id = q;
            }
            s
        },
        None => s,
    }
}

/// Keeps the current settings and the file they are stored in.
pub struct SettingsManager {
    settings: AppSettings,
    path: String,
}

impl SettingsManager {
    /// The settings held.
    pub closed spec fn current(&self) -> AppSettingsView {
        self.settings@
    }

    /// The file the settings are stored in.
    pub closed spec fn file(&self) -> Seq<char> {
        self.path@
    }

    /// A keeper for the settings file at `path`, holding the settings read
    /// from it (defaults when nothing could be read), migrated.
    pub fn new(path: String, loaded: Option<AppSettings>) -> (r: SettingsManager)
        ensures
            r.file() == path@,
            loaded matches Some(s) ==> r.current() == migrated(s@),
            loaded is None ==> r.current() == default_settings(),
    {
        let settings = match loaded {
            Some(s) => s,
            None => AppSettings::default(),
        };
        SettingsManager { settings: migrate_legacy(settings), path }
    }

    /// The file the settings are stored in.
    pub fn path(&self) -> (r: &String)
        ensures
            r@ == self.file(),
    {
        &self.path
    }

    /// A copy of the current settings.
    pub fn get(&self) -> (r: AppSettings)
        ensures
            r@ == self.current(),
    {
        self.settings.copy_settings()
    }

    /// Takes `new_settings` as current once they have been written to the
    /// file; `written` is the outcome of that write. A failed write leaves
    /// the current settings as they were and is reported.
    pub fn save(&mut self, new_settings: AppSettings, written: Result<(), String>) -> (r: Result<(), String>)
        ensures
            final(self).file() == old(self).file(),
            written is Ok ==> r is Ok && final(self).current() == new_settings@,
            written matches Err(e) ==> (r matches Err(m) && m@ == e@ && final(self).current() == old(self).current()),
    {
        match written {
            Ok(()) => {
                self.settings = new_settings;
                Ok(())
            },
            Err(e) => Err(e),
        }
    }

    /// Where recordings go: the chosen folder when one is set and not empty,
    /// `default_dir` otherwise.
    pub fn output_dir(&self, default_dir: String) -> (r: String)
        ensures
            r@ == (match self.current().output_dir {
                Some(d) => if d.len() > 0 { d } else { default_dir@ },
                None => default_dir@,
            }),
    {
        match &self.settings.output_dir {
            Some(d) => {
                if !d.as_str().is_empty() {
                    d.clone()
                } else {
                    default_dir
                }
            },
            None => default_dir,
        }
    }
}


/// Migrating twice changes nothing more than migrating once, and migrated
/// settings hold no old `quality` value.
pub proof fn law_migration_idempotent(s: AppSettingsView)
    ensures
        migrated(s).quality is None,
        migrated(migrated(s)) == migrated(s),
        s.quality is None ==> migrated(s) == s,
{
}

/// A fresh installation selects the built-in "daily" preset, keeps no
/// output folder or microphone, and has cleanup off, with a policy of 30
/// days, 500 MB and at most 20 files a run; the settings read from a file
/// that names none of these take the same values field by field.
pub proof fn law_fresh_settings()
    ensures
        default_settings().selected_preset_id == "daily"@,
        default_settings().output_dir is None,
        default_settings().audio_device is None,
        default_settings().quality is None,
        !default_settings().storage_policy.cleanup_enabled,
        default_settings().storage_policy.retention_days == 30,
        !default_settings().storage_policy.delete_large_old_files,
        default_settings().storage_policy.large_file_threshold_mb == 500,
        default_settings().storage_policy.max_files_to_delete_per_run == 20,
        migrated(default_settings()) == default_settings(),
{
}

/// Migration moves an old `quality` value into the selection only while the
/// selection is still the default "daily"; a selection the user made is
/// kept. Every other setting is kept as it was.
pub proof fn law_migration_moves_quality(s: AppSettingsView)
    ensures
        (s.quality matches Some(q) && s.selected_preset_id == "daily"@) ==> migrated(s).selected_preset_id
            == s.quality->0,
        s.selected_preset_id != "daily"@ ==> migrated(s).selected_preset_id == s.selected_preset_id,
        s.quality is None ==> migrated(s).selected_preset_id == s.selected_preset_id,
        migrated(s).output_dir == s.output_dir,
        migrated(s).audio_device == s.audio_device,
        migrated(s).storage_policy == s.storage_policy,
{
}

} // verus!
