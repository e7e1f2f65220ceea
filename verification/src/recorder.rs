//! The recording session: whether a recording runs, what its file is
//! called, and what it is made with.

use vstd::prelude::*;

use crate::clock::{filename_stamp_layout, local_timestamp_for_filename};
use crate::presets::{find_preset, first_with_id, has_id, default_presets_spec, QualityPreset};
use crate::text::owned;

verus! {

/// What the user sees of a running recording.
#[derive(Debug, Clone)]
pub struct RecordingStatus {
    pub elapsed_seconds: u64,
    pub file_size_bytes: u64,
}

/// The audio format assumed when no microphone can be opened.
pub const FALLBACK_SAMPLE_RATE: u32 = 44_100;

/// The channel count assumed when no microphone can be opened.
pub const FALLBACK_CHANNELS: u16 = 1;

/// The file name of a recording started at `timestamp`.
pub open spec fn recording_file_name(timestamp: Seq<char>) -> Seq<char> {
    "recording_"@ + timestamp + ".mp4"@
}

/// The file name of a recording started at `timestamp`.
pub fn recording_filename(timestamp: &str) -> (r: String)
    ensures
        r@ == recording_file_name(timestamp@),
{
    let mut s = owned("recording_");
    s.append(timestamp);
    s.append(".mp4");
    s
}

/// The file name of a recording started now, stamped with the local time
/// as `YYYY-MM-DD_HH-MM-SS` (see `filename_stamp_layout`).
pub fn new_recording_filename() -> (r: String)
    ensures
        exists|t: Seq<char>| filename_stamp_layout(t) && r@ == recording_file_name(t),
{
    let stamp = local_timestamp_for_filename();
    let r = recording_filename(stamp.as_str());
    assert(filename_stamp_layout(stamp@) && r@ == recording_file_name(stamp@));
    r
}

/// The sample rate and channel count to encode audio with: the
/// microphone's, or 44100 Hz mono when there is none.
pub fn audio_params_or_default(found: Option<(u32, u16)>) -> (r: (u32, u16))
    ensures
        r == match found {
            Some(p) => p,
            None => (FALLBACK_SAMPLE_RATE, FALLBACK_CHANNELS),
        },
{
    match found {
        Some(p) => p,
        None => (FALLBACK_SAMPLE_RATE, FALLBACK_CHANNELS),
    }
}

/// The preset a recording is made with: the one asked for, "daily" when
/// none is asked for, chosen from `presets` as `find_preset` chooses.
pub fn preset_for_recording(presets: &Vec<QualityPreset>, preset_id: Option<String>) -> (r: QualityPreset)
    ensures
        ({
            let id = match preset_id {
                Some(p) => p@,
                None => "daily"@,
            };
            &&& forall|i: int| first_with_id(presets@, id, i) ==> r == presets@[i]
            &&& !has_id(presets@, id) && presets@.len() > 0 ==> r == presets@[0]
            &&& presets@.len() == 0 ==> (r@.created_at matches Some(t) && r@ == default_presets_spec(t)[1])
        }),
{
    match preset_id {
        Some(id) => find_preset(presets, id.as_str()),
        None => find_preset(presets, "daily"),
    }
}

/// Whether a recording runs, and the file it goes to.
pub struct RecordingSession {
    active: Option<String>,
}

impl RecordingSession {
    /// The file of the running recording; `None` when none runs.
    pub closed spec fn active_path(&self) -> Option<Seq<char>> {
        match self.active {
            Some(p) => Some(p@),
            None => None,
        }
    }

    /// No recording runs.
    pub fn new() -> (r: RecordingSession)
        ensures
            r.active_path() is None,
    {
        RecordingSession { active: None }
    }

    /// Whether a recording runs.
    pub fn is_recording(&self) -> (r: bool)
        ensures
            r == self.active_path() is Some,
    {
        self.active.is_some()
    }

    /// Starts a recording into `output_path`; refused while one runs.
    pub fn begin(&mut self, output_path: String) -> (r: Result<(), String>)
        ensures
            old(self).active_path() is None ==> r is Ok && final(self).active_path() == Some(output_path@),
            old(self).active_path() is Some ==> (r matches Err(m) && m@ == "Recording is already in progress"@
                && final(self).active_path() == old(self).active_path()),
    {
        if self.active.is_some() {
            return Err(owned("Recording is already in progress"));
        }
        self.active = Some(output_path);
        Ok(())
    }

    /// Ends the running recording and gives its file; refused when none runs.
    pub fn finish(&mut self) -> (r: Result<String, String>)
        ensures
            final(self).active_path() is None,
            old(self).active_path() matches Some(p) ==> (r matches Ok(q) && q@ == p),
            old(self).active_path() is None ==> (r matches Err(m) && m@ == "No recording in progress"@),
    {
        match self.active.take() {
            Some(p) => Ok(p),
            None => Err(owned("No recording in progress")),
        }
    }
}

} // verus!
