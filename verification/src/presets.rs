//! Quality presets: what a recording is encoded with, their validation,
//! the built-in set and the operations on the user's list of presets.

use vstd::prelude::*;

use crate::clock::{rfc3339_shaped, utc_now_rfc3339};
use crate::text::{clone_opt_string, owned};

verus! {

/// A named set of encoding parameters.
#[derive(Debug, Clone)]
pub struct QualityPreset {
    pub id: String,
    pub name: String,
    pub description: String,
    pub target_height: u32,
    pub fps: u32,
    pub crf: u32,
    /// x264 speed preset.
    pub preset: String,
    pub audio_bitrate: usize,
    pub audio_channels: u32,
    pub is_system: bool,
    pub created_at: Option<String>,
    pub updated_at: Option<String>,
    pub auto_transcribe: bool,
    pub camera_overlay_enabled: bool,
    pub camera_device_id: Option<String>,
    pub camera_overlay_size: String,
    pub camera_overlay_shape: String,
}

/// The file that holds the user's presets.
#[derive(Debug, Clone)]
pub struct PresetsFile {
    pub presets: Vec<QualityPreset>,
}

/// A preset with its strings taken as character sequences.
pub struct QualityPresetView {
    pub id: Seq<char>,
    pub name: Seq<char>,
    pub description: Seq<char>,
    pub target_height: u32,
    pub fps: u32,
    pub crf: u32,
    pub preset: Seq<char>,
    pub audio_bitrate: usize,
    pub audio_channels: u32,
    pub is_system: bool,
    pub created_at: Option<Seq<char>>,
    pub updated_at: Option<Seq<char>>,
    pub auto_transcribe: bool,
    pub camera_overlay_enabled: bool,
    pub camera_device_id: Option<Seq<char>>,
    pub camera_overlay_size: Seq<char>,
    pub camera_overlay_shape: Seq<char>,
}

/// An optional string taken as an optional character sequence.
pub open spec fn opt_view(o: Option<String>) -> Option<Seq<char>> {
    match o {
        Some(s) => Some(s@),
        None => None,
    }
}

impl View for QualityPreset {
    type V = QualityPresetView;

    open spec fn view(&self) -> QualityPresetView {
        QualityPresetView {
            id: self.id@,
            name: self.name@,
            description: self.description@,
            target_height: self.target_height,
            fps: self.fps,
            crf: self.crf,
            preset: self.preset@,
            audio_bitrate: self.audio_bitrate,
            audio_channels: self.audio_channels,
            is_system: self.is_system,
            created_at: opt_view(self.created_at),
            updated_at: opt_view(self.updated_at),
            auto_transcribe: self.auto_transcribe,
            camera_overlay_enabled: self.camera_overlay_enabled,
            camera_device_id: opt_view(self.camera_device_id),
            camera_overlay_size: self.camera_overlay_size@,
            camera_overlay_shape: self.camera_overlay_shape@,
        }
    }
}

/// Overlay size of a preset that names none.
pub fn default_camera_size() -> (r: String)
    ensures
        r@ == "medium"@,
{
    owned("medium")
}

/// Overlay shape of a preset that names none.
pub fn default_camera_shape() -> (r: String)
    ensures
        r@ == "circle"@,
{
    owned("circle")
}

/// The views of a list of presets.
pub open spec fn presets_view(s: Seq<QualityPreset>) -> Seq<QualityPresetView> {
    s.map_values(|p: QualityPreset| p@)
}

/// The x264 speed presets that the encoder accepts, fastest first.
pub open spec fn valid_x264_presets() -> Seq<Seq<char>> {
    seq![
        "ultrafast"@, "superfast"@, "veryfast"@, "faster"@, "fast"@,
        "medium"@, "slow"@, "slower"@, "veryslow"@,
    ]
}

/// How the list of valid x264 presets is printed in an error message.
pub open spec fn valid_x264_presets_listing() -> Seq<char> {
    "[\"ultrafast\", \"superfast\", \"veryfast\", \"faster\", \"fast\", \"medium\", \"slow\", \"slower\", \"veryslow\"]"@
}

/// The first rule that a preset breaks, as the message that reports it;
/// `None` when the preset is valid.
pub open spec fn validation_error(p: QualityPresetView) -> Option<Seq<char>> {
    if p.id.len() == 0 {
        Some("ID is required"@)
    } else if p.name.len() == 0 {
        Some("Name is required"@)
    } else if p.fps < 5 || p.fps > 24 {
        Some("FPS must be 5-24"@)
    } else if p.target_height < 240 || p.target_height > 1080 {
        Some("Height must be 240-1080"@)
    } else if p.crf > 51 {
        Some("CRF must be 0-51"@)
    } else if p.audio_bitrate < 16_000 || p.audio_bitrate > 320_000 {
        Some("Audio bitrate must be 16000-320000"@)
    } else if p.audio_channels != 1 && p.audio_channels != 2 {
        Some("Audio channels must be 1 or 2"@)
    } else if !valid_x264_presets().contains(p.preset) {
        Some("Invalid encoder preset '"@ + p.preset + "'. Valid: "@ + valid_x264_presets_listing())
    } else {
        None
    }
}

impl QualityPreset {
    /// A copy of this preset, field for field.
    pub fn copy_preset(&self) -> (r: QualityPreset)
        ensures
            r == *self,
    {
        QualityPreset {
            id: self.id.clone(),
            name: self.name.clone(),
            description: self.description.clone(),
            target_height: self.target_height,
            fps: self.fps,
            crf: self.crf,
            preset: self.preset.clone(),
            audio_bitrate: self.audio_bitrate,
            audio_channels: self.audio_channels,
            is_system: self.is_system,
            created_at: clone_opt_string(&self.created_at),
            updated_at: clone_opt_string(&self.updated_at),
            auto_transcribe: self.auto_transcribe,
            camera_overlay_enabled: self.camera_overlay_enabled,
            camera_device_id: clone_opt_string(&self.camera_device_id),
            camera_overlay_size: self.camera_overlay_size.clone(),
            camera_overlay_shape: self.camera_overlay_shape.clone(),
        }
    }

    /// Checks the preset against the rules a preset must follow; on failure
    /// the message names the first rule broken.
    pub fn validate(&self) -> (r: Result<(), String>)
        ensures
            r is Ok <==> validation_error(self@) is None,
            r matches Err(e) ==> validation_error(self@) == Some(e@),
    {
        if self.id.as_str().is_empty() {
            return Err(owned("ID is required"));
        }
        if self.name.as_str().is_empty() {
            return Err(owned("Name is required"));
        }
        if self.fps < 5 || self.fps > 24 {
            return Err(owned("FPS must be 5-24"));
        }
        if self.target_height < 240 || self.target_height > 1080 {
            return Err(owned("Height must be 240-1080"));
        }
        if self.crf > 51 {
            return Err(owned("CRF must be 0-51"));
        }
        if self.audio_bitrate < 16_000 || self.audio_bitrate > 320_000 {
            return Err(owned("Audio bitrate must be 16000-320000"));
        }
        if self.audio_channels != 1 && self.audio_channels != 2 {
            return Err(owned("Audio channels must be 1 or 2"));
        }
        if !is_valid_x264_preset(&self.preset) {
            let mut msg = owned("Invalid encoder preset '");
            msg.append(self.preset.as_str());
            msg.append("'. Valid: ");
            msg.append("[\"ultrafast\", \"superfast\", \"veryfast\", \"faster\", \"fast\", \"medium\", \"slow\", \"slower\", \"veryslow\"]");
            return Err(msg);
        }
        Ok(())
    }
}

/// Whether `name` is one of the x264 presets that the encoder accepts.
pub fn is_valid_x264_preset(name: &String) -> (r: bool)
    ensures
        r == valid_x264_presets().contains(name@),
{
    let names = get_valid_encoder_presets();
    let mut i: usize = 0;
    while i < names.len()
        invariant
            i <= names.len(),
            names.len() == valid_x264_presets().len(),
            forall|k: int| 0 <= k < names.len() ==> #[trigger] names@[k]@ == valid_x264_presets()[k],
            forall|k: int| 0 <= k < i ==> valid_x264_presets()[k] != name@,
        decreases names.len() - i,
    {
        if names[i] == *name {
            assert(valid_x264_presets()[i as int] == name@);
            return true;
        }
        i = i + 1;
    }
    proof {
        if valid_x264_presets().contains(name@) {
            let k = choose|k: int| 0 <= k < valid_x264_presets().len() && valid_x264_presets()[k] == name@;
            assert(valid_x264_presets()[k] != name@);
        }
    }
    false
}

/// The x264 presets that the encoder accepts, fastest first.
pub fn get_valid_encoder_presets() -> (r: Vec<String>)
    ensures
        r@.len() == valid_x264_presets().len(),
        forall|k: int| 0 <= k < r@.len() ==> #[trigger] r@[k]@ == valid_x264_presets()[k],
{
    let mut v: Vec<String> = Vec::new();
    v.push(owned("ultrafast"));
    v.push(owned("superfast"));
    v.push(owned("veryfast"));
    v.push(owned("faster"));
    v.push(owned("fast"));
    v.push(owned("medium"));
    v.push(owned("slow"));
    v.push(owned("slower"));
    v.push(owned("veryslow"));
    v
}


/// A built-in preset, stamped with `now`.
pub open spec fn builtin_spec(
    id: Seq<char>,
    name: Seq<char>,
    description: Seq<char>,
    target_height: u32,
    fps: u32,
    crf: u32,
    preset: Seq<char>,
    audio_bitrate: usize,
    audio_channels: u32,
    auto_transcribe: bool,
    camera_overlay_enabled: bool,
    camera_overlay_size: Seq<char>,
    camera_overlay_shape: Seq<char>,
    now: Seq<char>,
) -> QualityPresetView {
    QualityPresetView {
        id,
        name,
        description,
        target_height,
        fps,
        crf,
        preset,
        audio_bitrate,
        audio_channels,
        is_system: true,
        created_at: Some(now),
        updated_at: Some(now),
        auto_transcribe,
        camera_overlay_enabled,
        camera_device_id: None,
        camera_overlay_size,
        camera_overlay_shape,
    }
}

/// The built-in presets, created at `now`, in the order they are offered.
pub open spec fn default_presets_spec(now: Seq<char>) -> Seq<QualityPresetView> {
    seq![
        builtin_spec("voice"@, "Voice-first"@, "~60-90 MB/h"@, 360, 5, 38, "veryfast"@, 32_000, 1,
            false, false, "medium"@, "circle"@, now),
        builtin_spec("daily"@, "Daily Lite"@, "~140-190 MB/h"@, 720, 8, 32, "veryfast"@, 48_000, 1,
            false, false, "medium"@, "circle"@, now),
        builtin_spec("meeting"@, "Meeting"@, "~220-300 MB/h"@, 720, 12, 29, "fast"@, 64_000, 1,
            false, false, "medium"@, "circle"@, now),
        builtin_spec("presentation"@, "Presentation"@, "~260-380 MB/h"@, 900, 10, 26, "medium"@, 64_000, 1,
            false, false, "medium"@, "circle"@, now),
        builtin_spec("loom"@, "Loom HD"@, "~500-800 MB/h"@, 1080, 24, 23, "veryfast"@, 128_000, 2,
            true, true, "large"@, "circle"@, now),
    ]
}

fn builtin(
    id: &str,
    name: &str,
    description: &str,
    target_height: u32,
    fps: u32,
    crf: u32,
    preset: &str,
    audio_bitrate: usize,
    audio_channels: u32,
    auto_transcribe: bool,
    camera_overlay_enabled: bool,
    camera_overlay_size: &str,
    camera_overlay_shape: &str,
    now: &String,
) -> (r: QualityPreset)
    ensures
        r@ == builtin_spec(id@, name@, description@, target_height, fps, crf, preset@, audio_bitrate,
            audio_channels, auto_transcribe, camera_overlay_enabled, camera_overlay_size@,
            camera_overlay_shape@, now@),
{
    QualityPreset {
        id: owned(id),
        name: owned(name),
        description: owned(description),
        target_height,
        fps,
        crf,
        preset: owned(preset),
        audio_bitrate,
        audio_channels,
        is_system: true,
        created_at: Some(now.clone()),
        updated_at: Some(now.clone()),
        auto_transcribe,
        camera_overlay_enabled,
        camera_device_id: None,
        camera_overlay_size: owned(camera_overlay_size),
        camera_overlay_shape: owned(camera_overlay_shape),
    }
}

/// The built-in presets, created at `now`.
pub fn default_presets_at(now: &String) -> (r: Vec<QualityPreset>)
    ensures
        presets_view(r@) == default_presets_spec(now@),
{
    let mut v: Vec<QualityPreset> = Vec::new();
    v.push(builtin("voice", "Voice-first", "~60-90 MB/h", 360, 5, 38, "veryfast", 32_000, 1,
        false, false, "medium", "circle", now));
    v.push(builtin("daily", "Daily Lite", "~140-190 MB/h", 720, 8, 32, "veryfast", 48_000, 1,
        false, false, "medium", "circle", now));
    v.push(builtin("meeting", "Meeting", "~220-300 MB/h", 720, 12, 29, "fast", 64_000, 1,
        false, false, "medium", "circle", now));
    v.push(builtin("presentation", "Presentation", "~260-380 MB/h", 900, 10, 26, "medium", 64_000, 1,
        false, false, "medium", "circle", now));
    v.push(builtin("loom", "Loom HD", "~500-800 MB/h", 1080, 24, 23, "veryfast", 128_000, 2,
        true, true, "large", "circle", now));
    assert(presets_view(v@) =~= default_presets_spec(now@));
    v
}

/// The built-in presets, created now.
pub fn default_presets() -> (r: Vec<QualityPreset>)
    ensures
        r@.len() == 5,
        r@[0]@.created_at matches Some(t) && rfc3339_shaped(t) && presets_view(r@) == default_presets_spec(t),
{
    let now = utc_now_rfc3339();
    let r = default_presets_at(&now);
    assert(default_presets_spec(now@).len() == 5);
    assert(presets_view(r@).len() == r@.len());
    assert(presets_view(r@)[0] == r@[0]@);
    r
}

/// The built-in presets, created now: what the user's list is reset to.
pub fn reset_presets_to_defaults() -> (r: Vec<QualityPreset>)
    ensures
        r@.len() == 5,
        r@[0]@.created_at matches Some(t) && rfc3339_shaped(t) && presets_view(r@) == default_presets_spec(t),
{
    default_presets()
}

/// The presets read from the user's file, when there are any; otherwise the
/// built-in ones, with `true` to say that they should be written back.
pub fn presets_or_defaults(loaded: Option<Vec<QualityPreset>>) -> (r: (Vec<QualityPreset>, bool))
    ensures
        match loaded {
            Some(v) if v@.len() > 0 => r.0 == v && !r.1,
            _ => r.1 && r.0@.len() == 5 && (r.0@[0]@.created_at matches Some(t)
                && rfc3339_shaped(t) && presets_view(r.0@) == default_presets_spec(t)),
        },
{
    match loaded {
        Some(v) => {
            if v.len() > 0 {
                (v, false)
            } else {
                (default_presets(), true)
            }
        },
        None => (default_presets(), true),
    }
}

/// Whether some preset of `s` has the id `id`.
pub open spec fn has_id(s: Seq<QualityPreset>, id: Seq<char>) -> bool {
    exists|i: int| 0 <= i < s.len() && #[trigger] s[i].id@ == id
}

/// `i` is the position of the first preset of `s` with the id `id`.
pub open spec fn first_with_id(s: Seq<QualityPreset>, id: Seq<char>, i: int) -> bool {
    &&& 0 <= i < s.len()
    &&& s[i].id@ == id
    &&& forall|j: int| 0 <= j < i ==> #[trigger] s[j].id@ != id
}

/// The position of the first preset with the id `id`, if any.
pub fn position_of_id(presets: &Vec<QualityPreset>, id: &String) -> (r: Option<usize>)
    ensures
        match r {
            Some(i) => first_with_id(presets@, id@, i as int),
            None => !has_id(presets@, id@),
        },
{
    let mut i: usize = 0;
    while i < presets.len()
        invariant
            i <= presets.len(),
            forall|j: int| 0 <= j < i ==> #[trigger] presets@[j].id@ != id@,
        decreases presets.len() - i,
    {
        if presets[i].id == *id {
            return Some(i);
        }
        i = i + 1;
    }
    None
}

/// A new user preset: the given one, not a system preset, created and
/// updated at `now`.
pub open spec fn stamped_new(p: QualityPresetView, now: Seq<char>) -> QualityPresetView {
    QualityPresetView { is_system: false, created_at: Some(now), updated_at: Some(now), ..p }
}

/// The message for an id that is taken already.
pub open spec fn exists_message(id: Seq<char>) -> Seq<char> {
    "Preset with id '"@ + id + "' already exists"@
}

/// The message for an id that no preset has.
pub open spec fn not_found_message(id: Seq<char>) -> Seq<char> {
    "Preset '"@ + id + "' not found"@
}

fn not_found_error(id: &str) -> (r: String)
    ensures
        r@ == not_found_message(id@),
{
    let mut m = owned("Preset '");
    m.append(id);
    m.append("' not found");
    m
}

/// Adds `preset` to the list as a user preset created at `now`. Refused
/// when the preset is not valid, or when its id is taken.
pub fn create_preset_at(presets: &mut Vec<QualityPreset>, preset: QualityPreset, now: &String) -> (r: Result<QualityPreset, String>)
    ensures
        validation_error(preset@) matches Some(e) ==> (r matches Err(m) && m@ == e && final(presets)@ == old(presets)@),
        validation_error(preset@) is None && has_id(old(presets)@, preset.id@) ==> (r matches Err(m)
            && m@ == exists_message(preset.id@) && final(presets)@ == old(presets)@),
        validation_error(preset@) is None && !has_id(old(presets)@, preset.id@) ==> (r matches Ok(p)
            && p@ == stamped_new(preset@, now@) && final(presets)@ == old(presets)@.push(p)),
        r matches Ok(p) ==> same_settings(p@, preset@),
{
    match preset.validate() {
        Err(e) => return Err(e),
        Ok(()) => {},
    }
    if let Some(_) = position_of_id(presets, &preset.id) {
        let mut m = owned("Preset with id '");
        m.append(preset.id.as_str());
        m.append("' already exists");
        return Err(m);
    }
    let mut p = preset;
    p.is_system = false;
    p.created_at = Some(now.clone());
    p.updated_at = Some(now.clone());
    presets.push(p.copy_preset());
    Ok(p)
}

/// Adds `preset` to the list as a user preset created now. Refused when
/// the preset is not valid, or when its id is taken.
pub fn create_preset(presets: &mut Vec<QualityPreset>, preset: QualityPreset) -> (r: Result<QualityPreset, String>)
    ensures
        validation_error(preset@) matches Some(e) ==> (r matches Err(m) && m@ == e && final(presets)@ == old(presets)@),
        validation_error(preset@) is None && has_id(old(presets)@, preset.id@) ==> (r matches Err(m)
            && m@ == exists_message(preset.id@) && final(presets)@ == old(presets)@),
        validation_error(preset@) is None && !has_id(old(presets)@, preset.id@) ==> (r matches Ok(p)
            && (p@.created_at matches Some(t) && rfc3339_shaped(t) && p@ == stamped_new(preset@, t))
            && final(presets)@ == old(presets)@.push(p)),
        r matches Ok(p) ==> same_settings(p@, preset@),
{
    let now = utc_now_rfc3339();
    create_preset_at(presets, preset, &now)
}

/// An edited preset: the new values, keeping whether the stored one is a
/// system preset and when it was created, updated at `now`.
pub open spec fn stamped_update(p: QualityPresetView, stored: QualityPresetView, now: Seq<char>) -> QualityPresetView {
    QualityPresetView {
        is_system: stored.is_system,
        created_at: stored.created_at,
        updated_at: Some(now),
        ..p
    }
}

/// Replaces the stored preset that has the id of `preset`, at `now`.
/// Refused when the preset is not valid, or when no preset has its id.
pub fn update_preset_at(presets: &mut Vec<QualityPreset>, preset: QualityPreset, now: &String) -> (r: Result<QualityPreset, String>)
    ensures
        validation_error(preset@) matches Some(e) ==> (r matches Err(m) && m@ == e && final(presets)@ == old(presets)@),
        validation_error(preset@) is None && !has_id(old(presets)@, preset.id@) ==> (r matches Err(m)
            && m@ == not_found_message(preset.id@) && final(presets)@ == old(presets)@),
        validation_error(preset@) is None && has_id(old(presets)@, preset.id@) ==> (r matches Ok(p)
            && exists|i: int| first_with_id(old(presets)@, preset.id@, i)
                && p@ == stamped_update(preset@, old(presets)@[i]@, now@)
                && final(presets)@ == old(presets)@.update(i, p)),
        r matches Ok(p) ==> same_settings(p@, preset@),
{
    match preset.validate() {
        Err(e) => return Err(e),
        Ok(()) => {},
    }
    match position_of_id(presets, &preset.id) {
        None => Err(not_found_error(preset.id.as_str())),
        Some(idx) => {
            let mut p = preset;
            p.is_system = presets[idx].is_system;
            p.created_at = clone_opt_string(&presets[idx].created_at);
            p.updated_at = Some(now.clone());
            presets.set(idx, p.copy_preset());
            assert(first_with_id(old(presets)@, p.id@, idx as int));
            Ok(p)
        },
    }
}

/// Replaces the stored preset that has the id of `preset`, updated now.
/// Refused when the preset is not valid, or when no preset has its id.
pub fn update_preset(presets: &mut Vec<QualityPreset>, preset: QualityPreset) -> (r: Result<QualityPreset, String>)
    ensures
        validation_error(preset@) matches Some(e) ==> (r matches Err(m) && m@ == e && final(presets)@ == old(presets)@),
        validation_error(preset@) is None && !has_id(old(presets)@, preset.id@) ==> (r matches Err(m)
            && m@ == not_found_message(preset.id@) && final(presets)@ == old(presets)@),
        validation_error(preset@) is None && has_id(old(presets)@, preset.id@) ==> (r matches Ok(p)
            && (p@.updated_at matches Some(t) && rfc3339_shaped(t)
            && exists|i: int| first_with_id(old(presets)@, preset.id@, i)
                && p@ == stamped_update(preset@, old(presets)@[i]@, t)
                && final(presets)@ == old(presets)@.update(i, p))),
        r matches Ok(p) ==> same_settings(p@, preset@),
{
    let now = utc_now_rfc3339();
    update_preset_at(presets, preset, &now)
}

/// Removes the user preset with the id `id`. System presets and the last
/// remaining preset cannot be removed.
pub fn delete_preset(presets: &mut Vec<QualityPreset>, id: &str) -> (r: Result<(), String>)
    ensures
        !has_id(old(presets)@, id@) ==> (r matches Err(m) && m@ == not_found_message(id@)
            && final(presets)@ == old(presets)@),
        r is Ok ==> final(presets)@.len() >= 1,
        forall|i: int| first_with_id(old(presets)@, id@, i) ==> {
            if old(presets)@[i].is_system {
                r matches Err(m) && m@ == "Cannot delete system preset. Duplicate it first."@
                    && final(presets)@ == old(presets)@
            } else if old(presets)@.len() <= 1 {
                r matches Err(m) && m@ == "Cannot delete the last preset"@
                    && final(presets)@ == old(presets)@
            } else {
                r is Ok && final(presets)@ == old(presets)@.remove(i)
            }
        },
{
    let key = owned(id);
    match position_of_id(presets, &key) {
        None => Err(not_found_error(id)),
        Some(idx) => {
            if presets[idx].is_system {
                return Err(owned("Cannot delete system preset. Duplicate it first."));
            }
            if presets.len() <= 1 {
                return Err(owned("Cannot delete the last preset"));
            }
            presets.remove(idx);
            Ok(())
        },
    }
}

/// The copy of `source` that duplicating it at `now` creates: the id gets
/// `-copy-` and the seconds of `now`, the name gets ` (copy)`; it is a user
/// preset, created and updated at `now`.
pub open spec fn duplicate_view(source: QualityPresetView, now: Seq<char>) -> QualityPresetView {
    QualityPresetView {
        id: source.id + "-copy-"@ + now.subrange(17, 19),
        name: source.name + " (copy)"@,
        is_system: false,
        created_at: Some(now),
        updated_at: Some(now),
        ..source
    }
}

/// What duplicating the preset with the id `id` at `now` does, taking the
/// list from `before` to `after` with the result `r`: refused when no preset
/// has the id; otherwise the copy of the first one with it is refused as
/// `create_preset_at` refuses it, or added at the end and returned. A refusal
/// leaves the list as it was.
pub open spec fn duplicated_at(
    before: Seq<QualityPreset>,
    id: Seq<char>,
    now: Seq<char>,
    r: Result<QualityPreset, String>,
    after: Seq<QualityPreset>,
) -> bool {
    &&& !has_id(before, id) ==> (r matches Err(m) && m@ == not_found_message(id) && after == before)
    &&& has_id(before, id) ==> exists|i: int| #[trigger] first_with_id(before, id, i) && {
        let copy = duplicate_view(before[i]@, now);
        &&& validation_error(copy) matches Some(e) ==> (r matches Err(m) && m@ == e)
        &&& validation_error(copy) is None && has_id(before, copy.id) ==> (r matches Err(m)
            && m@ == exists_message(copy.id))
        &&& validation_error(copy) is None && !has_id(before, copy.id) ==> (r matches Ok(p)
            && p@ == copy && after == before.push(p))
    }
    &&& r is Err ==> after == before
}

/// Adds a copy of the preset with the id `id`, made at `now` (an RFC 3339
/// time stamp). Refused when no preset has the id, or when the copy is
/// refused as `create_preset_at` refuses it.
pub fn duplicate_preset_at(presets: &mut Vec<QualityPreset>, id: &str, now: &String) -> (r: Result<QualityPreset, String>)
    requires
        rfc3339_shaped(now@),
    ensures
        duplicated_at(old(presets)@, id@, now@, r, final(presets)@),
{
    let key = owned(id);
    match position_of_id(presets, &key) {
        None => Err(not_found_error(id)),
        Some(idx) => {
            let source = presets[idx].copy_preset();
            let seconds = now.as_str().substring_ascii(17, 19);
            let mut new_id = source.id.clone();
            new_id.append("-copy-");
            new_id.append(seconds);
            let mut new_name = source.name.clone();
            new_name.append(" (copy)");
            let mut copy = source;
            copy.id = new_id;
            copy.name = new_name;
            copy.is_system = false;
            copy.created_at = Some(now.clone());
            copy.updated_at = Some(now.clone());
            proof {
                let c = duplicate_view(old(presets)@[idx as int]@, now@);
                assert(copy@ == c);
                assert(stamped_new(copy@, now@) == c);
                assert(first_with_id(old(presets)@, id@, idx as int));
            }
            create_preset_at(presets, copy, now)
        },
    }
}

/// Adds a copy of the preset with the id `id`, made now. Refused when no
/// preset has the id, or when the copy is refused as `create_preset` refuses it.
pub fn duplicate_preset(presets: &mut Vec<QualityPreset>, id: &str) -> (r: Result<QualityPreset, String>)
    ensures
        !has_id(old(presets)@, id@) ==> (r matches Err(m) && m@ == not_found_message(id@)
            && final(presets)@ == old(presets)@),
        exists|t: Seq<char>| rfc3339_shaped(t) && #[trigger] duplicated_at(old(presets)@, id@, t, r, final(presets)@),
{
    let now = utc_now_rfc3339();
    duplicate_preset_at(presets, id, &now)
}

/// The preset to record with for the id `id`: the first with that id; when
/// none has it, the first of the list; when the list is empty, the built-in
/// "daily" preset.
pub fn find_preset(presets: &Vec<QualityPreset>, id: &str) -> (r: QualityPreset)
    ensures
        forall|i: int| first_with_id(presets@, id@, i) ==> r == presets@[i],
        !has_id(presets@, id@) && presets@.len() > 0 ==> r == presets@[0],
        presets@.len() == 0 ==> (r@.created_at matches Some(t) && rfc3339_shaped(t) && r@ == default_presets_spec(t)[1]),
{
    let key = owned(id);
    match position_of_id(presets, &key) {
        Some(idx) => {
            proof {
                assert forall|i: int| first_with_id(presets@, id@, i) implies i == idx by {
                    if i < idx { assert(presets@[i].id@ != id@); }
                    if i > idx { assert(presets@[idx as int].id@ != id@); }
                }
            }
            presets[idx].copy_preset()
        },
        None => {
            if presets.len() > 0 {
                presets[0].copy_preset()
            } else {
                let mut defaults = default_presets();
                let ghost before = defaults@;
                let r = defaults.remove(1);
                assert(presets_view(before)[1] == r@);
                r
            }
        },
    }
}

/// No two presets of `s` have the same id.
pub open spec fn ids_unique(s: Seq<QualityPreset>) -> bool {
    forall|i: int, j: int| 0 <= i < s.len() && 0 <= j < s.len() && i != j ==> #[trigger] s[i].id@ != #[trigger] s[j].id@
}

/// Every built-in preset passes validation, and their ids differ.
pub proof fn law_builtin_presets_valid(now: Seq<char>)
    ensures
        forall|i: int| 0 <= i < 5 ==> validation_error(#[trigger] default_presets_spec(now)[i]) is None,
        forall|i: int, j: int| 0 <= i < 5 && 0 <= j < 5 && i != j ==>
            #[trigger] default_presets_spec(now)[i].id != #[trigger] default_presets_spec(now)[j].id,
{
    reveal_strlit("voice");
    reveal_strlit("daily");
    reveal_strlit("meeting");
    reveal_strlit("presentation");
    reveal_strlit("loom");
    reveal_strlit("Voice-first");
    reveal_strlit("Daily Lite");
    reveal_strlit("Meeting");
    reveal_strlit("Presentation");
    reveal_strlit("Loom HD");
    let d = default_presets_spec(now);
    assert(valid_x264_presets()[2] == "veryfast"@);
    assert(valid_x264_presets()[4] == "fast"@);
    assert(valid_x264_presets()[5] == "medium"@);
    assert(d[0].id[0] == 'v' && d[1].id[0] == 'd' && d[2].id[0] == 'm' && d[3].id[0] == 'p' && d[4].id[0] == 'l');
}

/// Adding a preset whose id is not taken keeps the ids unique, as
/// `create_preset` and `duplicate_preset` do.
pub proof fn law_create_keeps_ids_unique(s: Seq<QualityPreset>, p: QualityPreset)
    requires
        ids_unique(s),
        !has_id(s, p.id@),
    ensures
        ids_unique(s.push(p)),
{
    let t = s.push(p);
    assert forall|i: int, j: int| 0 <= i < t.len() && 0 <= j < t.len() && i != j implies #[trigger] t[i].id@ != #[trigger] t[j].id@ by {
        if i == s.len() {
            assert(s[j].id@ != p.id@);
        } else if j == s.len() {
            assert(s[i].id@ != p.id@);
        }
    }
}

/// Replacing the preset with an id by one with the same id keeps the ids
/// unique, as `update_preset` does.
pub proof fn law_update_keeps_ids_unique(s: Seq<QualityPreset>, i: int, p: QualityPreset)
    requires
        ids_unique(s),
        first_with_id(s, p.id@, i),
    ensures
        ids_unique(s.update(i, p)),
{
    let t = s.update(i, p);
    assert forall|a: int, b: int| 0 <= a < t.len() && 0 <= b < t.len() && a != b implies #[trigger] t[a].id@ != #[trigger] t[b].id@ by {
        if a == i {
            assert(s[b].id@ != s[i].id@);
        } else if b == i {
            assert(s[a].id@ != s[i].id@);
        }
    }
}

/// Removing a preset keeps the ids unique, as `delete_preset` does.
pub proof fn law_delete_keeps_ids_unique(s: Seq<QualityPreset>, i: int)
    requires
        ids_unique(s),
        0 <= i < s.len(),
    ensures
        ids_unique(s.remove(i)),
{
    let t = s.remove(i);
    assert forall|a: int, b: int| 0 <= a < t.len() && 0 <= b < t.len() && a != b implies #[trigger] t[a].id@ != #[trigger] t[b].id@ by {
        let a2 = if a < i { a } else { a + 1 };
        let b2 = if b < i { b } else { b + 1 };
        assert(t[a] == s[a2] && t[b] == s[b2]);
    }
}

/// A preset just created is the one found under its id: `find_preset`
/// after `create_preset` gives it back.
pub proof fn law_find_after_create(s: Seq<QualityPreset>, p: QualityPreset)
    requires
        !has_id(s, p.id@),
    ensures
        first_with_id(s.push(p), p.id@, s.len() as int),
{
    let t = s.push(p);
    assert forall|j: int| 0 <= j < s.len() implies #[trigger] t[j].id@ != p.id@ by {
        assert(t[j] == s[j]);
    }
}

/// Every field of `a` but `is_system`, `created_at` and `updated_at` equals
/// that of `b`: the values a user edits.
pub open spec fn same_settings(a: QualityPresetView, b: QualityPresetView) -> bool {
    &&& a.id == b.id
    &&& a.name == b.name
    &&& a.description == b.description
    &&& a.target_height == b.target_height
    &&& a.fps == b.fps
    &&& a.crf == b.crf
    &&& a.preset == b.preset
    &&& a.audio_bitrate == b.audio_bitrate
    &&& a.audio_channels == b.audio_channels
    &&& a.auto_transcribe == b.auto_transcribe
    &&& a.camera_overlay_enabled == b.camera_overlay_enabled
    &&& a.camera_device_id == b.camera_device_id
    &&& a.camera_overlay_size == b.camera_overlay_size
    &&& a.camera_overlay_shape == b.camera_overlay_shape
}

/// An edit takes every value of the edited preset (auto-transcription, the
/// camera overlay and the encoding parameters among them); of the stored
/// preset it keeps only whether it is a system preset and when it was
/// created; it is stamped as updated at the time of the edit.
pub proof fn law_update_takes_edited_values(p: QualityPresetView, stored: QualityPresetView, now: Seq<char>)
    ensures
        same_settings(stamped_update(p, stored, now), p),
        stamped_update(p, stored, now).is_system == stored.is_system,
        stamped_update(p, stored, now).created_at == stored.created_at,
        stamped_update(p, stored, now).updated_at == Some(now),
{
}

/// A created preset keeps every value given; it is a user preset, created
/// and updated at the time of creation.
pub proof fn law_create_takes_given_values(p: QualityPresetView, now: Seq<char>)
    ensures
        same_settings(stamped_new(p, now), p),
        !stamped_new(p, now).is_system,
        stamped_new(p, now).created_at == Some(now),
        stamped_new(p, now).updated_at == Some(now),
{
}

/// A duplicate differs from its source only in its id (the source's id,
/// "-copy-" and the seconds of the time stamp), its name (the source's,
/// then " (copy)"), in being a user preset and in its time stamps.
pub proof fn law_duplicate_copies_the_source(source: QualityPresetView, now: Seq<char>)
    ensures
        ({
            let c = duplicate_view(source, now);
            &&& same_settings(c, QualityPresetView { id: c.id, name: c.name, ..source })
            &&& c.id == source.id + "-copy-"@ + now.subrange(17, 19)
            &&& c.name == source.name + " (copy)"@
            &&& !c.is_system
            &&& c.created_at == Some(now)
            &&& c.updated_at == Some(now)
        }),
{
}

/// A preset is valid exactly when it has an id and a name, 5 to 24 frames
/// a second, a height of 240 to 1080, a CRF of at most 51, an audio bit rate
/// of 16000 to 320000, one or two audio channels, and an x264 speed preset
/// that the encoder knows.
pub proof fn law_validation_rules(p: QualityPresetView)
    ensures
        validation_error(p) is None <==> {
            &&& p.id.len() > 0
            &&& p.name.len() > 0
            &&& 5 <= p.fps <= 24
            &&& 240 <= p.target_height <= 1080
            &&& p.crf <= 51
            &&& 16_000 <= p.audio_bitrate <= 320_000
            &&& (p.audio_channels == 1 || p.audio_channels == 2)
            &&& valid_x264_presets().contains(p.preset)
        },
{
}

/// The built-in presets are, in order, "voice", "daily", "meeting",
/// "presentation" and "loom": all system presets, stamped with the time
/// they were made; only "loom" transcribes automatically and shows the
/// camera, at the large overlay size; their heights and frame rates rise
/// from "voice" to "loom" as listed.
pub proof fn law_builtin_presets_listing(now: Seq<char>)
    ensures
        ({
            let d = default_presets_spec(now);
            &&& d.len() == 5
            &&& d[0].id == "voice"@ && d[1].id == "daily"@ && d[2].id == "meeting"@
            &&& d[3].id == "presentation"@ && d[4].id == "loom"@
            &&& forall|i: int| 0 <= i < 5 ==> (#[trigger] d[i]).is_system && d[i].created_at == Some(now)
                && d[i].updated_at == Some(now) && d[i].camera_device_id is None
            &&& forall|i: int| 0 <= i < 4 ==> !(#[trigger] d[i]).auto_transcribe && !d[i].camera_overlay_enabled
                && d[i].camera_overlay_size == "medium"@
            &&& d[4].auto_transcribe && d[4].camera_overlay_enabled && d[4].camera_overlay_size == "large"@
            &&& d[0].target_height == 360 && d[1].target_height == 720 && d[2].target_height == 720
            &&& d[3].target_height == 900 && d[4].target_height == 1080
            &&& d[0].fps == 5 && d[1].fps == 8 && d[2].fps == 12 && d[3].fps == 10 && d[4].fps == 24
        }),
{
}

/// The preset that a fresh installation selects, "daily", is a built-in one.
pub proof fn law_default_selection_is_builtin(now: Seq<char>)
    ensures
        default_presets_spec(now)[1].id == crate::settings::default_settings().selected_preset_id,
{
}

} // verus!
