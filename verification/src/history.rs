//! The history of recordings: newest first, bounded in length, with the
//! state of each file and of its transcription, and the cleanup policy.

use vstd::prelude::*;

use crate::clock::{
    rfc3339_instant, rfc3339_shaped, spec_rfc3339_instant, spec_whole_days_since, utc_now_instant,
    whole_days_since,
};
use crate::presets::opt_view;
use crate::text::{clone_opt_string, owned};

verus! {

/// How many recordings the history keeps.
pub const MAX_HISTORY: usize = 500;

/// How many recordings the history shows.
pub const DISPLAY_LIMIT: usize = 200;

/// One recording in the history.
#[derive(Debug, Clone)]
pub struct RecordingEntry {
    pub filename: String,
    pub path: String,
    pub size_bytes: u64,
    pub duration_seconds: u64,
    /// RFC 3339 time stamp.
    pub recorded_at: String,
    pub preset_id: String,
    pub preset_name: String,
    /// "exists" or "missing".
    pub status: String,
    pub transcript_path: Option<String>,
    /// None, "pending", "in_progress", "completed", "failed" or "cancelled".
    pub transcription_status: Option<String>,
}

/// A recording entry with its strings taken as character sequences.
pub struct RecordingEntryView {
    pub filename: Seq<char>,
    pub path: Seq<char>,
    pub size_bytes: u64,
    pub duration_seconds: u64,
    pub recorded_at: Seq<char>,
    pub preset_id: Seq<char>,
    pub preset_name: Seq<char>,
    pub status: Seq<char>,
    pub transcript_path: Option<Seq<char>>,
    pub transcription_status: Option<Seq<char>>,
}

impl View for RecordingEntry {
    type V = RecordingEntryView;

    open spec fn view(&self) -> RecordingEntryView {
        RecordingEntryView {
            filename: self.filename@,
            path: self.path@,
            size_bytes: self.size_bytes,
            duration_seconds: self.duration_seconds,
            recorded_at: self.recorded_at@,
            preset_id: self.preset_id@,
            preset_name: self.preset_name@,
            status: self.status@,
            transcript_path: opt_view(self.transcript_path),
            transcription_status: opt_view(self.transcription_status),
        }
    }
}

/// The views of a list of entries.
pub open spec fn entries_view(s: Seq<RecordingEntry>) -> Seq<RecordingEntryView> {
    s.map_values(|e: RecordingEntry| e@)
}

impl RecordingEntry {
    /// A copy of this entry.
    pub fn copy_entry(&self) -> (r: RecordingEntry)
        ensures
            r == *self,
    {
        RecordingEntry {
            filename: self.filename.clone(),
            path: self.path.clone(),
            size_bytes: self.size_bytes,
            duration_seconds: self.duration_seconds,
            recorded_at: self.recorded_at.clone(),
            preset_id: self.preset_id.clone(),
            preset_name: self.preset_name.clone(),
            status: self.status.clone(),
            transcript_path: clone_opt_string(&self.transcript_path),
            transcription_status: clone_opt_string(&self.transcription_status),
        }
    }
}

/// What was found of a recording's file on disk.
#[derive(Debug, Clone, Copy)]
pub enum FileState {
    /// There is no file at the path.
    Missing,
    /// The file exists; its size, when it could be read.
    Present(Option<u64>),
}

/// What the cleanup needs to know of a recording's file.
#[derive(Debug, Clone, Copy)]
pub struct CleanupFacts {
    /// The path lies inside the recordings folder.
    pub in_recordings_dir: bool,
    /// The file exists.
    pub exists: bool,
}

/// The status word for whether a recording's file exists.
pub open spec fn status_word(exists: bool) -> Seq<char> {
    if exists { "exists"@ } else { "missing"@ }
}

/// A new entry for a recording just made.
pub open spec fn new_entry_view(
    path: Seq<char>,
    filename: Seq<char>,
    size_bytes: u64,
    exists: bool,
    duration_seconds: u64,
    preset_id: Seq<char>,
    preset_name: Seq<char>,
    recorded_at: Seq<char>,
) -> RecordingEntryView {
    RecordingEntryView {
        filename,
        path,
        size_bytes,
        duration_seconds,
        recorded_at,
        preset_id,
        preset_name,
        status: status_word(exists),
        transcript_path: None,
        transcription_status: None,
    }
}

/// The history after a new entry goes in front: at most `MAX_HISTORY`
/// entries, the oldest dropped.
pub open spec fn with_newest(entries: Seq<RecordingEntryView>, e: RecordingEntryView) -> Seq<RecordingEntryView> {
    let all = seq![e] + entries;
    if all.len() > MAX_HISTORY { all.take(MAX_HISTORY as int) } else { all }
}

/// An entry brought up to date with what was found of its file.
pub open spec fn synced(e: RecordingEntryView, st: FileState) -> RecordingEntryView {
    match st {
        FileState::Missing => RecordingEntryView { status: "missing"@, ..e },
        FileState::Present(Some(size)) => RecordingEntryView { status: "exists"@, size_bytes: size, ..e },
        FileState::Present(None) => RecordingEntryView { status: "exists"@, ..e },
    }
}

/// The first `n` elements of `s`, or all of them when there are fewer.
pub open spec fn first_n<A>(s: Seq<A>, n: int) -> Seq<A> {
    if s.len() > n { s.take(n) } else { s }
}

/// The elements of `s` whose flag in `keep` is set, in order.
pub open spec fn select_by_flags<A>(s: Seq<A>, keep: Seq<bool>) -> Seq<A>
    decreases s.len(),
{
    if s.len() == 0 || keep.len() == 0 {
        Seq::empty()
    } else {
        let rest = select_by_flags(s.drop_last(), keep.drop_last());
        if keep.last() { rest.push(s.last()) } else { rest }
    }
}

/// `e` is a cleanup candidate under the policy, given what is known of its
/// file and how many whole days old it is.
pub open spec fn is_cleanup_candidate(
    e: RecordingEntryView,
    f: CleanupFacts,
    age_days: Option<i64>,
    retention_days: u32,
    delete_large: bool,
    large_threshold_mb: u32,
) -> bool {
    &&& f.in_recordings_dir
    &&& f.exists
    &&& age_days matches Some(age) && {
        ||| age >= retention_days
        ||| delete_large && age >= 1 && e.size_bytes / 1_048_576u64 >= large_threshold_mb
    }
}

/// The two cleanup rules, each on its own: a recording whose file exists
/// inside the recordings folder is picked when it is at least
/// `retention_days` whole days old, whatever its size and whether large
/// files are cleaned; and, with `delete_large`, when it is at least a day
/// old and of at least `large_threshold_mb` MB. Nothing else is picked:
/// not a file outside the folder or gone, nor one whose time stamp did not
/// parse.
pub proof fn law_cleanup_rules(
    e: RecordingEntryView,
    f: CleanupFacts,
    age_days: Option<i64>,
    retention_days: u32,
    delete_large: bool,
    large_threshold_mb: u32,
)
    ensures
        f.in_recordings_dir && f.exists && (age_days matches Some(a) && a >= retention_days)
            ==> is_cleanup_candidate(e, f, age_days, retention_days, delete_large, large_threshold_mb),
        f.in_recordings_dir && f.exists && delete_large && (age_days matches Some(a) && a >= 1)
            && e.size_bytes / 1_048_576u64 >= large_threshold_mb
            ==> is_cleanup_candidate(e, f, age_days, retention_days, delete_large, large_threshold_mb),
        is_cleanup_candidate(e, f, age_days, retention_days, delete_large, large_threshold_mb) ==> {
            &&& f.in_recordings_dir
            &&& f.exists
            &&& age_days matches Some(a) && (a >= retention_days
                || (delete_large && a >= 1 && e.size_bytes / 1_048_576u64 >= large_threshold_mb))
        },
{
}

/// What a scan records of each entry: "exists" with the size found when
/// the file is there (the size kept when it could not be read), "missing"
/// when it is not; everything else about the entry stays as it was.
pub proof fn law_scan_records_what_was_found(e: RecordingEntryView, st: FileState)
    ensures
        st is Missing ==> synced(e, st).status == "missing"@ && synced(e, st).size_bytes == e.size_bytes,
        st is Present ==> synced(e, st).status == "exists"@,
        st matches FileState::Present(Some(n)) ==> synced(e, st).size_bytes == n,
        st matches FileState::Present(None) ==> synced(e, st).size_bytes == e.size_bytes,
        synced(e, st).filename == e.filename,
        synced(e, st).path == e.path,
        synced(e, st).duration_seconds == e.duration_seconds,
        synced(e, st).recorded_at == e.recorded_at,
        synced(e, st).preset_id == e.preset_id,
        synced(e, st).preset_name == e.preset_name,
        synced(e, st).transcript_path == e.transcript_path,
        synced(e, st).transcription_status == e.transcription_status,
{
}

/// Whether the cleanup policy picks `entry`, given what is known of its
/// file and its age in whole days (`None` when its time stamp does not
/// parse): its file must exist inside the recordings folder, and it must be
/// at least `retention_days` old, or, with `delete_large`, at least one day
/// old and of at least `large_threshold_mb` MB.
pub fn is_cleanup_pick(
    entry: &RecordingEntry,
    facts: CleanupFacts,
    age_days: Option<i64>,
    retention_days: u32,
    delete_large: bool,
    large_threshold_mb: u32,
) -> (r: bool)
    ensures
        r == is_cleanup_candidate(entry@, facts, age_days, retention_days, delete_large, large_threshold_mb),
        r ==> facts.in_recordings_dir && facts.exists && age_days is Some,
        facts.in_recordings_dir && facts.exists && (age_days matches Some(a) && a >= retention_days) ==> r,
        facts.in_recordings_dir && facts.exists && delete_large && (age_days matches Some(a) && a >= 1)
            && entry.size_bytes / 1_048_576u64 >= large_threshold_mb ==> r,
        r ==> (age_days matches Some(a) && (a >= retention_days || (delete_large && a >= 1
            && entry.size_bytes / 1_048_576u64 >= large_threshold_mb))),
{
    proof {
        law_cleanup_rules(entry@, facts, age_days, retention_days, delete_large, large_threshold_mb);
    }
    if !facts.in_recordings_dir || !facts.exists {
        return false;
    }
    match age_days {
        Some(a) => {
            let old_enough = a >= retention_days as i64;
            let large_and_old = delete_large && a >= 1
                && entry.size_bytes / (1024 * 1024) >= large_threshold_mb as u64;
            old_enough || large_and_old
        },
        None => false,
    }
}

/// The paths that the cleanup picks from the first `n` entries: the
/// candidates in history order, at most `max_delete` of them.
pub open spec fn cleanup_candidates(
    entries: Seq<RecordingEntryView>,
    facts: Seq<CleanupFacts>,
    n: int,
    retention_days: u32,
    delete_large: bool,
    large_threshold_mb: u32,
    max_delete: u32,
    now_secs: i64,
    now_nanos: u32,
) -> Seq<Seq<char>>
    decreases n,
{
    if n <= 0 {
        Seq::empty()
    } else {
        let before = cleanup_candidates(entries, facts, n - 1, retention_days, delete_large,
            large_threshold_mb, max_delete, now_secs, now_nanos);
        let e = entries[n - 1];
        if before.len() >= max_delete {
            before
        } else if is_cleanup_candidate(e, facts[n - 1],
            spec_whole_days_since(e.recorded_at, now_secs, now_nanos), retention_days, delete_large,
            large_threshold_mb) {
            before.push(e.path)
        } else {
            before
        }
    }
}

/// `r` lists, in order, the paths that `cleanup_candidates` picks from all
/// of `entries` at the instant `now_secs`.`now_nanos`.
pub open spec fn is_cleanup_result(
    r: Seq<String>,
    entries: Seq<RecordingEntryView>,
    facts: Seq<CleanupFacts>,
    retention_days: u32,
    delete_large: bool,
    large_threshold_mb: u32,
    max_delete: u32,
    now_secs: i64,
    now_nanos: u32,
) -> bool {
    let c = cleanup_candidates(entries, facts, entries.len() as int, retention_days, delete_large,
        large_threshold_mb, max_delete, now_secs, now_nanos);
    &&& r.len() == c.len()
    &&& forall|k: int| 0 <= k < r.len() ==> #[trigger] r[k]@ == c[k]
}

/// `a` is newer than `b`: a later instant, or any instant against a time
/// stamp that did not parse (`None`).
pub open spec fn newer(a: Option<(i64, u32)>, b: Option<(i64, u32)>) -> bool {
    match a {
        Some(x) => match b {
            Some(y) => x.0 > y.0 || (x.0 == y.0 && x.1 > y.1),
            None => true,
        },
        None => false,
    }
}

/// In the newest-first order of entries made at the instants `keys`, the
/// entry at `i` comes before the one at `j`: it is newer, or as new and
/// earlier in the history.
pub open spec fn shown_before(keys: Seq<Option<(i64, u32)>>, i: int, j: int) -> bool {
    newer(keys[i], keys[j]) || (!newer(keys[j], keys[i]) && i < j)
}

/// `order` lists every position of `keys` once, newest first; entries as
/// new as each other keep their history order.
pub open spec fn is_newest_first(keys: Seq<Option<(i64, u32)>>, order: Seq<usize>) -> bool {
    &&& order.len() == keys.len()
    &&& forall|k: int| 0 <= k < order.len() ==> #[trigger] order[k] < keys.len()
    &&& forall|i: int| 0 <= i < keys.len() ==> #[trigger] lists(order, i)
    &&& forall|k: int, l: int| 0 <= k < l < order.len() ==>
        shown_before(keys, #[trigger] order[k] as int, #[trigger] order[l] as int)
}

/// `i` is one of the positions that `order` lists.
pub open spec fn lists(order: Seq<usize>, i: int) -> bool {
    exists|k: int| 0 <= k < order.len() && #[trigger] order[k] == i
}

/// The instants at which the entries were made, as their time stamps name them.
pub open spec fn entry_instants(s: Seq<RecordingEntryView>) -> Seq<Option<(i64, u32)>> {
    s.map_values(|e: RecordingEntryView| spec_rfc3339_instant(e.recorded_at))
}

/// The elements of `s` at the positions `order` lists, in that order.
pub open spec fn arranged<A>(s: Seq<A>, order: Seq<usize>) -> Seq<A> {
    order.map_values(|i: usize| s[i as int])
}

/// Going before in the newest-first order is transitive.
pub proof fn lemma_shown_before_transitive(keys: Seq<Option<(i64, u32)>>, a: int, b: int, c: int)
    requires
        shown_before(keys, a, b),
        shown_before(keys, b, c),
    ensures
        shown_before(keys, a, c),
{
}

/// Of two entries, at most one goes before the other.
pub proof fn lemma_shown_before_asymmetric(keys: Seq<Option<(i64, u32)>>, a: int, b: int)
    ensures
        !(shown_before(keys, a, b) && shown_before(keys, b, a)),
{
}

/// The first `n` positions of two newest-first orders of the same entries agree.
proof fn lemma_newest_first_prefix(keys: Seq<Option<(i64, u32)>>, o1: Seq<usize>, o2: Seq<usize>, n: int)
    requires
        is_newest_first(keys, o1),
        is_newest_first(keys, o2),
        0 <= n <= o1.len(),
    ensures
        forall|j: int| 0 <= j < n ==> o1[j] == o2[j],
    decreases n,
{
    if n > 0 {
        lemma_newest_first_prefix(keys, o1, o2, n - 1);
        let k = n - 1;
        let a = o1[k];
        let b = o2[k];
        if a != b {
            assert(lists(o2, a as int));
            assert(lists(o1, b as int));
            let l = choose|l: int| 0 <= l < o2.len() && #[trigger] o2[l] == a;
            let l2 = choose|l2: int| 0 <= l2 < o1.len() && #[trigger] o1[l2] == b;
            lemma_shown_before_asymmetric(keys, a as int, b as int);
            lemma_shown_before_asymmetric(keys, a as int, a as int);
            lemma_shown_before_asymmetric(keys, b as int, b as int);
            if l < k {
                assert(o1[l] == a);
                assert(shown_before(keys, o1[l] as int, o1[k] as int));
            } else if l2 < k {
                assert(o2[l2] == b);
                assert(shown_before(keys, o2[l2] as int, o2[k] as int));
            } else {
                assert(shown_before(keys, o2[k] as int, o2[l] as int));
                assert(shown_before(keys, o1[k] as int, o1[l2] as int));
            }
        }
    }
}

/// There is only one newest-first order of a list of entries: every
/// entry's place in what the history shows is fixed by the time stamps.
pub proof fn law_newest_first_unique(keys: Seq<Option<(i64, u32)>>, o1: Seq<usize>, o2: Seq<usize>)
    requires
        is_newest_first(keys, o1),
        is_newest_first(keys, o2),
    ensures
        o1 == o2,
{
    lemma_newest_first_prefix(keys, o1, o2, o1.len() as int);
    assert(o1 =~= o2);
}

/// What the history shows comes newest first: no entry shown is newer than
/// one shown before it.
pub proof fn law_shown_newest_first(keys: Seq<Option<(i64, u32)>>, order: Seq<usize>)
    requires
        is_newest_first(keys, order),
    ensures
        forall|k: int, l: int| 0 <= k < l < order.len() ==>
            !newer(#[trigger] keys[order[l] as int], #[trigger] keys[order[k] as int]),
{
    assert forall|k: int, l: int| 0 <= k < l < order.len() implies
        !newer(#[trigger] keys[order[l] as int], #[trigger] keys[order[k] as int]) by {
        assert(shown_before(keys, order[k] as int, order[l] as int));
        lemma_shown_before_asymmetric(keys, order[k] as int, order[l] as int);
    }
}

/// Whether `a` is newer than `b` (see `newer`).
fn is_newer(a: &Option<(i64, u32)>, b: &Option<(i64, u32)>) -> (r: bool)
    ensures
        r == newer(*a, *b),
{
    match a {
        Some(x) => match b {
            Some(y) => x.0 > y.0 || (x.0 == y.0 && x.1 > y.1),
            None => true,
        },
        None => false,
    }
}

/// The positions of entries made at the instants `keys` (`None` for a time
/// stamp that did not parse), newest first; entries as new as each other
/// keep their order.
pub fn newest_first_order(keys: &Vec<Option<(i64, u32)>>) -> (order: Vec<usize>)
    ensures
        is_newest_first(keys@, order@),
{
    let mut order: Vec<usize> = Vec::new();
    let mut m: usize = 0;
    while m < keys.len()
        invariant
            m <= keys.len(),
            order@.len() == m,
            forall|k: int| 0 <= k < m ==> #[trigger] order@[k] < m,
            forall|i: int| 0 <= i < m ==> #[trigger] lists(order@, i),
            forall|k: int, l: int| 0 <= k < l < m ==>
                shown_before(keys@, #[trigger] order@[k] as int, #[trigger] order@[l] as int),
        decreases keys.len() - m,
    {
        let mut p: usize = 0;
        while p < order.len() && !is_newer(&keys[m], &keys[order[p]])
            invariant
                p <= order.len(),
                order@.len() == m,
                m < keys.len(),
                forall|k: int| 0 <= k < m ==> #[trigger] order@[k] < m,
                forall|k: int| 0 <= k < p ==> !newer(keys@[m as int], keys@[#[trigger] order@[k] as int]),
            decreases order.len() - p,
        {
            p = p + 1;
        }
        let ghost before = order@;
        proof {
            assert forall|q: int| p <= q < m implies shown_before(keys@, m as int, #[trigger] before[q] as int) by {
                assert(newer(keys@[m as int], keys@[before[p as int] as int]));
                if q > p {
                    assert(shown_before(keys@, before[p as int] as int, before[q] as int));
                    lemma_shown_before_transitive(keys@, m as int, before[p as int] as int, before[q] as int);
                }
            }
        }
        order.insert(p, m);
        proof {
            let after = order@;
            assert(after == before.insert(p as int, m));
            assert forall|k: int| 0 <= k < m + 1 implies #[trigger] after[k] < m + 1 by {
                if k < p { assert(after[k] == before[k]); }
                else if k > p { assert(after[k] == before[k - 1]); }
            }
            assert forall|i: int| 0 <= i < m + 1 implies #[trigger] lists(after, i) by {
                if i == m {
                    assert(after[p as int] == i);
                } else {
                    assert(lists(before, i));
                    let k = choose|k: int| 0 <= k < before.len() && #[trigger] before[k] == i;
                    if k < p {
                        assert(after[k] == i);
                    } else {
                        assert(after[k + 1] == i);
                    }
                }
            }
            assert forall|k: int, l: int| 0 <= k < l < m + 1 implies
                shown_before(keys@, #[trigger] after[k] as int, #[trigger] after[l] as int) by {
                if l < p {
                    assert(after[k] == before[k] && after[l] == before[l]);
                } else if l == p {
                    assert(after[k] == before[k] && after[l] == m);
                } else if k < p {
                    assert(after[k] == before[k] && after[l] == before[l - 1]);
                } else if k == p {
                    assert(after[k] == m && after[l] == before[l - 1]);
                } else {
                    assert(after[k] == before[k - 1] && after[l] == before[l - 1]);
                }
            }
        }
        m = m + 1;
    }
    order
}

/// The history of recordings, and the file it is stored in.
pub struct HistoryManager {
    entries: Vec<RecordingEntry>,
    path: String,
}

impl HistoryManager {
    /// The entries, newest first.
    pub closed spec fn entries(&self) -> Seq<RecordingEntryView> {
        entries_view(self.entries@)
    }

    /// The file the history is stored in.
    pub closed spec fn file(&self) -> Seq<char> {
        self.path@
    }

    /// The history stored at `path`, holding the entries read from it
    /// (none when nothing could be read).
    pub fn new(path: String, loaded: Option<Vec<RecordingEntry>>) -> (r: HistoryManager)
        ensures
            r.file() == path@,
            loaded matches Some(v) ==> r.entries() == entries_view(v@),
            loaded is None ==> r.entries() == Seq::<RecordingEntryView>::empty(),
    {
        let entries = match loaded {
            Some(v) => v,
            None => Vec::new(),
        };
        proof {
            if loaded is None {
                assert(entries_view(entries@) =~= Seq::<RecordingEntryView>::empty());
            }
        }
        HistoryManager { entries, path }
    }

    /// The file the history is stored in.
    pub fn path(&self) -> (r: &String)
        ensures
            r@ == self.file(),
    {
        &self.path
    }

    /// All entries, newest first, as they are to be stored.
    pub fn all_entries(&self) -> (r: &Vec<RecordingEntry>)
        ensures
            entries_view(r@) == self.entries(),
    {
        &self.entries
    }

    /// Records a recording made at `recorded_at` in front of the history;
    /// beyond `MAX_HISTORY` entries the oldest ones are dropped.
    pub fn add_recording_at(
        &mut self,
        path: &str,
        filename: &str,
        size_bytes: u64,
        exists: bool,
        duration_seconds: u64,
        preset_id: &str,
        preset_name: &str,
        recorded_at: &String,
    )
        ensures
            final(self).file() == old(self).file(),
            final(self).entries() == with_newest(old(self).entries(), new_entry_view(path@, filename@,
                size_bytes, exists, duration_seconds, preset_id@, preset_name@, recorded_at@)),
    {
        let entry = RecordingEntry {
            filename: owned(filename),
            path: owned(path),
            size_bytes,
            duration_seconds,
            recorded_at: recorded_at.clone(),
            preset_id: owned(preset_id),
            preset_name: owned(preset_name),
            status: if exists { owned("exists") } else { owned("missing") },
            transcript_path: None,
            transcription_status: None,
        };
        let ghost e = entry@;
        let ghost before = self.entries@;
        self.entries.insert(0, entry);
        assert(entries_view(self.entries@) =~= seq![e] + entries_view(before));
        if self.entries.len() > MAX_HISTORY {
            self.entries.truncate(MAX_HISTORY);
            assert(entries_view(self.entries@) =~= (seq![e] + entries_view(before)).take(MAX_HISTORY as int));
        }
    }

    /// Records a recording made now in front of the history; beyond
    /// `MAX_HISTORY` entries the oldest ones are dropped.
    pub fn add_recording(
        &mut self,
        path: &str,
        filename: &str,
        size_bytes: u64,
        exists: bool,
        duration_seconds: u64,
        preset_id: &str,
        preset_name: &str,
    )
        ensures
            final(self).file() == old(self).file(),
            final(self).entries().len() > 0,
            rfc3339_shaped(final(self).entries()[0].recorded_at),
            final(self).entries() == with_newest(old(self).entries(), new_entry_view(path@, filename@,
                size_bytes, exists, duration_seconds, preset_id@, preset_name@,
                final(self).entries()[0].recorded_at)),
    {
        let now = crate::clock::utc_now_rfc3339();
        self.add_recording_at(path, filename, size_bytes, exists, duration_seconds, preset_id, preset_name, &now);
    }

    /// Brings each entry up to date with what was found of its file
    /// (`observed[i]` for the i-th entry) and returns the newest
    /// `DISPLAY_LIMIT` of them, newest first by their time stamps (see
    /// `is_newest_first`). The stored entries keep their order.
    pub fn get_entries(&mut self, observed: &Vec<FileState>) -> (r: Vec<RecordingEntry>)
        requires
            observed@.len() == old(self).entries().len(),
        ensures
            final(self).file() == old(self).file(),
            final(self).entries().len() == old(self).entries().len(),
            forall|i: int| 0 <= i < old(self).entries().len() ==>
                #[trigger] final(self).entries()[i] == synced(old(self).entries()[i], observed@[i]),
            forall|i: int| 0 <= i < old(self).entries().len() ==> {
                &&& (#[trigger] observed@[i] is Present ==> final(self).entries()[i].status == "exists"@)
                &&& (observed@[i] is Missing ==> final(self).entries()[i].status == "missing"@)
                &&& (observed@[i] matches FileState::Present(Some(n)) ==> final(self).entries()[i].size_bytes == n)
            },
            exists|order: Seq<usize>| #[trigger] is_newest_first(entry_instants(final(self).entries()), order)
                && entries_view(r@) == first_n(arranged(final(self).entries(), order), DISPLAY_LIMIT as int),
    {
        let ghost before = entries_view(self.entries@);
        let mut updated: Vec<RecordingEntry> = Vec::new();
        let mut i: usize = 0;
        while i < self.entries.len()
            invariant
                i <= self.entries.len(),
                self.entries.len() == observed@.len(),
                entries_view(self.entries@) == before,
                updated@.len() == i,
                forall|k: int| 0 <= k < i ==> #[trigger] updated@[k]@ == synced(before[k], observed@[k]),
            decreases self.entries.len() - i,
        {
            let mut e = self.entries[i].copy_entry();
            assert(e@ == before[i as int]);
            match &observed[i] {
                FileState::Missing => {
                    e.status = owned("missing");
                },
                FileState::Present(size) => {
                    e.status = owned("exists");
                    match size {
                        Some(s) => {
                            e.size_bytes = *s;
                        },
                        None => {},
                    }
                },
            }
            updated.push(e);
            i = i + 1;
        }
        self.entries = updated;
        assert(entries_view(self.entries@).len() == before.len());
        let ghost ents = entries_view(self.entries@);
        let mut keys: Vec<Option<(i64, u32)>> = Vec::new();
        let mut i: usize = 0;
        while i < self.entries.len()
            invariant
                i <= self.entries.len(),
                keys@.len() == i,
                ents == entries_view(self.entries@),
                forall|k: int| 0 <= k < i ==> #[trigger] keys@[k] == spec_rfc3339_instant(ents[k].recorded_at),
            decreases self.entries.len() - i,
        {
            assert(ents[i as int] == self.entries@[i as int]@);
            keys.push(rfc3339_instant(self.entries[i].recorded_at.as_str()));
            i = i + 1;
        }
        assert(keys@ =~= entry_instants(ents));
        let order = newest_first_order(&keys);
        let mut shown: Vec<RecordingEntry> = Vec::new();
        let mut j: usize = 0;
        while j < order.len() && j < DISPLAY_LIMIT
            invariant
                j <= order.len(),
                j <= DISPLAY_LIMIT,
                order@.len() == self.entries@.len(),
                ents == entries_view(self.entries@),
                is_newest_first(keys@, order@),
                shown@.len() == j,
                forall|k: int| 0 <= k < j ==> #[trigger] shown@[k]@ == ents[order@[k] as int],
            decreases order.len() - j,
        {
            assert(order@[j as int] < self.entries@.len());
            shown.push(self.entries[order[j]].copy_entry());
            j = j + 1;
        }
        assert(entries_view(shown@) =~= first_n(arranged(ents, order@), DISPLAY_LIMIT as int));
        proof {
            assert forall|i: int| 0 <= i < before.len() implies {
                &&& (#[trigger] observed@[i] is Present ==> ents[i].status == "exists"@)
                &&& (observed@[i] is Missing ==> ents[i].status == "missing"@)
                &&& (observed@[i] matches FileState::Present(Some(n)) ==> ents[i].size_bytes == n)
            } by {
                law_scan_records_what_was_found(before[i], observed@[i]);
            }
        }
        shown
    }

    /// Brings every entry up to date with its file, as `get_entries` does.
    pub fn rescan(&mut self, observed: &Vec<FileState>) -> (r: Vec<RecordingEntry>)
        requires
            observed@.len() == old(self).entries().len(),
        ensures
            final(self).file() == old(self).file(),
            final(self).entries().len() == old(self).entries().len(),
            forall|i: int| 0 <= i < old(self).entries().len() ==>
                #[trigger] final(self).entries()[i] == synced(old(self).entries()[i], observed@[i]),
            forall|i: int| 0 <= i < old(self).entries().len() ==> {
                &&& (#[trigger] observed@[i] is Present ==> final(self).entries()[i].status == "exists"@)
                &&& (observed@[i] is Missing ==> final(self).entries()[i].status == "missing"@)
                &&& (observed@[i] matches FileState::Present(Some(n)) ==> final(self).entries()[i].size_bytes == n)
            },
            exists|order: Seq<usize>| #[trigger] is_newest_first(entry_instants(final(self).entries()), order)
                && entries_view(r@) == first_n(arranged(final(self).entries(), order), DISPLAY_LIMIT as int),
    {
        self.get_entries(observed)
    }

    /// Removes every entry for the recording at `path`.
    pub fn remove_entry(&mut self, path: &str)
        ensures
            final(self).file() == old(self).file(),
            final(self).entries() == without_path(old(self).entries(), path@),
    {
        let ghost before = entries_view(self.entries@);
        let ghost pred = |e: RecordingEntryView| e.path != path@;
        let key = owned(path);
        let mut kept: Vec<RecordingEntry> = Vec::new();
        let mut i: usize = 0;
        while i < self.entries.len()
            invariant
                i <= self.entries.len(),
                entries_view(self.entries@) == before,
                pred == (|e: RecordingEntryView| e.path != path@),
                key@ == path@,
                entries_view(kept@) == before.take(i as int).filter(pred),
            decreases self.entries.len() - i,
        {
            proof {
                before.lemma_take_succ_push(i as int);
                before.take(i as int).lemma_filter_push(before[i as int], pred);
            }
            if self.entries[i].path != key {
                let ghost k = kept@;
                kept.push(self.entries[i].copy_entry());
                assert(entries_view(kept@) =~= entries_view(k).push(before[i as int]));
            }
            i = i + 1;
        }
        assert(before.take(before.len() as int) =~= before);
        self.entries = kept;
    }

    /// Removes the entries whose file no longer exists (`exists[i]` for
    /// the i-th entry) and returns how many were removed.
    pub fn remove_missing(&mut self, exists: &Vec<bool>) -> (r: usize)
        requires
            exists@.len() == old(self).entries().len(),
        ensures
            final(self).file() == old(self).file(),
            final(self).entries() == select_by_flags(old(self).entries(), exists@),
            r == old(self).entries().len() - final(self).entries().len(),
    {
        let ghost before = entries_view(self.entries@);
        let mut kept: Vec<RecordingEntry> = Vec::new();
        let mut i: usize = 0;
        while i < self.entries.len()
            invariant
                i <= self.entries.len(),
                self.entries.len() == exists@.len(),
                entries_view(self.entries@) == before,
                entries_view(kept@) == select_by_flags(before.take(i as int), exists@.take(i as int)),
                kept@.len() <= i,
            decreases self.entries.len() - i,
        {
            proof {
                assert(before.take(i + 1).drop_last() =~= before.take(i as int));
                assert(exists@.take(i + 1).drop_last() =~= exists@.take(i as int));
            }
            if exists[i] {
                let ghost k = kept@;
                kept.push(self.entries[i].copy_entry());
                assert(entries_view(kept@) =~= entries_view(k).push(before[i as int]));
            }
            i = i + 1;
        }
        assert(before.take(before.len() as int) =~= before);
        assert(exists@.take(exists@.len() as int) =~= exists@);
        let removed = self.entries.len() - kept.len();
        self.entries = kept;
        removed
    }

    /// Records the transcription state of the first entry for the recording
    /// at `recording_path`, and the transcript's path when one is given.
    /// Returns whether there was such an entry.
    pub fn update_transcription_status(
        &mut self,
        recording_path: &str,
        status: &str,
        transcript_path: Option<&str>,
    ) -> (r: bool)
        ensures
            final(self).file() == old(self).file(),
            r == exists|i: int| 0 <= i < old(self).entries().len() && #[trigger] old(self).entries()[i].path == recording_path@,
            !r ==> final(self).entries() == old(self).entries(),
            r ==> exists|i: int| {
                &&& 0 <= i < old(self).entries().len()
                &&& old(self).entries()[i].path == recording_path@
                &&& forall|j: int| 0 <= j < i ==> #[trigger] old(self).entries()[j].path != recording_path@
                &&& final(self).entries() == old(self).entries().update(i, RecordingEntryView {
                    transcription_status: Some(status@),
                    transcript_path: match transcript_path {
                        Some(tp) => Some(tp@),
                        None => old(self).entries()[i].transcript_path,
                    },
                    ..old(self).entries()[i]
                })
            },
    {
        let ghost before = entries_view(self.entries@);
        let key = owned(recording_path);
        let mut i: usize = 0;
        while i < self.entries.len()
            invariant
                i <= self.entries.len(),
                entries_view(self.entries@) == before,
                key@ == recording_path@,
                self.path == old(self).path,
                before == old(self).entries(),
                forall|j: int| 0 <= j < i ==> #[trigger] before[j].path != recording_path@,
            decreases self.entries.len() - i,
        {
            if self.entries[i].path == key {
                let mut e = self.entries[i].copy_entry();
                e.transcription_status = Some(owned(status));
                match transcript_path {
                    Some(tp) => {
                        e.transcript_path = Some(owned(tp));
                    },
                    None => {},
                }
                let ghost ev = e@;
                self.entries.set(i, e);
                assert(entries_view(self.entries@) =~= before.update(i as int, ev));
                assert(before[i as int].path == recording_path@);
                assert(old(self).entries()[i as int].path == recording_path@);
                return true;
            }
            i = i + 1;
        }
        false
    }

    /// The paths of the recordings that the cleanup policy picks, judged at
    /// the instant `now_secs`.`now_nanos` (seconds and nanoseconds since the
    /// Unix epoch); `facts[i]` is what is known of the i-th entry's file.
    /// In history order, a recording is picked when its file exists inside
    /// the recordings folder, its time stamp parses, and it is at least
    /// `retention_days` whole days old, or, with `delete_large`, at least
    /// one day old and of at least `large_threshold_mb` MB; no more than
    /// `max_delete` are picked.
    pub fn get_cleanup_candidates_at(
        &self,
        retention_days: u32,
        delete_large: bool,
        large_threshold_mb: u32,
        max_delete: u32,
        facts: &Vec<CleanupFacts>,
        now_secs: i64,
        now_nanos: u32,
    ) -> (r: Vec<String>)
        requires
            facts@.len() == self.entries().len(),
        ensures
            r@.len() == cleanup_candidates(self.entries(), facts@, self.entries().len() as int,
                retention_days, delete_large, large_threshold_mb, max_delete, now_secs, now_nanos).len(),
            forall|k: int| 0 <= k < r@.len() ==> #[trigger] r@[k]@ == cleanup_candidates(self.entries(),
                facts@, self.entries().len() as int, retention_days, delete_large, large_threshold_mb,
                max_delete, now_secs, now_nanos)[k],
    {
        let ghost ents = entries_view(self.entries@);
        let mut out: Vec<String> = Vec::new();
        let mut i: usize = 0;
        while i < self.entries.len()
            invariant
                i <= self.entries.len(),
                facts@.len() == self.entries.len(),
                ents == entries_view(self.entries@),
                out@.len() == cleanup_candidates(ents, facts@, i as int, retention_days, delete_large,
                    large_threshold_mb, max_delete, now_secs, now_nanos).len(),
                forall|k: int| 0 <= k < out@.len() ==> #[trigger] out@[k]@ == cleanup_candidates(ents,
                    facts@, i as int, retention_days, delete_large, large_threshold_mb, max_delete,
                    now_secs, now_nanos)[k],
            decreases self.entries.len() - i,
        {
            let e = &self.entries[i];
            let f = &facts[i];
            assert(ents[i as int] == e@);
            if out.len() < max_delete as usize && f.in_recordings_dir && f.exists {
                let age = whole_days_since(e.recorded_at.as_str(), now_secs, now_nanos);
                if is_cleanup_pick(e, *f, age, retention_days, delete_large, large_threshold_mb) {
                    out.push(e.path.clone());
                }
            }
            i = i + 1;
        }
        out
    }

    /// The paths of the recordings that the cleanup policy picks now, as
    /// `get_cleanup_candidates_at` says for the current instant.
    pub fn get_cleanup_candidates(
        &self,
        retention_days: u32,
        delete_large: bool,
        large_threshold_mb: u32,
        max_delete: u32,
        facts: &Vec<CleanupFacts>,
    ) -> (r: Vec<String>)
        requires
            facts@.len() == self.entries().len(),
        ensures
            r@.len() <= max_delete,
            exists|now_secs: i64, now_nanos: u32| #[trigger] is_cleanup_result(r@, self.entries(), facts@,
                retention_days, delete_large, large_threshold_mb, max_delete, now_secs, now_nanos),
    {
        let (secs, nanos) = utc_now_instant();
        let r = self.get_cleanup_candidates_at(retention_days, delete_large, large_threshold_mb,
            max_delete, facts, secs, nanos);
        proof {
            lemma_candidates_bounded(self.entries(), facts@, self.entries().len() as int, retention_days,
                delete_large, large_threshold_mb, max_delete, secs, nanos);
            assert(is_cleanup_result(r@, self.entries(), facts@, retention_days, delete_large,
                large_threshold_mb, max_delete, secs, nanos));
        }
        r
    }

    /// Forgets the recordings whose files the cleanup removed, and returns
    /// how many there were.
    pub fn execute_cleanup(&mut self, removed: &Vec<String>) -> (r: usize)
        ensures
            final(self).file() == old(self).file(),
            final(self).entries() == old(self).entries().filter(
                |e: RecordingEntryView| !removed@.map_values(|s: String| s@).contains(e.path)),
            r == removed@.len(),
    {
        let ghost before = entries_view(self.entries@);
        let ghost gone = removed@.map_values(|s: String| s@);
        let ghost pred = |e: RecordingEntryView| !gone.contains(e.path);
        let mut kept: Vec<RecordingEntry> = Vec::new();
        let mut i: usize = 0;
        while i < self.entries.len()
            invariant
                i <= self.entries.len(),
                entries_view(self.entries@) == before,
                gone == removed@.map_values(|s: String| s@),
                pred == (|e: RecordingEntryView| !gone.contains(e.path)),
                entries_view(kept@) == before.take(i as int).filter(pred),
            decreases self.entries.len() - i,
        {
            proof {
                before.lemma_take_succ_push(i as int);
                before.take(i as int).lemma_filter_push(before[i as int], pred);
            }
            let listed = contains_string(removed, &self.entries[i].path);
            if !listed {
                let ghost k = kept@;
                kept.push(self.entries[i].copy_entry());
                assert(entries_view(kept@) =~= entries_view(k).push(before[i as int]));
            }
            i = i + 1;
        }
        assert(before.take(before.len() as int) =~= before);
        self.entries = kept;
        removed.len()
    }
}

/// The cleanup never picks more than `max_delete` recordings.
pub proof fn lemma_candidates_bounded(
    entries: Seq<RecordingEntryView>,
    facts: Seq<CleanupFacts>,
    n: int,
    retention_days: u32,
    delete_large: bool,
    large_threshold_mb: u32,
    max_delete: u32,
    now_secs: i64,
    now_nanos: u32,
)
    ensures
        cleanup_candidates(entries, facts, n, retention_days, delete_large, large_threshold_mb, max_delete,
            now_secs, now_nanos).len() <= max_delete,
    decreases n,
{
    if n > 0 {
        lemma_candidates_bounded(entries, facts, n - 1, retention_days, delete_large, large_threshold_mb,
            max_delete, now_secs, now_nanos);
    }
}

/// Whether `list` holds a string equal to `s`.
pub fn contains_string(list: &Vec<String>, s: &String) -> (r: bool)
    ensures
        r == list@.map_values(|x: String| x@).contains(s@),
{
    let ghost views = list@.map_values(|x: String| x@);
    let mut i: usize = 0;
    while i < list.len()
        invariant
            i <= list.len(),
            views == list@.map_values(|x: String| x@),
            forall|j: int| 0 <= j < i ==> #[trigger] views[j] != s@,
        decreases list.len() - i,
    {
        if list[i] == *s {
            assert(views[i as int] == s@);
            return true;
        }
        i = i + 1;
    }
    false
}


/// The entries that are not for the recording at `path`.
pub open spec fn without_path(entries: Seq<RecordingEntryView>, path: Seq<char>) -> Seq<RecordingEntryView> {
    entries.filter(|e: RecordingEntryView| e.path != path)
}

/// Removing the entries of a recording a second time changes nothing.
pub proof fn law_remove_entry_idempotent(entries: Seq<RecordingEntryView>, path: Seq<char>)
    ensures
        without_path(without_path(entries, path), path) == without_path(entries, path),
{
    let once = without_path(entries, path);
    let pred = |e: RecordingEntryView| e.path != path;
    assert forall|i: int| 0 <= i < once.len() implies #[trigger] pred(once[i]) by {
        entries.lemma_filter_pred(pred, i);
    }
    lemma_filter_keeps_all(once, pred);
}

/// Filtering a sequence whose every element passes keeps it whole.
proof fn lemma_filter_keeps_all<A>(s: Seq<A>, pred: spec_fn(A) -> bool)
    requires
        forall|i: int| 0 <= i < s.len() ==> #[trigger] pred(s[i]),
    ensures
        s.filter(pred) == s,
    decreases s.len(),
{
    reveal(Seq::filter);
    if s.len() > 0 {
        lemma_filter_keeps_all(s.drop_last(), pred);
        assert(s.drop_last().push(s.last()) =~= s);
    } else {
        assert(s.filter(pred) =~= s);
    }
}

/// A new recording goes first, and the history never holds more than
/// `MAX_HISTORY` entries; the others keep their order behind it.
pub proof fn law_history_newest_first_and_bounded(entries: Seq<RecordingEntryView>, e: RecordingEntryView)
    ensures
        with_newest(entries, e).len() <= MAX_HISTORY,
        with_newest(entries, e)[0] == e,
        forall|i: int| 0 <= i < with_newest(entries, e).len() - 1 ==>
            #[trigger] with_newest(entries, e)[i + 1] == entries[i],
{
}

/// At most `DISPLAY_LIMIT` entries are shown, the newest ones.
pub proof fn law_display_bounded(entries: Seq<RecordingEntryView>)
    ensures
        first_n(entries, DISPLAY_LIMIT as int).len() <= DISPLAY_LIMIT,
        forall|i: int| 0 <= i < first_n(entries, DISPLAY_LIMIT as int).len() ==>
            #[trigger] first_n(entries, DISPLAY_LIMIT as int)[i] == entries[i],
{
}

/// Once an entry is removed, no entry for its recording remains.
pub proof fn law_removed_entry_is_gone(entries: Seq<RecordingEntryView>, path: Seq<char>)
    ensures
        forall|i: int| 0 <= i < without_path(entries, path).len() ==>
            (#[trigger] without_path(entries, path)[i]).path != path,
{
    let pred = |e: RecordingEntryView| e.path != path;
    assert forall|i: int| 0 <= i < entries.filter(pred).len() implies (#[trigger] entries.filter(pred)[i]).path != path by {
        entries.lemma_filter_pred(pred, i);
    }
}

/// The cleanup only ever picks recordings whose file exists inside the
/// recordings folder and that the policy's rules select, in history order.
pub proof fn law_cleanup_picks_only_candidates(
    entries: Seq<RecordingEntryView>,
    facts: Seq<CleanupFacts>,
    n: int,
    retention_days: u32,
    delete_large: bool,
    large_threshold_mb: u32,
    max_delete: u32,
    now_secs: i64,
    now_nanos: u32,
    k: int,
)
    requires
        0 <= n <= entries.len(),
        n <= facts.len(),
        0 <= k < cleanup_candidates(entries, facts, n, retention_days, delete_large, large_threshold_mb,
            max_delete, now_secs, now_nanos).len(),
    ensures
        exists|i: int| {
            &&& 0 <= i < n
            &&& #[trigger] entries[i].path == cleanup_candidates(entries, facts, n, retention_days, delete_large,
                large_threshold_mb, max_delete, now_secs, now_nanos)[k]
            &&& facts[i].in_recordings_dir
            &&& facts[i].exists
            &&& is_cleanup_candidate(entries[i], facts[i], spec_whole_days_since(entries[i].recorded_at,
                now_secs, now_nanos), retention_days, delete_large, large_threshold_mb)
        },
    decreases n,
{
    let before = cleanup_candidates(entries, facts, n - 1, retention_days, delete_large, large_threshold_mb,
        max_delete, now_secs, now_nanos);
    if k < before.len() {
        law_cleanup_picks_only_candidates(entries, facts, n - 1, retention_days, delete_large,
            large_threshold_mb, max_delete, now_secs, now_nanos, k);
        let i = choose|i: int| {
            &&& 0 <= i < n - 1
            &&& #[trigger] entries[i].path == before[k]
            &&& facts[i].in_recordings_dir
            &&& facts[i].exists
            &&& is_cleanup_candidate(entries[i], facts[i], spec_whole_days_since(entries[i].recorded_at,
                now_secs, now_nanos), retention_days, delete_large, large_threshold_mb)
        };
        assert(entries[i].path == cleanup_candidates(entries, facts, n, retention_days, delete_large,
            large_threshold_mb, max_delete, now_secs, now_nanos)[k]);
    } else {
        assert(entries[n - 1].path == cleanup_candidates(entries, facts, n, retention_days, delete_large,
            large_threshold_mb, max_delete, now_secs, now_nanos)[k]);
    }
}

/// A recording enters the history with the values it was made with, as
/// "exists" when its file was found and "missing" otherwise, without a
/// transcript or a transcription state.
pub proof fn law_new_entry_fields(
    path: Seq<char>,
    filename: Seq<char>,
    size_bytes: u64,
    exists: bool,
    duration_seconds: u64,
    preset_id: Seq<char>,
    preset_name: Seq<char>,
    recorded_at: Seq<char>,
)
    ensures
        ({
            let e = new_entry_view(path, filename, size_bytes, exists, duration_seconds, preset_id, preset_name,
                recorded_at);
            &&& e.path == path && e.filename == filename && e.size_bytes == size_bytes
            &&& e.duration_seconds == duration_seconds && e.recorded_at == recorded_at
            &&& e.preset_id == preset_id && e.preset_name == preset_name
            &&& (exists ==> e.status == "exists"@)
            &&& (!exists ==> e.status == "missing"@)
            &&& e.transcript_path is None && e.transcription_status is None
        }),
{
}

/// Below the limit nothing is passed over: while fewer than `max_delete`
/// recordings are picked, every recording among the first `n` that the
/// policy's rules select is picked.
pub proof fn law_cleanup_misses_none_below_limit(
    entries: Seq<RecordingEntryView>,
    facts: Seq<CleanupFacts>,
    n: int,
    retention_days: u32,
    delete_large: bool,
    large_threshold_mb: u32,
    max_delete: u32,
    now_secs: i64,
    now_nanos: u32,
    i: int,
)
    requires
        0 <= i < n <= entries.len(),
        n <= facts.len(),
        cleanup_candidates(entries, facts, n, retention_days, delete_large, large_threshold_mb, max_delete,
            now_secs, now_nanos).len() < max_delete,
        is_cleanup_candidate(entries[i], facts[i], spec_whole_days_since(entries[i].recorded_at, now_secs,
            now_nanos), retention_days, delete_large, large_threshold_mb),
    ensures
        cleanup_candidates(entries, facts, n, retention_days, delete_large, large_threshold_mb, max_delete,
            now_secs, now_nanos).contains(entries[i].path),
    decreases n,
{
    let before = cleanup_candidates(entries, facts, n - 1, retention_days, delete_large, large_threshold_mb,
        max_delete, now_secs, now_nanos);
    let all = cleanup_candidates(entries, facts, n, retention_days, delete_large, large_threshold_mb,
        max_delete, now_secs, now_nanos);
    assert(before.len() <= all.len());
    if i == n - 1 {
        assert(all == before.push(entries[i].path));
        assert(all[before.len() as int] == entries[i].path);
    } else {
        law_cleanup_misses_none_below_limit(entries, facts, n - 1, retention_days, delete_large,
            large_threshold_mb, max_delete, now_secs, now_nanos, i);
        let w = choose|w: int| 0 <= w < before.len() && before[w] == entries[i].path;
        assert(all[w] == entries[i].path);
    }
}

/// `x` is an element of `s` whose flag in `keep` is set.
pub open spec fn flagged_in<A>(s: Seq<A>, keep: Seq<bool>, x: A) -> bool {
    exists|i: int| 0 <= i < s.len() && keep[i] && #[trigger] s[i] == x
}

/// Removing the recordings whose files are gone keeps exactly those whose
/// file was found: all of them when every file is there, none when none
/// is, and never an entry whose file was missing.
pub proof fn law_remove_missing_keeps_found(s: Seq<RecordingEntryView>, keep: Seq<bool>)
    requires
        keep.len() == s.len(),
    ensures
        select_by_flags(s, keep).len() <= s.len(),
        (forall|i: int| 0 <= i < s.len() ==> #[trigger] keep[i]) ==> select_by_flags(s, keep) == s,
        (forall|i: int| 0 <= i < s.len() ==> !#[trigger] keep[i]) ==> select_by_flags(s, keep).len() == 0,
        forall|k: int| 0 <= k < select_by_flags(s, keep).len() ==>
            flagged_in(s, keep, #[trigger] select_by_flags(s, keep)[k]),
    decreases s.len(),
{
    if s.len() > 0 {
        let t = s.drop_last();
        let kt = keep.drop_last();
        law_remove_missing_keeps_found(t, kt);
        let rest = select_by_flags(t, kt);
        let sel = select_by_flags(s, keep);
        if forall|i: int| 0 <= i < s.len() ==> #[trigger] keep[i] {
            assert(forall|i: int| 0 <= i < t.len() ==> #[trigger] kt[i] == keep[i]);
            assert(rest == t);
            assert(sel =~= s);
        }
        if forall|i: int| 0 <= i < s.len() ==> !#[trigger] keep[i] {
            assert(forall|i: int| 0 <= i < t.len() ==> #[trigger] kt[i] == keep[i]);
            assert(!keep[s.len() - 1]);
        }
        assert forall|k: int| 0 <= k < sel.len() implies flagged_in(s, keep, #[trigger] sel[k]) by {
            if k < rest.len() {
                assert(flagged_in(t, kt, rest[k]));
                let i = choose|i: int| 0 <= i < t.len() && kt[i] && #[trigger] t[i] == rest[k];
                assert(s[i] == t[i] && keep[i] == kt[i]);
            } else {
                assert(s[s.len() - 1] == sel[k]);
            }
        }
    }
}

} // verus!
