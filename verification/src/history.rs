//! Recognition history: one JSON line per finished session in
//! `history.jsonl`, with optional audio under `audio/`.
//!
//! The application reads and writes the files; this module holds the records
//! and decides what a trim or a deletion removes. A retry after an error
//! writes a second record that shares the session's audio file, so a file is
//! removed only when no kept record refers to it any more.

use vstd::prelude::*;
use crate::text;
use crate::text::{chars_of, owned, push_str, str_eq, string_of, trim_chars};

verus! {

/// How much history is kept.
#[derive(Debug, Clone, Copy, PartialEq, Eq, Structural)]
pub enum HistoryMode {
    /// The latest `max_records` records (the default).
    Capped,
    /// Everything.
    KeepAll,
    /// Nothing; not even a draft is made during a session.
    Off,
}

/// History settings.
#[derive(Debug, Clone, PartialEq, Eq)]
pub struct HistoryConfig {
    pub mode: HistoryMode,
    /// Limit of the capped mode.
    pub max_records: u32,
    /// Keep the session audio next to the record.
    pub include_audio: bool,
    /// Custom history directory; empty means `~/.kotone/history`.
    pub dir: String,
}

impl Default for HistoryConfig {
    fn default() -> (r: HistoryConfig)
        ensures
            r.mode == HistoryMode::Capped,
            r.max_records == 1000,
            !r.include_audio,
            r.dir@.len() == 0,
    {
        HistoryConfig { mode: HistoryMode::Capped, max_records: 1000, include_audio: false, dir: String::new() }
    }
}

/// How a session ended.
#[derive(Debug, Clone, Copy, PartialEq, Eq, Structural)]
pub enum HistoryOutcome {
    Sent,
    Cancelled,
    Error,
}

/// One history record.
#[derive(Debug, Clone)]
pub struct HistoryRecord {
    /// Shared with the evaluation recording of the session.
    pub session_id: String,
    /// When the session ended (ISO 8601 UTC).
    pub ts: String,
    pub engine_id: String,
    pub profile_id: Option<String>,
    /// Final text (empty when there was none).
    pub final_text: String,
    pub audio_ms: u64,
    pub first_partial_ms: Option<u64>,
    pub finalize_latency_ms: Option<u64>,
    pub outcome: HistoryOutcome,
    pub error: Option<String>,
    /// File name under `audio/`, when audio was kept.
    pub audio_file: Option<String>,
}

/// The custom history directory: the setting trimmed, `None` when blank.
pub fn custom_history_dir(setting: &str) -> (r: Option<String>)
    ensures
        match r {
            Some(d) => text::trim(setting@).len() > 0 && d@ == text::trim(setting@),
            None => text::trim(setting@).len() == 0,
        },
{
    let t = trim_chars(chars_of(setting).as_slice());
    if t.len() == 0 {
        None
    } else {
        Some(string_of(t.as_slice()))
    }
}

/// The audio file name of a session, refused when the id is empty or could
/// lead out of the audio directory ('/', '\' or "..").
pub fn audio_file_name(session_id: &str) -> (r: Option<String>)
    ensures
        r is Some <==> (session_id@.len() > 0 && !session_id@.contains('/')
            && !session_id@.contains('\\') && !text::contains_seq(session_id@, ".."@)),
        r matches Some(n) ==> n@ == session_id@ + ".wav"@,
{
    let cs = chars_of(session_id);
    if cs.len() == 0 || text::has_char(cs.as_slice(), '/') || text::has_char(cs.as_slice(), '\\')
        || text::contains_lit(cs.as_slice(), "..") {
        return None;
    }
    let mut n = owned(session_id);
    push_str(&mut n, ".wav");
    Some(n)
}

/// The audio length of a session from its sample count (16 kHz).
pub fn audio_ms_of(samples: u64) -> (r: u64)
    ensures
        r == samples / 16,
{
    samples / 16
}

// ---------- trims and deletions ----------

/// The audio file of a line of the history file; `None` for a line that did
/// not parse or a record without audio.
pub open spec fn audio_of(line: Option<HistoryRecord>) -> Option<Seq<char>> {
    match line {
        Some(r) => match r.audio_file {
            Some(f) => Some(f@),
            None => None,
        },
        None => None,
    }
}

/// Some line refers to the audio file `f`.
pub open spec fn referenced(lines: Seq<Option<HistoryRecord>>, f: Seq<char>) -> bool {
    exists|i: int| 0 <= i < lines.len() && #[trigger] audio_of(lines[i]) == Some(f)
}

/// Audio files of the dropped lines that no kept line refers to, in order.
pub open spec fn orphaned_audio(dropped: Seq<Option<HistoryRecord>>, kept: Seq<Option<HistoryRecord>>) -> Seq<Seq<char>>
    decreases dropped.len(),
{
    if dropped.len() == 0 {
        Seq::empty()
    } else {
        let prev = orphaned_audio(dropped.drop_last(), kept);
        match audio_of(dropped.last()) {
            Some(f) => if referenced(kept, f) {
                prev
            } else {
                prev.push(f)
            },
            None => prev,
        }
    }
}

/// What trimming the capped history removes: the oldest lines beyond the
/// limit, and their audio files that no kept line refers to.
pub struct TrimPlan {
    /// Lines removed from the start of the file.
    pub dropped: usize,
    /// Audio files to delete.
    pub delete_audio: Vec<String>,
}

fn audio_file_of(line: &Option<HistoryRecord>) -> (r: Option<String>)
    ensures
        match r {
            Some(f) => audio_of(*line) == Some(f@),
            None => audio_of(*line).is_none(),
        },
{
    match line {
        Some(rec) => match &rec.audio_file {
            Some(f) => Some(f.clone()),
            None => None,
        },
        None => None,
    }
}

fn is_referenced(lines: &[Option<HistoryRecord>], from: usize, f: &String) -> (r: bool)
    requires
        from <= lines@.len(),
    ensures
        r == referenced(lines@.skip(from as int), f@),
{
    let ghost kept = lines@.skip(from as int);
    let mut i: usize = from;
    while i < lines.len()
        invariant
            from <= i <= lines@.len(),
            kept == lines@.skip(from as int),
            forall|k: int| 0 <= k < i - from ==> #[trigger] audio_of(kept[k]) != Some(f@),
        decreases lines.len() - i,
    {
        let a = audio_file_of(&lines[i]);
        assert(kept[i - from] == lines@[i as int]);
        match a {
            Some(g) => {
                if g == *f {
                    return true;
                }
            },
            None => {},
        }
        i += 1;
    }
    false
}

/// Plans the trim of a capped history (lines oldest first; `None` for a line
/// that did not parse).
pub fn plan_trim(lines: &[Option<HistoryRecord>], max: usize) -> (r: TrimPlan)
    ensures
        lines@.len() <= max ==> r.dropped == 0 && r.delete_audio@.len() == 0,
        lines@.len() > max ==> r.dropped == lines@.len() - max && text::views(r.delete_audio@)
            == orphaned_audio(lines@.take(r.dropped as int), lines@.skip(r.dropped as int)),
{
    if lines.len() <= max {
        return TrimPlan { dropped: 0, delete_audio: Vec::new() };
    }
    let dropped = lines.len() - max;
    let ghost kept = lines@.skip(dropped as int);
    let mut out: Vec<String> = Vec::new();
    let mut i: usize = 0;
    assert(lines@.take(0) =~= Seq::<Option<HistoryRecord>>::empty());
    while i < dropped
        invariant
            dropped == lines@.len() - max,
            i <= dropped,
            kept == lines@.skip(dropped as int),
            text::views(out@) == orphaned_audio(lines@.take(i as int), kept),
        decreases dropped - i,
    {
        assert(lines@.take(i + 1).drop_last() =~= lines@.take(i as int));
        assert(lines@.take(i + 1).last() == lines@[i as int]);
        match audio_file_of(&lines[i]) {
            Some(f) => {
                if !is_referenced(lines, dropped, &f) {
                    let ghost before = out@;
                    out.push(f);
                    assert(text::views(out@) =~= text::views(before).push(out@[before.len() as int]@));
                }
            },
            None => {},
        }
        i += 1;
    }
    TrimPlan { dropped, delete_audio: out }
}

/// A line is the record to delete: it parsed and matches the session id and
/// the time stamp.
pub open spec fn is_target(line: Option<HistoryRecord>, session_id: Seq<char>, ts: Seq<char>) -> bool {
    match line {
        Some(r) => r.session_id@ == session_id && r.ts@ == ts,
        None => false,
    }
}

/// The lines that stay after a deletion, in order.
pub open spec fn kept_lines(lines: Seq<Option<HistoryRecord>>, session_id: Seq<char>, ts: Seq<char>) -> Seq<Option<HistoryRecord>>
    decreases lines.len(),
{
    if lines.len() == 0 {
        Seq::empty()
    } else {
        let prev = kept_lines(lines.drop_last(), session_id, ts);
        if is_target(lines.last(), session_id, ts) {
            prev
        } else {
            prev.push(lines.last())
        }
    }
}

/// The audio file of the last removed record (the deletion loop keeps the
/// last one it sees).
pub open spec fn last_removed_audio(lines: Seq<Option<HistoryRecord>>, session_id: Seq<char>, ts: Seq<char>) -> Option<Seq<char>>
    decreases lines.len(),
{
    if lines.len() == 0 {
        None
    } else if is_target(lines.last(), session_id, ts) {
        audio_of(lines.last())
    } else {
        last_removed_audio(lines.drop_last(), session_id, ts)
    }
}

/// What deleting one record removes.
pub struct DeletePlan {
    /// For each line, whether it stays.
    pub keep: Vec<bool>,
    /// Lines removed.
    pub removed: usize,
    /// Audio file to delete.
    pub delete_audio: Option<String>,
}

/// Plans the deletion of the records with this session id and time stamp:
/// they go, every other line stays; the audio of the (last) removed record is
/// deleted only when no remaining line refers to it. Nothing is removed when
/// no record matches.
pub fn plan_delete(lines: &[Option<HistoryRecord>], session_id: &str, ts: &str) -> (r: DeletePlan)
    ensures
        r.keep@.len() == lines@.len(),
        forall|i: int|
            0 <= i < lines@.len() ==> (#[trigger] r.keep@[i] == !is_target(lines@[i], session_id@, ts@)),
        r.removed == lines@.len() - kept_lines(lines@, session_id@, ts@).len(),
        match r.delete_audio {
            Some(f) => r.removed > 0 && last_removed_audio(lines@, session_id@, ts@) == Some(f@)
                && !referenced(kept_lines(lines@, session_id@, ts@), f@),
            None => r.removed == 0 || match last_removed_audio(lines@, session_id@, ts@) {
                Some(f) => referenced(kept_lines(lines@, session_id@, ts@), f),
                None => true,
            },
        },
{
    let mut keep: Vec<bool> = Vec::new();
    let mut removed: usize = 0;
    let mut removed_audio: Option<String> = None;
    let mut kept_audio: Vec<Option<String>> = Vec::new();
    let ghost mut kept: Seq<Option<HistoryRecord>> = Seq::empty();
    let mut i: usize = 0;
    assert(lines@.take(0) =~= Seq::<Option<HistoryRecord>>::empty());
    while i < lines.len()
        invariant
            i <= lines@.len(),
            keep@.len() == i,
            forall|k: int| 0 <= k < i ==> (#[trigger] keep@[k] == !is_target(lines@[k], session_id@, ts@)),
            kept == kept_lines(lines@.take(i as int), session_id@, ts@),
            removed == i - kept.len(),
            kept.len() <= i,
            kept_audio@.len() == kept.len(),
            forall|k: int|
                0 <= k < kept.len() ==> match #[trigger] kept_audio@[k] {
                    Some(f) => audio_of(kept[k]) == Some(f@),
                    None => audio_of(kept[k]).is_none(),
                },
            match removed_audio {
                Some(f) => last_removed_audio(lines@.take(i as int), session_id@, ts@) == Some(f@),
                None => last_removed_audio(lines@.take(i as int), session_id@, ts@).is_none(),
            },
        decreases lines.len() - i,
    {
        let ghost pre = lines@.take(i as int);
        let ghost post = lines@.take(i + 1);
        assert(post.drop_last() =~= pre);
        assert(post.last() == lines@[i as int]);
        let target = match &lines[i] {
            Some(rec) => str_eq(rec.session_id.as_str(), session_id) && str_eq(rec.ts.as_str(), ts),
            None => false,
        };
        if target {
            removed += 1;
            removed_audio = audio_file_of(&lines[i]);
            keep.push(false);
        } else {
            keep.push(true);
            kept_audio.push(audio_file_of(&lines[i]));
            proof {
                kept = kept.push(lines@[i as int]);
            }
        }
        i += 1;
    }
    assert(lines@.take(lines@.len() as int) =~= lines@);
    if removed == 0 {
        return DeletePlan { keep, removed, delete_audio: None };
    }
    let delete_audio = match removed_audio {
        Some(f) => {
            if kept_references(&kept_audio, &f, Ghost(kept)) {
                None
            } else {
                Some(f)
            }
        },
        None => None,
    };
    DeletePlan { keep, removed, delete_audio }
}

fn kept_references(kept_audio: &Vec<Option<String>>, f: &String, Ghost(kept): Ghost<Seq<Option<HistoryRecord>>>) -> (r: bool)
    requires
        kept_audio@.len() == kept.len(),
        forall|k: int|
            0 <= k < kept.len() ==> match #[trigger] kept_audio@[k] {
                Some(g) => audio_of(kept[k]) == Some(g@),
                None => audio_of(kept[k]).is_none(),
            },
    ensures
        r == referenced(kept, f@),
{
    let mut i: usize = 0;
    while i < kept_audio.len()
        invariant
            i <= kept_audio@.len(),
            kept_audio@.len() == kept.len(),
            forall|k: int|
                0 <= k < kept.len() ==> match #[trigger] kept_audio@[k] {
                    Some(g) => audio_of(kept[k]) == Some(g@),
                    None => audio_of(kept[k]).is_none(),
                },
            forall|k: int| 0 <= k < i ==> #[trigger] audio_of(kept[k]) != Some(f@),
        decreases kept_audio.len() - i,
    {
        match &kept_audio[i] {
            Some(g) => {
                if *g == *f {
                    return true;
                }
            },
            None => {},
        }
        i += 1;
    }
    false
}

/// A trim deletes exactly the audio files of dropped records that no kept
/// record refers to: never one still in use (the retry record of an error
/// shares its session's file).
pub proof fn law_trim_spares_referenced_audio(dropped: Seq<Option<HistoryRecord>>, kept: Seq<Option<HistoryRecord>>)
    ensures
        forall|k: int|
            0 <= k < orphaned_audio(dropped, kept).len() ==> !referenced(
                kept,
                #[trigger] orphaned_audio(dropped, kept)[k],
            ),
        forall|i: int|
            0 <= i < dropped.len() ==> match #[trigger] audio_of(dropped[i]) {
                Some(f) => referenced(kept, f) || orphaned_audio(dropped, kept).contains(f),
                None => true,
            },
    decreases dropped.len(),
{
    if dropped.len() > 0 {
        let prev = dropped.drop_last();
        law_trim_spares_referenced_audio(prev, kept);
        let o = orphaned_audio(prev, kept);
        assert forall|i: int| 0 <= i < dropped.len() implies match #[trigger] audio_of(dropped[i]) {
            Some(f) => referenced(kept, f) || orphaned_audio(dropped, kept).contains(f),
            None => true,
        } by {
            if i < dropped.len() - 1 {
                assert(dropped[i] == prev[i]);
                match audio_of(prev[i]) {
                    Some(f) => {
                        if !referenced(kept, f) {
                            assert(o.contains(f));
                            let j = choose|j: int| 0 <= j < o.len() && o[j] == f;
                            match audio_of(dropped.last()) {
                                Some(g) => if !referenced(kept, g) {
                                    assert(o.push(g)[j] == f);
                                },
                                None => {},
                            }
                        }
                    },
                    None => {},
                }
            } else {
                match audio_of(dropped.last()) {
                    Some(g) => if !referenced(kept, g) {
                        assert(o.push(g)[o.len() as int] == g);
                    },
                    None => {},
                }
            }
        }
    }
}

// ---------- appending and listing ----------

/// What appending a record does.
#[derive(Debug, Clone, Copy, PartialEq, Eq, Structural)]
pub enum AppendPlan {
    /// history is off: nothing is written, nothing is created
    Skip,
    /// the record is appended and nothing is trimmed
    Append,
    /// the record is appended, then the file is cut to this many records
    /// (see `plan_trim`)
    AppendAndTrim(usize),
}

/// The plan of an append under a configuration: nothing when history is
/// off, an append alone when everything is kept, an append then a trim to
/// the limit when it is capped.
pub fn plan_append(cfg: &HistoryConfig) -> (r: AppendPlan)
    ensures
        r == (match cfg.mode {
            HistoryMode::Off => AppendPlan::Skip,
            HistoryMode::KeepAll => AppendPlan::Append,
            HistoryMode::Capped => AppendPlan::AppendAndTrim(cfg.max_records as usize),
        }),
{
    match cfg.mode {
        HistoryMode::Off => AppendPlan::Skip,
        HistoryMode::KeepAll => AppendPlan::Append,
        HistoryMode::Capped => AppendPlan::AppendAndTrim(cfg.max_records as usize),
    }
}

/// The records of the file's lines (oldest first, `None` for a line that
/// did not parse), newest first, unparsable lines left out.
pub open spec fn newest_first_spec(lines: Seq<Option<HistoryRecord>>) -> Seq<HistoryRecord>
    decreases lines.len(),
{
    if lines.len() == 0 {
        Seq::empty()
    } else {
        let rest = newest_first_spec(lines.drop_first());
        match lines[0] {
            Some(r) => rest.push(r),
            None => rest,
        }
    }
}

/// Lists the records newest first, skipping lines that did not parse.
pub fn newest_first(lines: Vec<Option<HistoryRecord>>) -> (r: Vec<HistoryRecord>)
    ensures
        r@ == newest_first_spec(lines@),
{
    let ghost all = lines@;
    let mut rest = lines;
    let mut out: Vec<HistoryRecord> = Vec::new();
    assert(all.skip(all.len() as int) =~= Seq::<Option<HistoryRecord>>::empty());
    while rest.len() > 0
        invariant
            rest@ == all.take(rest@.len() as int),
            rest@.len() <= all.len(),
            out@ == newest_first_spec(all.skip(rest@.len() as int)),
        decreases rest.len(),
    {
        let k = rest.len();
        proof {
            assert(all.skip(k - 1).drop_first() =~= all.skip(k as int));
            assert(all.skip(k - 1)[0] == all[k - 1]);
        }
        let last = rest.pop();
        proof {
            assert(rest@ =~= all.take(k - 1));
        }
        match last {
            Some(Some(rec)) => {
                out.push(rec);
            },
            _ => {},
        }
    }
    assert(all.skip(0) =~= all);
    out
}

} // verus!
