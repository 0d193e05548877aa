//! Structured process events for diagnostics packages and offline PM4Py
//! analysis.
//!
//! Events go to `~/.kotone/diagnostics/events.jsonl` (written by the
//! application) and are never uploaded. An event has no field for text,
//! audio, hotwords, window titles or paths: callers fill in whitelisted
//! metadata only. This module builds events and renders them as CSV.

use vstd::prelude::*;
use crate::text;
use crate::text::{owned, push_char, push_dec, push_str, chars_of};

verus! {

/// Version of the event record layout.
pub const SCHEMA_VERSION: u32 = 1;
/// Events kept when the file is trimmed.
pub const MAX_EVENTS: usize = 20_000;
/// Size above which the file is trimmed.
pub const TRIM_AT_BYTES: u64 = 4194304;

#[derive(Debug, Clone, Default)]
pub struct EventContext {
    pub engine_id: Option<String>,
    pub model_id: Option<String>,
    pub profile_id: Option<String>,
    pub interaction_mode: Option<String>,
    pub elevated: Option<bool>,
}

#[derive(Debug, Clone, Default)]
pub struct EventData {
    pub outcome: Option<String>,
    pub error_code: Option<String>,
    pub duration_ms: Option<u64>,
    pub audio_ms: Option<u64>,
    pub text_chars: Option<u64>,
}

#[derive(Debug, Clone)]
pub struct ProcessEvent {
    pub schema_version: u32,
    pub case_id: String,
    pub activity: String,
    pub timestamp: String,
    pub app_session_id: String,
    pub event_index: u64,
    pub context: EventContext,
    pub data: EventData,
}

impl ProcessEvent {
    /// A new event of a case, stamped with the current UTC time (with
    /// milliseconds), the application session and the event's index within
    /// that session; context and data empty.
    pub fn new(case_id: &str, activity: &str, app_session_id: &str, event_index: u64) -> (r: ProcessEvent)
        ensures
            r.schema_version == SCHEMA_VERSION,
            r.case_id@ == case_id@,
            r.activity@ == activity@,
            exists|secs: nat, ms: nat|
                ms < 1000 && r.timestamp@ == crate::eval::iso_millis_stamp(secs, ms),
            r.app_session_id@ == app_session_id@,
            r.event_index == event_index,
            r.context.engine_id.is_none() && r.context.model_id.is_none()
                && r.context.profile_id.is_none() && r.context.interaction_mode.is_none()
                && r.context.elevated.is_none(),
            r.data.outcome.is_none() && r.data.error_code.is_none() && r.data.duration_ms.is_none()
                && r.data.audio_ms.is_none() && r.data.text_chars.is_none(),
    {
        ProcessEvent {
            schema_version: SCHEMA_VERSION,
            case_id: owned(case_id),
            activity: owned(activity),
            timestamp: crate::eval::utc_now_iso_millis(),
            app_session_id: owned(app_session_id),
            event_index,
            context: EventContext {
                engine_id: None,
                model_id: None,
                profile_id: None,
                interaction_mode: None,
                elevated: None,
            },
            data: EventData {
                outcome: None,
                error_code: None,
                duration_ms: None,
                audio_ms: None,
                text_chars: None,
            },
        }
    }
}

/// The id of one run of the application: "app-" and a session id.
pub fn app_session_id_from(session_id: &str) -> (r: String)
    ensures
        r@ == "app-"@ + session_id@,
{
    let mut r = owned("app-");
    push_str(&mut r, session_id);
    r
}

// ---------- CSV ----------

/// A CSV field: quoted, with inner quotes doubled, when it holds a comma, a
/// quote, a carriage return or a newline; as it is otherwise.
pub open spec fn needs_quotes(s: Seq<char>) -> bool {
    s.contains(',') || s.contains('"') || s.contains('\r') || s.contains('\n')
}

/// `s` with every quote doubled.
pub open spec fn double_quotes(s: Seq<char>) -> Seq<char>
    decreases s.len(),
{
    if s.len() == 0 {
        Seq::empty()
    } else {
        double_quotes(s.drop_last()) + if s.last() == '"' {
            seq!['"', '"']
        } else {
            seq![s.last()]
        }
    }
}

pub open spec fn csv_field(s: Seq<char>) -> Seq<char> {
    if needs_quotes(s) {
        seq!['"'] + double_quotes(s) + seq!['"']
    } else {
        s
    }
}

/// Escapes one CSV field (see [`csv_field`]).
pub fn csv_escape(value: &str) -> (r: String)
    ensures
        r@ == csv_field(value@),
{
    let cs = chars_of(value);
    let quote = text::has_char(cs.as_slice(), ',') || text::has_char(cs.as_slice(), '"')
        || text::has_char(cs.as_slice(), '\r') || text::has_char(cs.as_slice(), '\n');
    if !quote {
        return owned(value);
    }
    let mut out = String::new();
    push_char(&mut out, '"');
    let mut i: usize = 0;
    while i < cs.len()
        invariant
            i <= cs@.len(),
            cs@ == value@,
            out@ == seq!['"'] + double_quotes(value@.take(i as int)),
        decreases cs.len() - i,
    {
        assert(value@.take(i + 1).drop_last() =~= value@.take(i as int));
        let c = cs[i];
        let ghost before = out@;
        if c == '"' {
            push_char(&mut out, '"');
            push_char(&mut out, '"');
            assert(out@ =~= before + seq!['"', '"']);
        } else {
            push_char(&mut out, c);
            assert(out@ =~= before + seq![c]);
        }
        i += 1;
    }
    assert(value@.take(value@.len() as int) =~= value@);
    push_char(&mut out, '"');
    out
}

/// Reading a quoted CSV field back: each doubled quote becomes one.
pub open spec fn undouble(t: Seq<char>) -> Seq<char>
    decreases t.len(),
{
    if t.len() == 0 {
        Seq::empty()
    } else if t.last() == '"' && t.len() >= 2 {
        undouble(t.take(t.len() - 2)) + seq!['"']
    } else {
        undouble(t.drop_last()) + seq![t.last()]
    }
}

/// A CSV field read back: a quoted field loses its quotes and its doubled
/// quotes; any other field is taken as it is.
pub open spec fn parse_field(f: Seq<char>) -> Seq<char> {
    if f.len() >= 2 && f[0] == '"' && f.last() == '"' {
        undouble(f.subrange(1, f.len() - 1))
    } else {
        f
    }
}

proof fn lemma_undouble(s: Seq<char>)
    ensures
        undouble(double_quotes(s)) == s,
    decreases s.len(),
{
    if s.len() > 0 {
        lemma_undouble(s.drop_last());
        let d = double_quotes(s.drop_last());
        if s.last() == '"' {
            let t = d + seq!['"', '"'];
            assert(t.take(t.len() - 2) =~= d);
        } else {
            let t = d + seq![s.last()];
            assert(t.drop_last() =~= d);
        }
        assert(s.drop_last().push(s.last()) =~= s);
    }
}

/// Escaping a field and reading it back gives the value: CSV escaping loses
/// nothing.
pub proof fn law_csv_field_roundtrip(s: Seq<char>)
    ensures
        parse_field(csv_field(s)) == s,
{
    if needs_quotes(s) {
        lemma_undouble(s);
        let f = seq!['"'] + double_quotes(s) + seq!['"'];
        assert(f.subrange(1, f.len() - 1) =~= double_quotes(s));
    } else if s.len() >= 2 && s[0] == '"' {
        assert(s.contains('"'));
    }
}

/// The CSV header: the PM4Py column names first (case id, activity, time
/// stamp), then the whitelisted attributes.
pub open spec fn csv_header() -> Seq<char> {
    "case:concept:name,concept:name,time:timestamp,eventIndex,appSessionId,appVersion,engineId,modelId,profileId,interactionMode,elevated,outcome,errorCode,durationMs,audioMs,textChars\n"@
}

pub open spec fn opt_text(o: Option<String>) -> Seq<char> {
    match o {
        Some(s) => s@,
        None => Seq::empty(),
    }
}

pub open spec fn opt_num(o: Option<u64>) -> Seq<char> {
    match o {
        Some(n) => text::dec(n as nat),
        None => Seq::empty(),
    }
}

pub open spec fn opt_flag(o: Option<bool>) -> Seq<char> {
    match o {
        Some(true) => "true"@,
        Some(false) => "false"@,
        None => Seq::empty(),
    }
}

/// The raw fields of one event row, in column order.
pub open spec fn row_fields(e: ProcessEvent, app_version: Seq<char>) -> Seq<Seq<char>> {
    seq![
        e.case_id@,
        e.activity@,
        e.timestamp@,
        text::dec(e.event_index as nat),
        e.app_session_id@,
        app_version,
        opt_text(e.context.engine_id),
        opt_text(e.context.model_id),
        opt_text(e.context.profile_id),
        opt_text(e.context.interaction_mode),
        opt_flag(e.context.elevated),
        opt_text(e.data.outcome),
        opt_text(e.data.error_code),
        opt_num(e.data.duration_ms),
        opt_num(e.data.audio_ms),
        opt_num(e.data.text_chars),
    ]
}

/// Escaped fields joined by commas.
pub open spec fn joined(fields: Seq<Seq<char>>) -> Seq<char>
    decreases fields.len(),
{
    if fields.len() == 0 {
        Seq::empty()
    } else if fields.len() == 1 {
        csv_field(fields[0])
    } else {
        joined(fields.drop_last()) + seq![','] + csv_field(fields.last())
    }
}

pub open spec fn csv_rows(events: Seq<ProcessEvent>, app_version: Seq<char>) -> Seq<char>
    decreases events.len(),
{
    if events.len() == 0 {
        Seq::empty()
    } else {
        csv_rows(events.drop_last(), app_version) + joined(row_fields(events.last(), app_version))
            + seq!['\n']
    }
}

/// The whole CSV text: header, then one line per event.
pub open spec fn pm4py_csv(events: Seq<ProcessEvent>, app_version: Seq<char>) -> Seq<char> {
    csv_header() + csv_rows(events, app_version)
}

fn opt_text_of(o: &Option<String>) -> (r: String)
    ensures
        r@ == opt_text(*o),
{
    match o {
        Some(s) => s.clone(),
        None => String::new(),
    }
}

fn opt_num_of(o: Option<u64>) -> (r: String)
    ensures
        r@ == opt_num(o),
{
    match o {
        Some(n) => {
            let mut s = String::new();
            push_dec(&mut s, n);
            s
        },
        None => String::new(),
    }
}

fn opt_flag_of(o: Option<bool>) -> (r: String)
    ensures
        r@ == opt_flag(o),
{
    match o {
        Some(true) => owned("true"),
        Some(false) => owned("false"),
        None => String::new(),
    }
}

fn push_row(out: &mut String, e: &ProcessEvent, app_version: &str)
    ensures
        final(out)@ == old(out)@ + joined(row_fields(*e, app_version@)),
{
    let mut index = String::new();
    push_dec(&mut index, e.event_index);
    let mut fields: Vec<String> = Vec::new();
    fields.push(e.case_id.clone());
    fields.push(e.activity.clone());
    fields.push(e.timestamp.clone());
    fields.push(index);
    fields.push(e.app_session_id.clone());
    fields.push(owned(app_version));
    fields.push(opt_text_of(&e.context.engine_id));
    fields.push(opt_text_of(&e.context.model_id));
    fields.push(opt_text_of(&e.context.profile_id));
    fields.push(opt_text_of(&e.context.interaction_mode));
    fields.push(opt_flag_of(e.context.elevated));
    fields.push(opt_text_of(&e.data.outcome));
    fields.push(opt_text_of(&e.data.error_code));
    fields.push(opt_num_of(e.data.duration_ms));
    fields.push(opt_num_of(e.data.audio_ms));
    fields.push(opt_num_of(e.data.text_chars));
    let ghost want = row_fields(*e, app_version@);
    assert(text::views(fields@) =~= want);
    let mut i: usize = 0;
    let ghost start = out@;
    while i < fields.len()
        invariant
            i <= fields@.len(),
            fields@.len() == 16,
            text::views(fields@) == want,
            out@ == start + joined(want.take(i as int)),
        decreases fields.len() - i,
    {
        assert(want.take(i + 1).drop_last() =~= want.take(i as int));
        assert(want.take(i + 1).last() == fields@[i as int]@);
        if i > 0 {
            push_char(out, ',');
        } else {
            assert(want.take(0) =~= Seq::<Seq<char>>::empty());
        }
        let escaped = csv_escape(fields[i].as_str());
        push_str(out, escaped.as_str());
        proof {
            if i == 0 {
                assert(want.take(1) =~= seq![want[0]]);
            }
            assert(out@ =~= start + joined(want.take(i + 1)));
        }
        i += 1;
    }
    assert(want.take(16) =~= want);
}

/// PM4Py-compatible CSV of the events.
pub fn to_pm4py_csv(events: &[ProcessEvent], app_version: &str) -> (r: String)
    ensures
        r@ == pm4py_csv(events@, app_version@),
{
    let mut out = owned(
        "case:concept:name,concept:name,time:timestamp,eventIndex,appSessionId,appVersion,engineId,modelId,profileId,interactionMode,elevated,outcome,errorCode,durationMs,audioMs,textChars\n",
    );
    let mut i: usize = 0;
    assert(events@.take(0) =~= Seq::<ProcessEvent>::empty());
    while i < events.len()
        invariant
            i <= events@.len(),
            out@ == csv_header() + csv_rows(events@.take(i as int), app_version@),
        decreases events.len() - i,
    {
        assert(events@.take(i + 1).drop_last() =~= events@.take(i as int));
        assert(events@.take(i + 1).last() == events@[i as int]);
        push_row(&mut out, &events[i], app_version);
        push_char(&mut out, '\n');
        i += 1;
    }
    assert(events@.take(events@.len() as int) =~= events@);
    out
}

} // verus!
