//! Redacted diagnostics packages.
//!
//! A package holds whitelisted environment facts, model state, history
//! metadata, process events and a redacted log. It never copies the settings,
//! profiles, history text or audio. The application gathers the pieces and
//! writes the zip file; this module decides what a log line may keep, how an
//! error message is classified, and which time window applies.

use vstd::prelude::*;
use crate::text;
use crate::history::{HistoryOutcome, HistoryRecord};
use crate::text::{
    chars_of, contains_lit, find_index_exec, first_word_exec, lower_chars, owned, push_all,
    push_str, replace_all_exec, slice_to_vec, str_eq, string_of, until_char_exec,
};

verus! {

/// Layout version of the package.
pub const PACKAGE_SCHEMA_VERSION: u32 = 3;
/// Process events put in a package at most.
pub const MAX_PROCESS_EVENTS: usize = 20_000;
/// History records described in a package at most.
pub const MAX_HISTORY_RECORDS: usize = 50;
/// Tail of the log file read into a package.
pub const MAX_LOG_BYTES: usize = 1048576;
/// Characters kept of one log line.
pub const MAX_LINE_CHARS: usize = 2000;

/// What an export produced.
#[derive(Debug, Clone)]
pub struct DiagnosticExportResult {
    pub report_id: String,
    pub path: String,
    pub event_count: usize,
    pub history_count: usize,
    pub window: String,
}

/// The period a package covers.
#[derive(Debug, Clone, Copy, PartialEq, Eq, Structural)]
pub enum DiagnosticWindow {
    Hours24,
    Days7,
    All,
}

pub open spec fn window_of(raw: Seq<char>) -> DiagnosticWindow {
    if raw == "24h"@ {
        DiagnosticWindow::Hours24
    } else if raw == "7d"@ {
        DiagnosticWindow::Days7
    } else {
        DiagnosticWindow::All
    }
}

/// Seconds a window reaches back; `None` for everything.
pub open spec fn window_secs(w: DiagnosticWindow) -> Option<nat> {
    match w {
        DiagnosticWindow::Hours24 => Some(86400),
        DiagnosticWindow::Days7 => Some(604800),
        DiagnosticWindow::All => None,
    }
}

/// The earliest Unix time inside a window when the clock reads `now`
/// (never below zero); `None` when the window is unbounded.
pub open spec fn window_cutoff(w: DiagnosticWindow, now: u64) -> Option<u64> {
    match window_secs(w) {
        Some(secs) => Some((if now >= secs {
            now - secs
        } else {
            0
        }) as u64),
        None => None,
    }
}

/// The "24h" window reaches back exactly one day and the "7d" window exactly
/// seven (clamped at the epoch): the seven-day cutoff lies six days before
/// the one-day cutoff, and "all" has no cutoff.
pub proof fn law_window_spans(now: u64)
    ensures
        window_cutoff(DiagnosticWindow::Hours24, now) == Some(
            (if now >= 24 * 3600 {
                now - 24 * 3600
            } else {
                0
            }) as u64,
        ),
        window_cutoff(DiagnosticWindow::Days7, now) == Some(
            (if now >= 7 * 24 * 3600 {
                now - 7 * 24 * 3600
            } else {
                0
            }) as u64,
        ),
        now >= 7 * 24 * 3600 ==> window_cutoff(DiagnosticWindow::Hours24, now)->0 - window_cutoff(
            DiagnosticWindow::Days7,
            now,
        )->0 == 6 * 24 * 3600,
        window_cutoff(DiagnosticWindow::All, now) is None,
{
}

impl DiagnosticWindow {
    /// "24h" and "7d" name the short windows; anything else means all.
    pub fn parse(raw: &str) -> (r: DiagnosticWindow)
        ensures
            r == window_of(raw@),
    {
        if text::str_eq(raw, "24h") {
            DiagnosticWindow::Hours24
        } else if text::str_eq(raw, "7d") {
            DiagnosticWindow::Days7
        } else {
            DiagnosticWindow::All
        }
    }

    pub fn as_str(self) -> (r: &'static str)
        ensures
            window_of(r@) == self,
            r@ == match self {
                DiagnosticWindow::Hours24 => "24h"@,
                DiagnosticWindow::Days7 => "7d"@,
                DiagnosticWindow::All => "all"@,
            },
    {
        proof {
            reveal_strlit("24h");
            reveal_strlit("7d");
            reveal_strlit("all");
            assert("all"@[0] != "24h"@[0]);
            assert("7d"@.len() != "24h"@.len());
        }
        match self {
            DiagnosticWindow::Hours24 => "24h",
            DiagnosticWindow::Days7 => "7d",
            DiagnosticWindow::All => "all",
        }
    }

    /// The earliest Unix time inside the window when the clock reads `now`
    /// (never below zero); `None` when the window is unbounded.
    pub fn cutoff_from(self, now: u64) -> (r: Option<u64>)
        ensures
            r == window_cutoff(self, now),
    {
        match self {
            DiagnosticWindow::Hours24 => Some(now.saturating_sub(86400)),
            DiagnosticWindow::Days7 => Some(now.saturating_sub(604800)),
            DiagnosticWindow::All => None,
        }
    }

    /// The cutoff for the current time (see [`DiagnosticWindow::cutoff_from`]).
    pub fn cutoff_unix_secs(self) -> (r: Option<u64>)
        ensures
            exists|now: u64| r == #[trigger] window_cutoff(self, now),
    {
        let (now, _) = crate::eval::unix_now();
        self.cutoff_from(now)
    }
}

/// The report id of a package: "KT-" and a session id.
pub fn report_id_from(session_id: &str) -> (r: String)
    ensures
        r@ == "KT-"@ + session_id@,
{
    let mut r = owned("KT-");
    push_str(&mut r, session_id);
    r
}

// ---------- log lines ----------

/// The Unix seconds at the start of a log line `[1757230000.123] ...`: the
/// text between the leading '[' and the first ']' (or the end), up to its
/// first '.', parsed as `u64`.
pub open spec fn log_epoch(line: Seq<char>) -> Option<nat> {
    if line.len() == 0 || line[0] != '[' {
        None
    } else {
        let ts = text::until_char(line.drop_first(), ']');
        text::parse_unsigned(text::until_char(ts, '.'), u64::MAX as nat)
    }
}

pub fn log_epoch_secs(line: &str) -> (r: Option<u64>)
    ensures
        match log_epoch(line@) {
            Some(v) => r == Some(v as u64),
            None => r.is_none(),
        },
{
    let cs = chars_of(line);
    if cs.len() == 0 || cs[0] != '[' {
        return None;
    }
    let rest = slice_to_vec(cs.as_slice(), 1, cs.len());
    assert(rest@ =~= line@.drop_first());
    let ts = until_char_exec(rest.as_slice(), ']');
    let head = until_char_exec(ts.as_slice(), '.');
    text::parse_unsigned_chars(head.as_slice(), u64::MAX)
}

/// Backslashes turned into slashes.
pub open spec fn slashes(s: Seq<char>) -> Seq<char> {
    Seq::new(
        s.len(),
        |i: int|
            if s[i] == '\\' {
                '/'
            } else {
                s[i]
            },
    )
}

fn slashes_exec(s: &[char]) -> (r: Vec<char>)
    ensures
        r@ == slashes(s@),
{
    let mut r: Vec<char> = Vec::new();
    let mut i: usize = 0;
    while i < s.len()
        invariant
            i <= s.len(),
            r@ == slashes(s@.take(i as int)),
        decreases s.len() - i,
    {
        let c = s[i];
        r.push(
            if c == '\\' {
                '/'
            } else {
                c
            },
        );
        assert(r@ =~= slashes(s@.take(i + 1)));
        i += 1;
    }
    assert(s@.take(s@.len() as int) =~= s@);
    r
}

/// A log line with the home directory hidden: with a home directory known,
/// backslashes become slashes in both and the home path becomes
/// `%USERPROFILE%`; then at most 2000 characters are kept.
pub open spec fn home_redacted(input: Seq<char>, home: Option<Seq<char>>) -> Seq<char> {
    match home {
        None => text::take_chars(input, 2000),
        Some(h) => text::take_chars(
            text::replace_all(slashes(input), slashes(h), "%USERPROFILE%"@),
            2000,
        ),
    }
}

fn take_exec(v: Vec<char>, n: usize) -> (r: Vec<char>)
    ensures
        r@ == text::take_chars(v@, n as nat),
{
    if v.len() <= n {
        v
    } else {
        slice_to_vec(v.as_slice(), 0, n)
    }
}

/// Hides the home directory in a line (see [`home_redacted`]).
pub fn redact_home_with(input: &str, home: Option<&str>) -> (r: Vec<char>)
    ensures
        r@ == home_redacted(input@, match home {
            Some(h) => Some(h@),
            None => None,
        }),
{
    let cs = chars_of(input);
    match home {
        None => take_exec(cs, 2000),
        Some(h) => {
            let hs = chars_of(h);
            let a = slashes_exec(cs.as_slice());
            let b = slashes_exec(hs.as_slice());
            let marker = chars_of("%USERPROFILE%");
            let replaced = replace_all_exec(a.as_slice(), b.as_slice(), marker.as_slice());
            take_exec(replaced, 2000)
        },
    }
}

/// The user's home directory as text (`dirs::home_dir`, converted lossily).
/// It depends on the machine and its environment, so nothing is stated of it.
#[verifier::external_body]
fn home_dir_text() -> (r: Option<String>) {
    dirs::home_dir().map(|p| p.to_string_lossy().into_owned())
}

/// Hides the current user's home directory in a line.
pub fn redact_home(input: &str) -> (r: String)
    ensures
        exists|home: Option<Seq<char>>| r@ == home_redacted(input@, home),
{
    let home = home_dir_text();
    let r = match &home {
        Some(h) => redact_home_with(input, Some(h.as_str())),
        None => redact_home_with(input, None),
    };
    string_of(r.as_slice())
}

/// The line cut after a failure marker: from the first ": " after the marker
/// on, the native details are replaced; `None` when the marker or the ": " is
/// missing.
pub open spec fn cut_details(v: Seq<char>, marker: Seq<char>) -> Option<Seq<char>> {
    let mi = text::find_index(v, marker);
    if mi < 0 {
        None
    } else {
        let off = text::find_index(v.skip(mi), ": "@);
        if off < 0 {
            None
        } else {
            Some(v.take(mi + off) + ": [details redacted]"@)
        }
    }
}

/// The details of a VAD failure are dropped, its stage kept.
pub open spec fn details_redacted(v: Seq<char>) -> Seq<char> {
    match cut_details(v, "VAD 初始化失败"@) {
        Some(x) => x,
        None => match cut_details(v, "VAD 推理失败"@) {
            Some(x) => x,
            None => v,
        },
    }
}

/// A state-change line keeps the new state's name and loses its payload.
pub open spec fn state_redacted(v: Seq<char>) -> Seq<char> {
    let i = text::find_index(v, "state -> "@);
    if i < 0 {
        v
    } else {
        let state = match text::first_word(v.skip(i + 9)) {
            Some(w) => w,
            None => "unknown"@,
        };
        v.take(i) + "state -> "@ + state + " [payload redacted]"@
    }
}

/// A log line as it goes into a package.
pub open spec fn line_redacted(line: Seq<char>, home: Option<Seq<char>>) -> Seq<char> {
    state_redacted(details_redacted(home_redacted(line, home)))
}

fn cut_details_exec(v: &[char], marker: &str) -> (r: Option<Vec<char>>)
    ensures
        match r {
            Some(x) => cut_details(v@, marker@) == Some(x@),
            None => cut_details(v@, marker@).is_none(),
        },
{
    let m = chars_of(marker);
    match find_index_exec(v, m.as_slice()) {
        None => None,
        Some(mi) => {
            let tail = slice_to_vec(v, mi, v.len());
            assert(tail@ =~= v@.skip(mi as int));
            let sep = chars_of(": ");
            match find_index_exec(tail.as_slice(), sep.as_slice()) {
                None => None,
                Some(off) => {
                    proof {
                        assert(mi + off <= v.len());
                    }
                    let mut out = slice_to_vec(v, 0, mi + off);
                    let add = chars_of(": [details redacted]");
                    push_all(&mut out, add.as_slice());
                    assert(v@.subrange(0, mi + off) =~= v@.take(mi + off));
                    Some(out)
                },
            }
        },
    }
}

fn state_redacted_exec(v: Vec<char>) -> (r: Vec<char>)
    ensures
        r@ == state_redacted(v@),
{
    let pat = chars_of("state -> ");
    proof {
        reveal_strlit("state -> ");
    }
    match find_index_exec(v.as_slice(), pat.as_slice()) {
        None => v,
        Some(i) => {
            assert(pat@.len() == 9);
            assert(i + pat@.len() <= v@.len());
            let n = v.len();
            assert(i + 9 <= n);
            let start: usize = i + 9;
            let rest = slice_to_vec(v.as_slice(), start, n);
            assert(rest@ =~= v@.skip(i + 9));
            let state = match first_word_exec(rest.as_slice()) {
                Some(w) => w,
                None => chars_of("unknown"),
            };
            let mut out = slice_to_vec(v.as_slice(), 0, i);
            assert(v@.subrange(0, i as int) =~= v@.take(i as int));
            push_all(&mut out, pat.as_slice());
            push_all(&mut out, state.as_slice());
            let tail = chars_of(" [payload redacted]");
            push_all(&mut out, tail.as_slice());
            out
        },
    }
}

/// Redacts one log line (see [`line_redacted`]) given the home directory.
pub fn redact_log_line_with(line: &str, home: Option<&str>) -> (r: String)
    ensures
        r@ == line_redacted(line@, match home {
            Some(h) => Some(h@),
            None => None,
        }),
{
    let v = redact_home_with(line, home);
    let w = match cut_details_exec(v.as_slice(), "VAD 初始化失败") {
        Some(x) => x,
        None => match cut_details_exec(v.as_slice(), "VAD 推理失败") {
            Some(x) => x,
            None => v,
        },
    };
    let r = state_redacted_exec(w);
    string_of(r.as_slice())
}

/// Redacts one log line for the current user.
pub fn redact_log_line(line: &str) -> (r: String)
    ensures
        exists|home: Option<Seq<char>>| r@ == line_redacted(line@, home),
{
    let home = home_dir_text();
    match &home {
        Some(h) => redact_log_line_with(line, Some(h.as_str())),
        None => redact_log_line_with(line, None),
    }
}

// ---------- error codes ----------

/// The error code of an error message, by keywords (ASCII case ignored for
/// the Latin ones). A blocked injection is tested first: its message may also
/// mention injection.
pub open spec fn error_code(e: Seq<char>) -> Seq<char> {
    let lower = text::lower_seq(e);
    if text::contains_seq(e, "拦截"@) || text::contains_seq(lower, "sendinput"@)
        || text::contains_seq(lower, "blocked"@) {
        "INJECTION_BLOCKED"@
    } else if text::contains_seq(e, "管理员"@) || text::contains_seq(e, "提权"@)
        || text::contains_seq(lower, "elevation"@) {
        "ELEVATION_REQUIRED"@
    } else if text::contains_seq(e, "热键"@) || text::contains_seq(lower, "hotkey"@) {
        "HOTKEY_FAILED"@
    } else if text::contains_seq(e, "麦克风"@) || text::contains_seq(e, "录音"@)
        || text::contains_seq(lower, "audio"@) {
        "AUDIO_FAILED"@
    } else if text::contains_seq(lower, "vad"@) || text::contains_seq(e, "静音检测"@) {
        "VAD_FAILED"@
    } else if text::contains_seq(e, "模型"@) || text::contains_seq(e, "引擎"@)
        || text::contains_seq(lower, "model"@) {
        "MODEL_OR_ENGINE_FAILED"@
    } else if text::contains_seq(e, "发送"@) || text::contains_seq(e, "注入"@)
        || text::contains_seq(lower, "inject"@) {
        "INJECTION_FAILED"@
    } else {
        "UNKNOWN_ERROR"@
    }
}

/// Classifies an error message (see [`error_code`]).
pub fn classify_error(error: &str) -> (r: String)
    ensures
        r@ == error_code(error@),
{
    let e = chars_of(error);
    let lower = lower_chars(e.as_slice());
    let blocked = contains_lit(e.as_slice(), "拦截");
    let blocked = blocked || contains_lit(lower.as_slice(), "sendinput");
    let blocked = blocked || contains_lit(lower.as_slice(), "blocked");
    if blocked {
        return owned("INJECTION_BLOCKED");
    }
    let elevation = contains_lit(e.as_slice(), "管理员");
    let elevation = elevation || contains_lit(e.as_slice(), "提权");
    let elevation = elevation || contains_lit(lower.as_slice(), "elevation");
    if elevation {
        return owned("ELEVATION_REQUIRED");
    }
    let hotkey = contains_lit(e.as_slice(), "热键");
    let hotkey = hotkey || contains_lit(lower.as_slice(), "hotkey");
    if hotkey {
        return owned("HOTKEY_FAILED");
    }
    let audio = contains_lit(e.as_slice(), "麦克风");
    let audio = audio || contains_lit(e.as_slice(), "录音");
    let audio = audio || contains_lit(lower.as_slice(), "audio");
    if audio {
        return owned("AUDIO_FAILED");
    }
    let vad = contains_lit(lower.as_slice(), "vad");
    let vad = vad || contains_lit(e.as_slice(), "静音检测");
    if vad {
        return owned("VAD_FAILED");
    }
    let model = contains_lit(e.as_slice(), "模型");
    let model = model || contains_lit(e.as_slice(), "引擎");
    let model = model || contains_lit(lower.as_slice(), "model");
    if model {
        return owned("MODEL_OR_ENGINE_FAILED");
    }
    let inject = contains_lit(e.as_slice(), "发送");
    let inject = inject || contains_lit(e.as_slice(), "注入");
    let inject = inject || contains_lit(lower.as_slice(), "inject");
    if inject {
        return owned("INJECTION_FAILED");
    }
    owned("UNKNOWN_ERROR")
}

// ---------- package text ----------

pub open spec fn readme_head() -> Seq<char> {
    "Kotone 脱敏诊断包\n报告编号："@
}

pub open spec fn readme_body() -> Seq<char> {
    "\n\n本包不包含录音、识别文本或热词内容。\nhistory-metadata.json 只保留耗时、结果、错误码和文本长度。\nruntime.json 包含 VAD 编译、模型就绪、独占全屏、前台/游戏 PID、\n具名热键和修饰键/CapsLock 快照。\nevents.csv 可由 PM4Py 直接读取；前三列分别为 case id、activity、timestamp。\n末列 detail 只含 VK 名、overlay 原因、SendInput 计数，不含识别文本。\n"@
}

/// The README of a package: what it holds and what it leaves out.
pub fn package_readme(report_id: &str) -> (r: String)
    ensures
        r@ == readme_head() + report_id@ + readme_body(),
{
    let mut r = owned("Kotone 脱敏诊断包\n报告编号：");
    push_str(&mut r, report_id);
    push_str(
        &mut r,
        "\n\n本包不包含录音、识别文本或热词内容。\nhistory-metadata.json 只保留耗时、结果、错误码和文本长度。\nruntime.json 包含 VAD 编译、模型就绪、独占全屏、前台/游戏 PID、\n具名热键和修饰键/CapsLock 快照。\nevents.csv 可由 PM4Py 直接读取；前三列分别为 case id、activity、timestamp。\n末列 detail 只含 VK 名、overlay 原因、SendInput 计数，不含识别文本。\n",
    );
    r
}

// ---------- the log put in a package ----------

/// A line without the carriage return that ended it.
pub open spec fn strip_cr(l: Seq<char>) -> Seq<char> {
    if l.len() > 0 && l.last() == '\r' {
        l.drop_last()
    } else {
        l
    }
}

/// The lines of a text as `str::lines` gives them: split at '\n', a '\r'
/// before a '\n' dropped, no empty line after a final '\n'.
pub open spec fn log_lines(s: Seq<char>) -> Seq<Seq<char>> {
    let p = text::split_char(s, '\n');
    let ended = Seq::new((p.len() - 1) as nat, |i: int| strip_cr(p[i]));
    if p.last().len() > 0 {
        ended.push(p.last())
    } else {
        ended
    }
}

/// A line stays when there is no cutoff, when it carries no time, or when
/// its time is not before the cutoff.
pub open spec fn keeps_line(l: Seq<char>, cutoff: Option<u64>) -> bool {
    match cutoff {
        None => true,
        Some(c) => match log_epoch(l) {
            Some(t) => t >= c,
            None => true,
        },
    }
}

/// The lines that stay, each redacted.
pub open spec fn kept_lines(
    ls: Seq<Seq<char>>,
    cutoff: Option<u64>,
    home: Option<Seq<char>>,
) -> Seq<Seq<char>>
    decreases ls.len(),
{
    if ls.len() == 0 {
        Seq::empty()
    } else {
        let prev = kept_lines(ls.drop_last(), cutoff, home);
        if keeps_line(ls.last(), cutoff) {
            prev.push(line_redacted(ls.last(), home))
        } else {
            prev
        }
    }
}

/// Lines joined by '\n'.
pub open spec fn join_lines(ls: Seq<Seq<char>>) -> Seq<char>
    decreases ls.len(),
{
    if ls.len() == 0 {
        Seq::empty()
    } else if ls.len() == 1 {
        ls[0]
    } else {
        join_lines(ls.drop_last()) + seq!['\n'] + ls.last()
    }
}

/// The log text put in a package: the lines within the window, redacted.
pub open spec fn sanitized_log(raw: Seq<char>, cutoff: Option<u64>, home: Option<Seq<char>>) -> Seq<
    char,
> {
    join_lines(kept_lines(log_lines(raw), cutoff, home))
}

pub open spec fn char_views(v: Seq<Vec<char>>) -> Seq<Seq<char>> {
    Seq::new(v.len(), |i: int| v[i]@)
}

fn split_log_lines(cs: &Vec<char>) -> (r: Vec<Vec<char>>)
    ensures
        char_views(r@) == log_lines(cs@),
{
    let mut out: Vec<Vec<char>> = Vec::new();
    let mut cur: Vec<char> = Vec::new();
    let ghost mut done: Seq<Seq<char>> = Seq::empty();
    let mut i: usize = 0;
    assert(cs@.take(0) =~= Seq::<char>::empty());
    assert(cur@ =~= Seq::<char>::empty());
    while i < cs.len()
        invariant
            i <= cs.len(),
            text::split_char(cs@.take(i as int), '\n') == done.push(cur@),
            char_views(out@) == Seq::new(done.len(), |j: int| strip_cr(done[j])),
        decreases cs.len() - i,
    {
        let c = cs[i];
        assert(cs@.take(i + 1).drop_last() =~= cs@.take(i as int));
        assert(cs@.take(i + 1).last() == c);
        if c == '\n' {
            let n = cur.len();
            let line = if n > 0 && cur[n - 1] == '\r' {
                slice_to_vec(cur.as_slice(), 0, n - 1)
            } else {
                slice_to_vec(cur.as_slice(), 0, n)
            };
            proof {
                assert(cur@.subrange(0, n as int) =~= cur@);
                if n > 0 {
                    assert(cur@.subrange(0, n - 1) =~= cur@.drop_last());
                }
                assert(line@ == strip_cr(cur@));
                let old_out = char_views(out@);
                assert(char_views(out@.push(line)) =~= old_out.push(line@));
                let nd = done.push(cur@);
                assert(Seq::new(nd.len(), |j: int| strip_cr(nd[j])) =~= Seq::new(
                    done.len(),
                    |j: int| strip_cr(done[j]),
                ).push(strip_cr(cur@)));
                done = nd;
            }
            out.push(line);
            cur = Vec::new();
            assert(cur@ =~= Seq::<char>::empty());
        } else {
            proof {
                let prev = done.push(cur@);
                assert(prev.update(prev.len() - 1, prev.last().push(c)) =~= done.push(
                    cur@.push(c),
                ));
            }
            cur.push(c);
        }
        i += 1;
    }
    assert(cs@.take(cs.len() as int) =~= cs@);
    proof {
        let p = done.push(cur@);
        assert(p.last() == cur@);
        assert(Seq::new((p.len() - 1) as nat, |k: int| strip_cr(p[k])) =~= Seq::new(
            done.len(),
            |j: int| strip_cr(done[j]),
        ));
    }
    if cur.len() > 0 {
        proof {
            assert(char_views(out@.push(cur)) =~= char_views(out@).push(cur@));
        }
        out.push(cur);
    }
    out
}

/// The log text put in a package, given the home directory: the lines of
/// `raw` within the window from `cutoff` (Unix seconds), each redacted,
/// joined by '\n'.
pub fn sanitized_log_with(raw: &str, cutoff: Option<u64>, home: Option<&str>) -> (r: String)
    ensures
        r@ == sanitized_log(raw@, cutoff, match home {
            Some(h) => Some(h@),
            None => None,
        }),
{
    let ghost hv = match home {
        Some(h) => Some(h@),
        None => None::<Seq<char>>,
    };
    let cs = chars_of(raw);
    let lines = split_log_lines(&cs);
    let ghost ls = char_views(lines@);
    let mut out = String::new();
    let mut any = false;
    let mut i: usize = 0;
    while i < lines.len()
        invariant
            i <= lines.len(),
            ls == char_views(lines@),
            hv == (match home {
                Some(h) => Some(h@),
                None => None::<Seq<char>>,
            }),
            any == (kept_lines(ls.take(i as int), cutoff, hv).len() > 0),
            out@ == join_lines(kept_lines(ls.take(i as int), cutoff, hv)),
        decreases lines.len() - i,
    {
        let ghost prev = kept_lines(ls.take(i as int), cutoff, hv);
        assert(ls.take(i + 1).drop_last() =~= ls.take(i as int));
        assert(ls.take(i + 1).last() == ls[i as int]);
        let line = string_of(lines[i].as_slice());
        assert(line@ == ls[i as int]);
        let keep = match cutoff {
            None => true,
            Some(c) => match log_epoch_secs(line.as_str()) {
                Some(t) => t >= c,
                None => true,
            },
        };
        assert(keep == keeps_line(ls[i as int], cutoff));
        if keep {
            let red = redact_log_line_with(line.as_str(), home);
            proof {
                let next = prev.push(red@);
                assert(next.drop_last() =~= prev);
                assert(next.last() == red@);
            }
            if any {
                text::push_char(&mut out, '\n');
            }
            push_str(&mut out, red.as_str());
            any = true;
        }
        i += 1;
    }
    assert(ls.take(lines.len() as int) =~= ls);
    out
}

/// The log text put in a package for the current user.
pub fn sanitized_log_text(raw: &str, cutoff: Option<u64>) -> (r: String)
    ensures
        exists|home: Option<Seq<char>>| r@ == sanitized_log(raw@, cutoff, home),
{
    let home = home_dir_text();
    match &home {
        Some(h) => sanitized_log_with(raw, cutoff, Some(h.as_str())),
        None => sanitized_log_with(raw, cutoff, None),
    }
}

// ---------- history metadata ----------

/// What a package keeps of a history record: timings, outcome, error code
/// and the length of the text, never the text itself.
#[derive(Debug, Clone, PartialEq, Eq)]
pub struct HistoryMetadata {
    pub session_id: String,
    pub ts: String,
    pub engine_id: String,
    pub profile_id: Option<String>,
    pub audio_ms: u64,
    pub first_partial_ms: Option<u64>,
    pub finalize_latency_ms: Option<u64>,
    pub outcome: HistoryOutcome,
    pub error_code: Option<String>,
    pub had_text: bool,
    pub text_chars: usize,
    pub had_audio: bool,
}

fn copy_opt(s: &Option<String>) -> (r: Option<String>)
    ensures
        match (r, *s) {
            (Some(a), Some(b)) => a@ == b@,
            (None, None) => true,
            _ => false,
        },
{
    match s {
        Some(x) => Some(x.clone()),
        None => None,
    }
}

/// The metadata of one record.
pub fn history_metadata(record: &HistoryRecord) -> (r: HistoryMetadata)
    ensures
        r.session_id@ == record.session_id@,
        r.ts@ == record.ts@,
        r.engine_id@ == record.engine_id@,
        match (r.profile_id, record.profile_id) {
            (Some(a), Some(b)) => a@ == b@,
            (None, None) => true,
            _ => false,
        },
        r.audio_ms == record.audio_ms,
        r.first_partial_ms == record.first_partial_ms,
        r.finalize_latency_ms == record.finalize_latency_ms,
        r.outcome == record.outcome,
        match (r.error_code, record.error) {
            (Some(c), Some(e)) => c@ == error_code(e@),
            (None, None) => true,
            _ => false,
        },
        r.had_text == (text::trim(record.final_text@).len() > 0),
        r.text_chars == record.final_text@.len(),
        r.had_audio == record.audio_file is Some,
{
    let error_code = match &record.error {
        Some(e) => Some(classify_error(e.as_str())),
        None => None,
    };
    let text_chars = chars_of(record.final_text.as_str()).len();
    HistoryMetadata {
        session_id: record.session_id.clone(),
        ts: record.ts.clone(),
        engine_id: record.engine_id.clone(),
        profile_id: copy_opt(&record.profile_id),
        audio_ms: record.audio_ms,
        first_partial_ms: record.first_partial_ms,
        finalize_latency_ms: record.finalize_latency_ms,
        outcome: record.outcome,
        error_code,
        had_text: !text::is_blank(record.final_text.as_str()),
        text_chars,
        had_audio: record.audio_file.is_some(),
    }
}

/// The metadata of the first `MAX_HISTORY_RECORDS` records (those already
/// within the package's window), in order.
pub fn history_metadata_list(records: &[HistoryRecord]) -> (r: Vec<HistoryMetadata>)
    ensures
        r@.len() == if records@.len() < MAX_HISTORY_RECORDS {
            records@.len()
        } else {
            MAX_HISTORY_RECORDS as nat
        },
        forall|i: int|
            0 <= i < r@.len() ==> (#[trigger] r@[i]).session_id@ == records@[i].session_id@
                && r@[i].ts@ == records@[i].ts@ && r@[i].outcome == records@[i].outcome
                && r@[i].had_text == (text::trim(records@[i].final_text@).len() > 0)
                && r@[i].text_chars == records@[i].final_text@.len(),
{
    let n = if records.len() < MAX_HISTORY_RECORDS {
        records.len()
    } else {
        MAX_HISTORY_RECORDS
    };
    let mut out: Vec<HistoryMetadata> = Vec::new();
    let mut i: usize = 0;
    while i < n
        invariant
            n <= records.len(),
            i <= n,
            out@.len() == i,
            forall|j: int|
                0 <= j < i ==> (#[trigger] out@[j]).session_id@ == records@[j].session_id@
                    && out@[j].ts@ == records@[j].ts@ && out@[j].outcome == records@[j].outcome
                    && out@[j].had_text == (text::trim(records@[j].final_text@).len() > 0)
                    && out@[j].text_chars == records@[j].final_text@.len(),
        decreases n - i,
    {
        out.push(history_metadata(&records[i]));
        i += 1;
    }
    out
}

/// The manifest of a package: its layout version, identity and the promise
/// that it holds no recognition text, audio or hotwords.
#[derive(Debug, Clone, PartialEq, Eq)]
pub struct PackageManifest {
    pub schema_version: u32,
    pub report_id: String,
    pub generated_at: String,
    pub app_version: String,
    pub contains_recognition_text: bool,
    pub contains_audio: bool,
    pub contains_hotwords: bool,
}

pub fn package_manifest(report_id: &str, generated_at: &str, app_version: &str) -> (r:
    PackageManifest)
    ensures
        r.schema_version == PACKAGE_SCHEMA_VERSION,
        r.report_id@ == report_id@,
        r.generated_at@ == generated_at@,
        r.app_version@ == app_version@,
        !r.contains_recognition_text,
        !r.contains_audio,
        !r.contains_hotwords,
{
    PackageManifest {
        schema_version: PACKAGE_SCHEMA_VERSION,
        report_id: owned(report_id),
        generated_at: owned(generated_at),
        app_version: owned(app_version),
        contains_recognition_text: false,
        contains_audio: false,
        contains_hotwords: false,
    }
}

/// What `Path::extension` gives for a path, as text.
pub uninterp spec fn path_extension(path: Seq<char>) -> Option<Seq<char>>;

/// What `Path::with_extension` gives for a path and an extension, as text.
pub uninterp spec fn path_with_extension(path: Seq<char>, ext: Seq<char>) -> Seq<char>;

/// `Path::extension` of a path given as text (an extension of a text path
/// is text, so the conversion back loses nothing).
#[verifier::external_body]
pub(crate) fn extension_of(path: &str) -> (r: Option<String>)
    ensures
        match r {
            Some(e) => path_extension(path@) == Some(e@),
            None => path_extension(path@) is None,
        },
{
    std::path::Path::new(path).extension().and_then(|e| e.to_str()).map(|e| e.to_string())
}

/// `Path::with_extension` on a path given as text; an extension holding a
/// path separator (on which it panics) is not admitted.
#[verifier::external_body]
fn with_extension_of(path: &str, ext: &str) -> (r: String)
    requires
        !ext@.contains('/'),
        !ext@.contains('\\'),
    ensures
        r@ == path_with_extension(path@, ext@),
{
    std::path::Path::new(path).with_extension(ext).to_string_lossy().into_owned()
}

/// The file a package is written to: the chosen path when it already ends in
/// `.zip`, else that path with its extension set to `zip`.
pub fn with_zip_extension(path: &str) -> (r: String)
    ensures
        r@ == if path_extension(path@) == Some("zip"@) {
            path@
        } else {
            path_with_extension(path@, "zip"@)
        },
{
    proof {
        reveal_strlit("zip");
        assert(!"zip"@.contains('/') && !"zip"@.contains('\\')) by {
            assert("zip"@ =~= seq!['z', 'i', 'p']);
        }
    }
    match extension_of(path) {
        Some(e) => if str_eq(e.as_str(), "zip") {
            owned(path)
        } else {
            with_extension_of(path, "zip")
        },
        None => with_extension_of(path, "zip"),
    }
}

} // verus!
