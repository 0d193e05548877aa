//! Engine evaluation: recorded sessions, UTC time stamps and the character
//! error rate's edit distance.
//!
//! Recordings live under `~/.kotone/eval/` as `<sessionId>.json` plus a wav
//! file; the application reads and writes them. This module holds the session
//! records, the calendar arithmetic behind the time stamps and session ids,
//! the session-id check that guards file paths, and the edit distance.

use vstd::prelude::*;
use crate::text;
use crate::text::{chars_of, owned, push_padded, push_str};

verus! {

/// Sessions kept on disk; older ones are pruned with their audio.
pub const MAX_SESSIONS: usize = 200;

/// One partial result on the session's time line.
#[derive(Debug, Clone)]
pub struct PartialRecord {
    /// Milliseconds since audio started flowing.
    pub t: u64,
    pub text: String,
}

/// A recorded evaluation session.
#[derive(Debug, Clone)]
pub struct EvalSession {
    pub session_id: String,
    pub engine_id: String,
    pub started_at: String,
    pub audio_ms: u64,
    /// `None` for engines that stream no partial result.
    pub first_partial_ms: Option<u64>,
    pub final_ms: u64,
    pub partials: Vec<PartialRecord>,
    pub final_text: String,
    /// The correct text, filled in by hand, for the error rate.
    pub human_label: Option<String>,
}

// ---------- calendar ----------

/// Proleptic Gregorian (year, month, day) of the day `z` days after
/// 1970-01-01, by the era arithmetic of H. Hinnant's `civil_from_days`
/// (eras of 400 years starting on March 1st; `/` is floor division here).
pub open spec fn civil(z: int) -> (int, int, int) {
    let zz = z + 719468;
    let era = zz / 146097;
    let doe = zz - era * 146097;
    let yoe = (doe - doe / 1460 + doe / 36524 - doe / 146096) / 365;
    let y = yoe + era * 400;
    let doy = doe - (365 * yoe + yoe / 4 - yoe / 100);
    let mp = (5 * doy + 2) / 153;
    let d = doy - (153 * mp + 2) / 5 + 1;
    let m = if mp < 10 {
        mp + 3
    } else {
        mp - 9
    };
    (if m <= 2 {
        y + 1
    } else {
        y
    }, m, d)
}

/// Days since the epoch of a proleptic Gregorian date (the inverse of
/// [`civil`] on valid dates).
pub open spec fn days_from_civil(y: int, m: int, d: int) -> int {
    let y2 = if m <= 2 {
        y - 1
    } else {
        y
    };
    let era = y2 / 400;
    let yoe = y2 - era * 400;
    let mp = if m > 2 {
        m - 3
    } else {
        m + 9
    };
    let doy = (153 * mp + 2) / 5 + d - 1;
    let doe = yoe * 365 + yoe / 4 - yoe / 100 + doy;
    era * 146097 + doe - 719468
}

proof fn lemma_era_year(doe: u64, f: u64, yoe: u64)
    by (bit_vector)
    requires
        doe < 146097,
        f + doe / 1460 + doe / 146096 == doe + doe / 36524,
        yoe == f / 365,
    ensures
        yoe < 400,
        365 * yoe + yoe / 4 <= doe + yoe / 100,
        doe + yoe / 100 <= 365 * yoe + yoe / 4 + 365,
{
}

proof fn lemma_month_day(doy: u64, t: u64, mp: u64)
    by (bit_vector)
    requires
        doy <= 365,
        t == 5 * doy + 2,
        mp == t / 153,
    ensures
        mp <= 11,
        153 * mp + 2 <= 5 * doy + 4,
        5 * doy <= 153 * mp + 152,
{
}

/// `civil` turns every day count into a date with a month in 1..=12 and a day
/// in 1..=31, and `days_from_civil` turns that date back into the same count.
pub proof fn law_civil_roundtrip(z: int)
    ensures
        1 <= civil(z).1 <= 12,
        1 <= civil(z).2 <= 31,
        days_from_civil(civil(z).0, civil(z).1, civil(z).2) == z,
{
    let zz = z + 719468;
    let era = zz / 146097;
    let doe = zz - era * 146097;
    assert(0 <= doe < 146097);
    let f = doe - doe / 1460 + doe / 36524 - doe / 146096;
    assert(f >= 0);
    let yoe = f / 365;
    lemma_era_year(doe as u64, f as u64, yoe as u64);
    let doy = doe - (365 * yoe + yoe / 4 - yoe / 100);
    assert(0 <= doy <= 365);
    let mp = (5 * doy + 2) / 153;
    lemma_month_day(doy as u64, (5 * doy + 2) as u64, mp as u64);
    let d = doy - (153 * mp + 2) / 5 + 1;
    let m = if mp < 10 {
        mp + 3
    } else {
        mp - 9
    };
    let y = yoe + era * 400;
    let yy = if m <= 2 {
        y + 1
    } else {
        y
    };
    assert(civil(z) == (yy, m, d));
    let y2 = if m <= 2 {
        yy - 1
    } else {
        yy
    };
    assert(y2 == yoe + era * 400);
    assert(y2 / 400 == era);
    let mp2 = if m > 2 {
        m - 3
    } else {
        m + 9
    };
    assert(mp2 == mp);
}

/// The proleptic Gregorian date `z` days after 1970-01-01 (negative `z`
/// counts back from it).
pub fn civil_from_days(z: i64) -> (r: (i64, u32, u32))
    requires
        -0x1000_0000_0000_0000 <= z <= 0x1000_0000_0000_0000,
    ensures
        (r.0 as int, r.1 as int, r.2 as int) == civil(z as int),
        1 <= r.1 <= 12,
        1 <= r.2 <= 31,
        days_from_civil(r.0 as int, r.1 as int, r.2 as int) == z,
        z >= 0 ==> r.0 >= 0,
{
    proof {
        law_civil_roundtrip(z as int);
    }
    let zz: i64 = z + 719468;
    let era: i64 = if zz >= 0 {
        zz / 146097
    } else {
        -((146096 - zz) / 146097)
    };
    proof {
        if zz < 0 {
            let q = (146096 - zz) / 146097;
            assert(-q == zz as int / 146097) by (nonlinear_arith)
                requires
                    zz < 0,
                    q == (146096 - zz) / 146097,
            ;
        }
    }
    let doe: i64 = zz - era * 146097;
    let f: i64 = doe - doe / 1460 + doe / 36524 - doe / 146096;
    let yoe: i64 = f / 365;
    proof {
        lemma_era_year(doe as u64, f as u64, yoe as u64);
    }
    let y: i64 = yoe + era * 400;
    let doy: i64 = doe - (365 * yoe + yoe / 4 - yoe / 100);
    let mp: i64 = (5 * doy + 2) / 153;
    proof {
        lemma_month_day(doy as u64, (5 * doy + 2) as u64, mp as u64);
    }
    let d: i64 = doy - (153 * mp + 2) / 5 + 1;
    let m: i64 = if mp < 10 {
        mp + 3
    } else {
        mp - 9
    };
    let year: i64 = if m <= 2 {
        y + 1
    } else {
        y
    };
    (year, m as u32, d as u32)
}

// ---------- UTC time stamps ----------

pub open spec fn pad2(n: int) -> Seq<char> {
    text::zero_pad(text::dec(n as nat), 2)
}

pub open spec fn pad3(n: int) -> Seq<char> {
    text::zero_pad(text::dec(n as nat), 3)
}

pub open spec fn pad4(n: int) -> Seq<char> {
    text::zero_pad(text::dec(n as nat), 4)
}

/// `YYYY-MM-DD` of a Unix time.
pub open spec fn date_part(secs: nat, sep: Seq<char>) -> Seq<char> {
    let (y, m, d) = civil((secs / 86400) as int);
    pad4(y) + sep + pad2(m) + sep + pad2(d)
}

/// `HH:MM:SS` of a Unix time.
pub open spec fn time_part(secs: nat, sep: Seq<char>) -> Seq<char> {
    let s = (secs % 86400) as int;
    pad2(s / 3600) + sep + pad2(s % 3600 / 60) + sep + pad2(s % 60)
}

/// ISO 8601 in UTC: `YYYY-MM-DDTHH:MM:SSZ`.
pub open spec fn iso_stamp(secs: nat) -> Seq<char> {
    date_part(secs, "-"@) + "T"@ + time_part(secs, ":"@) + "Z"@
}

/// ISO 8601 in UTC with milliseconds: `YYYY-MM-DDTHH:MM:SS.mmmZ`.
pub open spec fn iso_millis_stamp(secs: nat, millis: nat) -> Seq<char> {
    date_part(secs, "-"@) + "T"@ + time_part(secs, ":"@) + "."@ + pad3(millis as int) + "Z"@
}

/// Compact UTC stamp: `YYYYMMDD-HHMMSS`.
pub open spec fn compact_stamp(secs: nat) -> Seq<char> {
    date_part(secs, Seq::empty()) + "-"@ + time_part(secs, Seq::empty())
}

/// A session id: `YYYYMMDD-HHMMSS-mmm` (UTC, milliseconds last).
pub open spec fn session_id_stamp(secs: nat, millis: nat) -> Seq<char> {
    compact_stamp(secs) + "-"@ + pad3(millis as int)
}

fn push_date(out: &mut String, secs: u64, sep: &str)
    ensures
        final(out)@ == old(out)@ + date_part(secs as nat, sep@),
{
    let days: i64 = (secs / 86400) as i64;
    let (y, m, d) = civil_from_days(days);
    push_padded(out, y as u64, 4);
    push_str(out, sep);
    push_padded(out, m as u64, 2);
    push_str(out, sep);
    push_padded(out, d as u64, 2);
    proof {
        let (cy, cm, cd) = civil((secs as nat / 86400) as int);
        assert(y as u64 as nat == cy as nat);
        assert(old(out)@ + pad4(cy) + sep@ + pad2(cm) + sep@ + pad2(cd) =~= old(out)@ + date_part(
            secs as nat,
            sep@,
        ));
    }
}

fn push_time(out: &mut String, secs: u64, sep: &str)
    ensures
        final(out)@ == old(out)@ + time_part(secs as nat, sep@),
{
    let s = secs % 86400;
    push_padded(out, s / 3600, 2);
    push_str(out, sep);
    push_padded(out, s % 3600 / 60, 2);
    push_str(out, sep);
    push_padded(out, s % 60, 2);
    proof {
        let t = (secs as nat % 86400) as int;
        assert(old(out)@ + pad2(t / 3600) + sep@ + pad2(t % 3600 / 60) + sep@ + pad2(t % 60)
            =~= old(out)@ + time_part(secs as nat, sep@));
    }
}

/// `YYYY-MM-DDTHH:MM:SSZ` of a Unix time.
pub fn iso_from_unix(secs: u64) -> (r: String)
    ensures
        r@ == iso_stamp(secs as nat),
{
    let mut out = String::new();
    push_date(&mut out, secs, "-");
    push_str(&mut out, "T");
    push_time(&mut out, secs, ":");
    push_str(&mut out, "Z");
    proof {
        assert(out@ =~= iso_stamp(secs as nat));
    }
    out
}

/// `YYYY-MM-DDTHH:MM:SS.mmmZ` of a Unix time and its milliseconds.
pub fn iso_millis_from_unix(secs: u64, millis: u32) -> (r: String)
    ensures
        r@ == iso_millis_stamp(secs as nat, millis as nat),
{
    let mut out = String::new();
    push_date(&mut out, secs, "-");
    push_str(&mut out, "T");
    push_time(&mut out, secs, ":");
    push_str(&mut out, ".");
    push_padded(&mut out, millis as u64, 3);
    push_str(&mut out, "Z");
    proof {
        assert(out@ =~= iso_millis_stamp(secs as nat, millis as nat));
    }
    out
}

/// `YYYYMMDD-HHMMSS` of a Unix time.
pub fn compact_from_unix(secs: u64) -> (r: String)
    ensures
        r@ == compact_stamp(secs as nat),
{
    let mut out = String::new();
    push_date(&mut out, secs, "");
    push_str(&mut out, "-");
    push_time(&mut out, secs, "");
    proof {
        reveal_strlit("");
        assert(""@ =~= Seq::<char>::empty());
        assert(out@ =~= compact_stamp(secs as nat));
    }
    out
}

/// `YYYYMMDD-HHMMSS-mmm` of a Unix time and its milliseconds.
pub fn session_id_from_unix(secs: u64, millis: u32) -> (r: String)
    ensures
        r@ == session_id_stamp(secs as nat, millis as nat),
{
    let mut out = compact_from_unix(secs);
    push_str(&mut out, "-");
    push_padded(&mut out, millis as u64, 3);
    proof {
        assert(out@ =~= session_id_stamp(secs as nat, millis as nat));
    }
    out
}

#[verifier::external_type_specification]
#[verifier::external_body]
pub struct ExSystemTime(std::time::SystemTime);

/// `SystemTime::now`: the system clock; nothing can be said of its value.
#[verifier::external_body]
fn system_now() -> (r: std::time::SystemTime) {
    std::time::SystemTime::now()
}

/// `SystemTime::duration_since(UNIX_EPOCH)`: the time since the Unix epoch,
/// or `None` for a clock set before it (the error case).
#[verifier::external_body]
fn since_epoch(t: std::time::SystemTime) -> (r: Option<std::time::Duration>) {
    match t.duration_since(std::time::UNIX_EPOCH) {
        Ok(d) => Some(d),
        Err(_) => None,
    }
}

/// `Duration::as_secs`: the whole seconds.
#[verifier::external_body]
fn whole_secs(d: std::time::Duration) -> (r: u64) {
    d.as_secs()
}

/// `Duration::subsec_millis`: the milliseconds past the whole seconds,
/// always below one thousand (std documents it as a fraction of a second).
#[verifier::external_body]
fn millis_past(d: std::time::Duration) -> (r: u32)
    ensures
        r < 1000,
{
    d.subsec_millis()
}

/// The system clock as whole seconds since the Unix epoch and the
/// milliseconds past them; a clock set before the epoch reads as zero. What
/// it returns depends on the time, so nothing is stated of it but the range
/// of the milliseconds.
pub(crate) fn unix_now() -> (r: (u64, u32))
    ensures
        r.1 < 1000,
{
    match since_epoch(system_now()) {
        Some(since) => (whole_secs(since), millis_past(since)),
        None => (0, 0),
    }
}

/// The current time in ISO 8601 UTC (no local offset).
pub fn utc_now_iso() -> (r: String)
    ensures
        exists|secs: nat| r@ == iso_stamp(secs),
{
    let (secs, _) = unix_now();
    iso_from_unix(secs)
}

/// The current time in ISO 8601 UTC with milliseconds.
pub fn utc_now_iso_millis() -> (r: String)
    ensures
        exists|secs: nat, ms: nat| ms < 1000 && r@ == iso_millis_stamp(secs, ms),
{
    let (secs, ms) = unix_now();
    iso_millis_from_unix(secs, ms)
}

/// The current compact UTC stamp.
pub fn utc_compact() -> (r: String)
    ensures
        exists|secs: nat| r@ == compact_stamp(secs),
{
    let (secs, _) = unix_now();
    compact_from_unix(secs)
}

/// A time-stamped session id: `YYYYMMDD-HHMMSS-mmm`.
pub fn new_session_id() -> (r: String)
    ensures
        exists|secs: nat, ms: nat| ms < 1000 && r@ == session_id_stamp(secs, ms),
{
    let (secs, ms) = unix_now();
    session_id_from_unix(secs, ms)
}

// ---------- session ids as path components ----------

/// What `format!("{:?}", s)` gives for a string slice (quoted, escaped).
pub uninterp spec fn str_debug(s: Seq<char>) -> Seq<char>;

/// `format!("{:?}", s)` of a string slice.
#[verifier::external_body]
fn debug_quoted(s: &str) -> (r: String)
    ensures
        r@ == str_debug(s@),
{
    format!("{:?}", s)
}

/// A session id made of ASCII letters, digits, '-' and '_' only (it becomes a
/// file name, so nothing may lead out of the directory).
pub open spec fn session_id_ok(id: Seq<char>) -> bool {
    id.len() > 0 && forall|i: int|
        0 <= i < id.len() ==> text::is_ascii_alnum(#[trigger] id[i]) || id[i] == '-' || id[i]
            == '_'
}

/// Checks a session id that came from outside before it is used in a path.
pub fn validate_session_id(session_id: &str) -> (r: Result<(), String>)
    ensures
        r is Ok <==> session_id_ok(session_id@),
        r matches Err(m) ==> m@ == "非法 sessionId："@ + str_debug(session_id@),
{
    let cs = chars_of(session_id);
    let mut ok = cs.len() > 0;
    let mut i: usize = 0;
    while ok && i < cs.len()
        invariant
            i <= cs@.len(),
            cs@ == session_id@,
            ok ==> cs@.len() > 0,
            ok ==> forall|k: int|
                0 <= k < i ==> text::is_ascii_alnum(#[trigger] session_id@[k]) || session_id@[k]
                    == '-' || session_id@[k] == '_',
            !ok ==> !session_id_ok(session_id@),
        decreases cs.len() - i,
    {
        let c = cs[i];
        if !(text::is_ascii_alphanumeric(c) || c == '-' || c == '_') {
            ok = false;
        }
        i += 1;
    }
    if ok {
        Ok(())
    } else {
        let mut m = owned("非法 sessionId：");
        let q = debug_quoted(session_id);
        push_str(&mut m, q.as_str());
        Err(m)
    }
}

// ---------- character error rate ----------

/// What `char::to_lowercase` yields for a character (one or more characters).
pub uninterp spec fn char_lowercase(c: char) -> Seq<char>;

/// `char::to_lowercase`, collected.
#[verifier::external_body]
fn lowercase_of(c: char) -> (r: Vec<char>)
    ensures
        r@ == char_lowercase(c),
{
    c.to_lowercase().collect()
}

/// The text compared by the error rate: alphanumeric characters only (CJK
/// ideographs count as alphanumeric), lower-cased.
pub open spec fn normalized(s: Seq<char>) -> Seq<char>
    decreases s.len(),
{
    if s.len() == 0 {
        Seq::empty()
    } else {
        normalized(s.drop_last()) + if text::char_is_alphanumeric(s.last()) {
            char_lowercase(s.last())
        } else {
            Seq::empty()
        }
    }
}

/// Normalises a text for the error rate (see [`normalized`]).
pub fn normalize_cer(s: &str) -> (r: Vec<char>)
    ensures
        r@ == normalized(s@),
{
    let cs = chars_of(s);
    let mut out: Vec<char> = Vec::new();
    let mut i: usize = 0;
    while i < cs.len()
        invariant
            i <= cs@.len(),
            cs@ == s@,
            out@ == normalized(s@.take(i as int)),
        decreases cs.len() - i,
    {
        assert(s@.take(i + 1).drop_last() =~= s@.take(i as int));
        let c = cs[i];
        if text::is_alphanumeric(c) {
            let low = lowercase_of(c);
            let mut k: usize = 0;
            let ghost before = out@;
            while k < low.len()
                invariant
                    k <= low@.len(),
                    out@ == before + low@.take(k as int),
                decreases low.len() - k,
            {
                out.push(low[k]);
                assert(before + low@.take(k + 1) =~= (before + low@.take(k as int)).push(
                    low@[k as int],
                ));
                k += 1;
            }
            assert(low@.take(low@.len() as int) =~= low@);
        } else {
            assert(out@ + Seq::<char>::empty() =~= out@);
        }
        i += 1;
    }
    assert(s@.take(s@.len() as int) =~= s@);
    out
}

pub open spec fn min3(a: nat, b: nat, c: nat) -> nat {
    if a <= b && a <= c {
        a
    } else if b <= c {
        b
    } else {
        c
    }
}

/// Edit distance: the least number of single-character insertions, deletions
/// and substitutions that turn `a` into `b`.
pub open spec fn edit_distance(a: Seq<char>, b: Seq<char>) -> nat
    decreases a.len() + b.len(),
{
    if a.len() == 0 {
        b.len()
    } else if b.len() == 0 {
        a.len()
    } else {
        min3(
            edit_distance(a.drop_last(), b.drop_last()) + if a.last() == b.last() {
                0nat
            } else {
                1nat
            },
            edit_distance(a.drop_last(), b) + 1,
            edit_distance(a, b.drop_last()) + 1,
        )
    }
}

proof fn lemma_edit_distance_bound(a: Seq<char>, b: Seq<char>)
    ensures
        edit_distance(a, b) <= if a.len() >= b.len() {
            a.len()
        } else {
            b.len()
        },
    decreases a.len() + b.len(),
{
    if a.len() > 0 && b.len() > 0 {
        lemma_edit_distance_bound(a.drop_last(), b.drop_last());
    }
}

/// The edit distance between two texts, by dynamic programming over two rows.
pub fn levenshtein(a: &[char], b: &[char]) -> (r: usize)
    requires
        a.len() < usize::MAX,
        b.len() < usize::MAX,
    ensures
        r == edit_distance(a@, b@),
{
    let n = b.len();
    let mut prev: Vec<usize> = Vec::new();
    let mut j: usize = 0;
    while j <= n
        invariant
            n == b.len(),
            n < usize::MAX,
            j <= n + 1,
            prev@.len() == j,
            forall|k: int| 0 <= k < j ==> prev@[k] == edit_distance(Seq::empty(), b@.take(k)),
        decreases n + 1 - j,
    {
        prev.push(j);
        j += 1;
    }
    let mut i: usize = 0;
    assert(a@.take(0) =~= Seq::<char>::empty());
    while i < a.len()
        invariant
            n == b.len(),
            n < usize::MAX,
            a.len() < usize::MAX,
            i <= a.len(),
            prev@.len() == n + 1,
            forall|k: int| 0 <= k <= n ==> #[trigger] prev@[k] == edit_distance(a@.take(i as int), b@.take(k)),
        decreases a.len() - i,
    {
        let ghost ai = a@.take(i as int);
        let ghost ai1 = a@.take(i + 1);
        assert(ai1.drop_last() =~= ai);
        assert(ai1.last() == a@[i as int]);
        let mut cur: Vec<usize> = Vec::new();
        cur.push(i + 1);
        assert(b@.take(0) =~= Seq::<char>::empty());
        let ca = a[i];
        let mut j: usize = 0;
        while j < n
            invariant
                n == b.len(),
                n < usize::MAX,
                a.len() < usize::MAX,
                i < a.len(),
                j <= n,
                ai == a@.take(i as int),
                ai1 == a@.take(i + 1),
                ai1.drop_last() == ai,
                ai1.last() == ca,
                prev@.len() == n + 1,
                cur@.len() == j + 1,
                forall|k: int| 0 <= k <= n ==> #[trigger] prev@[k] == edit_distance(ai, b@.take(k)),
                forall|k: int| 0 <= k <= j ==> #[trigger] cur@[k] == edit_distance(ai1, b@.take(k)),
            decreases n - j,
        {
            let cb = b[j];
            let ghost bj1 = b@.take(j + 1);
            assert(bj1.drop_last() =~= b@.take(j as int));
            assert(bj1.last() == cb);
            proof {
                lemma_edit_distance_bound(ai, b@.take(j as int));
                lemma_edit_distance_bound(ai, bj1);
                lemma_edit_distance_bound(ai1, b@.take(j as int));
            }
            let sub = prev[j] + if ca != cb {
                1
            } else {
                0
            };
            let del = prev[j + 1] + 1;
            let ins = cur[j] + 1;
            let best = if sub <= del && sub <= ins {
                sub
            } else if del <= ins {
                del
            } else {
                ins
            };
            cur.push(best);
            j += 1;
        }
        prev = cur;
        i += 1;
    }
    assert(a@.take(a.len() as int) =~= a@);
    assert(b@.take(n as int) =~= b@);
    prev[n]
}

/// A text is at distance zero from another exactly when they are equal.
pub proof fn law_distance_zero_iff_equal(a: Seq<char>, b: Seq<char>)
    ensures
        (edit_distance(a, b) == 0) == (a == b),
    decreases a.len() + b.len(),
{
    if a.len() > 0 && b.len() > 0 {
        law_distance_zero_iff_equal(a.drop_last(), b.drop_last());
        if a == b {
            assert(a.drop_last() == b.drop_last());
        }
        if edit_distance(a, b) == 0 {
            assert(a =~= a.drop_last().push(a.last()));
            assert(b =~= b.drop_last().push(b.last()));
        }
    } else if a.len() == 0 && b.len() == 0 {
        assert(a =~= b);
    }
}

// ---------- comparison report ----------

pub open spec fn sum(s: Seq<u64>) -> nat
    decreases s.len(),
{
    if s.len() == 0 {
        0
    } else {
        sum(s.drop_last()) + s.last() as nat
    }
}

/// Integer mean (rounded down) of values whose sum fits in `u64`.
pub fn mean_u64(v: &[u64]) -> (r: u64)
    requires
        v@.len() > 0,
        sum(v@) <= u64::MAX,
    ensures
        r as nat == sum(v@) / (v@.len() as nat),
{
    let mut total: u64 = 0;
    let mut i: usize = 0;
    while i < v.len()
        invariant
            i <= v@.len(),
            sum(v@) <= u64::MAX,
            total as nat == sum(v@.take(i as int)),
        decreases v.len() - i,
    {
        proof {
            assert(v@.take(i + 1).drop_last() =~= v@.take(i as int));
            lemma_sum_prefix(v@, i + 1);
        }
        total = total + v[i];
        i += 1;
    }
    assert(v@.take(v@.len() as int) =~= v@);
    total / (v.len() as u64)
}

proof fn lemma_sum_prefix(s: Seq<u64>, k: int)
    requires
        0 <= k <= s.len(),
    ensures
        sum(s.take(k)) <= sum(s),
    decreases s.len() - k,
{
    if k < s.len() {
        lemma_sum_prefix(s, k + 1);
        assert(s.take(k + 1).drop_last() =~= s.take(k));
    } else {
        assert(s.take(k) =~= s);
    }
}

/// The title of the report over `labelled` annotated sessions, with the
/// table header.
pub open spec fn report_head(labelled: nat) -> Seq<char> {
    "# Kotone 引擎评测报告（"@ + text::dec(labelled) + " 条标注语料）\n\n"@
        + "| 引擎 | 样本数 | 平均 CER | 平均首字延迟 ms | 平均最终延迟 ms |\n"@
        + "|------|-------:|---------:|----------------:|----------------:|\n"@
}

pub fn report_header(labelled: u64) -> (r: String)
    ensures
        r@ == report_head(labelled as nat),
{
    let mut r = owned("# Kotone 引擎评测报告（");
    text::push_dec(&mut r, labelled);
    push_str(&mut r, " 条标注语料）\n\n");
    push_str(&mut r, "| 引擎 | 样本数 | 平均 CER | 平均首字延迟 ms | 平均最终延迟 ms |\n");
    push_str(&mut r, "|------|-------:|---------:|----------------:|----------------:|\n");
    proof {
        assert(r@ =~= report_head(labelled as nat));
    }
    r
}

/// One engine's row: its id, the number of replays, the mean error rate
/// (as the caller formatted it), the mean first-partial latency ("—（非流式）"
/// for an engine that streams nothing) and the mean final latency; an engine
/// without any replay gets dashes.
pub open spec fn report_line(engine_id: Seq<char>, mean_cer: Seq<char>, firsts: Seq<u64>, finals: Seq<u64>) -> Seq<char> {
    if finals.len() == 0 {
        "| "@ + engine_id + " | 0 | — | — | — |\n"@
    } else {
        "| "@ + engine_id + " | "@ + text::dec(finals.len()) + " | "@ + mean_cer + " | "@ + (
        if firsts.len() == 0 {
            "—（非流式）"@
        } else {
            text::dec(sum(firsts) / firsts.len())
        }) + " | "@ + text::dec(sum(finals) / finals.len()) + " |\n"@
    }
}

pub fn report_row(engine_id: &str, mean_cer: &str, firsts: &[u64], finals: &[u64]) -> (r: String)
    requires
        sum(firsts@) <= u64::MAX,
        sum(finals@) <= u64::MAX,
    ensures
        r@ == report_line(engine_id@, mean_cer@, firsts@, finals@),
{
    let mut r = owned("| ");
    push_str(&mut r, engine_id);
    if finals.len() == 0 {
        push_str(&mut r, " | 0 | — | — | — |\n");
        return r;
    }
    push_str(&mut r, " | ");
    text::push_dec(&mut r, finals.len() as u64);
    push_str(&mut r, " | ");
    push_str(&mut r, mean_cer);
    push_str(&mut r, " | ");
    if firsts.len() == 0 {
        push_str(&mut r, "—（非流式）");
    } else {
        text::push_dec(&mut r, mean_u64(firsts));
    }
    push_str(&mut r, " | ");
    text::push_dec(&mut r, mean_u64(finals));
    push_str(&mut r, " |\n");
    proof {
        assert(r@ =~= report_line(engine_id@, mean_cer@, firsts@, finals@));
    }
    r
}

/// The closing note of the report.
pub fn report_footer() -> (r: String)
    ensures
        r@ == "\n> CER = 字符级编辑距离 / 参考文本长度（双方去标点与空白、统一小写）；首字延迟为全速回放的纯计算延迟，仅流式引擎有。\n"@,
{
    owned("\n> CER = 字符级编辑距离 / 参考文本长度（双方去标点与空白、统一小写）；首字延迟为全速回放的纯计算延迟，仅流式引擎有。\n")
}

} // verus!
