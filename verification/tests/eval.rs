use kotone::eval::{
    mean_u64, report_footer, report_header, report_row,
    civil_from_days, compact_from_unix, iso_from_unix, iso_millis_from_unix, levenshtein,
    new_session_id, normalize_cer, session_id_from_unix, utc_now_iso, validate_session_id,
};

#[test]
fn civil_from_days_known_dates() {
    assert_eq!(civil_from_days(0), (1970, 1, 1));
    assert_eq!(civil_from_days(20659), (2026, 7, 25));
    assert_eq!(civil_from_days(11016), (2000, 2, 29));
}

// ---------- beyond the original suite ----------

#[test]
fn civil_from_days_before_the_epoch_and_at_year_ends() {
    assert_eq!(civil_from_days(-1), (1969, 12, 31));
    assert_eq!(civil_from_days(-719468), (0, 3, 1));
    assert_eq!(civil_from_days(10956), (1999, 12, 31));
    assert_eq!(civil_from_days(10957), (2000, 1, 1));
    assert_eq!(civil_from_days(47540), (2100, 2, 28));
    assert_eq!(civil_from_days(47541), (2100, 3, 1));
}

#[test]
fn time_stamps_are_formatted_in_utc() {
    // 2026-07-25 is epoch day 20659; 12:34:56 into it
    let secs = 20659 * 86400 + 12 * 3600 + 34 * 60 + 56;
    assert_eq!(iso_from_unix(secs), "2026-07-25T12:34:56Z");
    assert_eq!(iso_millis_from_unix(secs, 7), "2026-07-25T12:34:56.007Z");
    assert_eq!(compact_from_unix(secs), "20260725-123456");
    assert_eq!(session_id_from_unix(secs, 42), "20260725-123456-042");
    assert_eq!(iso_from_unix(0), "1970-01-01T00:00:00Z");
}

#[test]
fn current_stamps_have_their_shapes() {
    let iso = utc_now_iso();
    assert_eq!(iso.len(), 20);
    assert!(iso.ends_with('Z'));
    let id = new_session_id();
    assert_eq!(id.len(), 19);
    assert!(validate_session_id(&id).is_ok());
}

#[test]
fn session_ids_are_checked_before_use_in_paths() {
    assert!(validate_session_id("20260101-000000-001").is_ok());
    assert!(validate_session_id("a_b-C9").is_ok());
    assert!(validate_session_id("").is_err());
    assert_eq!(
        validate_session_id("../x").unwrap_err(),
        "非法 sessionId：\"../x\""
    );
    assert!(validate_session_id("a b").is_err());
}

#[test]
fn edit_distance_values() {
    let c = |s: &str| s.chars().collect::<Vec<char>>();
    assert_eq!(levenshtein(&c("对面打野"), &c("对面中单")), 2);
    assert_eq!(levenshtein(&c("kitten"), &c("sitting")), 3);
    assert_eq!(levenshtein(&c(""), &c("abc")), 3);
    assert_eq!(levenshtein(&c("abc"), &c("")), 3);
    assert_eq!(levenshtein(&c("same"), &c("same")), 0);
}

#[test]
fn error_rate_text_is_normalised() {
    let n: String = normalize_cer("对面打野，在下路！").into_iter().collect();
    assert_eq!(n, "对面打野在下路");
    let n: String = normalize_cer("Hello, World 2").into_iter().collect();
    assert_eq!(n, "helloworld2");
}

#[test]
fn report_rows_show_means() {
    assert_eq!(mean_u64(&[100, 201]), 150);
    assert_eq!(
        report_row("mock-stream", "0.250", &[100, 201], &[300, 500, 700]),
        "| mock-stream | 3 | 0.250 | 150 | 500 |\n"
    );
    assert_eq!(
        report_row("whisper", "—", &[], &[900]),
        "| whisper | 1 | — | —（非流式） | 900 |\n"
    );
    assert_eq!(report_row("x", "—", &[], &[]), "| x | 0 | — | — | — |\n");
    assert!(report_header(2).starts_with("# Kotone 引擎评测报告（2 条标注语料）\n\n| 引擎 |"));
    assert!(report_footer().starts_with("\n> CER"));
}
