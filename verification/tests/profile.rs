use kotone::profile::{first_icon_entry, for_export, imported_icon_name, package_icon_entry, prepare_imported};
use kotone::profile::{
    builtin_icon_name, builtin_profile, delete_outcome, find_by_process, format_hotwords_export,
    imported_profile_id, matches_process, merge_builtin, merge_hotwords, parse_hotwords_import,
    profile_file_name, sanitize_icon_name, validate_for_save, with_builtins, GameProfile, HotwordMergeReport,
    ProfileChannel, ProfileDeleteOutcome,
};

fn sample_profiles() -> Vec<GameProfile> {
    vec![GameProfile::builtin_generic(), GameProfile::builtin_lol()]
}

#[test]
fn lol_matches_its_process_case_insensitive() {
    let lol = GameProfile::builtin_lol();
    assert!(matches_process(&lol, "League of Legends.exe"));
    assert!(matches_process(&lol, "league of legends.exe"));
    assert!(matches_process(&lol, "LEAGUE OF LEGENDS.EXE"));
}

#[test]
fn lol_does_not_match_other_processes() {
    let lol = GameProfile::builtin_lol();
    assert!(!matches_process(&lol, "notepad.exe"));
    assert!(!matches_process(&lol, "LeagueClient.exe"));
}

#[test]
fn generic_matches_anything() {
    let generic = GameProfile::builtin_generic();
    assert!(matches_process(&generic, "notepad.exe"));
    assert!(matches_process(&generic, "anything at all"));
}

#[test]
fn find_prefers_specific_over_generic() {
    let profiles = sample_profiles();
    let hit = find_by_process(&profiles, "league of legends.exe").unwrap();
    assert_eq!(hit.id, "lol", "LOL 进程应命中具体 profile 而非 generic");
}

#[test]
fn find_falls_back_to_generic() {
    let profiles = sample_profiles();
    let hit = find_by_process(&profiles, "notepad.exe").unwrap();
    assert_eq!(hit.id, "generic");
}

#[test]
fn find_returns_none_without_generic() {
    let profiles = vec![GameProfile::builtin_lol()];
    assert!(find_by_process(&profiles, "notepad.exe").is_none());
}

#[test]
fn builtin_values_match_doc() {
    let lol = GameProfile::builtin_lol();
    assert_eq!(lol.pre_open_delay_ms, 20);
    assert_eq!(lol.pre_paste_delay_ms, 20);
    assert_eq!(lol.pre_send_delay_ms, 20);
    assert!(!lol.prefer_clipboard_paste);
    assert_eq!(lol.open_chat_key, "Enter");
    assert_eq!(lol.send_key, "Enter");
    assert!(lol.hotwords.contains(&"打野".to_string()));
    let mut sorted = lol.hotwords.clone();
    sorted.sort();
    sorted.dedup();
    assert_eq!(sorted.len(), lol.hotwords.len(), "内置热词不应有重复");
}

#[test]
fn hotwords_export_one_per_line() {
    let words = vec![
        "打野".to_string(),
        "gank".to_string(),
        "Blind Monk".to_string(),
    ];
    assert_eq!(format_hotwords_export(&words), "打野\ngank\nBlind Monk\n");
    assert_eq!(format_hotwords_export(&[]), "", "空表导出空文件");
}

#[test]
fn hotwords_import_skips_empty_and_inner_duplicates() {
    let text = "打野\n\n  \ngank\n打野\n  推塔  \r\n";
    assert_eq!(parse_hotwords_import(text), vec!["打野", "gank", "推塔"]);
    assert!(parse_hotwords_import("").is_empty());
    assert!(parse_hotwords_import("  \n\n").is_empty());
}

#[test]
fn hotwords_merge_dedupes_against_existing() {
    let existing = vec!["打野".to_string(), "gank".to_string()];
    let incoming = vec!["gank".to_string(), "推塔".to_string(), "回城".to_string()];
    let (merged, report) = merge_hotwords(&existing, &incoming);
    assert_eq!(merged, vec!["打野", "gank", "推塔", "回城"]);
    assert_eq!(
        report,
        HotwordMergeReport {
            added: 2,
            duplicates: 1,
            total: 4
        }
    );
    let (m2, r2) = merge_hotwords(&existing, &["打野".to_string()]);
    assert_eq!(m2, existing);
    assert_eq!(r2.added, 0);
    assert_eq!(r2.duplicates, 1);
}

#[test]
fn hotwords_export_import_roundtrip() {
    let words = GameProfile::builtin_lol().hotwords;
    let text = format_hotwords_export(&words);
    assert_eq!(parse_hotwords_import(&text), words);
}

#[test]
fn channels_effective_empty_channels_synthesizes_default() {
    let g = GameProfile::builtin_generic();
    let ch = g.channels_effective();
    assert_eq!(ch.len(), 1);
    assert!(ch[0].is_default);
    assert_eq!(ch[0].open_chat_key, g.open_chat_key);
    assert_eq!(ch[0].text_prefix, "");
    assert_eq!(g.next_channel_id(None), None, "单频道游戏不可切换");
}

#[test]
fn lol_builtin_declares_team_and_all_channels() {
    let lol = GameProfile::builtin_lol();
    let ch = lol.channels_effective();
    assert_eq!(ch.len(), 2);
    assert_eq!(ch[0].id, "team");
    assert!(ch[0].is_default);
    assert_eq!(ch[0].open_chat_key, "Enter", "默认频道沿用 profile 开框键");
    assert_eq!(ch[1].id, "all");
    assert_eq!(ch[1].display_name, "所有人");
    assert_eq!(ch[1].open_chat_key, "Shift+Enter");
}

#[test]
fn channel_strategy_falls_back_to_default() {
    let lol = GameProfile::builtin_lol();
    assert_eq!(lol.channel_strategy(None).id, "team");
    assert_eq!(
        lol.channel_strategy(Some("ghost")).id,
        "team",
        "未知 id 回落默认"
    );
    assert_eq!(
        lol.channel_strategy(Some("all")).open_chat_key,
        "Shift+Enter"
    );
}

#[test]
fn next_channel_cycles_in_declaration_order() {
    let lol = GameProfile::builtin_lol();
    assert_eq!(lol.next_channel_id(None).as_deref(), Some("all"));
    assert_eq!(lol.next_channel_id(Some("all")).as_deref(), Some("team"));
    assert_eq!(lol.next_channel_id(Some("team")).as_deref(), Some("all"));
    assert_eq!(lol.next_channel_id(Some("ghost")).as_deref(), Some("all"));
}

#[test]
fn channel_prefix_strategy_uses_default_open_key() {
    let mut p = GameProfile::builtin_generic();
    p.channels = vec![
        ProfileChannel {
            id: "team".into(),
            display_name: "队伍".into(),
            open_chat_key: None,
            text_prefix: None,
            default: true,
        },
        ProfileChannel {
            id: "all".into(),
            display_name: "所有人".into(),
            open_chat_key: None,
            text_prefix: Some("/all ".into()),
            default: false,
        },
    ];
    let s = p.channel_strategy(Some("all"));
    assert_eq!(s.open_chat_key, p.open_chat_key);
    assert_eq!(s.text_prefix, "/all ");
    assert!(!s.is_default);
}

#[test]
fn builtin_lol_has_icon_field() {
    let lol = GameProfile::builtin_lol();
    assert_eq!(lol.icon.as_deref(), Some("lol-kotone.webp"));
    assert!(builtin_icon_name("lol").is_some());
    assert!(builtin_icon_name("generic").is_none());
}

// ---------- beyond the original suite ----------

#[test]
fn default_mark_on_a_later_channel_wins() {
    let mut p = GameProfile::builtin_lol();
    p.channels[0].default = false;
    p.channels[1].default = true;
    let ch = p.channels_effective();
    assert!(!ch[0].is_default);
    assert!(ch[1].is_default);
    assert_eq!(p.channel_strategy(None).id, "all");
    assert_eq!(p.next_channel_id(None).as_deref(), Some("team"));
}

#[test]
fn no_default_mark_means_first_channel() {
    let mut p = GameProfile::builtin_lol();
    p.channels[0].default = false;
    let ch = p.channels_effective();
    assert!(ch[0].is_default);
    assert!(!ch[1].is_default);
}

#[test]
fn specific_profile_listed_first_also_wins() {
    let profiles = vec![GameProfile::builtin_lol(), GameProfile::builtin_generic()];
    assert_eq!(
        find_by_process(&profiles, "League of Legends.exe").unwrap().id,
        "lol"
    );
    assert!(find_by_process(&[], "x.exe").is_none());
}

#[test]
fn builtin_update_appends_missing_and_respects_removed() {
    let builtin = GameProfile::builtin_lol();
    let mut stored = GameProfile::builtin_lol();
    stored.hotwords = vec!["闪现".into(), "我的自定义词".into()];
    stored.removed_builtin_hotwords = vec!["提莫".into(), "悠米".into()];
    stored.channels.clear();
    stored.icon = None;
    let updated = merge_builtin(&stored, &builtin).unwrap();
    assert_eq!(updated.hotwords[0], "闪现");
    assert_eq!(updated.hotwords[1], "我的自定义词");
    assert!(!updated.hotwords.contains(&"提莫".to_string()));
    assert!(!updated.hotwords.contains(&"悠米".to_string()));
    assert!(updated.hotwords.contains(&"亚索".to_string()));
    assert_eq!(updated.channels.len(), 2);
    assert_eq!(updated.icon.as_deref(), Some("lol-kotone.webp"));
    assert!(merge_builtin(&updated, &builtin).is_none(), "second run changes nothing");
}

#[test]
fn builtin_update_keeps_user_channels() {
    let builtin = GameProfile::builtin_lol();
    let mut stored = GameProfile::builtin_lol();
    stored.channels[1].display_name = "全体（自定义）".into();
    assert!(merge_builtin(&stored, &builtin).is_none());
}

#[test]
fn profile_file_names_are_safe() {
    assert_eq!(profile_file_name("lol"), "lol.json");
    assert_eq!(profile_file_name("../evil"), "___evil.json");
    assert_eq!(profile_file_name("a b/c"), "a_b_c.json");
    assert_eq!(profile_file_name("我的-game_1"), "我的-game_1.json");
}

#[test]
fn icon_names_are_sanitized() {
    assert_eq!(sanitize_icon_name("lol-kotone.webp").as_deref(), Some("lol-kotone.webp"));
    assert!(sanitize_icon_name("../evil.png").is_none());
    assert!(sanitize_icon_name("a/b.png").is_none());
    assert!(sanitize_icon_name("a\\b.png").is_none());
    assert!(sanitize_icon_name("").is_none());
    assert!(sanitize_icon_name(&"a".repeat(65)).is_none());
    assert!(sanitize_icon_name(&"a".repeat(64)).is_some());
    assert!(sanitize_icon_name(&"图".repeat(22)).is_none(), "66 bytes");
    assert!(sanitize_icon_name("a b.png").is_none());
}

#[test]
fn blank_id_cannot_be_saved() {
    let mut p = GameProfile::builtin_generic();
    assert!(validate_for_save(&p).is_ok());
    p.id = "  ".into();
    assert_eq!(validate_for_save(&p).unwrap_err(), "profile id 不能为空");
}

#[test]
fn builtins_reset_and_imports_delete() {
    assert_eq!(delete_outcome("lol"), ProfileDeleteOutcome::Reset);
    assert_eq!(delete_outcome("generic"), ProfileDeleteOutcome::Reset);
    assert_eq!(delete_outcome("p20260101-000000-001-0"), ProfileDeleteOutcome::Deleted);
    assert_eq!(builtin_profile("generic").unwrap().id, "generic");
    assert!(builtin_profile("valorant").is_none());
}

#[test]
fn imported_ids_carry_stamp_and_counter() {
    assert_eq!(
        imported_profile_id("20260101-000000-001", 7),
        "p20260101-000000-001-7"
    );
}

#[test]
fn builtins_fill_in_missing_profiles() {
    let all = with_builtins(Vec::new());
    assert_eq!(all.len(), 2);
    let mut custom = GameProfile::builtin_lol();
    custom.display_name = "改过的".into();
    let all = with_builtins(vec![custom]);
    assert_eq!(all.len(), 2);
    assert_eq!(all[0].display_name, "改过的");
    assert_eq!(all[1].id, "generic");
}

#[test]
fn builtin_profile_gives_the_builtin_profiles() {
    assert_eq!(builtin_profile("lol"), Some(GameProfile::builtin_lol()));
    assert_eq!(builtin_profile("generic"), Some(GameProfile::builtin_generic()));
    assert_eq!(builtin_profile("other"), None);
}

#[test]
fn packages_drop_local_deletions_and_name_icons() {
    let mut p = GameProfile::builtin_lol();
    p.removed_builtin_hotwords = vec!["提莫".into()];
    let out = for_export(p.clone());
    assert!(out.removed_builtin_hotwords.is_empty());
    assert_eq!(out.hotwords, p.hotwords);
    let imported = prepare_imported(p, "imp-1".into());
    assert_eq!(imported.id, "imp-1");
    assert!(imported.removed_builtin_hotwords.is_empty());
    assert_eq!(package_icon_entry("lol-kotone.webp"), "icon.webp");
    assert_eq!(package_icon_entry("noext"), "icon.png");
    assert_eq!(imported_icon_name("imp-1", "icon.jpg"), "imp-1.jpg");
    let names: Vec<String> = vec!["profile.json".into(), "icon.png".into(), "icon.jpg".into()];
    assert_eq!(first_icon_entry(&names), Some(1));
    assert_eq!(first_icon_entry(&names[..1]), None);
}
