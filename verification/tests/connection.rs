use kotone::connection::{
    connection_kind_label, connection_presets, preset_by_id, Connection, ConnectionKind,
    ResolvedConnection,
};

fn sample(kind: ConnectionKind) -> Connection {
    Connection {
        id: "local".into(),
        display_name: "本机".into(),
        kind,
        provider: "llama-server".into(),
        base_url: "http://127.0.0.1:18790/v1".into(),
        model: "qwen".into(),
    }
}

#[test]
fn reserved_kinds_are_rejected_until_implemented() {
    let connection = sample(ConnectionKind::Managed);
    assert!(connection.validate().unwrap_err().contains("尚未实现"));
}

#[test]
fn named_presets_have_https_api_key_pages() {
    for preset in connection_presets() {
        if preset.id == "custom" {
            assert!(preset.api_key_url.is_none());
            continue;
        }
        let url = preset.api_key_url.expect(preset.id);
        assert!(
            url.starts_with("https://"),
            "{} 的 API key 页必须是 https：{url}",
            preset.id
        );
    }
}

#[test]
fn resolve_result_does_not_carry_a_key() {
    let connection = Connection {
        id: "ds".into(),
        display_name: "通义".into(),
        kind: ConnectionKind::Remote,
        provider: "dashscope".into(),
        base_url: "https://example.test/v1".into(),
        model: "qwen-turbo".into(),
    };
    let resolved = ResolvedConnection::from_public(&connection);
    assert!(resolved.api_key.is_none());
    assert_eq!(resolved.base_url, connection.base_url);
}

#[test]
fn remote_connection_with_fields_is_valid() {
    let mut c = sample(ConnectionKind::Remote);
    c.provider = "openai".into();
    assert!(c.validate().is_ok());
    let attach = sample(ConnectionKind::Attach);
    assert!(attach.validate().is_err());
}

#[test]
fn kind_labels_are_lowercase_words() {
    assert_eq!(connection_kind_label(ConnectionKind::Remote), "remote");
    assert_eq!(connection_kind_label(ConnectionKind::Attach), "attach");
    assert_eq!(connection_kind_label(ConnectionKind::Managed), "managed");
}

#[test]
fn presets_are_found_by_id() {
    assert_eq!(preset_by_id("groq").unwrap().id, "groq");
    assert!(preset_by_id("nope").is_none());
    assert_eq!(connection_presets().len(), 7);
}
