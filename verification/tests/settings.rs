use kotone::json::JsonValue;
use kotone::settings::{copy_engine_options_key, merge_json_objects, migrate_legacy_engine_ids};

fn text(s: &str) -> JsonValue {
    JsonValue::Text(s.to_string())
}

fn obj(entries: Vec<(&str, JsonValue)>) -> JsonValue {
    JsonValue::Object(entries.into_iter().map(|(k, v)| (k.to_string(), v)).collect())
}

fn migrate(engine: &str, active: &str, opts: JsonValue) -> (String, String, JsonValue) {
    let mut engine = engine.to_string();
    let mut active = active.to_string();
    let mut opts = opts;
    migrate_legacy_engine_ids(&mut engine, &mut active, &mut opts);
    (engine, active, opts)
}

#[test]
fn legacy_online_asr_engine_is_rewritten_to_its_provider() {
    let (engine, active, _) = migrate("online-asr", "iflytek-asr", obj(vec![]));
    assert_eq!(engine, "iflytek-asr");
    assert_eq!(active, "iflytek-asr");

    let opts = obj(vec![("online-asr", obj(vec![("model", text("volcano-asr"))]))]);
    let (engine, active, opts) = migrate("online-asr", "", opts);
    assert_eq!(engine, "volcano-asr");
    assert_eq!(active, "volcano-asr");
    assert_eq!(
        opts,
        obj(vec![
            ("online-asr", obj(vec![("model", text("volcano-asr"))])),
            ("volcano-asr", obj(vec![("model", text("volcano-asr"))])),
        ])
    );

    let (engine, _, _) = migrate("online-asr", "", JsonValue::Null);
    assert_eq!(engine, "volcano-asr");
}

#[test]
fn legacy_sherpa_family_engine_is_rewritten() {
    let model = "x-asr-480ms-streaming-zh-en-punct-int8-2026-06-05";
    let opts = obj(vec![(
        "sherpa-onnx-x-asr-zh-en",
        obj(vec![("provider", text("cpu")), ("model", text(model))]),
    )]);
    let (engine, active, opts) = migrate("sherpa-onnx-x-asr-zh-en", "", opts);
    assert_eq!(engine, "sherpa-streaming");
    assert_eq!(active, model);
    match &opts {
        JsonValue::Object(entries) => {
            let (k, v) = &entries[1];
            assert_eq!(k, "sherpa-streaming");
            assert_eq!(v, &obj(vec![("provider", text("cpu")), ("model", text(model))]));
        }
        other => panic!("expected an object, got {other:?}"),
    }

    let (engine, active, _) = migrate("sherpa-onnx-sensevoice", "", obj(vec![]));
    assert_eq!(engine, "sherpa-offline");
    assert_eq!(active, "");
    let (engine, _, _) = migrate("sherpa-onnx-funasr-nano", "", obj(vec![]));
    assert_eq!(engine, "sherpa-offline");
}

#[test]
fn current_engine_ids_are_left_alone() {
    let opts = obj(vec![("sherpa-streaming", obj(vec![("model", text("m"))]))]);
    let (engine, active, after) = migrate("sherpa-streaming", "", opts);
    assert_eq!(engine, "sherpa-streaming");
    assert_eq!(active, "");
    assert_eq!(after, obj(vec![("sherpa-streaming", obj(vec![("model", text("m"))]))]));
}

#[test]
fn set_active_model_is_kept_and_blank_model_is_ignored() {
    let opts = obj(vec![("sherpa-onnx-sensevoice", obj(vec![("model", text("  sv  "))]))]);
    let (_, active, _) = migrate("sherpa-onnx-sensevoice", "mine", opts);
    assert_eq!(active, "mine");
    let opts = obj(vec![("sherpa-onnx-sensevoice", obj(vec![("model", text("  sv  "))]))]);
    let (_, active, _) = migrate("sherpa-onnx-sensevoice", " ", opts);
    assert_eq!(active, "sv");
    let opts = obj(vec![("sherpa-onnx-sensevoice", obj(vec![("model", text("   "))]))]);
    let (_, active, _) = migrate("sherpa-onnx-sensevoice", "", opts);
    assert_eq!(active, "");
}

#[test]
fn copying_options_merges_one_level_into_the_target() {
    let mut opts = obj(vec![
        ("old", obj(vec![("a", text("1")), ("b", text("2"))])),
        ("new", obj(vec![("b", text("x")), ("c", text("3"))])),
    ]);
    copy_engine_options_key(&mut opts, "old", "new");
    assert_eq!(
        opts,
        obj(vec![
            ("old", obj(vec![("a", text("1")), ("b", text("2"))])),
            ("new", obj(vec![("b", text("2")), ("c", text("3")), ("a", text("1"))])),
        ])
    );

    let before = obj(vec![("x", text("1"))]);
    let mut same = before.deep_copy();
    copy_engine_options_key(&mut same, "missing", "x");
    assert_eq!(same, before);
    copy_engine_options_key(&mut same, "x", "x");
    assert_eq!(same, before);
}

#[test]
fn shallow_merge_replaces_nested_objects() {
    let mut base = obj(vec![("a", obj(vec![("k", text("1"))])), ("b", text("keep"))]);
    merge_json_objects(&mut base, &obj(vec![("a", obj(vec![("j", text("2"))]))]));
    assert_eq!(base, obj(vec![("a", obj(vec![("j", text("2"))])), ("b", text("keep"))]));

    let mut scalar = text("s");
    merge_json_objects(&mut scalar, &obj(vec![("a", text("1"))]));
    assert_eq!(scalar, obj(vec![("a", text("1"))]));

    let mut kept = obj(vec![("a", text("1"))]);
    merge_json_objects(&mut kept, &text("ignored"));
    assert_eq!(kept, obj(vec![("a", text("1"))]));
}
