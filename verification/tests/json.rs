use kotone::json::JsonValue;
use kotone::settings::merge_json;

fn text(s: &str) -> JsonValue {
    JsonValue::Text(s.to_string())
}

fn num(s: &str) -> JsonValue {
    JsonValue::Number(s.to_string())
}

fn obj(entries: Vec<(&str, JsonValue)>) -> JsonValue {
    JsonValue::Object(entries.into_iter().map(|(k, v)| (k.to_string(), v)).collect())
}

#[test]
fn vad_partial_patch_preserves_siblings() {
    let mut doc = obj(vec![
        ("vad", obj(vec![("threshold", num("0.7")), ("minSpeechMs", num("50")), ("minSilenceMs", num("50"))])),
        ("hotwordsScore", num("6")),
    ]);
    merge_json(&mut doc, &obj(vec![("vad", obj(vec![("minSpeechMs", num("120"))]))]));
    assert_eq!(
        doc,
        obj(vec![
            ("vad", obj(vec![("threshold", num("0.7")), ("minSpeechMs", num("120")), ("minSilenceMs", num("50"))])),
            ("hotwordsScore", num("6")),
        ])
    );
}

#[test]
fn merge_appends_keys_the_base_lacks() {
    let mut doc = obj(vec![("a", num("1"))]);
    merge_json(&mut doc, &obj(vec![("b", obj(vec![("c", JsonValue::Bool(true))])), ("a", num("2"))]));
    assert_eq!(
        doc,
        obj(vec![("a", num("2")), ("b", obj(vec![("c", JsonValue::Bool(true))]))])
    );
}

#[test]
fn non_object_patches_replace_the_base() {
    let mut doc = obj(vec![("a", num("1"))]);
    merge_json(&mut doc, &text("x"));
    assert_eq!(doc, text("x"));

    let mut doc = JsonValue::Null;
    merge_json(&mut doc, &obj(vec![("a", num("1"))]));
    assert_eq!(doc, obj(vec![("a", num("1"))]));

    let mut doc = obj(vec![("list", JsonValue::Array(vec![num("1"), num("2")]))]);
    merge_json(&mut doc, &obj(vec![("list", JsonValue::Array(vec![num("3")]))]));
    assert_eq!(doc, obj(vec![("list", JsonValue::Array(vec![num("3")]))]));
}

#[test]
fn empty_object_patch_changes_nothing() {
    let base = obj(vec![("a", obj(vec![("b", JsonValue::Null)]))]);
    let mut doc = base.deep_copy();
    merge_json(&mut doc, &obj(vec![]));
    assert_eq!(doc, base);
}

#[test]
fn deep_copy_is_equal_and_independent() {
    let original = obj(vec![("a", JsonValue::Array(vec![text("x"), JsonValue::Bool(true)]))]);
    let mut copy = original.deep_copy();
    assert_eq!(copy, original);
    merge_json(&mut copy, &obj(vec![("a", JsonValue::Null)]));
    assert_eq!(original, obj(vec![("a", JsonValue::Array(vec![text("x"), JsonValue::Bool(true)]))]));
    assert_eq!(copy, obj(vec![("a", JsonValue::Null)]));
}

#[test]
fn laying_a_patch_twice_equals_laying_it_once() {
    let patch = obj(vec![("vad", obj(vec![("minSpeechMs", num("120"))])), ("x", text("y"))]);
    let mut once = obj(vec![("vad", obj(vec![("threshold", num("0.7"))]))]);
    merge_json(&mut once, &patch);
    let mut twice = once.deep_copy();
    merge_json(&mut twice, &patch);
    assert_eq!(twice, once);

    let mut same = patch.deep_copy();
    merge_json(&mut same, &patch);
    assert_eq!(same, patch);
}
