use json_devil::json::{escape_json, render_record};

#[test]
fn plain_record() {
    let out = render_record("a.pdf", "Hello World\n");
    assert_eq!(
        out,
        "{\n  \"filename\": \"a.pdf\",\n  \"extracted_text\": \"Hello World\\n\"\n}"
    );
}

#[test]
fn empty_fields() {
    let out = render_record("", "");
    assert_eq!(out, "{\n  \"filename\": \"\",\n  \"extracted_text\": \"\"\n}");
}

#[test]
fn escapes_quote_and_backslash() {
    assert_eq!(escape_json("say \"hi\""), "say \\\"hi\\\"");
    assert_eq!(escape_json("a\\b"), "a\\\\b");
}

#[test]
fn escapes_named_controls() {
    assert_eq!(escape_json("a\nb\tc\rd"), "a\\nb\\tc\\rd");
    assert_eq!(escape_json("\u{8}\u{c}"), "\\b\\f");
}

#[test]
fn escapes_other_controls_as_hex() {
    assert_eq!(escape_json("\u{0}"), "\\u0000");
    assert_eq!(escape_json("\u{1}"), "\\u0001");
    assert_eq!(escape_json("\u{f}"), "\\u000f");
    assert_eq!(escape_json("\u{10}"), "\\u0010");
    assert_eq!(escape_json("\u{1f}"), "\\u001f");
}

#[test]
fn non_ascii_passes_through() {
    assert_eq!(escape_json("héllo ドキュメント"), "héllo ドキュメント");
}

#[test]
fn escaping_agrees_with_serde_json() {
    let cases = [
        "",
        "plain",
        "say \"hi\"",
        "back\\slash",
        "line\none",
        "tab\there",
        "\u{0}\u{1}\u{8}\u{b}\u{c}\u{1f}",
        "héllo ドキュメント",
        "mixed \"q\" and \\ and \n and \u{7}",
    ];
    for s in cases {
        let mine = format!("\"{}\"", escape_json(s));
        let theirs = serde_json::to_string(&serde_json::Value::String(s.to_string())).unwrap();
        assert_eq!(mine, theirs, "case {:?}", s);
    }
}

#[test]
fn record_parses_back_with_serde_json() {
    let name = "we\"ird\\name\n.pdf";
    let text = "first line\nsecond\t\"quoted\"\u{1f} end";
    let out = render_record(name, text);
    let v: serde_json::Value = serde_json::from_str(&out).unwrap();
    assert_eq!(v["filename"].as_str().unwrap(), name);
    assert_eq!(v["extracted_text"].as_str().unwrap(), text);
    assert_eq!(v.as_object().unwrap().len(), 2);
}
