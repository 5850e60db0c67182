use ws_gateway::json_text::push_json_string;

fn written(text: &str) -> String {
    let mut out = String::new();
    push_json_string(&mut out, text);
    out
}

#[test]
fn json_string_of_plain_text() {
    assert_eq!(written(""), "\"\"");
    assert_eq!(written("abc"), "\"abc\"");
    assert_eq!(written("a b/c"), "\"a b/c\"");
    assert_eq!(written("\u{e9}\u{4e2d}\u{1f600}"), "\"\u{e9}\u{4e2d}\u{1f600}\"");
    assert_eq!(written("\u{7f}\u{80}\u{2028}"), "\"\u{7f}\u{80}\u{2028}\"");
}

#[test]
fn json_string_appends_to_what_is_there() {
    let mut out = String::from("x=");
    push_json_string(&mut out, "a");
    push_json_string(&mut out, "b");
    assert_eq!(out, "x=\"a\"\"b\"");
}

#[test]
fn json_string_escapes_quote_and_backslash() {
    assert_eq!(written("\""), "\"\\\"\"");
    assert_eq!(written("\\"), "\"\\\\\"");
    assert_eq!(written("a\"b\\c"), "\"a\\\"b\\\\c\"");
    assert_eq!(written("\\\""), "\"\\\\\\\"\"");
}

#[test]
fn json_string_escapes_control_characters() {
    assert_eq!(written("\u{8}"), "\"\\b\"");
    assert_eq!(written("\t"), "\"\\t\"");
    assert_eq!(written("\n"), "\"\\n\"");
    assert_eq!(written("\u{c}"), "\"\\f\"");
    assert_eq!(written("\r"), "\"\\r\"");
    assert_eq!(written("\u{0}"), "\"\\u0000\"");
    assert_eq!(written("\u{7}"), "\"\\u0007\"");
    assert_eq!(written("\u{b}"), "\"\\u000b\"");
    assert_eq!(written("\u{e}"), "\"\\u000e\"");
    assert_eq!(written("\u{10}"), "\"\\u0010\"");
    assert_eq!(written("\u{1a}"), "\"\\u001a\"");
    assert_eq!(written("\u{1f}"), "\"\\u001f\"");
    assert_eq!(written(" "), "\" \"");
}

#[test]
fn json_string_reads_back_as_the_text() {
    let mut every_low = String::new();
    for code in 0u32..0x100 {
        every_low.push(char::from_u32(code).unwrap());
    }
    let samples = [
        every_low.as_str(),
        "\"},{\"token\":\"other",
        "\\u0041",
        "\\\\\\",
        "\u{d7ff}\u{e000}\u{ffff}\u{10000}\u{10ffff}",
        "",
    ];
    for text in samples {
        let parsed: serde_json::Value = serde_json::from_str(&written(text)).unwrap();
        assert_eq!(parsed.as_str(), Some(text));
    }
}

#[test]
fn json_string_is_written_as_serde_json_writes_it() {
    let mut every_low = String::new();
    for code in 0u32..0x100 {
        every_low.push(char::from_u32(code).unwrap());
    }
    for text in [every_low.as_str(), "a\"b\\c\n", "\u{4e2d}"] {
        assert_eq!(written(text), serde_json::to_string(text).unwrap());
    }
}
