use hq::compact::compact_output;
use hq::{HqConfig, process_html};

#[test]
fn structured_data_is_reserialized_minimally() {
    let out = compact_output("{\n  \"a\": [1, 2],\n  \"b\": \"x y\"\n}");
    assert_eq!(out, "{\"a\":[1,2],\"b\":\"x y\"}");
}

#[test]
fn control_character_inside_string_is_repaired() {
    let out = compact_output("{\"k\":  \"v \n w\"}");
    assert_eq!(out, "{\"k\":\"v \\n w\"}");
}

#[test]
fn other_control_characters_inside_strings_are_dropped() {
    let out = compact_output("{\"k\": \"a\u{1}b\"}");
    assert_eq!(out, "{\"k\":\"ab\"}");
}

#[test]
fn markup_fallback_strips_whitespace_after_tag_ends() {
    let out = compact_output("<div>\n  <p>x</p>\n</div>");
    assert_eq!(out, "<div><p>x</p></div>");
}

#[test]
fn markup_fallback_keeps_whitespace_before_tags() {
    let out = compact_output("<p>a </p>");
    assert_eq!(out, "<p>a </p>");
}

#[test]
fn whitespace_only_input_compacts_to_nothing() {
    assert_eq!(compact_output("  \n\t "), "");
    assert_eq!(compact_output(""), "");
}

#[test]
fn compaction_is_idempotent_on_structured_output() {
    let once = compact_output("{ \"a\" : 1 }");
    let twice = compact_output(&once);
    assert_eq!(once, twice);
}

#[test]
fn compaction_is_idempotent_on_markup_output() {
    let once = compact_output("<div>\n  <p>x</p>\n</div>");
    let twice = compact_output(&once);
    assert_eq!(once, twice);
}

#[test]
fn compact_flag_applies_to_whole_pipeline_output() {
    let html = "<div><p> x </p></div>";
    let c = HqConfig { selector: "div".to_string(), compact: true, ..Default::default() };
    let out = process_html(html, &c).unwrap();
    assert_eq!(out, "<div><p>x </p></div>");
}
