use hq::{HqConfig, HqError, process_html};

fn config_for(selector: &str) -> HqConfig {
    HqConfig { selector: selector.to_string(), ..Default::default() }
}

#[test]
fn default_config_selects_whole_document() {
    let c = HqConfig::default();
    assert_eq!(c.selector, ":root");
    assert!(c.base.is_none());
    assert!(!c.detect_base);
    assert!(!c.text_only);
    assert!(!c.ignore_whitespace);
    assert!(!c.pretty_print);
    assert!(c.remove_nodes.is_empty());
    assert!(c.attributes.is_empty());
    assert!(!c.compact);
}

#[test]
fn default_run_emits_whole_document() {
    let out = process_html("<p>x</p>", &HqConfig::default()).unwrap();
    assert_eq!(out, "<html><head></head><body><p>x</p></body></html>\n");
}

#[test]
fn raw_mode_emits_matched_markup_unchanged() {
    let html = r#"<div id="a">X<span> Y </span></div>"#;
    let out = process_html(html, &config_for("#a")).unwrap();
    assert_eq!(out, "<div id=\"a\">X<span> Y </span></div>\n");
}

#[test]
fn zero_matches_yield_empty_output() {
    let html = r#"<div id="a">X</div>"#;
    let out = process_html(html, &config_for("#nope")).unwrap();
    assert_eq!(out, "");
}

#[test]
fn zero_matches_yield_empty_output_even_compacted() {
    let html = r#"<div id="a">X</div>"#;
    let mut c = config_for("#nope");
    c.compact = true;
    let out = process_html(html, &c).unwrap();
    assert_eq!(out, "");
}

#[test]
fn invalid_selector_is_reported() {
    let html = "<p>x</p>";
    let err = process_html(html, &config_for("p[")).unwrap_err();
    assert_eq!(err, HqError::SelectorParse);
    assert_eq!(err.describe(), "Failed to parse CSS selector");
}

#[test]
fn text_mode_concatenates_without_separators() {
    let html = r#"<div id="a">X<span> Y </span></div>"#;
    let mut c = config_for("#a");
    c.text_only = true;
    let out = process_html(html, &c).unwrap();
    assert_eq!(out, "X Y \n");
}

#[test]
fn text_mode_ignoring_whitespace_terminates_each_chunk() {
    let html = r#"<div id="a">X<span> Y </span></div>"#;
    let mut c = config_for("#a");
    c.text_only = true;
    c.ignore_whitespace = true;
    let out = process_html(html, &c).unwrap();
    assert_eq!(out, "X\n Y \n\n");
}

#[test]
fn text_mode_ignoring_whitespace_drops_blank_chunks() {
    let html = "<div id=\"a\">X<span>  </span><b>Z</b></div>";
    let mut c = config_for("#a");
    c.text_only = true;
    c.ignore_whitespace = true;
    let out = process_html(html, &c).unwrap();
    assert_eq!(out, "X\nZ\n\n");
}

#[test]
fn relative_link_is_resolved_against_base() {
    let html = r#"<a href="/p">x</a>"#;
    let mut c = config_for("a");
    c.base = Some("https://e.com/d/".to_string());
    let out = process_html(html, &c).unwrap();
    assert_eq!(out, "<a href=\"https://e.com/p\">x</a>\n");
}

#[test]
fn absolute_link_is_left_byte_identical() {
    let html = r#"<a href="https://other.org/q?x=1">x</a>"#;
    let mut c = config_for("a");
    c.base = Some("https://e.com/d/".to_string());
    let out = process_html(html, &c).unwrap();
    assert_eq!(out, "<a href=\"https://other.org/q?x=1\">x</a>\n");
}

#[test]
fn empty_link_is_left_untouched() {
    let html = r#"<a href="">x</a>"#;
    let mut c = config_for("a");
    c.base = Some("https://e.com/d/".to_string());
    let out = process_html(html, &c).unwrap();
    assert_eq!(out, "<a href=\"\">x</a>\n");
}

#[test]
fn unparseable_base_skips_rewriting() {
    let html = r#"<a href="/p">x</a>"#;
    let mut c = config_for("a");
    c.base = Some("not a url".to_string());
    let out = process_html(html, &c).unwrap();
    assert_eq!(out, "<a href=\"/p\">x</a>\n");
}

#[test]
fn detected_base_wins_over_explicit() {
    let html = r#"<head><base href="https://detected.org/"></head><body><a href="/p">x</a></body>"#;
    let mut c = config_for("a");
    c.base = Some("https://explicit.org/".to_string());
    c.detect_base = true;
    let out = process_html(html, &c).unwrap();
    assert_eq!(out, "<a href=\"https://detected.org/p\">x</a>\n");
}

#[test]
fn detection_falls_back_to_explicit_base() {
    let html = r#"<a href="/p">x</a>"#;
    let mut c = config_for("a");
    c.base = Some("https://explicit.org/".to_string());
    c.detect_base = true;
    let out = process_html(html, &c).unwrap();
    assert_eq!(out, "<a href=\"https://explicit.org/p\">x</a>\n");
}

#[test]
fn src_attributes_are_rewritten_too() {
    let html = r#"<img src="i.png">"#;
    let mut c = config_for("img");
    c.base = Some("https://e.com/d/".to_string());
    let out = process_html(html, &c).unwrap();
    assert_eq!(out, "<img src=\"https://e.com/d/i.png\">\n");
}

#[test]
fn pruning_detaches_matching_subtrees() {
    let html = r#"<div id="a"><p>keep</p><script>drop()</script></div>"#;
    let mut c = config_for("#a");
    c.remove_nodes = vec!["script".to_string()];
    let out = process_html(html, &c).unwrap();
    assert_eq!(out, "<div id=\"a\"><p>keep</p></div>\n");
}

#[test]
fn pruning_joins_selectors_as_alternation() {
    let html = r#"<div id="a"><p>keep</p><script>s</script><style>t</style></div>"#;
    let mut c = config_for("#a");
    c.remove_nodes = vec!["script".to_string(), "style".to_string()];
    let out = process_html(html, &c).unwrap();
    assert_eq!(out, "<div id=\"a\"><p>keep</p></div>\n");
}

#[test]
fn pruning_is_idempotent_on_its_output() {
    let html = r#"<div id="a"><p>keep</p><script>s</script></div>"#;
    let mut c = config_for("#a");
    c.remove_nodes = vec!["script".to_string()];
    let once = process_html(html, &c).unwrap();
    let twice = process_html(&once, &c).unwrap();
    assert_eq!(once, twice);
}

#[test]
fn empty_remove_list_is_a_no_op() {
    let html = r#"<div id="a"><p>keep</p></div>"#;
    let c = config_for("#a");
    let out = process_html(html, &c).unwrap();
    assert_eq!(out, "<div id=\"a\"><p>keep</p></div>\n");
}

#[test]
fn attribute_mode_emits_one_line_per_present_value() {
    let html = r#"<div id="a"><a href="/x" title="t">l</a><a title="u">m</a></div>"#;
    let mut c = config_for("a");
    c.attributes = vec!["href".to_string(), "title".to_string()];
    let out = process_html(html, &c).unwrap();
    assert_eq!(out, "/x\nt\nu\n");
}

#[test]
fn attribute_mode_overrides_text_and_pretty_flags() {
    let html = r#"<a href="/x" title="t">y</a>"#;
    let mut plain = config_for("a");
    plain.attributes = vec!["href".to_string()];
    let mut flagged = config_for("a");
    flagged.attributes = vec!["href".to_string()];
    flagged.text_only = true;
    flagged.pretty_print = true;
    let out_plain = process_html(html, &plain).unwrap();
    let out_flagged = process_html(html, &flagged).unwrap();
    assert_eq!(out_plain, "/x\n");
    assert_eq!(out_flagged, out_plain);
}

#[test]
fn pretty_mode_indents_by_depth() {
    let html = "<div><p>x</p></div>";
    let mut c = config_for("div");
    c.pretty_print = true;
    let out = process_html(html, &c).unwrap();
    assert_eq!(out, "<div>\n  <p>\n    x\n  </p>\n</div>\n\n");
}

#[test]
fn pretty_mode_keeps_attributes() {
    let html = r#"<p class="c">x</p>"#;
    let mut c = config_for("p");
    c.pretty_print = true;
    let out = process_html(html, &c).unwrap();
    assert_eq!(out, "<p class=\"c\">\n  x\n</p>\n\n");
}

#[test]
fn pretty_mode_renders_comments() {
    let html = "<div><!--note--></div>";
    let mut c = config_for("div");
    c.pretty_print = true;
    let out = process_html(html, &c).unwrap();
    assert_eq!(out, "<div>\n  <!--note-->\n</div>\n\n");
}

#[test]
fn pretty_mode_escapes_text_and_attribute_values() {
    let html = "<p title=\"a&quot;b\">x &amp; y</p>";
    let mut c = config_for("p");
    c.pretty_print = true;
    let out = process_html(html, &c).unwrap();
    assert_eq!(out, "<p title=\"a&quot;b\">\n  x &amp; y\n</p>\n\n");
}

#[test]
fn multiple_matches_concatenate_in_document_order() {
    let html = "<ul><li>a</li><li>b</li></ul>";
    let out = process_html(html, &config_for("li")).unwrap();
    assert_eq!(out, "<li>a</li>\n<li>b</li>\n");
}
