use ggsql_ext_rs::html::{standalone_html, HTML_HEAD, HTML_TAIL, SCRIPT_BREAK, SPEC_OPEN};

#[test]
fn document_layout() {
    let doc = standalone_html("{\"a\":1}", "VEGA", "VL", "EMBED");
    assert!(doc.starts_with("<!doctype html>\n<html lang=\"en\">\n<head>\n"));
    assert!(doc.contains("<script>VEGA</script>\n<script>VL</script>\n<script>EMBED</script>\n</head>"));
    assert!(doc.contains(
        "<script id=\"spec\" type=\"application/json\">{\"a\":1}</script>"
    ));
    assert!(doc.ends_with("</script>\n</body>\n</html>"));
    assert!(doc.contains("vegaEmbed(\"#vis\", spec, { renderer: \"canvas\", actions: true });"));
    assert!(doc.contains("#vis { flex: 1; min-height: 0; padding: 1rem; box-sizing: border-box; }"));
    let expected = format!(
        "{}VEGA{}VL{}EMBED{}{{\"a\":1}}{}",
        HTML_HEAD, SCRIPT_BREAK, SCRIPT_BREAK, SPEC_OPEN, HTML_TAIL
    );
    assert_eq!(doc, expected);
}

#[test]
fn script_close_in_spec_is_neutralised() {
    let doc = standalone_html("{\"t\":\"</script><b>\"}", "", "", "");
    assert!(doc.contains("{\"t\":\"<\\/script><b>\"}"));
    let start = doc.find("application/json\">").unwrap() + "application/json\">".len();
    let end = doc[start..].find("</script>").unwrap() + start;
    assert!(!doc[start..end].contains("</"));
}

#[test]
fn escaping_edge_cases() {
    let island = |s: &str| {
        let doc = standalone_html(s, "", "", "");
        let start = doc.find("application/json\">").unwrap() + "application/json\">".len();
        doc[start..doc.len() - HTML_TAIL.len()].to_string()
    };
    assert_eq!(island(""), "");
    assert_eq!(island("<"), "<");
    assert_eq!(island("/"), "/");
    assert_eq!(island("<</"), "<<\\/");
    assert_eq!(island("</</"), "<\\/<\\/");
    assert_eq!(island("a<b/c"), "a<b/c");
    assert_eq!(island("é</x"), "é<\\/x");
}

#[test]
fn document_grows_by_one_per_close_tag() {
    let base = standalone_html("", "V", "L", "E").len();
    for spec in ["", "{}", "</", "<</>/</", "</script></script>", "a</b</c"] {
        let doc = standalone_html(spec, "V", "L", "E");
        assert_eq!(doc.len(), base + spec.len() + spec.matches("</").count());
    }
}
