use md2html::document::Stylesheet;
use md2html::document::assemble;

#[test]
fn assemble_no_css_exact() {
    let doc = assemble("<p>hi</p>", "T", &Stylesheet::Absent);
    assert_eq!(
        doc,
        "<!DOCTYPE html>\n<html lang=\"en\">\n<head>\n<meta charset=\"UTF-8\">\n<title>T</title>\n</head>\n<body>\n<p>hi</p>\n</body>\n</html>\n"
    );
}

#[test]
fn assemble_has_one_head_and_one_body() {
    let doc = assemble("<p>hi</p>", "T", &Stylesheet::Absent);
    assert_eq!(doc.matches("<head>").count(), 1);
    assert_eq!(doc.matches("<body>").count(), 1);
}

#[test]
fn css_inline_embeds_style_block() {
    let doc = assemble("<p>x</p>", "T", &Stylesheet::Inline("body{color:red}".to_string()));
    assert!(doc.contains("<style>\nbody{color:red}\n</style>"));
    assert!(!doc.contains("<link"));
}

#[test]
fn css_linked_emits_link_tag() {
    let doc = assemble("<p>x</p>", "T", &Stylesheet::Linked("missing.css".to_string()));
    assert!(doc.contains("<link rel=\"stylesheet\" href=\"missing.css\">"));
    assert!(!doc.contains("<style>"));
}

#[test]
fn body_fragment_is_verbatim() {
    let body = "<p>a &amp; b</p>\n<pre>  keep\twhitespace </pre>";
    let doc = assemble(body, "T", &Stylesheet::Absent);
    assert!(doc.contains(body));
}

#[test]
fn title_is_verbatim() {
    let doc = assemble("<p>x</p>", "my & title", &Stylesheet::Absent);
    assert!(doc.contains("<title>my & title</title>\n"));
}
