use md2html::batch::BatchError;
use md2html::batch::build_document;
use md2html::batch::choose_stylesheet;
use md2html::batch::effective_title;
use md2html::batch::make_jobs;
use md2html::document::Stylesheet;
use md2html::document::assemble;

#[test]
fn mismatched_counts_are_an_argument_error() {
    let inputs = vec!["a.md".to_string(), "b.md".to_string()];
    let outputs = vec!["a.html".to_string()];
    let r = make_jobs(&inputs, &outputs);
    assert!(matches!(r, Err(BatchError::CountMismatch)));
}

#[test]
fn matched_counts_pair_by_position() {
    let inputs = vec!["a.md".to_string(), "b.md".to_string()];
    let outputs = vec!["a.html".to_string(), "b.html".to_string()];
    let jobs = make_jobs(&inputs, &outputs).unwrap();
    assert_eq!(jobs.len(), 2);
    assert_eq!(jobs[0].input, "a.md");
    assert_eq!(jobs[0].output, "a.html");
    assert_eq!(jobs[1].input, "b.md");
    assert_eq!(jobs[1].output, "b.html");
}

#[test]
fn empty_job_list_is_fine() {
    let jobs = make_jobs(&Vec::new(), &Vec::new()).unwrap();
    assert_eq!(jobs.len(), 0);
}

#[test]
fn explicit_title_wins() {
    assert_eq!(effective_title(Some("Doc"), "in.md"), "Doc");
}

#[test]
fn title_defaults_to_input_path() {
    assert_eq!(effective_title(None, "in.md"), "in.md");
}

#[test]
fn document_title_defaults_to_input_path() {
    let doc = build_document("# Hi\n", "in.md", None, &Stylesheet::Absent);
    assert!(doc.contains("<title>in.md</title>\n"));
}

#[test]
fn stylesheet_absent_without_path() {
    let s = choose_stylesheet(None, None);
    assert!(matches!(s, Stylesheet::Absent));
}

#[test]
fn stylesheet_inlines_readable_css() {
    let s = choose_stylesheet(Some("style.css".to_string()), Some("body{color:red}".to_string()));
    match s {
        Stylesheet::Inline(content) => assert_eq!(content, "body{color:red}"),
        _ => panic!("expected inline stylesheet"),
    }
}

#[test]
fn stylesheet_links_unreadable_css() {
    let s = choose_stylesheet(Some("missing.css".to_string()), None);
    match s {
        Stylesheet::Linked(path) => assert_eq!(path, "missing.css"),
        _ => panic!("expected linked stylesheet"),
    }
}

#[test]
fn heading_and_strikethrough_convert() {
    let doc = build_document("# Hello\n~~strike~~", "in.md", None, &Stylesheet::Absent);
    assert!(doc.contains("<h1>Hello</h1>"));
    assert!(doc.contains("<del>strike</del>"));
    assert!(doc.starts_with("<!DOCTYPE html>\n<html lang=\"en\">\n<head>\n"));
    assert!(doc.ends_with("\n</body>\n</html>\n"));
    assert_eq!(doc.matches("<head>").count(), 1);
    assert_eq!(doc.matches("<body>").count(), 1);
}

#[test]
fn rendered_body_passes_through_unchanged() {
    let doc = build_document("# Hello\n~~strike~~", "in.md", None, &Stylesheet::Absent);
    let start = doc.find("<body>\n").unwrap() + "<body>\n".len();
    let end = doc.rfind("\n</body>").unwrap();
    let body = &doc[start..end];
    let rebuilt = assemble(body, "in.md", &Stylesheet::Absent);
    assert_eq!(doc, rebuilt);
}
