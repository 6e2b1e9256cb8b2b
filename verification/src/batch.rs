use vstd::prelude::*;

use crate::convert::html_of;
use crate::convert::markdown_to_html;
use crate::document::Stylesheet;
use crate::document::assemble;
use crate::document::document_of;

verus! {

/// One conversion job: an input Markdown path paired with an output HTML path.
pub struct Job {
    pub input: String,
    pub output: String,
}

/// The argument errors the batch driver itself detects.
#[derive(Debug)]
pub enum BatchError {
    CountMismatch,
}

/// Pairs input and output paths by position. Unequal counts are an argument
/// error, and then no job at all is made.
pub fn make_jobs(inputs: &Vec<String>, outputs: &Vec<String>) -> (r: Result<Vec<Job>, BatchError>)
    ensures
        r is Ok <==> inputs@.len() == outputs@.len(),
        r matches Ok(jobs) ==> jobs@.len() == inputs@.len() && (forall|i: int|
            0 <= i < jobs@.len() ==> (#[trigger] jobs@[i]).input@ == inputs@[i]@
                && jobs@[i].output@ == outputs@[i]@),
        r matches Err(e) ==> e is CountMismatch,
{
    if inputs.len() != outputs.len() {
        return Err(BatchError::CountMismatch);
    }
    let mut jobs: Vec<Job> = Vec::new();
    let mut i: usize = 0;
    while i < inputs.len()
        invariant
            i <= inputs@.len(),
            inputs@.len() == outputs@.len(),
            jobs@.len() == i,
            forall|k: int|
                0 <= k < i ==> (#[trigger] jobs@[k]).input@ == inputs@[k]@
                    && jobs@[k].output@ == outputs@[k]@,
        decreases inputs@.len() - i,
    {
        jobs.push(Job { input: inputs[i].clone(), output: outputs[i].clone() });
        i += 1;
    }
    Ok(jobs)
}

/// The title a job's document carries: the explicit title if one was given,
/// the job's input path otherwise.
pub open spec fn title_of(title: Option<&str>, input_path: &str) -> Seq<char> {
    match title {
        Option::Some(t) => t@,
        Option::None => input_path@,
    }
}

pub fn effective_title<'a>(title: Option<&'a str>, input_path: &'a str) -> (t: &'a str)
    ensures
        t@ == title_of(title, input_path),
{
    match title {
        Option::Some(t) => t,
        Option::None => input_path,
    }
}

/// The stylesheet policy: no path means no style markup; a path whose text
/// could be read is embedded inline; an unreadable path degrades silently
/// to a link naming it.
pub fn choose_stylesheet(css_path: Option<String>, css_read: Option<String>) -> (s: Stylesheet)
    ensures
        (match (css_path, css_read) {
            (Option::None, _) => s is Absent,
            (Option::Some(p), Option::Some(c)) => s matches Stylesheet::Inline(content)
                && content@ == c@,
            (Option::Some(p), Option::None) => s matches Stylesheet::Linked(q) && q@ == p@,
        }),
{
    match css_path {
        Option::None => Stylesheet::Absent,
        Option::Some(p) => match css_read {
            Option::Some(c) => Stylesheet::Inline(c),
            Option::None => Stylesheet::Linked(p),
        },
    }
}

/// One job's whole computation: render the Markdown source, pick the
/// effective title, and assemble the complete document around the rendered
/// body, taken verbatim.
pub fn build_document(markdown: &str, input_path: &str, title: Option<&str>, css: &Stylesheet) -> (doc:
    String)
    ensures
        doc@ == document_of(html_of(markdown@), title_of(title, input_path), *css),
{
    let body = markdown_to_html(markdown);
    let doc_title = effective_title(title, input_path);
    assemble(body.as_str(), doc_title, css)
}

} // verus!
