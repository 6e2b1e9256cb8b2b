use vstd::prelude::*;

verus! {

/// What the Markdown engine renders for a given source text. The rendering
/// (CommonMark with the strikethrough extension) is a function of the source
/// alone, so it is given a name rather than restated.
pub uninterp spec fn html_of(markdown: Seq<char>) -> Seq<char>;

/// Relies on pulldown_cmark: `Parser::new_ext` with the strikethrough
/// extension enabled, drained into a string by `html::push_html`. The
/// rendered fragment depends on the Markdown source alone.
#[verifier::external_body]
pub(crate) fn markdown_to_html(markdown: &str) -> (html: String)
    ensures
        html@ == html_of(markdown@),
{
    let mut options = pulldown_cmark::Options::empty();
    options.insert(pulldown_cmark::Options::ENABLE_STRIKETHROUGH);
    let parser = pulldown_cmark::Parser::new_ext(markdown, options);
    let mut html = String::new();
    pulldown_cmark::html::push_html(&mut html, parser);
    html
}

} // verus!
