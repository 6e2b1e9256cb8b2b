use vstd::prelude::*;

verus! {

/// How a stylesheet enters the document: not at all, embedded inline
/// (the CSS text itself), or as a link to a path.
pub enum Stylesheet {
    Absent,
    Inline(String),
    Linked(String),
}

pub open spec fn doc_preamble() -> Seq<char> {
    "<!DOCTYPE html>\n<html lang=\"en\">\n<head>\n<meta charset=\"UTF-8\">\n<title>"@
}

pub open spec fn title_close() -> Seq<char> {
    "</title>\n"@
}

pub open spec fn head_close() -> Seq<char> {
    "</head>\n<body>\n"@
}

pub open spec fn doc_close() -> Seq<char> {
    "\n</body>\n</html>\n"@
}

/// The markup a stylesheet choice contributes to the head: nothing, a
/// style block holding the CSS text, or a link tag naming the path.
pub open spec fn style_markup(css: Stylesheet) -> Seq<char> {
    match css {
        Stylesheet::Absent => Seq::empty(),
        Stylesheet::Inline(content) => "<style>\n"@ + content@ + "\n</style>\n"@,
        Stylesheet::Linked(path) => "<link rel=\"stylesheet\" href=\""@ + path@ + "\">\n"@,
    }
}

/// The complete document: fixed skeleton, the title and the body fragment
/// taken verbatim, the stylesheet markup between them.
pub open spec fn document_of(body: Seq<char>, title: Seq<char>, css: Stylesheet) -> Seq<char> {
    doc_preamble() + title + title_close() + style_markup(css) + head_close() + body + doc_close()
}

/// Wraps a body fragment into a complete HTML document. The title and the
/// body are inserted verbatim, unescaped.
pub fn assemble(body: &str, title: &str, css: &Stylesheet) -> (doc: String)
    ensures
        doc@ == document_of(body@, title@, *css),
{
    let mut doc = String::new();
    doc.append("<!DOCTYPE html>\n<html lang=\"en\">\n<head>\n<meta charset=\"UTF-8\">\n<title>");
    doc.append(title);
    doc.append("</title>\n");
    match css {
        Stylesheet::Absent => {},
        Stylesheet::Inline(content) => {
            doc.append("<style>\n");
            doc.append(content.as_str());
            doc.append("\n</style>\n");
        },
        Stylesheet::Linked(path) => {
            doc.append("<link rel=\"stylesheet\" href=\"");
            doc.append(path.as_str());
            doc.append("\">\n");
        },
    }
    doc.append("</head>\n<body>\n");
    doc.append(body);
    doc.append("\n</body>\n</html>\n");
    proof {
        assert(doc@ =~= document_of(body@, title@, *css));
    }
    doc
}


/// `p` occurs in `s` at position `i`.
pub open spec fn occurs_at(s: Seq<char>, p: Seq<char>, i: int) -> bool {
    0 <= i && i + p.len() <= s.len() && s.subrange(i, i + p.len()) == p
}

pub open spec fn head_tag() -> Seq<char> {
    "<head>"@
}

pub open spec fn body_tag() -> Seq<char> {
    "<body>"@
}

/// The fixed markup that stands between the title and the body fragment.
pub open spec fn mid_markup() -> Seq<char> {
    title_close() + head_close()
}

/// A single differing character refutes an occurrence.
proof fn lemma_mismatch(s: Seq<char>, p: Seq<char>, i: int, j: int)
    requires
        0 <= j < p.len(),
        0 <= i,
        i + j < s.len(),
        s[i + j] != p[j],
    ensures
        !occurs_at(s, p, i),
{
    if occurs_at(s, p, i) {
        assert(s.subrange(i, i + p.len())[j] == s[i + j]);
    }
}

/// Every character of an occurrence agrees with the pattern.
proof fn lemma_occurs_char(s: Seq<char>, p: Seq<char>, i: int, j: int)
    requires
        occurs_at(s, p, i),
        0 <= j < p.len(),
    ensures
        0 <= i + j < s.len(),
        s[i + j] == p[j],
{
    assert(s.subrange(i, i + p.len())[j] == s[i + j]);
}

/// An occurrence in a concatenation lies in the left part, lies in the
/// right part, or straddles the boundary.
proof fn lemma_occurs_concat(a: Seq<char>, b: Seq<char>, p: Seq<char>, i: int)
    requires
        occurs_at(a + b, p, i),
        p.len() > 0,
    ensures
        occurs_at(a, p, i) || occurs_at(b, p, i - a.len()) || (i < a.len() && a.len() < i
            + p.len()),
{
    if i + p.len() <= a.len() {
        assert(a.subrange(i, i + p.len()) =~= (a + b).subrange(i, i + p.len()));
    } else if a.len() <= i {
        assert(b.subrange(i - a.len(), i - a.len() + p.len()) =~= (a + b).subrange(
            i,
            i + p.len(),
        ));
    }
}

proof fn lemma_preamble_scan_head(i: int)
    ensures
        occurs_at(doc_preamble(), head_tag(), i) ==> i == 33,
{
    reveal_strlit("<!DOCTYPE html>\n<html lang=\"en\">\n<head>\n<meta charset=\"UTF-8\">\n<title>");
    reveal_strlit("<head>");
    let s = doc_preamble();
    let p = head_tag();
    if 0 <= i && i + 6 <= 70 && i != 33 {
        lemma_mismatch(s, p, 0, 1);
        lemma_mismatch(s, p, 1, 0);
        lemma_mismatch(s, p, 2, 0);
        lemma_mismatch(s, p, 3, 0);
        lemma_mismatch(s, p, 4, 0);
        lemma_mismatch(s, p, 5, 0);
        lemma_mismatch(s, p, 6, 0);
        lemma_mismatch(s, p, 7, 0);
        lemma_mismatch(s, p, 8, 0);
        lemma_mismatch(s, p, 9, 0);
        lemma_mismatch(s, p, 10, 0);
        lemma_mismatch(s, p, 11, 0);
        lemma_mismatch(s, p, 12, 0);
        lemma_mismatch(s, p, 13, 0);
        lemma_mismatch(s, p, 14, 0);
        lemma_mismatch(s, p, 15, 0);
        lemma_mismatch(s, p, 16, 2);
        lemma_mismatch(s, p, 17, 0);
        lemma_mismatch(s, p, 18, 0);
        lemma_mismatch(s, p, 19, 0);
        lemma_mismatch(s, p, 20, 0);
        lemma_mismatch(s, p, 21, 0);
        lemma_mismatch(s, p, 22, 0);
        lemma_mismatch(s, p, 23, 0);
        lemma_mismatch(s, p, 24, 0);
        lemma_mismatch(s, p, 25, 0);
        lemma_mismatch(s, p, 26, 0);
        lemma_mismatch(s, p, 27, 0);
        lemma_mismatch(s, p, 28, 0);
        lemma_mismatch(s, p, 29, 0);
        lemma_mismatch(s, p, 30, 0);
        lemma_mismatch(s, p, 31, 0);
        lemma_mismatch(s, p, 32, 0);
        lemma_mismatch(s, p, 34, 0);
        lemma_mismatch(s, p, 35, 0);
        lemma_mismatch(s, p, 36, 0);
        lemma_mismatch(s, p, 37, 0);
        lemma_mismatch(s, p, 38, 0);
        lemma_mismatch(s, p, 39, 0);
        lemma_mismatch(s, p, 40, 1);
        lemma_mismatch(s, p, 41, 0);
        lemma_mismatch(s, p, 42, 0);
        lemma_mismatch(s, p, 43, 0);
        lemma_mismatch(s, p, 44, 0);
        lemma_mismatch(s, p, 45, 0);
        lemma_mismatch(s, p, 46, 0);
        lemma_mismatch(s, p, 47, 0);
        lemma_mismatch(s, p, 48, 0);
        lemma_mismatch(s, p, 49, 0);
        lemma_mismatch(s, p, 50, 0);
        lemma_mismatch(s, p, 51, 0);
        lemma_mismatch(s, p, 52, 0);
        lemma_mismatch(s, p, 53, 0);
        lemma_mismatch(s, p, 54, 0);
        lemma_mismatch(s, p, 55, 0);
        lemma_mismatch(s, p, 56, 0);
        lemma_mismatch(s, p, 57, 0);
        lemma_mismatch(s, p, 58, 0);
        lemma_mismatch(s, p, 59, 0);
        lemma_mismatch(s, p, 60, 0);
        lemma_mismatch(s, p, 61, 0);
        lemma_mismatch(s, p, 62, 0);
        lemma_mismatch(s, p, 63, 1);
        lemma_mismatch(s, p, 64, 0);
        assert(!occurs_at(s, p, i));
    }
}

proof fn lemma_preamble_scan_body(i: int)
    ensures
        !occurs_at(doc_preamble(), body_tag(), i),
{
    reveal_strlit("<!DOCTYPE html>\n<html lang=\"en\">\n<head>\n<meta charset=\"UTF-8\">\n<title>");
    reveal_strlit("<body>");
    let s = doc_preamble();
    let p = body_tag();
    if 0 <= i && i + 6 <= 70 {
        lemma_mismatch(s, p, 0, 1);
        lemma_mismatch(s, p, 1, 0);
        lemma_mismatch(s, p, 2, 0);
        lemma_mismatch(s, p, 3, 0);
        lemma_mismatch(s, p, 4, 0);
        lemma_mismatch(s, p, 5, 0);
        lemma_mismatch(s, p, 6, 0);
        lemma_mismatch(s, p, 7, 0);
        lemma_mismatch(s, p, 8, 0);
        lemma_mismatch(s, p, 9, 0);
        lemma_mismatch(s, p, 10, 0);
        lemma_mismatch(s, p, 11, 0);
        lemma_mismatch(s, p, 12, 0);
        lemma_mismatch(s, p, 13, 0);
        lemma_mismatch(s, p, 14, 0);
        lemma_mismatch(s, p, 15, 0);
        lemma_mismatch(s, p, 16, 1);
        lemma_mismatch(s, p, 17, 0);
        lemma_mismatch(s, p, 18, 0);
        lemma_mismatch(s, p, 19, 0);
        lemma_mismatch(s, p, 20, 0);
        lemma_mismatch(s, p, 21, 0);
        lemma_mismatch(s, p, 22, 0);
        lemma_mismatch(s, p, 23, 0);
        lemma_mismatch(s, p, 24, 0);
        lemma_mismatch(s, p, 25, 0);
        lemma_mismatch(s, p, 26, 0);
        lemma_mismatch(s, p, 27, 0);
        lemma_mismatch(s, p, 28, 0);
        lemma_mismatch(s, p, 29, 0);
        lemma_mismatch(s, p, 30, 0);
        lemma_mismatch(s, p, 31, 0);
        lemma_mismatch(s, p, 32, 0);
        lemma_mismatch(s, p, 33, 1);
        lemma_mismatch(s, p, 34, 0);
        lemma_mismatch(s, p, 35, 0);
        lemma_mismatch(s, p, 36, 0);
        lemma_mismatch(s, p, 37, 0);
        lemma_mismatch(s, p, 38, 0);
        lemma_mismatch(s, p, 39, 0);
        lemma_mismatch(s, p, 40, 1);
        lemma_mismatch(s, p, 41, 0);
        lemma_mismatch(s, p, 42, 0);
        lemma_mismatch(s, p, 43, 0);
        lemma_mismatch(s, p, 44, 0);
        lemma_mismatch(s, p, 45, 0);
        lemma_mismatch(s, p, 46, 0);
        lemma_mismatch(s, p, 47, 0);
        lemma_mismatch(s, p, 48, 0);
        lemma_mismatch(s, p, 49, 0);
        lemma_mismatch(s, p, 50, 0);
        lemma_mismatch(s, p, 51, 0);
        lemma_mismatch(s, p, 52, 0);
        lemma_mismatch(s, p, 53, 0);
        lemma_mismatch(s, p, 54, 0);
        lemma_mismatch(s, p, 55, 0);
        lemma_mismatch(s, p, 56, 0);
        lemma_mismatch(s, p, 57, 0);
        lemma_mismatch(s, p, 58, 0);
        lemma_mismatch(s, p, 59, 0);
        lemma_mismatch(s, p, 60, 0);
        lemma_mismatch(s, p, 61, 0);
        lemma_mismatch(s, p, 62, 0);
        lemma_mismatch(s, p, 63, 1);
        lemma_mismatch(s, p, 64, 0);
        assert(!occurs_at(s, p, i));
    }
}

proof fn lemma_mid_scan_head(i: int)
    ensures
        !occurs_at(mid_markup(), head_tag(), i),
{
    reveal_strlit("</title>\n");
    reveal_strlit("</head>\n<body>\n");
    reveal_strlit("<head>");
    let s = mid_markup();
    let p = head_tag();
    if 0 <= i && i + 6 <= 24 {
        lemma_mismatch(s, p, 0, 1);
        lemma_mismatch(s, p, 1, 0);
        lemma_mismatch(s, p, 2, 0);
        lemma_mismatch(s, p, 3, 0);
        lemma_mismatch(s, p, 4, 0);
        lemma_mismatch(s, p, 5, 0);
        lemma_mismatch(s, p, 6, 0);
        lemma_mismatch(s, p, 7, 0);
        lemma_mismatch(s, p, 8, 0);
        lemma_mismatch(s, p, 9, 1);
        lemma_mismatch(s, p, 10, 0);
        lemma_mismatch(s, p, 11, 0);
        lemma_mismatch(s, p, 12, 0);
        lemma_mismatch(s, p, 13, 0);
        lemma_mismatch(s, p, 14, 0);
        lemma_mismatch(s, p, 15, 0);
        lemma_mismatch(s, p, 16, 0);
        lemma_mismatch(s, p, 17, 1);
        lemma_mismatch(s, p, 18, 0);
        assert(!occurs_at(s, p, i));
    }
}

proof fn lemma_mid_scan_body(i: int)
    ensures
        occurs_at(mid_markup(), body_tag(), i) ==> i == 17,
{
    reveal_strlit("</title>\n");
    reveal_strlit("</head>\n<body>\n");
    reveal_strlit("<body>");
    let s = mid_markup();
    let p = body_tag();
    if 0 <= i && i + 6 <= 24 && i != 17 {
        lemma_mismatch(s, p, 0, 1);
        lemma_mismatch(s, p, 1, 0);
        lemma_mismatch(s, p, 2, 0);
        lemma_mismatch(s, p, 3, 0);
        lemma_mismatch(s, p, 4, 0);
        lemma_mismatch(s, p, 5, 0);
        lemma_mismatch(s, p, 6, 0);
        lemma_mismatch(s, p, 7, 0);
        lemma_mismatch(s, p, 8, 0);
        lemma_mismatch(s, p, 9, 1);
        lemma_mismatch(s, p, 10, 0);
        lemma_mismatch(s, p, 11, 0);
        lemma_mismatch(s, p, 12, 0);
        lemma_mismatch(s, p, 13, 0);
        lemma_mismatch(s, p, 14, 0);
        lemma_mismatch(s, p, 15, 0);
        lemma_mismatch(s, p, 16, 0);
        lemma_mismatch(s, p, 18, 0);
        assert(!occurs_at(s, p, i));
    }
}

proof fn lemma_close_scan_head(i: int)
    ensures
        !occurs_at(doc_close(), head_tag(), i),
{
    reveal_strlit("\n</body>\n</html>\n");
    reveal_strlit("<head>");
    let s = doc_close();
    let p = head_tag();
    if 0 <= i && i + 6 <= 17 {
        lemma_mismatch(s, p, 0, 0);
        lemma_mismatch(s, p, 1, 1);
        lemma_mismatch(s, p, 2, 0);
        lemma_mismatch(s, p, 3, 0);
        lemma_mismatch(s, p, 4, 0);
        lemma_mismatch(s, p, 5, 0);
        lemma_mismatch(s, p, 6, 0);
        lemma_mismatch(s, p, 7, 0);
        lemma_mismatch(s, p, 8, 0);
        lemma_mismatch(s, p, 9, 1);
        lemma_mismatch(s, p, 10, 0);
        lemma_mismatch(s, p, 11, 0);
        assert(!occurs_at(s, p, i));
    }
}

proof fn lemma_close_scan_body(i: int)
    ensures
        !occurs_at(doc_close(), body_tag(), i),
{
    reveal_strlit("\n</body>\n</html>\n");
    reveal_strlit("<body>");
    let s = doc_close();
    let p = body_tag();
    if 0 <= i && i + 6 <= 17 {
        lemma_mismatch(s, p, 0, 0);
        lemma_mismatch(s, p, 1, 1);
        lemma_mismatch(s, p, 2, 0);
        lemma_mismatch(s, p, 3, 0);
        lemma_mismatch(s, p, 4, 0);
        lemma_mismatch(s, p, 5, 0);
        lemma_mismatch(s, p, 6, 0);
        lemma_mismatch(s, p, 7, 0);
        lemma_mismatch(s, p, 8, 0);
        lemma_mismatch(s, p, 9, 1);
        lemma_mismatch(s, p, 10, 0);
        lemma_mismatch(s, p, 11, 0);
        assert(!occurs_at(s, p, i));
    }
}

/// In a document with no stylesheet, an occurrence of either tag can only
/// lie inside one of the two fixed literals that carry them, never in the
/// title, in the body fragment, in the closing markup, or across a seam.
proof fn lemma_doc_occurrence(body: Seq<char>, title: Seq<char>, p: Seq<char>, i: int)
    requires
        occurs_at(document_of(body, title, Stylesheet::Absent), p, i),
        p == head_tag() || p == body_tag(),
        forall|k: int| !occurs_at(title, p, k),
        forall|k: int| !occurs_at(body, p, k),
    ensures
        occurs_at(doc_preamble(), p, i) || occurs_at(
            mid_markup(),
            p,
            i - doc_preamble().len() - title.len(),
        ),
{
    reveal_strlit("<!DOCTYPE html>\n<html lang=\"en\">\n<head>\n<meta charset=\"UTF-8\">\n<title>");
    reveal_strlit("</title>\n");
    reveal_strlit("</head>\n<body>\n");
    reveal_strlit("\n</body>\n</html>\n");
    reveal_strlit("<head>");
    reveal_strlit("<body>");
    let a2 = doc_preamble();
    let d1 = a2 + title;
    let d2 = d1 + mid_markup();
    let d3 = d2 + body;
    let close = doc_close();
    let doc = document_of(body, title, Stylesheet::Absent);
    assert(doc =~= d3 + close);
    assert(p.len() == 6 && p[0] == '<');
    assert(p[1] != '<' && p[2] != '<' && p[3] != '<' && p[4] != '<' && p[5] != '<');
    assert(p[1] != '\n' && p[2] != '\n' && p[3] != '\n' && p[4] != '\n' && p[5] != '\n');
    assert(occurs_at(d3 + close, p, i));
    lemma_occurs_concat(d3, close, p, i);
    if occurs_at(d3, p, i) {
        lemma_occurs_concat(d2, body, p, i);
        if occurs_at(d2, p, i) {
            lemma_occurs_concat(d1, mid_markup(), p, i);
            if occurs_at(d1, p, i) {
                lemma_occurs_concat(a2, title, p, i);
                if occurs_at(a2, p, i) {
                    // lands in the preamble
                } else if occurs_at(title, p, i - a2.len()) {
                    assert(false);
                } else {
                    // would straddle the preamble/title seam: the pattern's
                    // opening '<' would have to sit in the preamble's tail
                    lemma_occurs_char(d1, p, i, 0);
                    assert(d1[i] == a2[i]);
                    assert(false);
                }
            } else if occurs_at(mid_markup(), p, i - d1.len()) {
                // lands in the markup between title and body
            } else {
                // would straddle the title/mid seam: a pattern character
                // past the first would have to be mid's opening '<'
                let j = d1.len() - i;
                lemma_occurs_char(d2, p, i, j);
                assert(d2[d1.len() as int] == mid_markup()[0]);
                assert(false);
            }
        } else if occurs_at(body, p, i - d2.len()) {
            assert(false);
        } else {
            // would straddle the mid/body seam: the pattern's opening '<'
            // would have to sit in mid's tail
            lemma_occurs_char(d3, p, i, 0);
            assert(d3[i] == d2[i]);
            assert(d2[i] == mid_markup()[i - d1.len()]);
            assert(false);
        }
    } else if occurs_at(close, p, i - d3.len()) {
        if p == head_tag() {
            lemma_close_scan_head(i - d3.len());
        } else {
            lemma_close_scan_body(i - d3.len());
        }
        assert(false);
    } else {
        // would straddle the body/close seam: a pattern character past the
        // first would have to be close's leading newline
        let j = d3.len() - i;
        lemma_occurs_char(d3 + close, p, i, j);
        assert((d3 + close)[d3.len() as int] == close[0]);
        assert(false);
    }
}

/// With no stylesheet the assembled document is the fixed skeleton around
/// the title and the body: the body fragment sits in it verbatim, at one
/// known offset, with nothing escaped or altered.
pub proof fn lemma_body_verbatim(body: Seq<char>, title: Seq<char>)
    ensures
        ({
            let doc = document_of(body, title, Stylesheet::Absent);
            let start: int = doc_preamble().len() as int + title.len() + title_close().len()
                + head_close().len();
            &&& doc.len() == start + body.len() + doc_close().len()
            &&& doc.subrange(start, start + body.len()) == body
        }),
{
    let doc = document_of(body, title, Stylesheet::Absent);
    let start: int = doc_preamble().len() as int + title.len() + title_close().len() + head_close().len();
    assert(doc.subrange(start, start + body.len()) =~= body);
}

/// A document with no stylesheet holds exactly one `<head>` and exactly
/// one `<body>` opening tag, the skeleton's own, provided the title and
/// the body fragment do not themselves contain those tags.
pub proof fn lemma_single_head_single_body(body: Seq<char>, title: Seq<char>)
    requires
        forall|k: int| !occurs_at(title, head_tag(), k),
        forall|k: int| !occurs_at(body, head_tag(), k),
        forall|k: int| !occurs_at(title, body_tag(), k),
        forall|k: int| !occurs_at(body, body_tag(), k),
    ensures
        ({
            let doc = document_of(body, title, Stylesheet::Absent);
            &&& occurs_at(doc, head_tag(), 33)
            &&& forall|i: int| occurs_at(doc, head_tag(), i) ==> i == 33
            &&& occurs_at(doc, body_tag(), doc_preamble().len() as int + title.len() + 17)
            &&& forall|i: int|
                occurs_at(doc, body_tag(), i) ==> i == doc_preamble().len() as int + title.len() + 17
        }),
{
    reveal_strlit("<!DOCTYPE html>\n<html lang=\"en\">\n<head>\n<meta charset=\"UTF-8\">\n<title>");
    reveal_strlit("</title>\n");
    reveal_strlit("</head>\n<body>\n");
    reveal_strlit("\n</body>\n</html>\n");
    reveal_strlit("<head>");
    reveal_strlit("<body>");
    let doc = document_of(body, title, Stylesheet::Absent);
    let a2 = doc_preamble();
    let pb: int = a2.len() as int + title.len() + 17;
    assert(occurs_at(doc, head_tag(), 33)) by {
        assert(doc.subrange(33, 39) =~= head_tag());
    }
    assert(occurs_at(doc, body_tag(), pb)) by {
        assert(doc.subrange(pb, pb + 6) =~= body_tag());
    }
    assert forall|i: int| occurs_at(doc, head_tag(), i) implies i == 33 by {
        lemma_doc_occurrence(body, title, head_tag(), i);
        if occurs_at(doc_preamble(), head_tag(), i) {
            lemma_preamble_scan_head(i);
        } else {
            lemma_mid_scan_head(i - a2.len() - title.len());
        }
    }
    assert forall|i: int| occurs_at(doc, body_tag(), i) implies i == pb by {
        lemma_doc_occurrence(body, title, body_tag(), i);
        if occurs_at(doc_preamble(), body_tag(), i) {
            lemma_preamble_scan_body(i);
        } else {
            lemma_mid_scan_body(i - a2.len() - title.len());
        }
    }
}

} // verus!
