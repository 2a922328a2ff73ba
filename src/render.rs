use vstd::prelude::*;

verus! {

/// The HTML that markdown's renderer makes of a document.
pub uninterp spec fn html_of(md: Seq<char>) -> Seq<char>;

/// Relies on markdown::to_html: renders with the default options, which
/// enable no MDX and so never fail; the result depends on the text alone.
#[verifier::external_body]
fn to_html(md: &str) -> (r: String)
    ensures
        r@ == html_of(md@),
{
    markdown::to_html(md)
}

/// Renders a markdown document as HTML.
pub fn render_html(md: &str) -> (r: String)
    ensures
        r@ == html_of(md@),
{
    to_html(md)
}

} // verus!
