//! The informational page: a Markdown document rendered to HTML and set
//! into a fixed frame.

use vstd::prelude::*;
use vstd::string::*;

verus! {

/// The page up to the rendered document.
pub const PAGE_HEAD: &'static str =
    "<!DOCTYPE html>\n<html>\n<head>\n    <title>Home</title>\n    <link rel=\"stylesheet\" type=\"text/css\" href=\"https://cdnjs.cloudflare.com/ajax/libs/normalize/8.0.0/normalize.min.css\" />\n    <style>\n    blockquote {\n        display: none;\n    }\n    </style>\n</head>\n<body>\n    <div style=\"max-width: 800px; margin: 0 auto; padding: 20px;\">\n        ";

/// The page after the rendered document.
pub const PAGE_TAIL: &'static str =
    "\n        <div>Index generated from README.md</div>\n    </div>\n</body>\n</html>";

/// The HTML that `pulldown_cmark` renders `markdown` to, with the
/// strikethrough extension switched on and every other extension off.
pub uninterp spec fn markdown_html(markdown: Seq<char>) -> Seq<char>;

/// Renders Markdown to HTML.
///
/// Trusted: parses `md` with `pulldown_cmark::Parser::new_ext`, with
/// `Options::ENABLE_STRIKETHROUGH` as the only option, and writes the
/// events with `pulldown_cmark::html::push_html` into an empty string. The
/// result depends on `md` alone; the contract gives it a name and says
/// nothing else of it.
#[verifier::external_body]
pub(crate) fn render_md_to_html(md: &str) -> (html_output: String)
    ensures
        html_output@ == markdown_html(md@),
{
    let mut options = pulldown_cmark::Options::empty();
    options.insert(pulldown_cmark::Options::ENABLE_STRIKETHROUGH);
    let parser = pulldown_cmark::Parser::new_ext(md, options);
    let mut html_output = String::new();
    pulldown_cmark::html::push_html(&mut html_output, parser);
    html_output
}

/// Sets `body` into the frame of the page: between the fixed head and
/// tail.
pub fn frame_page(body: &str) -> (page: String)
    ensures
        page@ == PAGE_HEAD@ + body@ + PAGE_TAIL@,
{
    let mut page = String::from_str(PAGE_HEAD);
    page.append(body);
    page.append(PAGE_TAIL);
    page
}

/// The informational page for the document `md`: the rendered document,
/// set into the frame.
pub fn index_html(md: &str) -> (page: String)
    ensures
        page@ == PAGE_HEAD@ + markdown_html(md@) + PAGE_TAIL@,
{
    let body = render_md_to_html(md);
    frame_page(body.as_str())
}

} // verus!
