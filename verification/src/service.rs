//! The two operations of the formatting service, as functions from what a
//! request held to what the reply holds.

use vstd::prelude::*;
use vstd::string::*;
use crate::error::FormatError;
use crate::cst::jinja_parse;
use crate::layout::layout;
use crate::parse::{format_template, shape_formattable, shape_items};

verus! {

/// A reply: a status code, the content type and the body.
#[derive(Debug, PartialEq, Eq)]
pub struct Reply {
    pub status: u16,
    pub content_type: String,
    pub body: String,
}

/// Status of a reply that carries what was asked for.
pub const STATUS_OK: u16 = 200;

/// Status of the reply to a request that is not well formed.
pub const STATUS_BAD_REQUEST: u16 = 400;

impl Reply {
    /// The reply is a plain text with status `status` and body `body`.
    pub open spec fn is_plain_text(&self, status: u16, body: Seq<char>) -> bool {
        &&& self.status == status
        &&& self.content_type@ == "text/plain"@
        &&& self.body@ == body
    }

    /// The reply is an HTML page with status `status` and body `body`.
    pub open spec fn is_html(&self, status: u16, body: Seq<char>) -> bool {
        &&& self.status == status
        &&& self.content_type@ == "text/html"@
        &&& self.body@ == body
    }
}

/// The reply to a request whose payload is not a valid envelope.
pub fn rejected() -> (reply: Reply)
    ensures
        reply.is_plain_text(STATUS_BAD_REQUEST, "Invalid request body JSON"@),
{
    Reply {
        status: STATUS_BAD_REQUEST,
        content_type: String::from_str("text/plain"),
        body: String::from_str("Invalid request body JSON"),
    }
}

/// The reply that carries a formatted template.
pub fn formatted(text: String) -> (reply: Reply)
    ensures
        reply.is_plain_text(STATUS_OK, text@),
{
    Reply { status: STATUS_OK, content_type: String::from_str("text/plain"), body: text }
}

/// Answers a request to format a template. `input` is the template that
/// the payload held, or `None` where the payload was not a valid envelope.
///
/// A payload that is not an envelope is rejected. A template is parsed
/// and formatted: where the parser gives a tree that can be formatted, the
/// reply carries its layout as plain text; otherwise there is no reply,
/// and the error says whether the parser gave no tree or the tree cannot
/// be formatted.
pub fn format_jinja(input: Option<&str>) -> (answer: Result<Reply, FormatError>)
    ensures
        input is None ==> answer is Ok && answer->Ok_0.is_plain_text(
            STATUS_BAD_REQUEST,
            "Invalid request body JSON"@,
        ),
        input matches Some(template) ==> match jinja_parse(template@) {
            Ok(shape) => if shape_formattable(shape, template.spec_bytes()) {
                answer matches Ok(reply) && reply.is_plain_text(
                    STATUS_OK,
                    layout(shape_items(shape, template.spec_bytes())),
                )
            } else {
                answer matches Err(e) && e == FormatError::Unformattable
            },
            Err(error) => answer matches Err(e) && e == error,
        },
{
    match input {
        None => Ok(rejected()),
        Some(template) => match format_template(template) {
            Ok(text) => Ok(formatted(text)),
            Err(error) => Err(error),
        },
    }
}

/// Answers a request for the informational page with `page`.
pub fn index(page: &str) -> (reply: Reply)
    ensures
        reply.is_html(STATUS_OK, page@),
{
    Reply {
        status: STATUS_OK,
        content_type: String::from_str("text/html"),
        body: String::from_str(page),
    }
}

} // verus!
