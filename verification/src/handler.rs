//! The request pipeline: decode, validate, respond.

use vstd::prelude::*;
use crate::json::{decode, decode_error_text, spec_decode, DecodeError};
use crate::validate::{password_valid, render_entries, username_valid, validate, validation_errors};
use crate::html::{greeting, greeting_text};

verus! {

/// A complete answer to one request: status code, content type, body.
pub struct HttpResponse {
    pub status: u16,
    pub content_type: String,
    pub body: String,
}

pub open spec fn html_content_type() -> Seq<char> {
    "text/html; charset=utf-8"@
}

pub open spec fn text_content_type() -> Seq<char> {
    "text/plain; charset=utf-8"@
}

/// What the pipeline answers for a request body: on a decode failure,
/// 400 with the decode error's description; on a rule violation, 400
/// with every failing field's line; otherwise 200 with the greeting.
pub open spec fn spec_response(s: Seq<char>) -> (int, Seq<char>, Seq<char>) {
    match spec_decode(s) {
        Err(e) => (400int, text_content_type(), decode_error_text(e)),
        Ok((u, p)) => {
            if username_valid(u) && password_valid(p) {
                (200int, html_content_type(), greeting_text(u))
            } else {
                (400int, text_content_type(), render_entries(validation_errors(u, p)))
            }
        },
    }
}

/// Answer one request body.
pub fn handle_request(body: &str) -> (r: HttpResponse)
    ensures
        (r.status as int, r.content_type@, r.body@) == spec_response(body@),
{
    match decode(body) {
        Err(e) => HttpResponse {
            status: 400,
            content_type: "text/plain; charset=utf-8".to_owned(),
            body: e.message(),
        },
        Ok(user) => match validate(&user) {
            Ok(_) => HttpResponse {
                status: 200,
                content_type: "text/html; charset=utf-8".to_owned(),
                body: greeting(user.username.as_str()),
            },
            Err(ve) => HttpResponse {
                status: 400,
                content_type: "text/plain; charset=utf-8".to_owned(),
                body: ve.message(),
            },
        },
    }
}

} // verus!
