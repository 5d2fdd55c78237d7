//! A verified request pipeline for a small greeting service.
//!
//! A request body arrives as text, is decoded as a JSON object with a
//! `username` and a `password` field, validated (the username must be
//! email-shaped, the password at least eight characters), and answered
//! with either an HTML greeting or a plain-text description of every
//! failure.

use vstd::prelude::*;

pub mod handler;
pub mod html;
pub mod json;
pub mod laws;
mod text;
pub mod validate;

verus! {

/// A candidate user decoded from a request body: both fields are taken
/// verbatim from the JSON text, with no trimming or normalisation.
#[derive(Debug)]
pub struct RequestUser {
    pub username: String,
    pub password: String,
}

} // verus!
