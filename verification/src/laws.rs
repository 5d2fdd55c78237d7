//! The properties the pipeline is held to, stated over the same
//! specification functions that the executable functions' contracts use.

use vstd::prelude::*;
use crate::json::{decode_error_text, spec_decode, DecodeError};
use crate::validate::{
    email_message, password_field, password_message, password_valid, render_entries,
    username_field, username_valid, validation_errors,
};
use crate::html::{escape_one, escape_text, greeting_text};
use crate::handler::{html_content_type, spec_response, text_content_type};

verus! {

/// A body that decodes to a candidate meeting both rules is answered
/// with status 200 and a body that is exactly the heading embedding the
/// escaped username.
pub proof fn law_valid_candidate_greeted(s: Seq<char>, u: Seq<char>, p: Seq<char>)
    requires
        spec_decode(s) == Ok::<_, DecodeError>((u, p)),
        username_valid(u),
        password_valid(p),
    ensures
        spec_response(s) == (200int, html_content_type(), greeting_text(u)),
{
}

/// A candidate whose username is not email-shaped is answered with
/// status 400, and the error set carries the username message —
/// whatever the password.
pub proof fn law_bad_username_reported(s: Seq<char>, u: Seq<char>, p: Seq<char>)
    requires
        spec_decode(s) == Ok::<_, DecodeError>((u, p)),
        !username_valid(u),
    ensures
        spec_response(s).0 == 400,
        spec_response(s).2 == render_entries(validation_errors(u, p)),
        validation_errors(u, p).contains((username_field(), email_message())),
{
    assert(validation_errors(u, p)[0] == (username_field(), email_message()));
}

/// A candidate whose password is shorter than eight characters is
/// answered with status 400, and the error set carries the password
/// message — whatever the username.
pub proof fn law_short_password_reported(s: Seq<char>, u: Seq<char>, p: Seq<char>)
    requires
        spec_decode(s) == Ok::<_, DecodeError>((u, p)),
        !password_valid(p),
    ensures
        spec_response(s).0 == 400,
        spec_response(s).2 == render_entries(validation_errors(u, p)),
        validation_errors(u, p).contains((password_field(), password_message())),
{
    let es = validation_errors(u, p);
    if username_valid(u) {
        assert(es[0] == (password_field(), password_message()));
    } else {
        assert(es[1] == (password_field(), password_message()));
    }
}

/// When both rules fail, the error set holds both entries, the
/// username's first: the rules aggregate and never short-circuit.
pub proof fn law_both_failures_aggregated(s: Seq<char>, u: Seq<char>, p: Seq<char>)
    requires
        spec_decode(s) == Ok::<_, DecodeError>((u, p)),
        !username_valid(u),
        !password_valid(p),
    ensures
        spec_response(s).0 == 400,
        validation_errors(u, p) == seq![
            (username_field(), email_message()),
            (password_field(), password_message()),
        ],
{
    assert(validation_errors(u, p) =~= seq![
        (username_field(), email_message()),
        (password_field(), password_message()),
    ]);
}

/// A body that does not decode is answered with status 400 and exactly
/// the decode error's description: no rule is ever judged, so no
/// validation message can appear.
pub proof fn law_decode_failure_answered(s: Seq<char>, e: DecodeError)
    requires
        spec_decode(s) == Err::<(Seq<char>, Seq<char>), _>(e),
    ensures
        spec_response(s) == (400int, text_content_type(), decode_error_text(e)),
{
}

/// The answer's status is always 200 or 400, and it is 200 exactly when
/// the body decodes to a candidate meeting both rules.
pub proof fn law_status_complete(s: Seq<char>)
    ensures
        spec_response(s).0 == 200 || spec_response(s).0 == 400,
        spec_response(s).0 == 200 <==> (spec_decode(s) matches Ok(f) && username_valid(f.0)
            && password_valid(f.1)),
{
}

/// The escaper's output never holds a markup delimiter, so an
/// attacker-controlled username cannot open a tag in the greeting.
pub proof fn law_escape_yields_no_markup(s: Seq<char>)
    ensures
        forall|i: int|
            0 <= i < escape_text(s).len() ==> escape_text(s)[i] != '<' && escape_text(s)[i] != '>',
    decreases s.len(),
{
    if s.len() > 0 {
        law_escape_yields_no_markup(s.drop_first());
        lemma_escape_one_no_markup(s[0]);
        assert forall|i: int| 0 <= i < escape_text(s).len() implies escape_text(s)[i] != '<'
            && escape_text(s)[i] != '>' by {
            assert(escape_text(s) == escape_one(s[0]) + escape_text(s.drop_first()));
            if i >= escape_one(s[0]).len() {
                assert(escape_text(s)[i] == escape_text(s.drop_first())[i - escape_one(
                    s[0],
                ).len()]);
            }
        }
    }
}

proof fn lemma_escape_one_no_markup(c: char)
    ensures
        forall|i: int|
            0 <= i < escape_one(c).len() ==> escape_one(c)[i] != '<' && escape_one(c)[i] != '>',
{
    reveal_strlit("&lt;");
    reveal_strlit("&gt;");
    reveal_strlit("&amp;");
    reveal_strlit("&quot;");
    reveal_strlit("&#39;");
    if c == '<' {
        assert("&lt;"@ =~= seq!['&', 'l', 't', ';']);
    } else if c == '>' {
        assert("&gt;"@ =~= seq!['&', 'g', 't', ';']);
    } else if c == '&' {
        assert("&amp;"@ =~= seq!['&', 'a', 'm', 'p', ';']);
    } else if c == '"' {
        assert("&quot;"@ =~= seq!['&', 'q', 'u', 'o', 't', ';']);
    } else if c == '\'' {
        assert("&#39;"@ =~= seq!['&', '#', '3', '9', ';']);
    }
}

} // verus!
