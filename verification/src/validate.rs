//! The two field rules and their aggregation.
//!
//! A decoded candidate is held to both rules on every request — the
//! username must be email-shaped, the password at least eight characters
//! long — and every violation is collected, never just the first.

use vstd::prelude::*;
use vstd::string::{StrSliceExecFns, StringExecFns};
use crate::text::to_char_vec;
use crate::RequestUser;

verus! {

/// Number of occurrences of `c` in `s`.
pub open spec fn occurrences(s: Seq<char>, c: char) -> nat
    decreases s.len(),
{
    if s.len() == 0 {
        0
    } else {
        occurrences(s.drop_last(), c) + (if s.last() == c {
            1nat
        } else {
            0nat
        })
    }
}

/// Whether a `.` stands strictly after position `k`.
pub open spec fn has_dot_after(s: Seq<char>, k: int) -> bool {
    exists|j: int| k < j < s.len() && s[j] == '.'
}

/// An email-shaped text: exactly one `@`, a non-empty local part before
/// it, and at least one `.` somewhere in the domain part after it.
pub open spec fn is_email(s: Seq<char>) -> bool {
    &&& occurrences(s, '@') == 1
    &&& exists|k: int| 1 <= k < s.len() && s[k] == '@' && has_dot_after(s, k)
}

proof fn lemma_occurrence_pos(s: Seq<char>, c: char, a: int)
    requires
        0 <= a < s.len(),
        s[a] == c,
    ensures
        occurrences(s, c) >= 1,
    decreases s.len(),
{
    if a < s.len() - 1 {
        lemma_occurrence_pos(s.drop_last(), c, a);
    }
}

proof fn lemma_occurrence_two(s: Seq<char>, c: char, a: int, b: int)
    requires
        0 <= a < s.len(),
        0 <= b < s.len(),
        a != b,
        s[a] == c,
        s[b] == c,
    ensures
        occurrences(s, c) >= 2,
    decreases s.len(),
{
    if a == s.len() - 1 {
        lemma_occurrence_pos(s.drop_last(), c, b);
    } else if b == s.len() - 1 {
        lemma_occurrence_pos(s.drop_last(), c, a);
    } else {
        lemma_occurrence_two(s.drop_last(), c, a, b);
    }
}

/// Whether `s` is email-shaped.
pub fn email_shaped(s: &str) -> (b: bool)
    ensures
        b == is_email(s@),
{
    let v = to_char_vec(s);
    let n = v.len();
    let mut i: usize = 0;
    let mut at_count: usize = 0;
    let mut at_idx: usize = 0;
    let mut dot_after: bool = false;
    while i < n
        invariant
            i <= n,
            n == v@.len(),
            v@ == s@,
            at_count <= i,
            at_count as nat == occurrences(s@.subrange(0, i as int), '@'),
            at_count >= 1 ==> (at_idx < i && s@[at_idx as int] == '@'),
            at_count >= 1 ==> (dot_after == exists|j: int|
                at_idx < j < i && s@[j] == '.'),
            at_count == 0 ==> (!dot_after && forall|q: int| 0 <= q < i ==> s@[q] != '@'),
        decreases n - i,
    {
        let c = v[i];
        if c == '@' {
            if at_count == 0 {
                at_idx = i;
            }
            at_count = at_count + 1;
        } else if c == '.' {
            if at_count >= 1 {
                dot_after = true;
            }
        }
        i = i + 1;
        proof {
            assert(s@.subrange(0, i as int).drop_last() =~= s@.subrange(0, i as int - 1));
        }
    }
    proof {
        assert(s@.subrange(0, n as int) =~= s@);
    }
    let shaped = at_count == 1 && at_idx >= 1 && dot_after;
    proof {
        if shaped {
            assert(1 <= at_idx as int && (at_idx as int) < s@.len() && s@[at_idx as int] == '@'
                && has_dot_after(s@, at_idx as int));
        }
        if is_email(s@) {
            let k = choose|k: int| 1 <= k < s@.len() && s@[k] == '@' && has_dot_after(s@, k);
            assert(at_count == 1);
            if k != at_idx as int {
                lemma_occurrence_two(s@, '@', k, at_idx as int);
            }
            assert(k == at_idx as int);
        }
    }
    shaped
}

pub open spec fn username_field() -> Seq<char> {
    "username"@
}

pub open spec fn password_field() -> Seq<char> {
    "password"@
}

pub open spec fn email_message() -> Seq<char> {
    "must be a valid email"@
}

pub open spec fn password_message() -> Seq<char> {
    "must have at least 8 characters"@
}

pub open spec fn username_valid(u: Seq<char>) -> bool {
    is_email(u)
}

/// Password length is counted in characters, not bytes.
pub open spec fn password_valid(p: Seq<char>) -> bool {
    p.len() >= 8
}

/// The aggregated error entries for a candidate: both rules are judged,
/// and the username's entry stands first.
pub open spec fn validation_errors(u: Seq<char>, p: Seq<char>) -> Seq<(Seq<char>, Seq<char>)> {
    (if username_valid(u) {
        Seq::<(Seq<char>, Seq<char>)>::empty()
    } else {
        seq![(username_field(), email_message())]
    }) + (if password_valid(p) {
        Seq::<(Seq<char>, Seq<char>)>::empty()
    } else {
        seq![(password_field(), password_message())]
    })
}

/// One failing field: its name and the message its rule carries.
pub struct FieldError {
    pub field: String,
    pub message: String,
}

pub open spec fn field_error_view(e: FieldError) -> (Seq<char>, Seq<char>) {
    (e.field@, e.message@)
}

pub open spec fn errors_view(v: Seq<FieldError>) -> Seq<(Seq<char>, Seq<char>)> {
    Seq::new(v.len(), |i: int| field_error_view(v[i]))
}

/// Every violated rule of a candidate, in field declaration order.
pub struct ValidationError {
    pub errors: Vec<FieldError>,
}

/// A line per entry: `field: message`, each terminated by a newline.
pub open spec fn render_entries(es: Seq<(Seq<char>, Seq<char>)>) -> Seq<char>
    decreases es.len(),
{
    if es.len() == 0 {
        Seq::empty()
    } else {
        es[0].0 + ": "@ + es[0].1 + "\n"@ + render_entries(es.drop_first())
    }
}

impl ValidationError {
    pub open spec fn entries(&self) -> Seq<(Seq<char>, Seq<char>)> {
        errors_view(self.errors@)
    }

    /// The plain-text rendering: one line per failing field.
    pub fn message(&self) -> (r: String)
        ensures
            r@ == render_entries(self.entries()),
    {
        let r = render_from(&self.errors, 0);
        proof {
            assert(errors_view(self.errors@).skip(0) =~= errors_view(self.errors@));
        }
        r
    }
}

fn render_from(v: &Vec<FieldError>, i: usize) -> (r: String)
    requires
        i <= v@.len(),
    ensures
        r@ == render_entries(errors_view(v@).skip(i as int)),
    decreases v@.len() - i,
{
    if i == v.len() {
        proof {
            assert(errors_view(v@).skip(i as int) =~= Seq::<(Seq<char>, Seq<char>)>::empty());
        }
        String::new()
    } else {
        let mut line: String = v[i].field.clone();
        line.append(": ");
        line.append(v[i].message.as_str());
        line.append("\n");
        let rest = render_from(v, i + 1);
        let out = line.concat(rest.as_str());
        proof {
            let es = errors_view(v@).skip(i as int);
            assert(es[0] == errors_view(v@)[i as int]);
            assert(es.drop_first() =~= errors_view(v@).skip(i as int + 1));
            assert(out@ =~= es[0].0 + ": "@ + es[0].1 + "\n"@ + render_entries(es.drop_first()));
        }
        out
    }
}

/// Hold a candidate to both rules.  `Ok` exactly when both hold; `Err`
/// carries every violated rule's entry, the username's first.
pub fn validate(user: &RequestUser) -> (r: Result<(), ValidationError>)
    ensures
        (r is Ok) <==> (username_valid(user.username@) && password_valid(user.password@)),
        r matches Err(e) ==> e.entries() == validation_errors(user.username@, user.password@),
{
    let email_ok = email_shaped(user.username.as_str());
    let pw_ok = user.password.as_str().unicode_len() >= 8;
    if email_ok && pw_ok {
        Ok(())
    } else {
        let mut errors: Vec<FieldError> = Vec::new();
        if !email_ok {
            errors.push(
                FieldError {
                    field: "username".to_owned(),
                    message: "must be a valid email".to_owned(),
                },
            );
        }
        if !pw_ok {
            errors.push(
                FieldError {
                    field: "password".to_owned(),
                    message: "must have at least 8 characters".to_owned(),
                },
            );
        }
        proof {
            assert(errors_view(errors@) =~= validation_errors(
                user.username@,
                user.password@,
            ));
        }
        Err(ValidationError { errors })
    }
}

} // verus!
