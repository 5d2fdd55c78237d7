//! The success page: a heading that embeds the username, escaped.
//!
//! The username is attacker-controlled and rendered inside markup, so
//! every markup-significant character is replaced by its entity before
//! it is embedded.

use vstd::prelude::*;
use vstd::string::{StrSliceExecFns, StringExecFns};
use crate::text::{string_from_chars, to_char_vec};

verus! {

/// The replacement for one character in HTML text: the five
/// markup-significant characters become entities, every other character
/// stands unchanged.
pub open spec fn escape_one(c: char) -> Seq<char> {
    if c == '<' {
        "&lt;"@
    } else if c == '>' {
        "&gt;"@
    } else if c == '&' {
        "&amp;"@
    } else if c == '"' {
        "&quot;"@
    } else if c == '\'' {
        "&#39;"@
    } else {
        seq![c]
    }
}

/// A text with every character escaped for HTML.
pub open spec fn escape_text(s: Seq<char>) -> Seq<char>
    decreases s.len(),
{
    if s.len() == 0 {
        Seq::empty()
    } else {
        escape_one(s[0]) + escape_text(s.drop_first())
    }
}

fn escape_char_str(c: char) -> (r: String)
    ensures
        r@ == escape_one(c),
{
    if c == '<' {
        "&lt;".to_owned()
    } else if c == '>' {
        "&gt;".to_owned()
    } else if c == '&' {
        "&amp;".to_owned()
    } else if c == '"' {
        "&quot;".to_owned()
    } else if c == '\'' {
        "&#39;".to_owned()
    } else {
        let mut v: Vec<char> = Vec::new();
        v.push(c);
        let r = string_from_chars(&v);
        proof {
            assert(v@ =~= seq![c]);
        }
        r
    }
}

fn escape_from(v: &Vec<char>, i: usize) -> (r: String)
    requires
        i <= v@.len(),
    ensures
        r@ == escape_text(v@.skip(i as int)),
    decreases v@.len() - i,
{
    if i == v.len() {
        proof {
            assert(v@.skip(i as int) =~= Seq::<char>::empty());
        }
        String::new()
    } else {
        let head = escape_char_str(v[i]);
        let rest = escape_from(v, i + 1);
        let out = head.concat(rest.as_str());
        proof {
            assert(v@.skip(i as int).drop_first() =~= v@.skip(i as int + 1));
            assert(v@.skip(i as int)[0] == v@[i as int]);
        }
        out
    }
}

/// HTML-escape a text.
pub fn escape_html(s: &str) -> (r: String)
    ensures
        r@ == escape_text(s@),
{
    let v = to_char_vec(s);
    let r = escape_from(&v, 0);
    proof {
        assert(v@.skip(0) =~= v@);
    }
    r
}

/// The greeting page for a validated username.
pub open spec fn greeting_text(u: Seq<char>) -> Seq<char> {
    "<h1>Hello, "@ + escape_text(u) + "!</h1>"@
}

/// Render the greeting page: the heading embeds the escaped username.
pub fn greeting(username: &str) -> (r: String)
    ensures
        r@ == greeting_text(username@),
{
    let mut out: String = "<h1>Hello, ".to_owned();
    out.append(escape_html(username).as_str());
    out.append("!</h1>");
    out
}

} // verus!
