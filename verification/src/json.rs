//! Decoding a request body into a candidate user.
//!
//! The grammar below is JSON: a body is accepted when it is a single JSON
//! value followed only by whitespace, that value is an object, and the
//! object holds `username` and `password` keys whose values are strings.
//! Extra keys are ignored, whatever their values; of a repeated key the
//! first occurrence counts.
//!
//! The specification functions give the grammar directly, as a recursive
//! descent over the character sequence; the executable scanner is proved
//! to return exactly what they describe.  Since the decoder only ever
//! reads string values, a parsed value is projected to `Some(text)` when
//! it is a JSON string and `None` otherwise.

use vstd::prelude::*;
use vstd::string::StrSliceExecFns;
use crate::text::{char_from_code, string_from_chars, to_char_vec};
use crate::RequestUser;

verus! {

broadcast use vstd::utf8::char_is_scalar;

/// Why a request body was rejected before validation.
#[derive(Clone, Copy, PartialEq, Eq, Debug)]
pub enum DecodeError {
    /// The body is not a single well-formed JSON value.
    InvalidJson,
    /// The body is well-formed JSON, but not an object.
    NotAnObject,
    /// The object has no `username` key.
    MissingUsername,
    /// The object has no `password` key.
    MissingPassword,
    /// The `username` key is present but its value is not a string.
    UsernameNotText,
    /// The `password` key is present but its value is not a string.
    PasswordNotText,
}

pub open spec fn decode_error_text(e: DecodeError) -> Seq<char> {
    match e {
        DecodeError::InvalidJson => "request body is not valid JSON"@,
        DecodeError::NotAnObject => "request body must be a JSON object"@,
        DecodeError::MissingUsername => "missing field `username`"@,
        DecodeError::MissingPassword => "missing field `password`"@,
        DecodeError::UsernameNotText => "field `username` must be a string"@,
        DecodeError::PasswordNotText => "field `password` must be a string"@,
    }
}

impl DecodeError {
    /// The human-readable description carried by this error.
    pub fn message(&self) -> (r: String)
        ensures
            r@ == decode_error_text(*self),
    {
        match self {
            DecodeError::InvalidJson => "request body is not valid JSON".to_owned(),
            DecodeError::NotAnObject => "request body must be a JSON object".to_owned(),
            DecodeError::MissingUsername => "missing field `username`".to_owned(),
            DecodeError::MissingPassword => "missing field `password`".to_owned(),
            DecodeError::UsernameNotText => "field `username` must be a string".to_owned(),
            DecodeError::PasswordNotText => "field `password` must be a string".to_owned(),
        }
    }
}

// ---------------------------------------------------------------------------
// The grammar, as specification functions.
// ---------------------------------------------------------------------------

pub open spec fn is_json_ws(c: char) -> bool {
    c == ' ' || c == '\n' || c == '\r' || c == '\t'
}

/// First index at or after `i` holding no whitespace.
pub open spec fn skip_ws(s: Seq<char>, i: int) -> int
    decreases s.len() - i,
{
    if 0 <= i && i < s.len() && is_json_ws(s[i]) {
        skip_ws(s, i + 1)
    } else {
        i
    }
}

pub open spec fn is_digit(c: char) -> bool {
    0x30 <= c as int && c as int <= 0x39
}

pub open spec fn is_hex_digit(c: char) -> bool {
    is_digit(c) || (0x61 <= c as int && c as int <= 0x66) || (0x41 <= c as int && c as int
        <= 0x46)
}

pub open spec fn hex_digit_val(c: char) -> int {
    if is_digit(c) {
        c as int - 0x30
    } else if 0x61 <= c as int {
        c as int - 0x61 + 10
    } else {
        c as int - 0x41 + 10
    }
}

/// Four hexadecimal digits stand at `i`.
pub open spec fn hex4_at(s: Seq<char>, i: int) -> bool {
    &&& 0 <= i
    &&& i + 4 <= s.len()
    &&& is_hex_digit(s[i])
    &&& is_hex_digit(s[i + 1])
    &&& is_hex_digit(s[i + 2])
    &&& is_hex_digit(s[i + 3])
}

pub open spec fn hex4_val(s: Seq<char>, i: int) -> int {
    hex_digit_val(s[i]) * 0x1000 + hex_digit_val(s[i + 1]) * 0x100 + hex_digit_val(
        s[i + 2],
    ) * 0x10 + hex_digit_val(s[i + 3])
}

pub open spec fn is_simple_escape(c: char) -> bool {
    c == '"' || c == '\\' || c == '/' || c == 'b' || c == 'f' || c == 'n' || c == 'r' || c == 't'
}

pub open spec fn simple_escape_char(c: char) -> char {
    if c == 'b' {
        '\u{0008}'
    } else if c == 'f' {
        '\u{000C}'
    } else if c == 'n' {
        '\n'
    } else if c == 'r' {
        '\r'
    } else if c == 't' {
        '\t'
    } else {
        c
    }
}

/// The rest of a JSON string, starting just after its opening quote:
/// the decoded characters and the index just after the closing quote.
pub open spec fn str_tail(s: Seq<char>, i: int) -> Option<(Seq<char>, int)>
    decreases s.len() - i,
{
    if !(0 <= i && i < s.len()) {
        None
    } else if s[i] == '"' {
        Some((Seq::empty(), i + 1))
    } else if s[i] == '\\' {
        if i + 1 < s.len() && is_simple_escape(s[i + 1]) {
            match str_tail(s, i + 2) {
                Some((t, j)) => Some((seq![simple_escape_char(s[i + 1])] + t, j)),
                None => None,
            }
        } else if i + 1 < s.len() && s[i + 1] == 'u' && hex4_at(s, i + 2) {
            let u = hex4_val(s, i + 2);
            if 0xD800 <= u && u < 0xDC00 {
                // a high surrogate must be followed by an escaped low surrogate
                if s.len() - i > 7 && s[i + 6] == '\\' && s[i + 7] == 'u' && hex4_at(s, i + 8) {
                    let u2 = hex4_val(s, i + 8);
                    if 0xDC00 <= u2 && u2 < 0xE000 {
                        let code = 0x10000 + (u - 0xD800) * 0x400 + (u2 - 0xDC00);
                        match str_tail(s, i + 12) {
                            Some((t, j)) => Some((seq![(code as u32) as char] + t, j)),
                            None => None,
                        }
                    } else {
                        None
                    }
                } else {
                    None
                }
            } else if 0xDC00 <= u && u < 0xE000 {
                None
            } else {
                match str_tail(s, i + 6) {
                    Some((t, j)) => Some((seq![(u as u32) as char] + t, j)),
                    None => None,
                }
            }
        } else {
            None
        }
    } else if (s[i] as u32) < 0x20 {
        None
    } else {
        match str_tail(s, i + 1) {
            Some((t, j)) => Some((seq![s[i]] + t, j)),
            None => None,
        }
    }
}

/// First index at or after `i` holding no decimal digit.
pub open spec fn digits_end(s: Seq<char>, i: int) -> int
    decreases s.len() - i,
{
    if 0 <= i && i < s.len() && is_digit(s[i]) {
        digits_end(s, i + 1)
    } else {
        i
    }
}

/// The index just after a JSON number starting at `i`, or `None` if no
/// number starts there.
pub open spec fn num_end(s: Seq<char>, i: int) -> Option<int> {
    let a = if 0 <= i && i < s.len() && s[i] == '-' {
        i + 1
    } else {
        i
    };
    if !(0 <= a && a < s.len() && is_digit(s[a])) {
        None
    } else {
        let b = if s[a] == '0' {
            a + 1
        } else {
            digits_end(s, a)
        };
        let c = if b < s.len() && s[b] == '.' {
            if b + 1 < s.len() && is_digit(s[b + 1]) {
                digits_end(s, b + 1)
            } else {
                -1
            }
        } else {
            b
        };
        if c < 0 {
            None
        } else {
            let d = if c < s.len() && (s[c] == 'e' || s[c] == 'E') {
                let e0 = if c + 1 < s.len() && (s[c + 1] == '+' || s[c + 1] == '-') {
                    c + 2
                } else {
                    c + 1
                };
                if e0 < s.len() && is_digit(s[e0]) {
                    digits_end(s, e0)
                } else {
                    -1
                }
            } else {
                c
            };
            if d < 0 {
                None
            } else {
                Some(d)
            }
        }
    }
}

/// One JSON value starting at `i` (leading whitespace allowed), projected
/// to its string contents when it is a string, paired with the index just
/// after it.  The inequality guards keep the recursion visibly bounded;
/// the scanners below establish that they always hold.
pub open spec fn val_at(s: Seq<char>, i: int) -> Option<(Option<Seq<char>>, int)>
    decreases s.len() - i, 1int,
{
    let k = skip_ws(s, i);
    if !(i <= k && k < s.len()) {
        None
    } else if s[k] == '"' {
        match str_tail(s, k + 1) {
            Some((t, j)) => Some((Some(t), j)),
            None => None,
        }
    } else if s[k] == '{' {
        let w = skip_ws(s, k + 1);
        if k + 1 <= w && w < s.len() && s[w] == '}' {
            Some((None, w + 1))
        } else {
            match obj_members(s, k + 1) {
                Some((ms, e)) => Some((None, e)),
                None => None,
            }
        }
    } else if s[k] == '[' {
        let w = skip_ws(s, k + 1);
        if k + 1 <= w && w < s.len() && s[w] == ']' {
            Some((None, w + 1))
        } else {
            match arr_items(s, k + 1) {
                Some(e) => Some((None, e)),
                None => None,
            }
        }
    } else if k + 4 <= s.len() && s[k] == 't' && s[k + 1] == 'r' && s[k + 2] == 'u' && s[k + 3]
        == 'e' {
        Some((None, k + 4))
    } else if k + 5 <= s.len() && s[k] == 'f' && s[k + 1] == 'a' && s[k + 2] == 'l' && s[k + 3]
        == 's' && s[k + 4] == 'e' {
        Some((None, k + 5))
    } else if k + 4 <= s.len() && s[k] == 'n' && s[k + 1] == 'u' && s[k + 2] == 'l' && s[k + 3]
        == 'l' {
        Some((None, k + 4))
    } else if s[k] == '-' || is_digit(s[k]) {
        match num_end(s, k) {
            Some(e) => Some((None, e)),
            None => None,
        }
    } else {
        None
    }
}

/// One or more `key: value` members starting at `i`, up to and including
/// the closing brace: the members (key and projected value) and the index
/// just after the brace.
pub open spec fn obj_members(s: Seq<char>, i: int) -> Option<
    (Seq<(Seq<char>, Option<Seq<char>>)>, int),
>
    decreases s.len() - i, 2int,
{
    let k = skip_ws(s, i);
    if !(i <= k && k < s.len() && s[k] == '"') {
        None
    } else {
        match str_tail(s, k + 1) {
            Some((key, j)) => {
                if !(k + 1 < j && j <= s.len()) {
                    None
                } else {
                    let m = skip_ws(s, j);
                    if !(j <= m && m < s.len() && s[m] == ':') {
                        None
                    } else {
                        match val_at(s, m + 1) {
                            Some((pv, e)) => {
                                if !(m + 1 < e && e <= s.len()) {
                                    None
                                } else {
                                    let w = skip_ws(s, e);
                                    if !(e <= w && w < s.len()) {
                                        None
                                    } else if s[w] == ',' {
                                        match obj_members(s, w + 1) {
                                            Some((rest, z)) => Some(
                                                (seq![(key, pv)] + rest, z),
                                            ),
                                            None => None,
                                        }
                                    } else if s[w] == '}' {
                                        Some((seq![(key, pv)], w + 1))
                                    } else {
                                        None
                                    }
                                }
                            },
                            None => None,
                        }
                    }
                }
            },
            None => None,
        }
    }
}

/// One or more array items starting at `i`, up to and including the
/// closing bracket: the index just after it.
pub open spec fn arr_items(s: Seq<char>, i: int) -> Option<int>
    decreases s.len() - i, 2int,
{
    match val_at(s, i) {
        Some((pv, e)) => {
            if !(i < e && e <= s.len()) {
                None
            } else {
                let w = skip_ws(s, e);
                if !(e <= w && w < s.len()) {
                    None
                } else if s[w] == ',' {
                    arr_items(s, w + 1)
                } else if s[w] == ']' {
                    Some(w + 1)
                } else {
                    None
                }
            }
        },
        None => None,
    }
}

/// The first value under `key`, if any: `Some(Some(t))` for a string with
/// contents `t`, `Some(None)` for a value of any other kind.
pub open spec fn find_key(ms: Seq<(Seq<char>, Option<Seq<char>>)>, key: Seq<char>) -> Option<
    Option<Seq<char>>,
>
    decreases ms.len(),
{
    if ms.len() == 0 {
        None
    } else if ms[0].0 == key {
        Some(ms[0].1)
    } else {
        find_key(ms.drop_first(), key)
    }
}

/// The two required fields of a decoded object, or the error that its
/// members force.  A missing username is reported before a missing
/// password, and a wrongly-typed field is reported as such.
pub open spec fn fields_of(ms: Seq<(Seq<char>, Option<Seq<char>>)>) -> Result<
    (Seq<char>, Seq<char>),
    DecodeError,
> {
    match find_key(ms, "username"@) {
        None => Err(DecodeError::MissingUsername),
        Some(None) => Err(DecodeError::UsernameNotText),
        Some(Some(u)) => match find_key(ms, "password"@) {
            None => Err(DecodeError::MissingPassword),
            Some(None) => Err(DecodeError::PasswordNotText),
            Some(Some(p)) => Ok((u, p)),
        },
    }
}

/// What decoding an entire request body yields: the `username` and
/// `password` texts, or the first applicable decode error.
pub open spec fn spec_decode(s: Seq<char>) -> Result<(Seq<char>, Seq<char>), DecodeError> {
    let k = skip_ws(s, 0);
    if k < s.len() && s[k] == '{' {
        let w = skip_ws(s, k + 1);
        if w < s.len() && s[w] == '}' {
            if skip_ws(s, w + 1) == s.len() {
                Err(DecodeError::MissingUsername)
            } else {
                Err(DecodeError::InvalidJson)
            }
        } else {
            match obj_members(s, k + 1) {
                Some((ms, e)) => {
                    if skip_ws(s, e) == s.len() {
                        fields_of(ms)
                    } else {
                        Err(DecodeError::InvalidJson)
                    }
                },
                None => Err(DecodeError::InvalidJson),
            }
        }
    } else {
        match val_at(s, 0) {
            Some((pv, e)) => {
                if skip_ws(s, e) == s.len() {
                    Err(DecodeError::NotAnObject)
                } else {
                    Err(DecodeError::InvalidJson)
                }
            },
            None => Err(DecodeError::InvalidJson),
        }
    }
}

// ---------------------------------------------------------------------------
// Views bridging scanner results to the grammar.
// ---------------------------------------------------------------------------

pub open spec fn opt_text_view(o: Option<Vec<char>>) -> Option<Seq<char>> {
    match o {
        Some(t) => Some(t@),
        None => None,
    }
}

pub open spec fn member_view(m: (Vec<char>, Option<Vec<char>>)) -> (Seq<char>, Option<Seq<char>>) {
    (m.0@, opt_text_view(m.1))
}

pub open spec fn members_view(v: Seq<(Vec<char>, Option<Vec<char>>)>) -> Seq<
    (Seq<char>, Option<Seq<char>>),
>
    decreases v.len(),
{
    if v.len() == 0 {
        Seq::empty()
    } else {
        seq![member_view(v[0])] + members_view(v.drop_first())
    }
}

pub open spec fn opt_opt_view(o: Option<Option<Vec<char>>>) -> Option<Option<Seq<char>>> {
    match o {
        Some(t) => Some(opt_text_view(t)),
        None => None,
    }
}

// ---------------------------------------------------------------------------
// The executable scanner.
// ---------------------------------------------------------------------------

fn ws_char(c: char) -> (b: bool)
    ensures
        b == is_json_ws(c),
{
    c == ' ' || c == '\n' || c == '\r' || c == '\t'
}

fn ws_end(s: &Vec<char>, i: usize) -> (r: usize)
    requires
        i <= s@.len(),
    ensures
        i <= r && r <= s@.len(),
        r as int == skip_ws(s@, i as int),
    decreases s@.len() - i,
{
    if i < s.len() && ws_char(s[i]) {
        ws_end(s, i + 1)
    } else {
        i
    }
}

fn digit_char(c: char) -> (b: bool)
    ensures
        b == is_digit(c),
{
    let u = c as u32;
    0x30 <= u && u <= 0x39
}

fn hex_digit_char(c: char) -> (b: bool)
    ensures
        b == is_hex_digit(c),
{
    let u = c as u32;
    (0x30 <= u && u <= 0x39) || (0x61 <= u && u <= 0x66) || (0x41 <= u && u <= 0x46)
}

fn hex_digit(c: char) -> (r: u32)
    requires
        is_hex_digit(c),
    ensures
        r as int == hex_digit_val(c),
        r <= 15,
{
    let u = c as u32;
    if 0x30 <= u && u <= 0x39 {
        u - 0x30
    } else if 0x61 <= u {
        u - 0x61 + 10
    } else {
        u - 0x41 + 10
    }
}

/// Four hexadecimal digits stand at `i`.
fn hex4_ok(s: &Vec<char>, i: usize) -> (b: bool)
    requires
        i <= s@.len(),
    ensures
        b == hex4_at(s@, i as int),
{
    s.len() - i >= 4 && hex_digit_char(s[i]) && hex_digit_char(s[i + 1]) && hex_digit_char(
        s[i + 2],
    ) && hex_digit_char(s[i + 3])
}

fn hex4(s: &Vec<char>, i: usize) -> (r: u32)
    requires
        hex4_at(s@, i as int),
    ensures
        r as int == hex4_val(s@, i as int),
        r <= 0xFFFF,
{
    let _n: usize = s.len();  // bounds the view's length, so the indices below fit
    hex_digit(s[i]) * 0x1000 + hex_digit(s[i + 1]) * 0x100 + hex_digit(s[i + 2]) * 0x10
        + hex_digit(s[i + 3])
}

fn scan_str_tail(s: &Vec<char>, i: usize) -> (r: Option<(Vec<char>, usize)>)
    requires
        i <= s@.len(),
    ensures
        (r is Some) <==> (str_tail(s@, i as int) is Some),
        r matches Some(p) ==> ({
            &&& i < p.1 && p.1 <= s@.len()
            &&& str_tail(s@, i as int) == Some((p.0@, p.1 as int))
        }),
    decreases s@.len() - i,
{
    if i >= s.len() {
        return None;
    }
    let c0 = s[i];
    if c0 == '"' {
        Some((Vec::new(), i + 1))
    } else if c0 == '\\' {
        if i + 1 < s.len() && simple_escape_ch(s[i + 1]) {
            match scan_str_tail(s, i + 2) {
                Some(p) => {
                    let j = p.1;
                    let mut t = p.0;
                    let ghost t0 = t@;
                    t.insert(0, unescape_ch(s[i + 1]));
                    proof {
                        assert(t@ =~= seq![simple_escape_char(s@[i as int + 1])] + t0);
                        assert(str_tail(s@, i as int) == Some((t@, j as int)));
                    }
                    Some((t, j))
                },
                None => None,
            }
        } else if i + 1 < s.len() && s[i + 1] == 'u' && hex4_ok(s, i + 2) {
            let u = hex4(s, i + 2);
            if 0xD800 <= u && u < 0xDC00 {
                if s.len() - i > 7 && s[i + 6] == '\\' && s[i + 7] == 'u' && hex4_ok(s, i + 8) {
                    let u2 = hex4(s, i + 8);
                    if 0xDC00 <= u2 && u2 < 0xE000 {
                        let code: u32 = 0x10000 + (u - 0xD800) * 0x400 + (u2 - 0xDC00);
                        let c = char_from_code(code).unwrap();
                        proof {
                            vstd::utf8::char_u32_cast(c, code);
                        }
                        match scan_str_tail(s, i + 12) {
                            Some(p) => {
                                let j = p.1;
                                let mut t = p.0;
                                let ghost t0 = t@;
                                t.insert(0, c);
                                proof {
                                    assert(t@ =~= seq![(code as u32) as char] + t0);
                                    assert(str_tail(s@, i as int) == Some((t@, j as int)));
                                }
                                Some((t, j))
                            },
                            None => None,
                        }
                    } else {
                        None
                    }
                } else {
                    None
                }
            } else if 0xDC00 <= u && u < 0xE000 {
                None
            } else {
                let c = char_from_code(u).unwrap();
                proof {
                    vstd::utf8::char_u32_cast(c, u);
                }
                match scan_str_tail(s, i + 6) {
                    Some(p) => {
                        let j = p.1;
                        let mut t = p.0;
                        let ghost t0 = t@;
                        t.insert(0, c);
                        proof {
                            assert(t@ =~= seq![(u as u32) as char] + t0);
                            assert(str_tail(s@, i as int) == Some((t@, j as int)));
                        }
                        Some((t, j))
                    },
                    None => None,
                }
            }
        } else {
            None
        }
    } else if (c0 as u32) < 0x20 {
        None
    } else {
        match scan_str_tail(s, i + 1) {
            Some(p) => {
                let j = p.1;
                let mut t = p.0;
                let ghost t0 = t@;
                t.insert(0, c0);
                proof {
                    assert(t@ =~= seq![s@[i as int]] + t0);
                    assert(str_tail(s@, i as int) == Some((t@, j as int)));
                }
                Some((t, j))
            },
            None => None,
        }
    }
}

fn simple_escape_ch(c: char) -> (b: bool)
    ensures
        b == is_simple_escape(c),
{
    c == '"' || c == '\\' || c == '/' || c == 'b' || c == 'f' || c == 'n' || c == 'r' || c == 't'
}

fn unescape_ch(c: char) -> (r: char)
    ensures
        r == simple_escape_char(c),
{
    if c == 'b' {
        '\u{0008}'
    } else if c == 'f' {
        '\u{000C}'
    } else if c == 'n' {
        '\n'
    } else if c == 'r' {
        '\r'
    } else if c == 't' {
        '\t'
    } else {
        c
    }
}

fn scan_digits_end(s: &Vec<char>, i: usize) -> (r: usize)
    requires
        i <= s@.len(),
    ensures
        i <= r && r <= s@.len(),
        r as int == digits_end(s@, i as int),
    decreases s@.len() - i,
{
    if i < s.len() && digit_char(s[i]) {
        scan_digits_end(s, i + 1)
    } else {
        i
    }
}

proof fn lemma_digits_end_lb(s: Seq<char>, i: int)
    ensures
        digits_end(s, i) >= i,
    decreases s.len() - i,
{
    if 0 <= i && i < s.len() && is_digit(s[i]) {
        lemma_digits_end_lb(s, i + 1);
    }
}

fn scan_num_end(s: &Vec<char>, i: usize) -> (r: Option<usize>)
    requires
        i <= s@.len(),
    ensures
        (r is Some) <==> (num_end(s@, i as int) is Some),
        r matches Some(e) ==> ({
            &&& i < e && e <= s@.len()
            &&& num_end(s@, i as int) == Some(e as int)
        }),
{
    let a: usize = if i < s.len() && s[i] == '-' {
        i + 1
    } else {
        i
    };
    if !(a < s.len() && digit_char(s[a])) {
        return None;
    }
    let b: usize = if s[a] == '0' {
        a + 1
    } else {
        let r = scan_digits_end(s, a);
        proof {
            lemma_digits_end_lb(s@, a as int + 1);
            assert(digits_end(s@, a as int) == digits_end(s@, a as int + 1));
        }
        r
    };
    let c_end: Option<usize> = if b < s.len() && s[b] == '.' {
        if b + 1 < s.len() && digit_char(s[b + 1]) {
            Some(scan_digits_end(s, b + 1))
        } else {
            None
        }
    } else {
        Some(b)
    };
    match c_end {
        None => None,
        Some(c) => {
            if c < s.len() && (s[c] == 'e' || s[c] == 'E') {
                let e0: usize = if c + 1 < s.len() && (s[c + 1] == '+' || s[c + 1] == '-') {
                    c + 2
                } else {
                    c + 1
                };
                if e0 < s.len() && digit_char(s[e0]) {
                    Some(scan_digits_end(s, e0))
                } else {
                    None
                }
            } else {
                Some(c)
            }
        },
    }
}

fn scan_val(s: &Vec<char>, i: usize) -> (r: Option<(Option<Vec<char>>, usize)>)
    requires
        i <= s@.len(),
    ensures
        (r is Some) <==> (val_at(s@, i as int) is Some),
        r matches Some(p) ==> ({
            &&& i < p.1 && p.1 <= s@.len()
            &&& val_at(s@, i as int) == Some((opt_text_view(p.0), p.1 as int))
        }),
    decreases s@.len() - i, 1int,
{
    let k = ws_end(s, i);
    if !(k < s.len()) {
        return None;
    }
    let c0 = s[k];
    if c0 == '"' {
        match scan_str_tail(s, k + 1) {
            Some(p) => Some((Some(p.0), p.1)),
            None => None,
        }
    } else if c0 == '{' {
        let w = ws_end(s, k + 1);
        if w < s.len() && s[w] == '}' {
            Some((None, w + 1))
        } else {
            match scan_members(s, k + 1) {
                Some(p) => Some((None, p.1)),
                None => None,
            }
        }
    } else if c0 == '[' {
        let w = ws_end(s, k + 1);
        if w < s.len() && s[w] == ']' {
            Some((None, w + 1))
        } else {
            match scan_arr_items(s, k + 1) {
                Some(e) => Some((None, e)),
                None => None,
            }
        }
    } else if c0 == 't' && s.len() - k >= 4 && s[k + 1] == 'r' && s[k + 2] == 'u' && s[k + 3]
        == 'e' {
        Some((None, k + 4))
    } else if c0 == 'f' && s.len() - k >= 5 && s[k + 1] == 'a' && s[k + 2] == 'l' && s[k + 3]
        == 's' && s[k + 4] == 'e' {
        Some((None, k + 5))
    } else if c0 == 'n' && s.len() - k >= 4 && s[k + 1] == 'u' && s[k + 2] == 'l' && s[k + 3]
        == 'l' {
        Some((None, k + 4))
    } else if c0 == '-' || digit_char(c0) {
        match scan_num_end(s, k) {
            Some(e) => Some((None, e)),
            None => None,
        }
    } else {
        None
    }
}

fn scan_members(s: &Vec<char>, i: usize) -> (r: Option<(Vec<(Vec<char>, Option<Vec<char>>)>, usize)>)
    requires
        i <= s@.len(),
    ensures
        (r is Some) <==> (obj_members(s@, i as int) is Some),
        r matches Some(p) ==> ({
            &&& i < p.1 && p.1 <= s@.len()
            &&& obj_members(s@, i as int) == Some((members_view(p.0@), p.1 as int))
        }),
    decreases s@.len() - i, 2int,
{
    let k = ws_end(s, i);
    if !(k < s.len()) {
        return None;
    }
    if s[k] != '"' {
        return None;
    }
    let kp = match scan_str_tail(s, k + 1) {
        Some(p) => p,
        None => {
            return None;
        },
    };
    let m = ws_end(s, kp.1);
    if !(m < s.len()) {
        return None;
    }
    if s[m] != ':' {
        return None;
    }
    let vp = match scan_val(s, m + 1) {
        Some(p) => p,
        None => {
            return None;
        },
    };
    let w = ws_end(s, vp.1);
    if !(w < s.len()) {
        return None;
    }
    if s[w] == ',' {
        match scan_members(s, w + 1) {
            Some(rest) => {
                let end = rest.1;
                let mut ms = rest.0;
                let ghost ms0 = ms@;
                ms.insert(0, (kp.0, vp.0));
                proof {
                    assert(ms@.drop_first() =~= ms0);
                    assert(members_view(ms@) =~= seq![member_view(ms@[0])] + members_view(ms0));
                }
                Some((ms, end))
            },
            None => None,
        }
    } else if s[w] == '}' {
        let mut ms: Vec<(Vec<char>, Option<Vec<char>>)> = Vec::new();
        ms.push((kp.0, vp.0));
        proof {
            assert(ms@.drop_first() =~= Seq::<(Vec<char>, Option<Vec<char>>)>::empty());
            assert(members_view(Seq::<(Vec<char>, Option<Vec<char>>)>::empty())
                =~= Seq::<(Seq<char>, Option<Seq<char>>)>::empty());
            assert(members_view(ms@) =~= seq![member_view(ms@[0])]);
        }
        Some((ms, w + 1))
    } else {
        None
    }
}

fn scan_arr_items(s: &Vec<char>, i: usize) -> (r: Option<usize>)
    requires
        i <= s@.len(),
    ensures
        (r is Some) <==> (arr_items(s@, i as int) is Some),
        r matches Some(e) ==> ({
            &&& i < e && e <= s@.len()
            &&& arr_items(s@, i as int) == Some(e as int)
        }),
    decreases s@.len() - i, 2int,
{
    let vp = match scan_val(s, i) {
        Some(p) => p,
        None => {
            return None;
        },
    };
    let w = ws_end(s, vp.1);
    if !(w < s.len()) {
        return None;
    }
    if s[w] == ',' {
        scan_arr_items(s, w + 1)
    } else if s[w] == ']' {
        Some(w + 1)
    } else {
        None
    }
}

/// The characters of `v`, copied.
fn copy_chars(v: &Vec<char>) -> (r: Vec<char>)
    ensures
        r@ == v@,
{
    let mut out: Vec<char> = Vec::new();
    let mut i: usize = 0;
    while i < v.len()
        invariant
            i <= v@.len(),
            out@ == v@.subrange(0, i as int),
        decreases v@.len() - i,
    {
        out.push(v[i]);
        i = i + 1;
        proof {
            assert(out@ =~= v@.subrange(0, i as int));
        }
    }
    proof {
        assert(v@.subrange(0, v@.len() as int) =~= v@);
    }
    out
}

fn clone_opt_text(o: &Option<Vec<char>>) -> (r: Option<Vec<char>>)
    ensures
        opt_text_view(r) == opt_text_view(*o),
{
    match o {
        Some(t) => Some(copy_chars(t)),
        None => None,
    }
}

/// Whether the characters of `v` are exactly those of `key`.
fn chars_eq_str(v: &Vec<char>, key: &str) -> (b: bool)
    ensures
        b == (v@ == key@),
{
    let n = key.unicode_len();
    if v.len() != n {
        proof {
            if v@ == key@ {
                assert(v@.len() == key@.len());
            }
        }
        return false;
    }
    let mut i: usize = 0;
    while i < n
        invariant
            i <= n,
            n == key@.len(),
            v@.len() == n,
            forall|q: int| 0 <= q < i ==> v@[q] == key@[q],
        decreases n - i,
    {
        if v[i] != key.get_char(i) {
            proof {
                if v@ == key@ {
                    assert(v@[i as int] == key@[i as int]);
                }
            }
            return false;
        }
        i = i + 1;
    }
    proof {
        assert(v@ =~= key@);
    }
    true
}

/// The first value under `key` among the members from position `i` on.
fn find_field(ms: &Vec<(Vec<char>, Option<Vec<char>>)>, key: &str, i: usize) -> (r: Option<
    Option<Vec<char>>,
>)
    requires
        i <= ms@.len(),
    ensures
        opt_opt_view(r) == find_key(members_view(ms@.skip(i as int)), key@),
    decreases ms@.len() - i,
{
    if i == ms.len() {
        proof {
            assert(ms@.skip(i as int) =~= Seq::<(Vec<char>, Option<Vec<char>>)>::empty());
        }
        None
    } else if chars_eq_str(&ms[i].0, key) {
        let found = clone_opt_text(&ms[i].1);
        proof {
            let tail = ms@.skip(i as int);
            assert(tail[0] == ms@[i as int]);
            assert(members_view(tail) == seq![member_view(tail[0])] + members_view(
                tail.drop_first(),
            ));
            assert(members_view(tail)[0] == member_view(ms@[i as int]));
            assert(find_key(members_view(tail), key@) == Some(member_view(ms@[i as int]).1));
        }
        Some(found)
    } else {
        let r = find_field(ms, key, i + 1);
        proof {
            let tail = ms@.skip(i as int);
            assert(tail.drop_first() =~= ms@.skip(i as int + 1));
            assert(tail[0] == ms@[i as int]);
            assert(members_view(tail) == seq![member_view(tail[0])] + members_view(
                tail.drop_first(),
            ));
            assert(members_view(tail)[0] == member_view(ms@[i as int]));
            assert(members_view(tail).drop_first() =~= members_view(tail.drop_first()));
            assert(find_key(members_view(tail), key@) == find_key(
                members_view(ms@.skip(i as int + 1)),
                key@,
            ));
        }
        r
    }
}

fn extract_fields(ms: &Vec<(Vec<char>, Option<Vec<char>>)>) -> (r: Result<RequestUser, DecodeError>)
    ensures
        r matches Ok(u) ==> fields_of(members_view(ms@)) == Ok::<_, DecodeError>(
            (u.username@, u.password@),
        ),
        r matches Err(e) ==> fields_of(members_view(ms@)) == Err::<(Seq<char>, Seq<char>), _>(e),
{
    proof {
        assert(ms@.skip(0) =~= ms@);
    }
    match find_field(ms, "username", 0) {
        None => Err(DecodeError::MissingUsername),
        Some(None) => Err(DecodeError::UsernameNotText),
        Some(Some(u)) => match find_field(ms, "password", 0) {
            None => Err(DecodeError::MissingPassword),
            Some(None) => Err(DecodeError::PasswordNotText),
            Some(Some(p)) => Ok(
                RequestUser { username: string_from_chars(&u), password: string_from_chars(&p) },
            ),
        },
    }
}

/// Decode a request body: the candidate user its JSON object holds, or
/// the decode error that the text forces.  Exactly the successful bodies
/// of [`spec_decode`] yield `Ok`, with both fields copied verbatim.
pub fn decode(body: &str) -> (r: Result<RequestUser, DecodeError>)
    ensures
        r matches Ok(u) ==> spec_decode(body@) == Ok::<_, DecodeError>((u.username@, u.password@)),
        r matches Err(e) ==> spec_decode(body@) == Err::<(Seq<char>, Seq<char>), _>(e),
{
    let s = to_char_vec(body);
    let k = ws_end(&s, 0);
    if k < s.len() && s[k] == '{' {
        let w = ws_end(&s, k + 1);
        if w < s.len() && s[w] == '}' {
            if ws_end(&s, w + 1) == s.len() {
                Err(DecodeError::MissingUsername)
            } else {
                Err(DecodeError::InvalidJson)
            }
        } else {
            match scan_members(&s, k + 1) {
                Some(p) => {
                    if ws_end(&s, p.1) == s.len() {
                        extract_fields(&p.0)
                    } else {
                        Err(DecodeError::InvalidJson)
                    }
                },
                None => Err(DecodeError::InvalidJson),
            }
        }
    } else {
        match scan_val(&s, 0) {
            Some(p) => {
                if ws_end(&s, p.1) == s.len() {
                    Err(DecodeError::NotAnObject)
                } else {
                    Err(DecodeError::InvalidJson)
                }
            },
            None => Err(DecodeError::InvalidJson),
        }
    }
}

} // verus!
