use user_greeting::json::{decode, DecodeError};

#[test]
fn plain_object_decodes() {
    let u = decode(r#"{"username":"a@b.com","password":"hunter22"}"#).unwrap();
    assert_eq!(u.username, "a@b.com");
    assert_eq!(u.password, "hunter22");
}

#[test]
fn fields_are_copied_verbatim() {
    let u = decode(r#"{"username":"  A@B.com  ","password":" p "}"#).unwrap();
    assert_eq!(u.username, "  A@B.com  ");
    assert_eq!(u.password, " p ");
}

#[test]
fn surrounding_whitespace_is_allowed() {
    let u = decode(" \t\r\n { \"username\" : \"a@b.com\" , \"password\" : \"x\" } \n").unwrap();
    assert_eq!(u.username, "a@b.com");
    assert_eq!(u.password, "x");
}

#[test]
fn missing_username_is_reported() {
    let e = decode(r#"{"password":"hunter22"}"#).unwrap_err();
    assert_eq!(e, DecodeError::MissingUsername);
    assert_eq!(e.message(), "missing field `username`");
}

#[test]
fn missing_password_is_reported() {
    let e = decode(r#"{"username":"a@b.com"}"#).unwrap_err();
    assert_eq!(e, DecodeError::MissingPassword);
    assert_eq!(e.message(), "missing field `password`");
}

#[test]
fn empty_object_misses_username_first() {
    let e = decode("{}").unwrap_err();
    assert_eq!(e, DecodeError::MissingUsername);
}

#[test]
fn non_string_username_is_reported() {
    let e = decode(r#"{"username":42,"password":"hunter22"}"#).unwrap_err();
    assert_eq!(e, DecodeError::UsernameNotText);
    assert_eq!(e.message(), "field `username` must be a string");
}

#[test]
fn non_string_password_is_reported() {
    let e = decode(r#"{"username":"a@b.com","password":null}"#).unwrap_err();
    assert_eq!(e, DecodeError::PasswordNotText);
    assert_eq!(e.message(), "field `password` must be a string");
}

#[test]
fn non_object_value_is_reported() {
    let e = decode(r#""just a string""#).unwrap_err();
    assert_eq!(e, DecodeError::NotAnObject);
    assert_eq!(e.message(), "request body must be a JSON object");
    assert_eq!(decode("true").unwrap_err(), DecodeError::NotAnObject);
    assert_eq!(decode("-12.5e-3").unwrap_err(), DecodeError::NotAnObject);
    assert_eq!(decode("null").unwrap_err(), DecodeError::NotAnObject);
    assert_eq!(decode("[]").unwrap_err(), DecodeError::NotAnObject);
}

#[test]
fn garbage_is_invalid_json() {
    assert_eq!(decode("").unwrap_err(), DecodeError::InvalidJson);
    assert_eq!(decode("   ").unwrap_err(), DecodeError::InvalidJson);
    assert_eq!(decode("{").unwrap_err(), DecodeError::InvalidJson);
    assert_eq!(decode("{]").unwrap_err(), DecodeError::InvalidJson);
    assert_eq!(decode("nul").unwrap_err(), DecodeError::InvalidJson);
    assert_eq!(decode("01").unwrap_err(), DecodeError::InvalidJson);
    assert_eq!(decode("1.").unwrap_err(), DecodeError::InvalidJson);
    assert_eq!(decode("{\"username\":\"a\"").unwrap_err(), DecodeError::InvalidJson);
    assert_eq!(decode("{\"username\" \"a\"}").unwrap_err(), DecodeError::InvalidJson);
}

#[test]
fn trailing_text_is_invalid_json() {
    let e = decode(r#"{"username":"a@b.com","password":"hunter22"} trailing"#).unwrap_err();
    assert_eq!(e, DecodeError::InvalidJson);
    assert_eq!(decode("null null").unwrap_err(), DecodeError::InvalidJson);
}

#[test]
fn simple_escapes_are_decoded() {
    let u = decode(r#"{"username":"a\"b\\c\/d\n@x.y","password":"a\tb\rc\bd\fe"}"#).unwrap();
    assert_eq!(u.username, "a\"b\\c/d\n@x.y");
    assert_eq!(u.password, "a\tb\rc\u{0008}d\u{000C}e");
}

#[test]
fn unicode_escapes_are_decoded() {
    let u = decode(r#"{"username":"\u0041@b.com","password":"p\u00e4ssword1"}"#).unwrap();
    assert_eq!(u.username, "A@b.com");
    assert_eq!(u.password, "pässword1");
}

#[test]
fn surrogate_pairs_are_combined() {
    let u = decode(r#"{"username":"a@b.com","password":"\ud83d\ude00abcdef"}"#).unwrap();
    assert_eq!(u.password, "\u{1F600}abcdef");
}

#[test]
fn lone_surrogates_are_invalid() {
    assert_eq!(
        decode(r#"{"username":"a@b.com","password":"\ud83dxx"}"#).unwrap_err(),
        DecodeError::InvalidJson
    );
    assert_eq!(
        decode(r#"{"username":"a@b.com","password":"\ude00xx"}"#).unwrap_err(),
        DecodeError::InvalidJson
    );
}

#[test]
fn unescaped_control_characters_are_invalid() {
    assert_eq!(
        decode("{\"username\":\"a\u{0001}b\",\"password\":\"hunter22\"}").unwrap_err(),
        DecodeError::InvalidJson
    );
}

#[test]
fn first_occurrence_of_a_repeated_key_counts() {
    let u = decode(r#"{"username":"first@x.com","username":"second@x.com","password":"p"}"#)
        .unwrap();
    assert_eq!(u.username, "first@x.com");
}

#[test]
fn non_ascii_text_is_kept() {
    let u = decode(r#"{"username":"grüße@straße.de","password":"πάσσωορδ"}"#).unwrap();
    assert_eq!(u.username, "grüße@straße.de");
    assert_eq!(u.password, "πάσσωορδ");
}
