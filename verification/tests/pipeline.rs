use user_greeting::handler::handle_request;

#[test]
fn valid_request_is_greeted() {
    let r = handle_request(r#"{"username":"a@b.com","password":"longenough1"}"#);
    assert_eq!(r.status, 200);
    assert_eq!(r.content_type, "text/html; charset=utf-8");
    assert!(r.body.contains("Hello, a@b.com!"));
    assert_eq!(r.body, "<h1>Hello, a@b.com!</h1>");
}

#[test]
fn bad_username_is_rejected() {
    let r = handle_request(r#"{"username":"not-an-email","password":"longenough1"}"#);
    assert_eq!(r.status, 400);
    assert_eq!(r.content_type, "text/plain; charset=utf-8");
    assert_eq!(r.body, "username: must be a valid email\n");
}

#[test]
fn short_password_is_rejected() {
    let r = handle_request(r#"{"username":"a@b.com","password":"short"}"#);
    assert_eq!(r.status, 400);
    assert_eq!(r.body, "password: must have at least 8 characters\n");
}

#[test]
fn both_failures_are_aggregated() {
    let r = handle_request(r#"{"username":"bad","password":"short"}"#);
    assert_eq!(r.status, 400);
    assert!(r.body.contains("must be a valid email"));
    assert!(r.body.contains("must have at least 8 characters"));
    assert_eq!(
        r.body,
        "username: must be a valid email\npassword: must have at least 8 characters\n"
    );
}

#[test]
fn malformed_body_yields_decode_error() {
    let r = handle_request("not json at all");
    assert_eq!(r.status, 400);
    assert_eq!(r.body, "request body is not valid JSON");
    assert!(!r.body.contains("must be a valid email"));
    assert!(!r.body.contains("must have at least 8 characters"));
}

#[test]
fn markup_in_username_is_escaped() {
    let r = handle_request(r#"{"username":"<script>@example.com","password":"longenough1"}"#);
    assert_eq!(r.status, 200);
    assert!(!r.body[4..r.body.len() - 5].contains('<'));
    assert!(!r.body.contains("<script>"));
    assert_eq!(r.body, "<h1>Hello, &lt;script&gt;@example.com!</h1>");
}

#[test]
fn truncated_json_yields_decode_error() {
    let r = handle_request(r#"{"username":"a@b.com","password":"#);
    assert_eq!(r.status, 400);
    assert_eq!(r.body, "request body is not valid JSON");
}

#[test]
fn non_object_json_yields_object_error() {
    let r = handle_request(r#"[1, 2, 3]"#);
    assert_eq!(r.status, 400);
    assert_eq!(r.body, "request body must be a JSON object");
}

#[test]
fn extra_keys_are_ignored() {
    let r = handle_request(
        r#"{"note":[1,{"x":null},true],"username":"a@b.com","count":-1.5e3,"password":"longenough1"}"#,
    );
    assert_eq!(r.status, 200);
    assert_eq!(r.body, "<h1>Hello, a@b.com!</h1>");
}

#[test]
fn password_length_counts_characters_not_bytes() {
    // eight two-byte characters: sixteen bytes, but long enough
    let r = handle_request("{\"username\":\"a@b.com\",\"password\":\"ääääääää\"}");
    assert_eq!(r.status, 200);
    // seven of them are too short, whatever the byte count
    let r = handle_request("{\"username\":\"a@b.com\",\"password\":\"äääääää\"}");
    assert_eq!(r.status, 400);
    assert_eq!(r.body, "password: must have at least 8 characters\n");
}
