use user_greeting::html::{escape_html, greeting};
use user_greeting::validate::{email_shaped, validate};
use user_greeting::RequestUser;

fn candidate(username: &str, password: &str) -> RequestUser {
    RequestUser { username: username.to_string(), password: password.to_string() }
}

#[test]
fn email_shapes() {
    assert!(email_shaped("a@b.com"));
    assert!(email_shaped("a@b.c"));
    assert!(email_shaped("long.local+part@sub.domain.example"));
    assert!(!email_shaped(""));
    assert!(!email_shaped("not-an-email"));
    assert!(!email_shaped("bad"));
    assert!(!email_shaped("@b.com"), "local part must be non-empty");
    assert!(!email_shaped("a@b"), "domain must hold a dot");
    assert!(!email_shaped("a.b@c"), "the dot must stand after the at sign");
    assert!(!email_shaped("a@@b.com"), "exactly one at sign");
    assert!(!email_shaped("a@b@c.com"), "exactly one at sign");
}

#[test]
fn valid_candidate_passes() {
    assert!(validate(&candidate("a@b.com", "longenough1")).is_ok());
    assert!(validate(&candidate("a@b.com", "12345678")).is_ok());
}

#[test]
fn username_rule_is_reported_alone() {
    let e = validate(&candidate("nope", "longenough1")).unwrap_err();
    assert_eq!(e.errors.len(), 1);
    assert_eq!(e.errors[0].field, "username");
    assert_eq!(e.errors[0].message, "must be a valid email");
    assert_eq!(e.message(), "username: must be a valid email\n");
}

#[test]
fn password_rule_is_reported_alone() {
    let e = validate(&candidate("a@b.com", "1234567")).unwrap_err();
    assert_eq!(e.errors.len(), 1);
    assert_eq!(e.errors[0].field, "password");
    assert_eq!(e.errors[0].message, "must have at least 8 characters");
}

#[test]
fn both_rules_are_reported_in_field_order() {
    let e = validate(&candidate("nope", "short")).unwrap_err();
    assert_eq!(e.errors.len(), 2);
    assert_eq!(e.errors[0].field, "username");
    assert_eq!(e.errors[1].field, "password");
    assert_eq!(
        e.message(),
        "username: must be a valid email\npassword: must have at least 8 characters\n"
    );
}

#[test]
fn password_rule_counts_characters() {
    assert!(validate(&candidate("a@b.com", "αβγδεζη")).is_err());
    assert!(validate(&candidate("a@b.com", "αβγδεζηθ")).is_ok());
}

#[test]
fn escaping_replaces_markup_characters() {
    assert_eq!(escape_html("plain text"), "plain text");
    assert_eq!(escape_html("<b>&\"'"), "&lt;b&gt;&amp;&quot;&#39;");
    assert_eq!(escape_html(""), "");
}

#[test]
fn greeting_embeds_escaped_username() {
    assert_eq!(greeting("a@b.com"), "<h1>Hello, a@b.com!</h1>");
    assert_eq!(
        greeting("<script>@example.com"),
        "<h1>Hello, &lt;script&gt;@example.com!</h1>"
    );
}
