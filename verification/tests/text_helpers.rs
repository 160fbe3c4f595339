use request_bridge::outcome::status_failure;
use request_bridge::text::{push_decimal, to_chars};

#[test]
fn characters_are_listed_in_order() {
    assert_eq!(to_chars(""), Vec::<char>::new());
    assert_eq!(to_chars("a\u{e9}\u{4e16}\u{1F600}"), vec!['a', '\u{e9}', '\u{4e16}', '\u{1F600}']);
}

#[test]
fn decimal_notation_is_appended() {
    let cases: [(u32, &str); 6] = [
        (0, "0"),
        (7, "7"),
        (10, "10"),
        (404, "404"),
        (1000000, "1000000"),
        (u32::MAX, "4294967295"),
    ];
    for (n, digits) in cases {
        let mut out = String::from("n=");
        push_decimal(&mut out, n);
        assert_eq!(out, format!("n={}", digits));
    }
}

#[test]
fn status_message_names_the_status() {
    assert_eq!(status_failure(503).message, "HTTP status 503");
    assert_eq!(status_failure(0).message, "HTTP status 0");
}
