use request_bridge::json::decode_object;
use request_bridge::value::DynValue;

fn text_of(value: Option<&DynValue>) -> String {
    match value {
        Some(DynValue::Str(s)) => s.clone(),
        other => panic!("not a string: {:?}", other),
    }
}

#[test]
fn empty_object_has_no_members() {
    let params = decode_object(" { } ").unwrap();
    assert!(!params.contains_key("url"));
}

#[test]
fn scalar_members_keep_their_values() {
    let params = decode_object(
        "{\"s\": \"text\", \"t\": true, \"f\": false, \"n\": null, \"i\": 42, \"m\": -7}",
    )
    .unwrap();
    assert_eq!(text_of(params.get("s")), "text");
    assert!(matches!(params.get("t"), Some(DynValue::Bool(true))));
    assert!(matches!(params.get("f"), Some(DynValue::Bool(false))));
    assert!(matches!(params.get("n"), Some(DynValue::Null)));
    assert!(matches!(params.get("i"), Some(DynValue::Int(42))));
    assert!(matches!(params.get("m"), Some(DynValue::Int(-7))));
    assert!(params.get("absent").is_none());
}

#[test]
fn integers_at_the_edge_of_64_bits() {
    let params = decode_object(
        "{\"max\": 9223372036854775807, \"min\": -9223372036854775808, \
         \"over\": 9223372036854775808, \"under\": -9223372036854775809, \"zero\": -0}",
    )
    .unwrap();
    assert!(matches!(params.get("max"), Some(DynValue::Int(i64::MAX))));
    assert!(matches!(params.get("min"), Some(DynValue::Int(i64::MIN))));
    assert!(matches!(params.get("over"), Some(DynValue::Other)));
    assert!(matches!(params.get("under"), Some(DynValue::Other)));
    assert!(matches!(params.get("zero"), Some(DynValue::Int(0))));
}

#[test]
fn fractions_and_exponents_are_kept_opaque() {
    let params = decode_object("{\"a\": 1.5, \"b\": 2e3, \"c\": -0.25E-2, \"d\": 1E+9}").unwrap();
    assert!(matches!(params.get("a"), Some(DynValue::Other)));
    assert!(matches!(params.get("b"), Some(DynValue::Other)));
    assert!(matches!(params.get("c"), Some(DynValue::Other)));
    assert!(matches!(params.get("d"), Some(DynValue::Other)));
}

#[test]
fn nested_values_are_kept_opaque() {
    let params =
        decode_object("{\"list\": [1, [true, {}], \"x\"], \"object\": {\"k\": [ ]}, \"after\": 1}")
            .unwrap();
    assert!(matches!(params.get("list"), Some(DynValue::Other)));
    assert!(matches!(params.get("object"), Some(DynValue::Other)));
    assert!(matches!(params.get("after"), Some(DynValue::Int(1))));
}

#[test]
fn escapes_are_resolved() {
    let params = decode_object(
        "{\"e\": \"q\\\" b\\\\ s\\/ \\b\\f\\n\\r\\t\", \"u\": \"caf\\u00e9 \\u0041\", \"p\": \"\\ud83d\\ude00\"}",
    )
    .unwrap();
    assert_eq!(text_of(params.get("e")), "q\" b\\ s/ \u{8}\u{c}\n\r\t");
    assert_eq!(text_of(params.get("u")), "caf\u{e9} A");
    assert_eq!(text_of(params.get("p")), "\u{1F600}");
}

#[test]
fn characters_beyond_ascii_pass_through() {
    let params = decode_object("{\"g\": \"gr\u{fc}\u{df}e \u{4e16}\u{754c}\"}").unwrap();
    assert_eq!(text_of(params.get("g")), "gr\u{fc}\u{df}e \u{4e16}\u{754c}");
}

#[test]
fn escaped_names_are_resolved() {
    let params = decode_object("{\"a\\nb\": 1}").unwrap();
    assert!(matches!(params.get("a\nb"), Some(DynValue::Int(1))));
}

#[test]
fn the_later_of_two_members_counts() {
    let params = decode_object("{\"k\": 1, \"k\": \"two\"}").unwrap();
    assert_eq!(text_of(params.get("k")), "two");
}

#[test]
fn malformed_documents_are_refused() {
    let bad = [
        "",
        "   ",
        "[]",
        "\"text\"",
        "{",
        "{\"a\"}",
        "{\"a\": }",
        "{\"a\": 1,}",
        "{\"a\": 1 \"b\": 2}",
        "{a: 1}",
        "{\"a\": 1} x",
        "{\"a\": 01}",
        "{\"a\": -}",
        "{\"a\": 1.}",
        "{\"a\": 1e}",
        "{\"a\": .5}",
        "{\"a\": +1}",
        "{\"a\": tru}",
        "{\"a\": nul}",
        "{\"a\": False}",
        "{\"a\": \"open}",
        "{\"a\": \"bad \\x escape\"}",
        "{\"a\": \"short \\u12\"}",
        "{\"a\": \"lone \\ud83d\"}",
        "{\"a\": \"lone \\ude00\"}",
        "{\"a\": \"pair \\ud83d\\u0041\"}",
        "{\"a\": \"line\nbreak\"}",
        "{\"a\": [1, 2}",
        "{\"a\": [1,]}",
        "{\"a\": {\"b\": 1]}",
    ];
    for text in bad {
        assert!(decode_object(text).is_none(), "accepted: {:?}", text);
    }
}

#[test]
fn nesting_is_limited() {
    let mut deep = String::from("{\"a\": ");
    for _ in 0..64 {
        deep.push('[');
    }
    for _ in 0..64 {
        deep.push(']');
    }
    deep.push('}');
    assert!(decode_object(&deep).is_some());

    let mut too_deep = String::from("{\"a\": ");
    for _ in 0..65 {
        too_deep.push('[');
    }
    for _ in 0..65 {
        too_deep.push(']');
    }
    too_deep.push('}');
    assert!(decode_object(&too_deep).is_none());
}
