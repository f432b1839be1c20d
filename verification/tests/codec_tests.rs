use ldap_backend::codec::{parse, print};
use ldap_backend::json::{Json, Members};

#[test]
fn texts_are_read_and_written() {
    for text in [
        "null",
        "[true,false]",
        r#"{"a":{"b":[1,-5,0.5,"x\n"]}}"#,
        "18446744073709551615",
        "{}",
    ] {
        let j = parse(text.as_bytes()).unwrap();
        assert_eq!(String::from_utf8(print(&j).unwrap()).unwrap(), text);
    }
}

#[test]
fn the_last_member_with_a_name_counts() {
    let j = parse(br#"{"a":1,"b":2,"a":3}"#).unwrap();
    assert_eq!(j.get("a"), Some(&Json::unsigned(3)));
    let built = Members::new().with("a", Json::unsigned(1)).with("a", Json::Null).object();
    assert_eq!(built.get("a"), Some(&Json::Null));
    assert_eq!(print(&built).unwrap(), br#"{"a":null}"#.to_vec());
    assert_eq!(built.get("b"), None);
    assert_eq!(Json::Null.get("a"), None);
}

#[test]
fn what_is_no_json_is_an_error() {
    assert_eq!(parse(b"{").unwrap_err(), "EOF while parsing an object at line 1 column 1");
    assert_eq!(Json::Null.as_str(), None);
}

#[test]
fn a_copy_is_the_same() {
    let j = parse(br#"{"a":[null,true,1.5,{"b":"c"}]}"#).unwrap();
    assert_eq!(j.clone(), j);
}

#[test]
fn what_is_written_is_read_again() {
    let deep = |levels: usize| format!("{}{}", "[".repeat(levels), "]".repeat(levels));
    for text in [
        "{}".to_owned(),
        r#"{"a\"\\\n\u0001":[-9223372036854775808,18446744073709551615,0,"\u007f",null]}"#.to_owned(),
        deep(127),
    ] {
        let j = parse(text.as_bytes()).unwrap();
        assert_eq!(parse(&print(&j).unwrap()).unwrap(), j);
    }
    assert!(parse(deep(128).as_bytes()).is_err());
    assert_eq!(print(&Members::new().object()).unwrap(), b"{}".to_vec());
    assert_eq!(parse(b"{}").unwrap(), Members::new().object());
}

#[test]
fn repeated_names_are_written_once() {
    let j = Json::Object(vec![
        ("a".to_owned(), Json::unsigned(1)),
        ("b".to_owned(), Json::unsigned(2)),
        ("a".to_owned(), Json::unsigned(3)),
        ("b".to_owned(), Json::Null),
    ]);
    assert_eq!(print(&j).unwrap(), br#"{"a":3,"b":null}"#.to_vec());
}
