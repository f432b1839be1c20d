use ldap_backend::codec;
use ldap_backend::json::{Json, Members};
use ldap_backend::ldap::{entry_to_json, escape_arguments, SearchEntry, SearchOutcome};

fn escaped(s: &str) -> String {
    escape_arguments(&Json::text(s)).as_str().unwrap().to_owned()
}

fn printed(j: &Json) -> String {
    String::from_utf8(codec::print(j).unwrap()).unwrap()
}

#[test]
fn escapes_filter_metachars_only_on_strings() {
    let escaped = escape_arguments(
        &Members::new()
            .with("q", Json::text("a)(b*c"))
            .with("n", Json::unsigned(5))
            .with("nested", Members::new().with("x", Json::text("(")).object())
            .object(),
    );
    let q = escaped.get("q").unwrap().as_str().unwrap();
    for c in [')', '(', '*'] {
        assert!(!q.contains(c), "unescaped {c} leaked: {q}");
    }
    assert!(q.contains('\\'), "expected backslash escapes: {q}");
    assert_eq!(escaped.get("n"), Some(&Json::unsigned(5)));
    assert!(!escaped.get("nested").unwrap().get("x").unwrap().as_str().unwrap().contains('('));
}

#[test]
fn escapes_are_exact() {
    assert_eq!(escaped("a)(b*c"), "a\\29\\28b\\2ac");
    assert_eq!(escaped("\\\0"), "\\5c\\00");
    assert_eq!(escaped("plain, =&|! 5c"), "plain, =&|! 5c");
    assert_eq!(escaped("\u{e9}(\u{1f600}"), "\u{e9}\\28\u{1f600}");
    assert_eq!(escaped(""), "");
}

#[test]
fn escaping_joins_and_loses_nothing() {
    for (a, b) in [("a*", "(b"), ("\\", "2a"), ("", "*")] {
        assert_eq!(escaped(&format!("{a}{b}")), escaped(a) + &escaped(b));
    }
    assert_ne!(escaped("\\2a"), escaped("*"));
    assert_eq!(ldap3::ldap_unescape(escaped("x\\2a*()")).unwrap(), "x\\2a*()");
}

#[test]
fn escaping_leaves_all_but_texts() {
    let j = codec::parse(br#"{"a*":[1,-2,2.5,true,null,"*"],"b":{}}"#).unwrap();
    assert_eq!(
        printed(&escape_arguments(&j)),
        r#"{"a*":[1,-2,2.5,true,null,"\\2a"],"b":{}}"#
    );
}

fn entry(dn: &str) -> SearchEntry {
    SearchEntry {
        dn: dn.to_owned(),
        attrs: vec![
            ("mail".to_owned(), vec!["a@x".to_owned()]),
            ("cn".to_owned(), vec!["A".to_owned(), "B".to_owned()]),
        ],
    }
}

#[test]
fn entries_keep_their_values_as_arrays() {
    assert_eq!(
        printed(&entry_to_json(entry("cn=A"))),
        r#"{"attributes":{"cn":["A","B"],"mail":["a@x"]},"dn":"cn=A"}"#
    );
    let bare = SearchEntry { dn: String::new(), attrs: vec![] };
    assert_eq!(printed(&entry_to_json(bare)), r#"{"attributes":{},"dn":""}"#);
}

#[test]
fn the_limit_keeps_the_first_entries() {
    let found = || vec![entry("1"), entry("2"), entry("3")];
    let dns = |limit: usize| -> Vec<String> {
        SearchOutcome::from_entries(found(), limit)
            .entries
            .iter()
            .map(|e| e.get("dn").unwrap().as_str().unwrap().to_owned())
            .collect()
    };
    assert_eq!(dns(2), ["1", "2"]);
    assert_eq!(dns(3), ["1", "2", "3"]);
    assert_eq!(dns(100), ["1", "2", "3"]);
    assert!(dns(0).is_empty());
}
