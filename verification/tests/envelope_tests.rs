use ldap_backend::envelope::{
    build_result_envelope, classify_error, label_failure, ldap_downstream_error,
};
use ldap_backend::json::{Json, Members};

fn text_of<'a>(j: &'a Json, name: &str) -> &'a str {
    j.get(name).unwrap().as_str().unwrap()
}

fn printed(j: &Json) -> String {
    String::from_utf8(ldap_backend::codec::print(j).unwrap()).unwrap()
}

#[test]
fn connect_failure_is_retryable_transport_error() {
    let e = classify_error("LDAP connect failed: connection refused");
    assert_eq!(e.get("kind"), Some(&Json::text("transport_error")));
    assert_eq!(e.get("retryable"), Some(&Json::Bool(true)));
}

#[test]
fn bind_rejection_is_not_retryable() {
    let e = classify_error("LDAP bind rejected: invalidCredentials");
    assert_eq!(e.get("kind"), Some(&Json::text("ldap_error")));
    assert_eq!(e.get("retryable"), Some(&Json::Bool(false)));
}

#[test]
fn success_envelope_has_entries_and_null_error() {
    let entries = vec![Members::new().with("dn", Json::text("cn=a")).object()];
    let env = build_result_envelope(
        "people.search",
        "people",
        "ldaps://dc",
        "ou=people",
        "subtree",
        "(cn=a)",
        &["cn".to_owned()],
        Some(&entries),
        12,
        None,
        None,
    );
    assert_eq!(env.get("response").unwrap().get("count"), Some(&Json::unsigned(1)));
    assert_eq!(env.get("downstreamError"), Some(&Json::Null));
}

#[test]
fn success_envelope_prints_in_full() {
    let entries = vec![Members::new().with("dn", Json::text("cn=a")).object()];
    let env = build_result_envelope(
        "people.search",
        "people",
        "ldaps://dc",
        "ou=people",
        "subtree",
        "(cn=a)",
        &["cn".to_owned()],
        Some(&entries),
        12,
        None,
        None,
    );
    assert_eq!(
        printed(&env),
        concat_lines(&[
            r#"{"downstreamError":null,"downstreamErrors":[],"error":null,"profile":"people","#,
            r#""request":{"attributes":["cn"],"baseDn":"ou=people","filter":"(cn=a)","#,
            r#""scope":"subtree","url":"ldaps://dc"},"#,
            r#""response":{"count":1,"durationMs":12,"entries":[{"dn":"cn=a"}]},"#,
            r#""toolName":"people.search"}"#,
        ])
    );
}

fn concat_lines(lines: &[&str]) -> String {
    lines.concat()
}

#[test]
fn failure_envelope_has_failure_and_null_response() {
    let failure = classify_error("LDAP search rejected: noSuchObject");
    let env = build_result_envelope(
        "t",
        "p",
        "ldap://dc",
        "dc=x",
        "base",
        "",
        &[],
        None,
        u128::MAX,
        Some(&failure),
        Some("LDAP search rejected: noSuchObject"),
    );
    assert_eq!(env.get("response"), Some(&Json::Null));
    assert_eq!(env.get("downstreamError"), Some(&failure));
    assert_eq!(env.get("downstreamErrors"), Some(&Json::Array(vec![failure])));
    assert_eq!(text_of(&env, "error"), "LDAP search rejected: noSuchObject");
}

#[test]
fn downstream_error_says_what_to_do() {
    let e = ldap_downstream_error("transport_error", "m", true);
    assert_eq!(text_of(&e, "code"), "mcpg.downstream_ldap.transport_error");
    assert_eq!(text_of(&e, "message"), "m");
    assert_eq!(text_of(&e, "retryClass"), "with_backoff");
    assert_eq!(text_of(&e, "suggestedAction"), "check_directory_connectivity_and_retry");
    let e = ldap_downstream_error("ldap_error", "m", false);
    assert_eq!(text_of(&e, "code"), "mcpg.downstream_ldap.ldap_error");
    assert_eq!(text_of(&e, "retryClass"), "do_not_retry");
    assert_eq!(text_of(&e, "suggestedAction"), "inspect_ldap_error");
}

#[test]
fn every_word_of_the_connection_is_transient() {
    for m in [
        "cannot CONNECT",
        "it Timed Out",
        "a Timeout",
        "channel closed",
        "recv error: x",
        "Broken pipe",
        "connection reset by peer",
    ] {
        assert_eq!(text_of(&classify_error(m), "kind"), "transport_error", "{m}");
    }
    assert_eq!(text_of(&classify_error(""), "kind"), "ldap_error");
    assert_eq!(text_of(&classify_error("time out"), "kind"), "ldap_error");
}

#[test]
fn failures_are_labelled() {
    assert_eq!(label_failure("LDAP search failed: timeout"), "timeout");
    assert_eq!(label_failure("LDAP connect failed: timed out"), "timeout");
    assert_eq!(label_failure("LDAP connect failed: refused"), "transport_error");
    assert_eq!(label_failure("LDAP bind rejected: rc=49"), "ldap_error");
}

#[test]
fn a_rejection_that_tells_of_the_connection_is_final() {
    for m in [
        "LDAP bind rejected: not connected",
        "LDAP search rejected: noSuchObject, text: ou=connectors",
        "LDAP search rejected: timeout",
    ] {
        let e = classify_error(m);
        assert_eq!(text_of(&e, "kind"), "ldap_error", "{m}");
        assert_eq!(e.get("retryable"), Some(&Json::Bool(false)), "{m}");
    }
    assert_eq!(label_failure("LDAP bind rejected: not connected"), "ldap_error");
    assert_eq!(label_failure("LDAP search rejected: timeout"), "timeout");
    assert_eq!(text_of(&classify_error("LDAP bind failed: not connected"), "kind"), "transport_error");
}
