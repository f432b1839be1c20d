use ldap_backend::protocol::BackendError;
use ldap_backend::types::{default_size_limit, default_timeout_ms};
use ldap_backend::{LdapBackendSpec, LdapScope};

#[test]
fn scope_defaults_to_subtree() {
    assert_eq!(LdapScope::default(), LdapScope::Subtree);
}

fn spec(filter: &str) -> LdapBackendSpec {
    LdapBackendSpec::from_fields(
        "ldaps://dc.example.com:636".to_owned(),
        "cn=svc,dc=example,dc=com".to_owned(),
        "cred://vault/svc".to_owned(),
        "ou=people,dc=example,dc=com".to_owned(),
        None,
        filter.to_owned(),
        None,
        None,
        None,
    )
}

#[test]
fn spec_applies_defaults() {
    let spec = spec("(cn=*${arguments.q}*)");
    assert_eq!(spec.scope, LdapScope::Subtree);
    assert_eq!(spec.size_limit, 100);
    assert_eq!(spec.timeout_ms, 10_000);
    assert!(spec.attributes.is_empty());
}

#[test]
fn spec_keeps_what_is_given() {
    let spec = LdapBackendSpec::from_fields(
        "u".to_owned(),
        "d".to_owned(),
        "p".to_owned(),
        "b".to_owned(),
        Some(LdapScope::One),
        "f".to_owned(),
        Some(vec!["cn".to_owned()]),
        Some(7),
        Some(9),
    );
    assert_eq!((spec.url.as_str(), spec.bind_dn.as_str()), ("u", "d"));
    assert_eq!((spec.bind_password.as_str(), spec.base_dn.as_str()), ("p", "b"));
    assert_eq!((spec.scope, spec.filter.as_str()), (LdapScope::One, "f"));
    assert_eq!((spec.attributes, spec.size_limit, spec.timeout_ms), (vec!["cn".to_owned()], 7, 9));
    assert_eq!((default_size_limit(), default_timeout_ms()), (100, 10_000));
}

#[test]
fn scopes_have_names_and_counterparts() {
    assert_eq!(LdapScope::Base.as_str(), "base");
    assert_eq!(LdapScope::One.as_str(), "one");
    assert_eq!(LdapScope::Subtree.as_str(), "subtree");
    assert_eq!(LdapScope::Base.to_ldap3(), ldap3::Scope::Base);
    assert_eq!(LdapScope::One.to_ldap3(), ldap3::Scope::OneLevel);
    assert_eq!(LdapScope::Subtree.to_ldap3(), ldap3::Scope::Subtree);
}

fn complaint(change: fn(&mut LdapBackendSpec)) -> String {
    let mut s = spec("(cn=a)");
    change(&mut s);
    match s.validate() {
        Ok(()) => "none".to_owned(),
        Err(BackendError::InvalidSpec { message }) => message,
        Err(other) => panic!("{other:?}"),
    }
}

#[test]
fn each_complaint_has_its_input() {
    assert_eq!(complaint(|_| {}), "none");
    assert_eq!(complaint(|s| s.url = "ldap://x".to_owned()), "none");
    assert_eq!(
        complaint(|s| s.url = "https://x/".to_owned()),
        "url must start with ldap:// or ldaps://, got 'https://x/'"
    );
    assert_eq!(complaint(|s| s.bind_dn = " \t\u{a0}".to_owned()), "bind_dn must not be empty");
    assert_eq!(complaint(|s| s.base_dn = String::new()), "base_dn must not be empty");
    assert_eq!(complaint(|s| s.filter = "\u{3000}\n".to_owned()), "filter must not be empty");
    assert_eq!(complaint(|s| s.timeout_ms = 0), "timeout_ms must be greater than 0");
    assert_eq!(complaint(|s| s.size_limit = 0), "size_limit must be greater than 0");
    assert_eq!(
        complaint(|s| s.filter = "(cn=cred://x/y)".to_owned()),
        "filter must not contain cred:// \u{2014} put bind credentials in bind_password"
    );
}

#[test]
fn the_first_complaint_counts() {
    assert_eq!(
        complaint(|s| {
            s.base_dn = String::new();
            s.size_limit = 0;
            s.filter = "cred://".to_owned();
        }),
        "base_dn must not be empty"
    );
}

#[test]
fn a_password_over_a_plain_connection_is_noticed() {
    let mut s = spec("f");
    assert!(!s.sends_password_in_clear());
    s.url = "ldap://x".to_owned();
    assert!(s.sends_password_in_clear());
    s.bind_password = String::new();
    assert!(!s.sends_password_in_clear());
}

#[test]
fn a_copy_of_a_spec_is_the_same() {
    let s = spec("(cn=a)");
    assert_eq!(s.clone(), s);
}

#[test]
fn the_time_limit_is_shared() {
    let mut s = spec("(cn=a)");
    s.timeout_ms = 10;
    let settings = s.into_settings();
    assert_eq!(settings.time_left(0), 10);
    assert_eq!(settings.time_left(4), 6);
    assert_eq!(settings.time_left(10), 0);
    assert_eq!(settings.time_left(u64::MAX), 0);
}
