use ldap_backend::execution::{Reply, Step};
use ldap_backend::json::{Json, Members};
use ldap_backend::ldap::SearchEntry;
use ldap_backend::observability::{
    audit_action_for_outcome, audit_event, observe, span_fields, span_name,
    synthetic_system_identity, Call,
};
use ldap_backend::plugin::Registration;
use ldap_backend::protocol::{BackendError, BackendRequest, PluginIdentity};
use ldap_backend::{LdapBackendPlugin, LdapBackendSpec, LdapScope};

type Plugin = LdapBackendPlugin<&'static str, u8>;

fn minimal_spec() -> LdapBackendSpec {
    LdapBackendSpec::from_fields(
        "ldaps://dc.example.com:636".to_owned(),
        "cn=svc,dc=example,dc=com".to_owned(),
        "cred://vault/svc".to_owned(),
        "ou=people,dc=example,dc=com".to_owned(),
        None,
        "(&(objectClass=person)(cn=*${arguments.q}*))".to_owned(),
        None,
        None,
        None,
    )
}

fn register(plugin: &mut Plugin, name: &str, spec: LdapBackendSpec) -> Result<(), BackendError> {
    let registration = Registration::check(name, Ok(spec))?;
    plugin.register_profile(registration, Ok("compiled"))
}

fn request(payload: &[u8]) -> BackendRequest {
    BackendRequest {
        payload: payload.to_vec(),
        headers: vec![],
        request_id: "rq-1".to_owned(),
        session_id: None,
        identity: None,
    }
}

fn caller() -> PluginIdentity {
    PluginIdentity {
        kind: "http".to_owned(),
        trust_level: "high".to_owned(),
        subject_id: Some("alice".to_owned()),
        auth_provider: Some("idp".to_owned()),
        issuer: None,
        roles: vec!["r".to_owned()],
        groups: vec!["g".to_owned()],
        scopes: vec!["s".to_owned()],
        attributes: vec![("dept".to_owned(), Json::unsigned(7))],
    }
}

#[test]
fn kind_is_ldap() {
    assert_eq!(Plugin::new().kind(), "ldap");
}

#[test]
fn manifest_id() {
    assert_eq!(Plugin::new().manifest().id, "dev.mcpg.backend.ldap");
}

#[test]
fn register_accepts_minimal_spec() {
    let mut plugin = Plugin::new();
    register(&mut plugin, "people", minimal_spec()).expect("register");
    let p = plugin.profile("people").unwrap();
    assert_eq!(p.settings.scope, LdapScope::Subtree);
    assert_eq!(p.settings.base_dn, "ou=people,dc=example,dc=com");
}

#[test]
fn register_rejects_non_ldap_scheme() {
    let mut plugin = Plugin::new();
    let mut spec = minimal_spec();
    spec.url = "https://x/".to_owned();
    let err = register(&mut plugin, "x", spec).expect_err("non-ldap");
    assert!(matches!(err, BackendError::InvalidSpec { .. }));
}

#[test]
fn register_rejects_cred_in_filter() {
    let mut plugin = Plugin::new();
    let mut spec = minimal_spec();
    spec.filter = "(cn=cred://x/y)".to_owned();
    let err = register(&mut plugin, "x", spec).expect_err("cred in filter");
    assert!(matches!(err, BackendError::InvalidSpec { .. }));
}

#[test]
fn execute_unknown_profile_is_profile_not_found() {
    let plugin = Plugin::new();
    let rejection = match plugin.execute("missing", request(b"")) {
        Err(r) => r,
        Ok(_) => panic!("missing"),
    };
    assert!(matches!(rejection.error, BackendError::ProfileNotFound { .. }));
    assert_eq!(rejection.label, "profile_not_found");
}

#[test]
fn register_reports_what_reading_and_compiling_gave() {
    let err = match Registration::check("x", Err("missing field `url`".to_owned())) {
        Err(e) => e,
        Ok(_) => panic!("unreadable"),
    };
    assert_eq!(
        err,
        BackendError::InvalidSpec { message: "LDAP binding spec: missing field `url`".to_owned() }
    );
    let mut plugin = Plugin::new();
    let registration = match Registration::check("x", Ok(minimal_spec())) {
        Ok(r) => r,
        Err(e) => panic!("{e:?}"),
    };
    assert_eq!(registration.filter(), "(&(objectClass=person)(cn=*${arguments.q}*))");
    assert_eq!(
        plugin.register_profile(registration, Err("bad".to_owned())),
        Err(BackendError::InvalidSpec { message: "filter expression: bad".to_owned() })
    );
    assert!(plugin.profile("x").is_none());
}

#[test]
fn the_last_registration_counts() {
    let mut plugin = Plugin::default();
    register(&mut plugin, "a", minimal_spec()).unwrap();
    register(&mut plugin, "b", minimal_spec()).unwrap();
    let mut spec = minimal_spec();
    spec.size_limit = 3;
    register(&mut plugin, "a", spec).unwrap();
    assert_eq!(plugin.profile("a").unwrap().settings.size_limit, 3);
    assert_eq!(plugin.profile("b").unwrap().settings.size_limit, 100);
}

#[test]
fn only_the_first_host_is_taken() {
    let mut plugin = Plugin::new();
    assert_eq!(plugin.host_handle(), None);
    assert!(plugin.set_host_handle(1));
    assert!(!plugin.set_host_handle(2));
    assert_eq!(plugin.host_handle(), Some(&1));
}

#[test]
fn audit_metadata_names_the_transport() {
    let j = Plugin::new().audit_metadata("people");
    assert_eq!(j.get("ldap.transport"), Some(&Json::text("plugin")));
}

#[test]
fn a_payload_that_is_no_json_is_turned_down() {
    let mut plugin = Plugin::new();
    register(&mut plugin, "people", minimal_spec()).unwrap();
    let rejection = match plugin.execute("people", request(b"{")) {
        Err(r) => r,
        Ok(_) => panic!("no json"),
    };
    assert_eq!(rejection.label, "invalid_spec");
    assert_eq!(
        rejection.error,
        BackendError::InvalidSpec {
            message: "LDAP plugin payload is not valid JSON: \
                      EOF while parsing an object at line 1 column 1"
                .to_owned()
        }
    );
}

fn started(spec: LdapBackendSpec, request: BackendRequest) -> ldap_backend::execution::FilterStep {
    let mut plugin = Plugin::new();
    register(&mut plugin, "people", spec).unwrap();
    match plugin.execute("people", request) {
        Ok((step, runtime)) => {
            assert_eq!(*runtime, "compiled");
            step
        }
        Err(r) => panic!("{r:?}"),
    }
}

#[test]
fn the_filter_sees_escaped_arguments_and_the_caller() {
    let mut rq = request(br#"{"q":"a*"}"#);
    rq.headers = vec![
        ("x".to_owned(), "y".to_owned()),
        ("MCPG-Tool-Name".to_owned(), "directory.search".to_owned()),
        ("mcpg-tool-name".to_owned(), "second".to_owned()),
    ];
    rq.session_id = Some("s-1".to_owned());
    rq.identity = Some(caller());
    let step = started(minimal_spec(), rq);
    assert_eq!(step.context.arguments.get("q").unwrap().as_str(), Some("a\\2a"));
    assert_eq!(step.context.tool_name, "directory.search");
    assert_eq!(step.context.context.session_id.as_deref(), Some("s-1"));
    let claims = step.context.context.claims.unwrap();
    assert_eq!(claims.principal_id.as_deref(), Some("alice"));
    assert_eq!((claims.trust_level.as_str(), claims.transport.as_str()), ("high", "http"));
    assert_eq!(claims.auth_provider.as_deref(), Some("idp"));
    assert_eq!((claims.roles, claims.groups), (vec!["r".to_owned()], vec!["g".to_owned()]));
    assert_eq!(claims.scopes, ["s"]);
    assert_eq!(claims.attributes, [("dept".to_owned(), Json::unsigned(7))]);
}

#[test]
fn an_empty_payload_is_no_arguments() {
    let step = started(minimal_spec(), request(b""));
    assert_eq!(step.context.arguments, Members::new().object());
    assert_eq!(step.context.tool_name, "people");
    assert!(step.context.context.claims.is_none());
}

fn entry(dn: &str) -> SearchEntry {
    SearchEntry { dn: dn.to_owned(), attrs: vec![("cn".to_owned(), vec![dn.to_owned()])] }
}

#[test]
fn a_call_that_goes_through() {
    let mut spec = minimal_spec();
    spec.size_limit = 1;
    let mut rq = request(b"{}");
    rq.identity = Some(caller());
    let step = match started(spec, rq).resolved(Ok("(cn=a)".to_owned())) {
        Step::Credential(s) => s,
        _ => panic!("credential"),
    };
    let ask = step.request();
    assert_eq!((ask.request_id.as_str(), ask.backend_name.as_str()), ("rq-1", "people"));
    assert_eq!(ask.identity, Some(caller()));
    assert_eq!(
        ask.snapshot,
        Members::new().with("cred://vault/svc", Json::text("cred://vault/svc")).object()
    );
    let reply = Members::new().with("cred://vault/svc", Json::text("hunter2")).object();
    let step = match step.resolved(Ok(reply)) {
        Step::Connect(s) => s,
        _ => panic!("connect"),
    };
    assert_eq!(step.bind_password, "hunter2");
    assert_eq!(step.time_left(0), 10_000);
    let step = match step.connected(Ok(())) {
        Step::Bind(s) => s,
        _ => panic!("bind"),
    };
    assert_eq!(step.bind_password, "hunter2");
    assert_eq!(step.time_left(1), 9_999);
    let step = match step.bound(Reply::Granted(())) {
        Step::Search(s) => s,
        _ => panic!("search"),
    };
    assert_eq!(step.attributes, ["*"]);
    assert_eq!(step.time_left(10_001), 0);
    assert_eq!((step.wanted(0), step.wanted(1), step.wanted(2)), (0, 1, 1));
    let step = match step.searched(Reply::Granted(vec![entry("a"), entry("b")])) {
        Step::Unbind(s) => s,
        _ => panic!("unbind"),
    };
    let done = match step.unbound() {
        Step::Done(c) => c,
        _ => panic!("done"),
    };
    assert_eq!((done.label, done.reason()), ("ok", None));
    let answer = done.envelope(12);
    assert_eq!(answer.get("downstreamError"), Some(&Json::Null));
    assert_eq!(answer.get("error"), Some(&Json::Null));
    let response = done.response(12).unwrap();
    assert!(!response.truncated);
    assert_eq!(
        ldap_backend::codec::print(&ldap_backend::codec::parse(&response.payload).unwrap()).unwrap(),
        response.payload
    );
    let text = String::from_utf8(response.payload).unwrap();
    assert_eq!(
        text,
        [
            r#"{"downstreamError":null,"downstreamErrors":[],"error":null,"profile":"people","#,
            r#""request":{"attributes":[],"baseDn":"ou=people,dc=example,dc=com","filter":"(cn=a)","#,
            r#""scope":"subtree","url":"ldaps://dc.example.com:636"},"#,
            r#""response":{"count":1,"durationMs":12,"#,
            r#""entries":[{"attributes":{"cn":["a"]},"dn":"a"}]},"toolName":"people"}"#,
        ]
        .concat()
    );
    assert!(!text.contains("hunter2") && !text.contains("cn=svc"));
}

fn literal_spec() -> LdapBackendSpec {
    let mut spec = minimal_spec();
    spec.bind_password = "secret".to_owned();
    spec.attributes = vec!["cn".to_owned(), "mail".to_owned()];
    spec
}

#[test]
fn a_literal_password_is_used_as_it_is() {
    match started(literal_spec(), request(b"")).resolved(Ok("f".to_owned())) {
        Step::Connect(s) => assert_eq!((s.bind_password.as_str(), s.filter.as_str()), ("secret", "f")),
        _ => panic!("connect"),
    }
}

fn finished(step: Step) -> ldap_backend::execution::Completion {
    match step {
        Step::Done(c) => c,
        _ => panic!("done"),
    }
}

#[test]
fn a_filter_or_password_that_does_not_resolve() {
    let done = finished(started(literal_spec(), request(b"")).resolved(Err("no such key".to_owned())));
    assert_eq!((done.label, done.reason()), ("invalid_spec", Some("evaluating filter: no such key")));
    let answer = done.envelope(1);
    assert_eq!(answer.get("request").unwrap().get("filter"), Some(&Json::text("")));
    assert_eq!(answer.get("response"), Some(&Json::Null));
    assert_eq!(answer.get("downstreamError").unwrap().get("kind"), Some(&Json::text("ldap_error")));

    for (reply, reason) in [
        (Err("Denied".to_owned()), "bind credential: Denied"),
        (Ok(Json::Null), "bind credential: bind credential did not resolve"),
        (
            Ok(Members::new().with("cred://vault/svc", Json::unsigned(1)).object()),
            "bind credential: bind credential did not resolve",
        ),
    ] {
        let step = match started(minimal_spec(), request(b"")).resolved(Ok("f".to_owned())) {
            Step::Credential(s) => s,
            _ => panic!("credential"),
        };
        let done = finished(step.resolved(reply));
        assert_eq!((done.label, done.reason()), ("invalid_spec", Some(reason)));
        assert_eq!(done.filter, "");
    }
}

fn connecting() -> ldap_backend::execution::ConnectStep {
    match started(literal_spec(), request(b"")).resolved(Ok("f".to_owned())) {
        Step::Connect(s) => s,
        _ => panic!("connect"),
    }
}

fn redacted(step: Step, message: &str) -> ldap_backend::execution::Completion {
    match step {
        Step::Redact(s) => {
            assert_eq!(s.message, message);
            finished(s.redacted(message.to_owned()))
        }
        _ => panic!("redact"),
    }
}

#[test]
fn a_directory_that_fails_or_turns_down() {
    let done = redacted(connecting().connected(Err("refused".to_owned())), "LDAP connect failed: refused");
    assert_eq!((done.label, done.filter.as_str()), ("transport_error", "f"));

    let binding = || match connecting().connected(Ok(())) {
        Step::Bind(s) => s,
        _ => panic!("bind"),
    };
    let done = redacted(binding().bound(Reply::Failed("timeout".to_owned())), "LDAP bind failed: timeout");
    assert_eq!(done.label, "timeout");
    let done = redacted(binding().bound(Reply::Rejected("rc=49".to_owned())), "LDAP bind rejected: rc=49");
    assert_eq!(done.label, "ldap_error");

    let searching = || match binding().bound(Reply::Granted(())) {
        Step::Search(s) => s,
        _ => panic!("search"),
    };
    assert_eq!(searching().attributes, ["cn", "mail"]);
    let done = finished(searching().searched(Reply::Failed("recv error".to_owned())));
    assert_eq!((done.label, done.reason()), ("transport_error", Some("LDAP search failed: recv error")));
    let done = finished(searching().searched(Reply::Rejected("rc=32".to_owned())));
    assert_eq!((done.label, done.reason()), ("ldap_error", Some("LDAP search rejected: rc=32")));
    let answer = done.envelope(5);
    assert_eq!(answer.get("error"), Some(&Json::text("LDAP search rejected: rc=32")));
    assert_eq!(answer.get("request").unwrap().get("filter"), Some(&Json::text("f")));
}

#[test]
fn an_answer_that_cannot_be_written_is_a_transport_error() {
    assert_eq!(
        ldap_backend::execution::hand_over(Err("x".to_owned())),
        Err(BackendError::Transport {
            message: "LDAP plugin envelope serialization failed: x".to_owned()
        })
    );
}

#[test]
fn outcomes_are_audited() {
    assert_eq!(audit_action_for_outcome("timeout"), Some("dev.mcpg.backend.ldap.request_timeout"));
    assert_eq!(
        audit_action_for_outcome("transport_error"),
        Some("dev.mcpg.backend.ldap.request_failed")
    );
    assert_eq!(audit_action_for_outcome("ldap_error"), Some("dev.mcpg.backend.ldap.search_rejected"));
    assert_eq!(audit_action_for_outcome("invalid_spec"), Some("dev.mcpg.backend.ldap.request_failed"));
    assert_eq!(audit_action_for_outcome("ok"), None);
    assert_eq!(audit_action_for_outcome("profile_not_found"), None);
}

fn call<'a>(label: &'static str, reason: Option<&'a str>, identity: Option<&'a PluginIdentity>) -> Call<'a> {
    Call {
        backend_name: "people",
        label,
        reason,
        identity,
        request_id: "rq-1",
        duration_ns: 12_345_678,
        alias: "ldap-main",
    }
}

#[test]
fn a_failure_is_recorded() {
    let who = caller();
    let event = audit_event(&call("timeout", Some("slow"), Some(&who)), "act", "now".to_owned());
    assert_eq!(event.event_id, "ldap-rq-1-12345678");
    assert_eq!((event.occurred_at.as_str(), event.action.as_str()), ("now", "act"));
    assert_eq!(event.actor, who);
    assert_eq!(event.resource.as_deref(), Some("ldap-binding://people"));
    assert_eq!(event.request_id.as_deref(), Some("rq-1"));
    assert!(event.upstream_request_id.is_none() && event.node_id.is_none());
    assert!(event.prev_event_hash.is_none());
    assert_eq!(
        String::from_utf8(ldap_backend::codec::print(&event.details).unwrap()).unwrap(),
        r#"{"alias":"ldap-main","backend":"people","duration_ms":12,"outcome":"timeout","reason":"slow"}"#
    );
    let event = audit_event(&call("timeout", None, None), "act", "now".to_owned());
    assert_eq!(event.actor, synthetic_system_identity());
    assert_eq!(event.actor.subject_id.as_deref(), Some("dev.mcpg.backend.ldap"));
    assert_eq!(event.details.get("reason"), None);
}

#[test]
fn an_observation_is_stamped_with_the_time() {
    let o = observe(&call("ldap_error", Some("x"), None));
    assert_eq!(o.latency_metric, "mcpg_ldap_backend_latency_seconds");
    assert_eq!(o.calls_metric, "mcpg_ldap_backend_calls_total");
    assert_eq!(o.outcome, "ldap_error");
    let event = o.audit.unwrap();
    assert_eq!(event.action, "dev.mcpg.backend.ldap.search_rejected");
    let t = event.occurred_at.as_bytes();
    assert_eq!(t.len(), 24);
    assert_eq!([t[4], t[7], t[10], t[13], t[16], t[19], t[23]], *b"--T::.Z");
    assert!(observe(&call("ok", None, None)).audit.is_none());
}

#[test]
fn without_a_host_nothing_is_told() {
    let mut plugin = Plugin::new();
    assert!(plugin.emit_host_observability(&call("timeout", None, None)).is_none());
    plugin.set_host_handle(7);
    let (host, seen) = plugin.emit_host_observability(&call("timeout", None, None)).unwrap();
    assert_eq!((*host, seen.outcome), (7, "timeout"));
    assert!(seen.audit.is_some());
}

#[test]
fn an_empty_payload_and_an_empty_object_are_alike() {
    let answer = |payload: &[u8]| {
        let step = started(literal_spec(), request(payload));
        assert_eq!(step.context.arguments, Members::new().object());
        finished(step.resolved(Err("x".to_owned()))).response(3).unwrap()
    };
    assert_eq!(answer(b""), answer(b"{}"));
}

#[test]
fn a_call_runs_in_a_span() {
    assert_eq!(span_name(), "ldap_backend.execute");
    let fields = span_fields("people", "rq-1");
    assert_eq!(fields.get("backend"), Some(&Json::text("people")));
    assert_eq!(fields.get("request_id"), Some(&Json::text("rq-1")));
}
