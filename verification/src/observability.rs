//! What is counted, measured and recorded of a call.

use vstd::prelude::*;
use crate::envelope::failure_label;
use crate::json::{member_of, object_view, Json, JsonView, Members};
use crate::protocol::{PluginIdentity, PluginIdentityView};
use crate::text;
use crate::text::numeral;

verus! {

/// The audited action that an outcome is, if it is one.
pub open spec fn audit_action(label: Seq<char>) -> Option<Seq<char>> {
    if label == "timeout"@ {
        Some("dev.mcpg.backend.ldap.request_timeout"@)
    } else if label == "transport_error"@ {
        Some("dev.mcpg.backend.ldap.request_failed"@)
    } else if label == "ldap_error"@ {
        Some("dev.mcpg.backend.ldap.search_rejected"@)
    } else if label == "invalid_spec"@ {
        Some("dev.mcpg.backend.ldap.request_failed"@)
    } else {
        None
    }
}

/// The audited action that an outcome is; `None` for one that is not audited.
pub fn audit_action_for_outcome(label: &str) -> (r: Option<&'static str>)
    ensures
        r.deep_view() == audit_action(label@),
{
    if text::same(label, "timeout") {
        Some("dev.mcpg.backend.ldap.request_timeout")
    } else if text::same(label, "transport_error") {
        Some("dev.mcpg.backend.ldap.request_failed")
    } else if text::same(label, "ldap_error") {
        Some("dev.mcpg.backend.ldap.search_rejected")
    } else if text::same(label, "invalid_spec") {
        Some("dev.mcpg.backend.ldap.request_failed")
    } else {
        None
    }
}

/// A decimal digit.
pub open spec fn is_digit(c: char) -> bool {
    '0' <= c <= '9'
}

/// The form of a time in UTC to the millisecond, `YYYY-MM-DDThh:mm:ss.mmmZ`. A year
/// past 9999 has a sign and more digits in front.
pub open spec fn is_utc_time(s: Seq<char>) -> bool {
    let t = s.skip(s.len() - 24);
    &&& s.len() >= 24
    &&& t[4] == '-' && t[7] == '-' && t[10] == 'T' && t[13] == ':' && t[16] == ':' && t[19] == '.'
        && t[23] == 'Z'
    &&& forall|i: int|
        0 <= i < 23 && i != 4 && i != 7 && i != 10 && i != 13 && i != 16 && i != 19 ==> is_digit(
            #[trigger] t[i],
        )
}

/// `chrono::Utc::now` and `chrono::DateTime::to_rfc3339_opts`, to the millisecond and
/// with `Z` for the zone: the result has the form of such a time. Which time it is, the
/// machine's clock decides, and nothing is said of it; a clock set before the year 1970
/// makes the call panic.
#[verifier::external_body]
fn rfc3339_now() -> (r: String)
    ensures
        is_utc_time(r@),
{
    chrono::Utc::now().to_rfc3339_opts(chrono::SecondsFormat::Millis, true)
}

/// The identity that a call without one is recorded under.
pub open spec fn system_identity() -> PluginIdentityView {
    PluginIdentityView {
        kind: "system"@,
        trust_level: "verified"@,
        subject_id: Some("dev.mcpg.backend.ldap"@),
        auth_provider: None,
        issuer: None,
        roles: Seq::empty(),
        groups: Seq::empty(),
        scopes: Seq::empty(),
        attributes: Map::empty(),
    }
}

/// The identity that a call without one is recorded under.
pub fn synthetic_system_identity() -> (r: PluginIdentity)
    ensures
        r@ == system_identity(),
{
    let r = PluginIdentity {
        kind: "system".to_owned(),
        trust_level: "verified".to_owned(),
        subject_id: Some("dev.mcpg.backend.ldap".to_owned()),
        auth_provider: None,
        issuer: None,
        roles: Vec::new(),
        groups: Vec::new(),
        scopes: Vec::new(),
        attributes: Vec::new(),
    };
    assert(r@ =~= system_identity());
    r
}

/// How an audited action ended.
#[derive(Debug, Clone, Copy, PartialEq, Eq, Structural)]
pub enum AuditOutcome {
    Failure,
}

/// A record of an action.
#[derive(Debug, PartialEq)]
pub struct AuditEvent {
    pub event_id: String,
    pub occurred_at: String,
    pub actor: PluginIdentity,
    pub action: String,
    pub resource: Option<String>,
    pub outcome: AuditOutcome,
    pub request_id: Option<String>,
    pub upstream_request_id: Option<String>,
    pub node_id: Option<String>,
    pub details: Json,
    pub prev_event_hash: Option<String>,
}

#[verifier::ext_equal]
pub struct AuditEventView {
    pub event_id: Seq<char>,
    pub occurred_at: Seq<char>,
    pub actor: PluginIdentityView,
    pub action: Seq<char>,
    pub resource: Option<Seq<char>>,
    pub outcome: AuditOutcome,
    pub request_id: Option<Seq<char>>,
    pub upstream_request_id: Option<Seq<char>>,
    pub node_id: Option<Seq<char>>,
    pub details: JsonView,
    pub prev_event_hash: Option<Seq<char>>,
}

impl View for AuditEvent {
    type V = AuditEventView;

    open spec fn view(&self) -> AuditEventView {
        AuditEventView {
            event_id: self.event_id@,
            occurred_at: self.occurred_at@,
            actor: self.actor@,
            action: self.action@,
            resource: self.resource.deep_view(),
            outcome: self.outcome,
            request_id: self.request_id.deep_view(),
            upstream_request_id: self.upstream_request_id.deep_view(),
            node_id: self.node_id.deep_view(),
            details: self.details@,
            prev_event_hash: self.prev_event_hash.deep_view(),
        }
    }
}

/// What is known of a call that has ended.
#[verifier::ext_equal]
pub struct CallView {
    pub backend_name: Seq<char>,
    pub label: Seq<char>,
    pub reason: Option<Seq<char>>,
    pub identity: Option<PluginIdentityView>,
    pub request_id: Seq<char>,
    pub duration_ns: nat,
    pub alias: Seq<char>,
}

/// Whole milliseconds, as far as 64 bits go.
pub open spec fn millis(duration_ns: nat) -> nat {
    (duration_ns / 1_000_000) % 0x1_0000_0000_0000_0000
}

/// What a record says of a call.
pub open spec fn audit_details(call: CallView) -> JsonView {
    let details = map![
        "backend"@ => JsonView::Str(call.backend_name),
        "duration_ms"@ => JsonView::Int(millis(call.duration_ns) as int),
        "outcome"@ => JsonView::Str(call.label),
        "alias"@ => JsonView::Str(call.alias),
    ];
    JsonView::Object(
        match call.reason {
            Some(reason) => details.insert("reason"@, JsonView::Str(reason)),
            None => details,
        },
    )
}

/// The record of a call that failed.
pub open spec fn audit_record(
    call: CallView,
    action: Seq<char>,
    occurred_at: Seq<char>,
) -> AuditEventView {
    AuditEventView {
        event_id: "ldap-"@ + call.request_id + "-"@ + numeral(call.duration_ns),
        occurred_at,
        actor: match call.identity {
            Some(identity) => identity,
            None => system_identity(),
        },
        action,
        resource: Some("ldap-binding://"@ + call.backend_name),
        outcome: AuditOutcome::Failure,
        request_id: Some(call.request_id),
        upstream_request_id: None,
        node_id: None,
        details: audit_details(call),
        prev_event_hash: None,
    }
}

/// A call that has ended.
pub struct Call<'a> {
    pub backend_name: &'a str,
    pub label: &'static str,
    pub reason: Option<&'a str>,
    pub identity: Option<&'a PluginIdentity>,
    pub request_id: &'a str,
    pub duration_ns: u128,
    /// The name that the host knows this plugin by.
    pub alias: &'a str,
}

impl<'a> View for Call<'a> {
    type V = CallView;

    open spec fn view(&self) -> CallView {
        CallView {
            backend_name: self.backend_name@,
            label: self.label@,
            reason: self.reason.deep_view(),
            identity: match self.identity {
                Some(i) => Some(i@),
                None => None,
            },
            request_id: self.request_id@,
            duration_ns: self.duration_ns as nat,
            alias: self.alias@,
        }
    }
}

/// The record of a call that failed, made at a given time.
pub fn audit_event(call: &Call<'_>, action: &str, occurred_at: String) -> (r: AuditEvent)
    ensures
        r@ == audit_record(call@, action@, occurred_at@),
{
    let actor = match call.identity {
        Some(identity) => identity.clone(),
        None => synthetic_system_identity(),
    };
    let ms: u64 = ((call.duration_ns / 1_000_000) % 0x1_0000_0000_0000_0000) as u64;
    let mut details = Members::new().with("backend", Json::text(call.backend_name)).with(
        "duration_ms",
        Json::unsigned(ms),
    ).with("outcome", Json::text(call.label)).with("alias", Json::text(call.alias));
    if let Some(reason) = call.reason {
        details = details.with("reason", Json::text(reason));
    }
    let event_id = text::join("ldap-", call.request_id).concat("-").concat(
        text::decimal(call.duration_ns).as_str(),
    );
    AuditEvent {
        event_id,
        occurred_at,
        actor,
        action: action.to_owned(),
        resource: Some(text::join("ldap-binding://", call.backend_name)),
        outcome: AuditOutcome::Failure,
        request_id: Some(call.request_id.to_owned()),
        upstream_request_id: None,
        node_id: None,
        details: details.object(),
        prev_event_hash: None,
    }
}

/// What is told the host of a call: how long it took goes to one metric, that it
/// happened to the other, each under the outcome's label; and a failure is recorded.
#[derive(Debug, PartialEq)]
pub struct Observation {
    pub latency_metric: &'static str,
    pub calls_metric: &'static str,
    pub outcome: &'static str,
    pub audit: Option<AuditEvent>,
}

/// An observation is what a call calls for; the time on its record is left open.
pub open spec fn observes(o: Observation, call: CallView) -> bool {
    &&& o.latency_metric@ == "mcpg_ldap_backend_latency_seconds"@
    &&& o.calls_metric@ == "mcpg_ldap_backend_calls_total"@
    &&& o.outcome@ == call.label
    &&& match audit_action(call.label) {
        Some(action) => {
            &&& o.audit is Some
            &&& o.audit->0@ == audit_record(call, action, o.audit->0.occurred_at@)
            &&& is_utc_time(o.audit->0.occurred_at@)
        },
        None => o.audit is None,
    }
}

/// What is told the host of a call that has ended.
pub fn observe(call: &Call<'_>) -> (r: Observation)
    ensures
        observes(r, call@),
{
    let audit = match audit_action_for_outcome(call.label) {
        Some(action) => Some(audit_event(call, action, rfc3339_now())),
        None => None,
    };
    Observation {
        latency_metric: "mcpg_ldap_backend_latency_seconds",
        calls_metric: "mcpg_ldap_backend_calls_total",
        outcome: call.label,
        audit,
    }
}

/// The name of the span that a call runs in.
pub fn span_name() -> (r: &'static str)
    ensures
        r@ == "ldap_backend.execute"@,
{
    "ldap_backend.execute"
}

/// What the span that a call runs in says of it.
pub fn span_fields(backend_name: &str, request_id: &str) -> (r: Json)
    ensures
        r@ == JsonView::Object(
            map![
                "backend"@ => JsonView::Str(backend_name@),
                "request_id"@ => JsonView::Str(request_id@),
            ],
        ),
{
    Members::new().with("backend", Json::text(backend_name)).with(
        "request_id",
        Json::text(request_id),
    ).object()
}

/// Every way a search can fail is audited.
pub proof fn law_failed_searches_are_audited(message: Seq<char>)
    ensures
        audit_action(failure_label(message)) is Some,
{
}

/// A call that went through is not audited, nor is one of a binding that is not
/// registered; one that does not make sense is.
pub proof fn law_what_else_is_audited()
    ensures
        audit_action("ok"@) is None,
        audit_action("profile_not_found"@) is None,
        audit_action("invalid_spec"@) is Some,
{
    reveal_strlit("ok");
    reveal_strlit("profile_not_found");
    reveal_strlit("timeout");
    reveal_strlit("transport_error");
    reveal_strlit("ldap_error");
    reveal_strlit("invalid_spec");
    assert("ok"@.len() == 2 && "profile_not_found"@.len() == 17 && "timeout"@.len() == 7
        && "transport_error"@.len() == 15 && "ldap_error"@.len() == 10 && "invalid_spec"@.len() == 12);
}

/// Which outcomes are audited, and as what: those four, and no other.
pub proof fn law_audited_outcomes(label: Seq<char>)
    ensures
        audit_action(label) == Some("dev.mcpg.backend.ldap.request_timeout"@) <==> label
            == "timeout"@,
        audit_action(label) == Some("dev.mcpg.backend.ldap.search_rejected"@) <==> label
            == "ldap_error"@,
        audit_action(label) == Some("dev.mcpg.backend.ldap.request_failed"@) <==> label
            == "transport_error"@ || label == "invalid_spec"@,
        audit_action(label) is Some <==> label == "timeout"@ || label == "transport_error"@ || label
            == "ldap_error"@ || label == "invalid_spec"@,
{
    reveal_strlit("timeout");
    reveal_strlit("transport_error");
    reveal_strlit("ldap_error");
    reveal_strlit("invalid_spec");
    reveal_strlit("dev.mcpg.backend.ldap.request_timeout");
    reveal_strlit("dev.mcpg.backend.ldap.request_failed");
    reveal_strlit("dev.mcpg.backend.ldap.search_rejected");
    assert("timeout"@.len() == 7 && "transport_error"@.len() == 15 && "ldap_error"@.len() == 10
        && "invalid_spec"@.len() == 12);
    assert("dev.mcpg.backend.ldap.request_timeout"@.len() == 37
        && "dev.mcpg.backend.ldap.request_failed"@.len() == 36
        && "dev.mcpg.backend.ldap.search_rejected"@.len() == 37);
    assert("dev.mcpg.backend.ldap.request_timeout"@[22] != "dev.mcpg.backend.ldap.search_rejected"@[22]);
}

/// Whole milliseconds are the most that the time taken holds, as long as they fit in 64
/// bits.
pub proof fn law_whole_milliseconds(duration_ns: nat)
    ensures
        millis(duration_ns) <= u64::MAX,
        duration_ns < 1_000_000 * 0x1_0000_0000_0000_0000 ==> millis(duration_ns) * 1_000_000
            <= duration_ns < (millis(duration_ns) + 1) * 1_000_000,
{
    let m = duration_ns / 1_000_000;
    assert(m * 1_000_000 <= duration_ns < (m + 1) * 1_000_000);
    if duration_ns < 1_000_000 * 0x1_0000_0000_0000_0000 {
        assert(m < 0x1_0000_0000_0000_0000);
        assert(millis(duration_ns) == m);
    }
}

/// What a record says of a call is the call's own: its binding, outcome, time and alias,
/// and what went wrong where that is known.
pub proof fn law_record_details(call: Call<'_>)
    ensures
        member_of(audit_details(call@), "backend"@) == Some(JsonView::Str(call.backend_name@)),
        member_of(audit_details(call@), "outcome"@) == Some(JsonView::Str(call.label@)),
        member_of(audit_details(call@), "alias"@) == Some(JsonView::Str(call.alias@)),
        member_of(audit_details(call@), "duration_ms"@) matches Some(JsonView::Int(ms)) && (
        call.duration_ns < 1_000_000 * 0x1_0000_0000_0000_0000 ==> ms * 1_000_000
            <= call.duration_ns < (ms + 1) * 1_000_000),
        call.reason matches Some(reason) ==> member_of(audit_details(call@), "reason"@) == Some(
            JsonView::Str(reason@),
        ),
        call.reason is None ==> member_of(audit_details(call@), "reason"@) is None,
        forall|name: Seq<char>|
            name != "backend"@ && name != "outcome"@ && name != "alias"@ && name != "duration_ms"@
                && name != "reason"@ ==> (#[trigger] member_of(audit_details(call@), name)) is None,
{
    law_whole_milliseconds(call.duration_ns as nat);
    reveal_strlit("backend");
    reveal_strlit("outcome");
    reveal_strlit("alias");
    reveal_strlit("duration_ms");
    reveal_strlit("reason");
    assert("backend"@[0] != "outcome"@[0]);
    assert("backend"@.len() == 7 && "outcome"@.len() == 7 && "alias"@.len() == 5 && "duration_ms"@.len()
        == 11 && "reason"@.len() == 6);
}

/// A record is of its call: made for the caller, or for the plugin itself where the call
/// has no identity; naming the binding and the request; and a failure.
pub proof fn law_record_is_of_the_call(
    call: Call<'_>,
    action: Seq<char>,
    occurred_at: Seq<char>,
    event: AuditEvent,
)
    requires
        event@ == audit_record(call@, action, occurred_at),
    ensures
        event.event_id@ == "ldap-"@ + call.request_id@ + "-"@ + numeral(call.duration_ns as nat),
        event.occurred_at@ == occurred_at,
        call.identity matches Some(identity) ==> event.actor@ == identity@,
        call.identity is None ==> {
            &&& event.actor.kind@ == "system"@
            &&& event.actor.trust_level@ == "verified"@
            &&& event.actor.subject_id.deep_view() == Some("dev.mcpg.backend.ldap"@)
            &&& event.actor.auth_provider is None && event.actor.issuer is None
            &&& event.actor.roles@.len() == 0 && event.actor.groups@.len() == 0
            &&& event.actor.scopes@.len() == 0
            &&& object_view(event.actor.attributes@) == Map::<Seq<char>, JsonView>::empty()
        },
        event.action@ == action,
        event.resource.deep_view() == Some("ldap-binding://"@ + call.backend_name@),
        event.outcome == AuditOutcome::Failure,
        event.request_id.deep_view() == Some(call.request_id@),
        event.upstream_request_id is None,
        event.node_id is None,
        event.prev_event_hash is None,
        event.details@ == audit_details(call@),
{
    assert(event@.actor.roles == event.actor.roles.deep_view());
    if call.identity is None {
        assert(event.actor.roles.deep_view().len() == event.actor.roles@.len());
        assert(event.actor.groups.deep_view().len() == event.actor.groups@.len());
        assert(event.actor.scopes.deep_view().len() == event.actor.scopes@.len());
    }
}

/// A call is counted and timed under its own label, and recorded exactly where its
/// outcome is audited, under the action that the outcome is.
pub proof fn law_observation_is_of_the_call(o: Observation, call: Call<'_>)
    requires
        observes(o, call@),
    ensures
        o.outcome@ == call.label@,
        o.latency_metric@ == "mcpg_ldap_backend_latency_seconds"@,
        o.calls_metric@ == "mcpg_ldap_backend_calls_total"@,
        o.audit is Some <==> call.label@ == "timeout"@ || call.label@ == "transport_error"@
            || call.label@ == "ldap_error"@ || call.label@ == "invalid_spec"@,
        o.audit matches Some(event) ==> {
            &&& event.request_id.deep_view() == Some(call.request_id@)
            &&& event.resource.deep_view() == Some("ldap-binding://"@ + call.backend_name@)
            &&& Some(event.action@) == audit_action(call.label@)
            &&& event.outcome == AuditOutcome::Failure
            &&& event.details@ == audit_details(call@)
            &&& call.identity matches Some(identity) ==> event.actor@ == identity@
            &&& is_utc_time(event.occurred_at@)
        },
{
    law_audited_outcomes(call.label@);
}

/// What a record denotes is what it holds.
pub proof fn law_record_views(event: AuditEvent)
    ensures
        event@.event_id == event.event_id@,
        event@.occurred_at == event.occurred_at@,
        event@.actor == event.actor@,
        event@.action == event.action@,
        event@.resource == event.resource.deep_view(),
        event@.outcome == event.outcome,
        event@.request_id == event.request_id.deep_view(),
        event@.upstream_request_id == event.upstream_request_id.deep_view(),
        event@.node_id == event.node_id.deep_view(),
        event@.details == event.details@,
        event@.prev_event_hash == event.prev_event_hash.deep_view(),
{
}

} // verus!
