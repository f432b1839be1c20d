//! A call of a binding, step by step. A step that needs the outside (the expression
//! engine, the credential cache, the directory) says what it needs; handed what came
//! back, it gives the next step.

use vstd::prelude::*;
use crate::codec;
use crate::codec::{empty_object_text, printed, read_levels, readable, reads_as};
use crate::envelope;
use crate::envelope::{
    classified, envelope_json, failure_label, law_envelope_members, law_request_members, listed,
    request_json, response_json, SearchView,
};
use crate::expression;
use crate::expression::{
    called_tool, expr_context, law_called_tool, ExprContext, ExprContextView,
};
use crate::json::{items_view, member_of, texts_view, Json, JsonView, Members};
use crate::ldap;
use crate::ldap::{
    all_inert, capped, entry_json, escape_view, first_entries, found_view, law_entry_name,
    law_escaped_arguments_are_inert, law_first_entries, SearchEntry, SearchEntryView, SearchOutcome,
};
use crate::protocol::{
    copy_identity, copy_optional, copy_texts, identity_view, invalid, BackendError, BackendErrorView,
    BackendRequest, BackendRequestView, BackendResponse, BackendResponseView, PluginIdentity,
    PluginIdentityView,
};
use crate::text;
use crate::text::{begins_with, lower};
use crate::types::{remaining, scope_name, LdapScope, LdapSettings, LdapSettingsView};

verus! {

/// A result whose value and error are texts.
pub open spec fn text_result(r: Result<String, String>) -> Result<Seq<char>, Seq<char>> {
    match r {
        Ok(s) => Ok(s@),
        Err(e) => Err(e@),
    }
}

/// A result whose value is JSON.
pub open spec fn json_result(r: Result<Json, String>) -> Result<JsonView, Seq<char>> {
    match r {
        Ok(j) => Ok(j@),
        Err(e) => Err(e@),
    }
}

/// A call: the binding and its settings, the request, and the tool it is of.
pub struct Invocation {
    pub backend_name: String,
    pub request: BackendRequest,
    pub tool_name: String,
    pub settings: LdapSettings,
}

#[verifier::ext_equal]
pub struct InvocationView {
    pub backend_name: Seq<char>,
    pub request: BackendRequestView,
    pub tool_name: Seq<char>,
    pub settings: LdapSettingsView,
}

impl View for Invocation {
    type V = InvocationView;

    open spec fn view(&self) -> InvocationView {
        InvocationView {
            backend_name: self.backend_name@,
            request: self.request@,
            tool_name: self.tool_name@,
            settings: self.settings@,
        }
    }
}

/// How a call ended: with entries, or with a message that says what went wrong.
pub struct Completion {
    pub call: Invocation,
    /// The filter that was searched for; empty where there was none to search for.
    pub filter: String,
    pub result: Result<Vec<Json>, String>,
    /// The label that the call is counted under.
    pub label: &'static str,
}

#[verifier::ext_equal]
pub struct CompletionView {
    pub call: InvocationView,
    pub filter: Seq<char>,
    pub result: Result<Seq<JsonView>, Seq<char>>,
    pub label: Seq<char>,
}

/// The entries or the message that a call ended with.
pub open spec fn entries_result(r: Result<Vec<Json>, String>) -> Result<Seq<JsonView>, Seq<char>> {
    match r {
        Ok(entries) => Ok(items_view(entries@)),
        Err(e) => Err(e@),
    }
}

impl View for Completion {
    type V = CompletionView;

    open spec fn view(&self) -> CompletionView {
        CompletionView {
            call: self.call@,
            filter: self.filter@,
            result: entries_result(self.result),
            label: self.label@,
        }
    }
}

/// The filter has to be resolved, with what its template can refer to.
pub struct FilterStep {
    pub call: Invocation,
    pub context: ExprContext,
}

/// The password has to be resolved.
pub struct CredentialStep {
    pub call: Invocation,
    pub filter: String,
}

/// The directory has to be connected to.
pub struct ConnectStep {
    pub call: Invocation,
    pub filter: String,
    pub bind_password: String,
}

/// The service account has to be bound.
pub struct BindStep {
    pub call: Invocation,
    pub filter: String,
    pub bind_password: String,
}

/// The search has to be run, for these attributes.
pub struct SearchStep {
    pub call: Invocation,
    pub filter: String,
    pub attributes: Vec<String>,
}

/// A message has to be cleared of secrets.
pub struct RedactStep {
    pub call: Invocation,
    pub filter: String,
    pub message: String,
}

/// The connection has to be closed, whatever comes of that.
pub struct UnbindStep {
    pub completion: Completion,
}

/// What comes next in a call.
pub enum Step {
    Credential(CredentialStep),
    Connect(ConnectStep),
    Bind(BindStep),
    Search(SearchStep),
    Redact(RedactStep),
    Unbind(UnbindStep),
    Done(Completion),
}

pub enum StepView {
    Credential { call: InvocationView, filter: Seq<char> },
    Connect { call: InvocationView, filter: Seq<char>, bind_password: Seq<char> },
    Bind { call: InvocationView, filter: Seq<char>, bind_password: Seq<char> },
    Search { call: InvocationView, filter: Seq<char>, attributes: Seq<Seq<char>> },
    Redact { call: InvocationView, filter: Seq<char>, message: Seq<char> },
    Unbind { completion: CompletionView },
    Done { completion: CompletionView },
}

impl View for Step {
    type V = StepView;

    open spec fn view(&self) -> StepView {
        match self {
            Step::Credential(s) => StepView::Credential { call: s.call@, filter: s.filter@ },
            Step::Connect(s) => StepView::Connect {
                call: s.call@,
                filter: s.filter@,
                bind_password: s.bind_password@,
            },
            Step::Bind(s) => StepView::Bind {
                call: s.call@,
                filter: s.filter@,
                bind_password: s.bind_password@,
            },
            Step::Search(s) => StepView::Search {
                call: s.call@,
                filter: s.filter@,
                attributes: s.attributes.deep_view(),
            },
            Step::Redact(s) => StepView::Redact {
                call: s.call@,
                filter: s.filter@,
                message: s.message@,
            },
            Step::Unbind(s) => StepView::Unbind { completion: s.completion@ },
            Step::Done(c) => StepView::Done { completion: c@ },
        }
    }
}

#[verifier::ext_equal]
pub struct FilterStepView {
    pub call: InvocationView,
    pub context: ExprContextView,
}

impl View for FilterStep {
    type V = FilterStepView;

    open spec fn view(&self) -> FilterStepView {
        FilterStepView { call: self.call@, context: self.context@ }
    }
}

/// The end of a call that came to no search, for something wrong with the call or its
/// binding.
pub open spec fn refused(call: InvocationView, message: Seq<char>) -> CompletionView {
    CompletionView { call, filter: Seq::empty(), result: Err(message), label: "invalid_spec"@ }
}

/// The end of a call whose search failed.
pub open spec fn failed(call: InvocationView, filter: Seq<char>, message: Seq<char>) -> CompletionView {
    CompletionView { call, filter, result: Err(message), label: failure_label(message) }
}

/// The end of a call whose search went through.
pub open spec fn succeeded(
    call: InvocationView,
    filter: Seq<char>,
    found: Seq<SearchEntryView>,
) -> CompletionView {
    CompletionView {
        call,
        filter,
        result: Ok(first_entries(found, call.settings.size_limit)),
        label: "ok"@,
    }
}

fn refuse(call: Invocation, message: String) -> (r: Completion)
    ensures
        r.call == call,
        r@ == refused(call@, message@),
{
    Completion { call, filter: String::new(), result: Err(message), label: "invalid_spec" }
}

fn fail(call: Invocation, filter: String, message: String) -> (r: Completion)
    ensures
        r.call == call,
        r.filter == filter,
        r@ == failed(call@, filter@, message@),
{
    let label = envelope::label_failure(message.as_str());
    Completion { call, filter, result: Err(message), label }
}

/// The arguments that a payload holds: none where it is empty.
pub open spec fn arguments_in(payload: Seq<u8>) -> Result<JsonView, Seq<char>> {
    if payload.len() == 0 {
        Ok(JsonView::Object(Map::empty()))
    } else {
        codec::parsed(payload)
    }
}

/// A payload without arguments: an empty one, or the text of the empty object.
pub open spec fn no_arguments(payload: Seq<u8>) -> bool {
    payload.len() == 0 || payload == empty_object_text()
}

/// Reads the arguments that a payload holds. An empty payload is no error.
pub fn read_arguments(payload: &[u8]) -> (r: Result<Json, String>)
    ensures
        json_result(r) == arguments_in(payload@),
        no_arguments(payload@) ==> r is Ok && r->Ok_0@ == JsonView::Object(Map::empty()),
{
    if payload.len() == 0 {
        Ok(Members::new().object())
    } else {
        codec::parse(payload)
    }
}

/// The first step of a call, or the error of one whose arguments are no JSON.
pub open spec fn opening(
    settings: LdapSettingsView,
    backend_name: Seq<char>,
    request: BackendRequestView,
    arguments: Result<JsonView, Seq<char>>,
) -> Result<FilterStepView, BackendErrorView> {
    match arguments {
        Err(e) => Err(
            BackendErrorView::InvalidSpec {
                message: "LDAP plugin payload is not valid JSON: "@ + e,
            },
        ),
        Ok(a) => {
            let tool_name = called_tool(request.headers, backend_name);
            Ok(
                FilterStepView {
                    call: InvocationView { backend_name, request, tool_name, settings },
                    context: expr_context(escape_view(a), tool_name, request),
                },
            )
        },
    }
}

/// A first step, or an error.
pub open spec fn opened(r: Result<FilterStep, BackendError>) -> Result<FilterStepView, BackendErrorView> {
    match r {
        Ok(s) => Ok(s@),
        Err(e) => Err(e@),
    }
}

/// The first step of a call, from what reading its arguments gave. The filter's
/// template sees the arguments escaped.
pub fn open_call(
    settings: LdapSettings,
    backend_name: &str,
    request: BackendRequest,
    arguments: Result<Json, String>,
) -> (r: Result<FilterStep, BackendError>)
    ensures
        opened(r) == opening(settings@, backend_name@, request@, json_result(arguments)),
        r matches Ok(step) ==> step.call.settings == settings && step.call.request == request
            && step.call.backend_name@ == backend_name@,
{
    match arguments {
        Err(e) => Err(
            invalid(text::join("LDAP plugin payload is not valid JSON: ", e.as_str())),
        ),
        Ok(a) => {
            let tool_name = expression::tool_name(&request.headers, backend_name);
            let context = expression::build_expr_context(
                &ldap::escape_arguments(&a),
                tool_name.as_str(),
                &request,
            );
            Ok(
                FilterStep {
                    call: Invocation {
                        backend_name: backend_name.to_owned(),
                        request,
                        tool_name,
                        settings,
                    },
                    context,
                },
            )
        },
    }
}

/// A password that is to be resolved: a `cred://` URI.
pub open spec fn is_credential(raw: Seq<char>) -> bool {
    begins_with(raw, "cred://"@)
}

/// The step after the filter was resolved, or was not.
pub open spec fn after_filter(
    call: InvocationView,
    outcome: Result<Seq<char>, Seq<char>>,
) -> StepView {
    match outcome {
        Err(e) => StepView::Done { completion: refused(call, "evaluating filter: "@ + e) },
        Ok(filter) => if is_credential(call.settings.bind_password) {
            StepView::Credential { call, filter }
        } else {
            StepView::Connect { call, filter, bind_password: call.settings.bind_password }
        },
    }
}

impl FilterStep {
    /// The step after the filter was resolved, or was not.
    pub fn resolved(self, outcome: Result<String, String>) -> (r: Step)
        ensures
            r@ == after_filter(self.call@, text_result(outcome)),
            r matches Step::Credential(c) ==> c.call == self.call && outcome == Ok::<String, String>(
                c.filter,
            ),
            r matches Step::Connect(c) ==> c.call == self.call && outcome == Ok::<String, String>(
                c.filter,
            ) && c.bind_password@ == self.call.settings.bind_password@,
            r matches Step::Done(c) ==> c.call == self.call,
    {
        match outcome {
            Err(e) => Step::Done(
                refuse(self.call, text::join("evaluating filter: ", e.as_str())),
            ),
            Ok(filter) => if text::starts_with(
                self.call.settings.bind_password.as_str(),
                "cred://",
            ) {
                Step::Credential(CredentialStep { call: self.call, filter })
            } else {
                let bind_password = self.call.settings.bind_password.clone();
                Step::Connect(ConnectStep { call: self.call, filter, bind_password })
            },
        }
    }
}

/// What the credential cache is asked: to resolve the values of an object, for a call.
pub struct CredentialRequest {
    pub request_id: String,
    pub session_id: Option<String>,
    pub backend_name: String,
    pub identity: Option<PluginIdentity>,
    pub snapshot: Json,
}

#[verifier::ext_equal]
pub struct CredentialRequestView {
    pub request_id: Seq<char>,
    pub session_id: Option<Seq<char>>,
    pub backend_name: Seq<char>,
    pub identity: Option<PluginIdentityView>,
    pub snapshot: JsonView,
}

impl View for CredentialRequest {
    type V = CredentialRequestView;

    open spec fn view(&self) -> CredentialRequestView {
        CredentialRequestView {
            request_id: self.request_id@,
            session_id: self.session_id.deep_view(),
            backend_name: self.backend_name@,
            identity: identity_view(self.identity),
            snapshot: self.snapshot@,
        }
    }
}

/// What the credential cache is asked in a call: the password's URI, under itself.
pub open spec fn credential_request(call: InvocationView) -> CredentialRequestView {
    let raw = call.settings.bind_password;
    CredentialRequestView {
        request_id: call.request.request_id,
        session_id: call.request.session_id,
        backend_name: call.backend_name,
        identity: call.request.identity,
        snapshot: JsonView::Object(map![raw => JsonView::Str(raw)]),
    }
}

/// The password that the credential cache gave: the text now under the URI.
pub open spec fn password_in(raw: Seq<char>, reply: Result<JsonView, Seq<char>>) -> Result<
    Seq<char>,
    Seq<char>,
> {
    match reply {
        Err(e) => Err(e),
        Ok(snapshot) => match member_of(snapshot, raw) {
            Some(JsonView::Str(password)) => Ok(password),
            _ => Err("bind credential did not resolve"@),
        },
    }
}

/// The password that the credential cache gave.
pub fn resolved_password(raw: &str, reply: Result<Json, String>) -> (r: Result<String, String>)
    ensures
        text_result(r) == password_in(raw@, json_result(reply)),
{
    match reply {
        Err(e) => Err(e),
        Ok(snapshot) => {
            if let Some(value) = snapshot.get(raw) {
                if let Some(password) = value.as_str() {
                    return Ok(password.to_owned());
                }
            }
            Err("bind credential did not resolve".to_owned())
        },
    }
}

/// The step after the credential cache answered.
pub open spec fn after_credential(
    call: InvocationView,
    filter: Seq<char>,
    reply: Result<JsonView, Seq<char>>,
) -> StepView {
    match password_in(call.settings.bind_password, reply) {
        Err(e) => StepView::Done { completion: refused(call, "bind credential: "@ + e) },
        Ok(bind_password) => StepView::Connect { call, filter, bind_password },
    }
}

impl CredentialStep {
    /// What to ask the credential cache.
    pub fn request(&self) -> (r: CredentialRequest)
        ensures
            r@ == credential_request(self.call@),
    {
        let raw = self.call.settings.bind_password.as_str();
        CredentialRequest {
            request_id: self.call.request.request_id.clone(),
            session_id: copy_optional(&self.call.request.session_id),
            backend_name: self.call.backend_name.clone(),
            identity: copy_identity(&self.call.request.identity),
            snapshot: Members::new().with(raw, Json::text(raw)).object(),
        }
    }

    /// The step after the credential cache answered.
    pub fn resolved(self, reply: Result<Json, String>) -> (r: Step)
        ensures
            r@ == after_credential(self.call@, self.filter@, json_result(reply)),
            r matches Step::Connect(c) ==> c.call == self.call && c.filter == self.filter,
            r matches Step::Done(c) ==> c.call == self.call,
    {
        match resolved_password(self.call.settings.bind_password.as_str(), reply) {
            Err(e) => Step::Done(refuse(self.call, text::join("bind credential: ", e.as_str()))),
            Ok(bind_password) => Step::Connect(
                ConnectStep { call: self.call, filter: self.filter, bind_password },
            ),
        }
    }
}

/// The step after the directory was connected to, or was not. What went wrong may
/// quote the URL, and is cleared of secrets.
pub open spec fn after_connect(
    call: InvocationView,
    filter: Seq<char>,
    bind_password: Seq<char>,
    outcome: Result<(), Seq<char>>,
) -> StepView {
    match outcome {
        Err(e) => StepView::Redact { call, filter, message: "LDAP connect failed: "@ + e },
        Ok(_) => StepView::Bind { call, filter, bind_password },
    }
}

/// A result without a value.
pub open spec fn unit_result(r: Result<(), String>) -> Result<(), Seq<char>> {
    match r {
        Ok(_) => Ok(()),
        Err(e) => Err(e@),
    }
}

impl ConnectStep {
    /// What is left of the time limit, so long after connecting began.
    pub fn time_left(&self, elapsed_ms: u64) -> (r: u64)
        ensures
            r == remaining(self.call@.settings.timeout_ms, elapsed_ms as nat),
    {
        self.call.settings.time_left(elapsed_ms)
    }

    /// The step after the directory was connected to, or was not.
    pub fn connected(self, outcome: Result<(), String>) -> (r: Step)
        ensures
            r@ == after_connect(
                self.call@,
                self.filter@,
                self.bind_password@,
                unit_result(outcome),
            ),
            r matches Step::Bind(b) ==> b.call == self.call && b.filter == self.filter
                && b.bind_password == self.bind_password,
            r matches Step::Redact(d) ==> d.call == self.call && d.filter == self.filter,
            r is Bind || r is Redact,
    {
        match outcome {
            Err(e) => Step::Redact(
                RedactStep {
                    call: self.call,
                    filter: self.filter,
                    message: text::join("LDAP connect failed: ", e.as_str()),
                },
            ),
            Ok(_) => Step::Bind(
                BindStep {
                    call: self.call,
                    filter: self.filter,
                    bind_password: self.bind_password,
                },
            ),
        }
    }
}

/// What came of asking the directory for something: an answer, no answer, or a
/// refusal.
pub enum Reply<T> {
    Granted(T),
    Failed(String),
    Rejected(String),
}

/// The attributes to ask for: all, where none are configured.
pub open spec fn wanted_attributes(attributes: Seq<Seq<char>>) -> Seq<Seq<char>> {
    if attributes.len() == 0 {
        seq!["*"@]
    } else {
        attributes
    }
}

/// The step after the service account was bound, or was not. What went wrong is
/// cleared of secrets.
pub open spec fn after_bind(call: InvocationView, filter: Seq<char>, reply: Reply<()>) -> StepView {
    match reply {
        Reply::Failed(e) => StepView::Redact { call, filter, message: "LDAP bind failed: "@ + e@ },
        Reply::Rejected(e) => StepView::Redact {
            call,
            filter,
            message: "LDAP bind rejected: "@ + e@,
        },
        Reply::Granted(_) => StepView::Search {
            call,
            filter,
            attributes: wanted_attributes(call.settings.attributes),
        },
    }
}

impl BindStep {
    /// What is left of the time limit, so long after connecting began.
    pub fn time_left(&self, elapsed_ms: u64) -> (r: u64)
        ensures
            r == remaining(self.call@.settings.timeout_ms, elapsed_ms as nat),
    {
        self.call.settings.time_left(elapsed_ms)
    }

    /// The step after the service account was bound, or was not.
    pub fn bound(self, reply: Reply<()>) -> (r: Step)
        ensures
            r@ == after_bind(self.call@, self.filter@, reply),
            r matches Step::Search(s) ==> s.call == self.call && s.filter == self.filter,
            r matches Step::Redact(d) ==> d.call == self.call && d.filter == self.filter,
            r is Search || r is Redact,
    {
        match reply {
            Reply::Failed(e) => Step::Redact(
                RedactStep {
                    call: self.call,
                    filter: self.filter,
                    message: text::join("LDAP bind failed: ", e.as_str()),
                },
            ),
            Reply::Rejected(e) => Step::Redact(
                RedactStep {
                    call: self.call,
                    filter: self.filter,
                    message: text::join("LDAP bind rejected: ", e.as_str()),
                },
            ),
            Reply::Granted(_) => {
                let mut attributes = copy_texts(&self.call.settings.attributes);
                if attributes.len() == 0 {
                    attributes.push("*".to_owned());
                }
                assert(attributes.deep_view() =~= wanted_attributes(
                    self.call.settings.attributes.deep_view(),
                ));
                Step::Search(SearchStep { call: self.call, filter: self.filter, attributes })
            },
        }
    }
}

impl RedactStep {
    /// The step after the message was cleared of secrets: the call has failed.
    pub fn redacted(self, message: String) -> (r: Step)
        ensures
            r@ == (StepView::Done {
                completion: failed(self.call@, self.filter@, message@),
            }),
            r matches Step::Done(c) && c.call == self.call && c.filter == self.filter,
    {
        Step::Done(fail(self.call, self.filter, message))
    }
}

/// The step after the search was run.
pub open spec fn after_search(
    call: InvocationView,
    filter: Seq<char>,
    reply: Reply<Vec<SearchEntry>>,
) -> StepView {
    match reply {
        Reply::Failed(e) => StepView::Done {
            completion: failed(call, filter, "LDAP search failed: "@ + e@),
        },
        Reply::Rejected(e) => StepView::Done {
            completion: failed(call, filter, "LDAP search rejected: "@ + e@),
        },
        Reply::Granted(found) => StepView::Unbind {
            completion: succeeded(call, filter, found_view(found@)),
        },
    }
}

impl SearchStep {
    /// What is left of the time limit, so long after connecting began.
    pub fn time_left(&self, elapsed_ms: u64) -> (r: u64)
        ensures
            r == remaining(self.call@.settings.timeout_ms, elapsed_ms as nat),
    {
        self.call.settings.time_left(elapsed_ms)
    }

    /// How many of the entries found have to be looked at.
    pub fn wanted(&self, found: usize) -> (r: usize)
        ensures
            r == capped(found as nat, self.call@.settings.size_limit),
    {
        if found <= self.call.settings.size_limit {
            found
        } else {
            self.call.settings.size_limit
        }
    }

    /// The step after the search was run.
    pub fn searched(self, reply: Reply<Vec<SearchEntry>>) -> (r: Step)
        ensures
            r@ == after_search(self.call@, self.filter@, reply),
            r matches Step::Unbind(u) ==> u.completion.call == self.call && u.completion.filter
                == self.filter,
            r matches Step::Done(c) ==> c.call == self.call && c.filter == self.filter,
            r is Unbind || r is Done,
    {
        match reply {
            Reply::Failed(e) => Step::Done(
                fail(self.call, self.filter, text::join("LDAP search failed: ", e.as_str())),
            ),
            Reply::Rejected(e) => Step::Done(
                fail(self.call, self.filter, text::join("LDAP search rejected: ", e.as_str())),
            ),
            Reply::Granted(found) => {
                let outcome = SearchOutcome::from_entries(found, self.call.settings.size_limit);
                Step::Unbind(
                    UnbindStep {
                        completion: Completion {
                            call: self.call,
                            filter: self.filter,
                            result: Ok(outcome.entries),
                            label: "ok",
                        },
                    },
                )
            },
        }
    }
}

impl UnbindStep {
    /// The step after the connection was closed.
    pub fn unbound(self) -> (r: Step)
        ensures
            r@ == (StepView::Done { completion: self.completion@ }),
            r == Step::Done(self.completion),
    {
        Step::Done(self.completion)
    }
}

/// The search that a call's answer is about.
pub open spec fn searched_for(c: CompletionView) -> SearchView {
    SearchView {
        tool_name: c.call.tool_name,
        profile_name: c.call.backend_name,
        url: c.call.settings.url,
        base_dn: c.call.settings.base_dn,
        scope: scope_name(c.call.settings.scope),
        filter: c.filter,
        attributes: c.call.settings.attributes,
    }
}

/// The structured answer of a call.
pub open spec fn answer(c: CompletionView, duration_ms: int) -> JsonView {
    match c.result {
        Ok(entries) => envelope_json(searched_for(c), Some(entries), duration_ms, None, None),
        Err(message) => envelope_json(
            searched_for(c),
            None,
            duration_ms,
            Some(classified(message)),
            Some(message),
        ),
    }
}

/// The answer to hand over, from what writing it gave.
pub fn hand_over(payload: Result<Vec<u8>, String>) -> (r: Result<BackendResponse, BackendError>)
    ensures
        match payload {
            Ok(bytes) => r is Ok && r->Ok_0@ == (BackendResponseView {
                payload: bytes@,
                truncated: false,
            }),
            Err(e) => r is Err && r->Err_0@ == (BackendErrorView::Transport {
                message: "LDAP plugin envelope serialization failed: "@ + e@,
            }),
        },
{
    match payload {
        Ok(payload) => Ok(BackendResponse { payload, truncated: false }),
        Err(e) => Err(
            BackendError::Transport {
                message: text::join("LDAP plugin envelope serialization failed: ", e.as_str()),
            },
        ),
    }
}

/// The structured answer, written out. An answer that JSON text keeps exactly is read in
/// it again.
pub fn finalize_payload(envelope: &Json) -> (r: Result<BackendResponse, BackendError>)
    ensures
        r is Ok,
        r->Ok_0@ == (BackendResponseView { payload: printed(envelope@), truncated: false }),
        envelope@ == JsonView::Object(Map::empty()) ==> r->Ok_0@.payload == empty_object_text(),
        readable(envelope@, read_levels()) ==> reads_as(r->Ok_0@.payload, envelope@),
{
    hand_over(codec::print(envelope))
}

impl Completion {
    /// The message that says what went wrong, if anything did.
    pub fn reason(&self) -> (r: Option<&str>)
        ensures
            match self@.result {
                Ok(_) => r is None,
                Err(message) => r is Some && r->0@ == message,
            },
    {
        match &self.result {
            Ok(_) => None,
            Err(message) => Some(message.as_str()),
        }
    }

    /// The structured answer. The time taken is given only with entries, and has to fit
    /// a JSON number then.
    pub fn envelope(&self, duration_ms: u128) -> (r: Json)
        requires
            self.result is Ok ==> duration_ms <= u64::MAX,
        ensures
            r@ == answer(self@, duration_ms as int),
    {
        let settings = &self.call.settings;
        match &self.result {
            Ok(entries) => envelope::build_result_envelope(
                self.call.tool_name.as_str(),
                self.call.backend_name.as_str(),
                settings.url.as_str(),
                settings.base_dn.as_str(),
                settings.scope.as_str(),
                self.filter.as_str(),
                settings.attributes.as_slice(),
                Some(entries.as_slice()),
                duration_ms,
                None,
                None,
            ),
            Err(message) => {
                let failure = envelope::classify_error(message.as_str());
                envelope::build_result_envelope(
                    self.call.tool_name.as_str(),
                    self.call.backend_name.as_str(),
                    settings.url.as_str(),
                    settings.base_dn.as_str(),
                    settings.scope.as_str(),
                    self.filter.as_str(),
                    settings.attributes.as_slice(),
                    None,
                    duration_ms,
                    Some(&failure),
                    Some(message.as_str()),
                )
            },
        }
    }

    /// The answer to the call, written out. A call that failed has one too.
    pub fn response(&self, duration_ms: u128) -> (r: Result<BackendResponse, BackendError>)
        requires
            self.result is Ok ==> duration_ms <= u64::MAX,
        ensures
            r is Ok,
            r->Ok_0@ == (BackendResponseView {
                payload: printed(answer(self@, duration_ms as int)),
                truncated: false,
            }),
            readable(answer(self@, duration_ms as int), read_levels()) ==> reads_as(
                r->Ok_0@.payload,
                answer(self@, duration_ms as int),
            ),
    {
        finalize_payload(&self.envelope(duration_ms))
    }
}

/// What the outside gave in a call, where it was asked: the filter, the reply of the
/// credential cache, the connection, the replies to the bind and to the search, and a
/// message once it was cleared of secrets.
pub struct Outside {
    pub filter: Result<Seq<char>, Seq<char>>,
    pub credential: Result<JsonView, Seq<char>>,
    pub connection: Result<(), Seq<char>>,
    pub bind: Reply<()>,
    pub search: Reply<Vec<SearchEntry>>,
    pub redacted: spec_fn(Seq<char>) -> Seq<char>,
}

/// The step after a step, from what the outside gave.
pub open spec fn next(step: StepView, outside: Outside) -> StepView {
    match step {
        StepView::Credential { call, filter } => after_credential(call, filter, outside.credential),
        StepView::Connect { call, filter, bind_password } => after_connect(
            call,
            filter,
            bind_password,
            outside.connection,
        ),
        StepView::Bind { call, filter, bind_password: _ } => after_bind(call, filter, outside.bind),
        StepView::Search { call, filter, attributes: _ } => after_search(
            call,
            filter,
            outside.search,
        ),
        StepView::Redact { call, filter, message } => StepView::Done {
            completion: failed(call, filter, (outside.redacted)(message)),
        },
        StepView::Unbind { completion } => StepView::Done { completion },
        StepView::Done { completion } => StepView::Done { completion },
    }
}

/// The step after so many steps.
pub open spec fn after(step: StepView, outside: Outside, steps: nat) -> StepView
    decreases steps,
{
    if steps == 0 {
        step
    } else {
        after(next(step, outside), outside, (steps - 1) as nat)
    }
}

/// The password that a call binds with: a literal, or what the credential cache gave.
pub open spec fn effective_password(call: InvocationView, outside: Outside) -> Result<
    Seq<char>,
    Seq<char>,
> {
    if is_credential(call.settings.bind_password) {
        password_in(call.settings.bind_password, outside.credential)
    } else {
        Ok(call.settings.bind_password)
    }
}

/// How a call ends, whatever the outside gives.
pub open spec fn ending(call: InvocationView, outside: Outside) -> CompletionView {
    match outside.filter {
        Err(e) => refused(call, "evaluating filter: "@ + e),
        Ok(filter) => match effective_password(call, outside) {
            Err(e) => refused(call, "bind credential: "@ + e),
            Ok(_) => match outside.connection {
                Err(e) => failed(call, filter, (outside.redacted)("LDAP connect failed: "@ + e)),
                Ok(_) => match outside.bind {
                    Reply::Failed(e) => failed(
                        call,
                        filter,
                        (outside.redacted)("LDAP bind failed: "@ + e@),
                    ),
                    Reply::Rejected(e) => failed(
                        call,
                        filter,
                        (outside.redacted)("LDAP bind rejected: "@ + e@),
                    ),
                    Reply::Granted(_) => match outside.search {
                        Reply::Failed(e) => failed(call, filter, "LDAP search failed: "@ + e@),
                        Reply::Rejected(e) => failed(call, filter, "LDAP search rejected: "@ + e@),
                        Reply::Granted(found) => succeeded(call, filter, found_view(found@)),
                    },
                },
            },
        },
    }
}

/// Every call ends, after no more than five steps past the filter: with the entries
/// found where everything asked for was granted, and else with the first thing that
/// went wrong.
pub proof fn law_every_call_ends(call: InvocationView, outside: Outside)
    ensures
        after(after_filter(call, outside.filter), outside, 5) == (StepView::Done {
            completion: ending(call, outside),
        }),
{
    reveal_with_fuel(after, 6);
}

/// A call is answered with entries exactly where the filter and the password were
/// resolved, the directory was connected to, and the bind and the search were granted;
/// and it is then, and only then, counted as gone through.
pub proof fn law_when_a_call_goes_through(call: InvocationView, outside: Outside)
    ensures
        ending(call, outside).result is Ok <==> {
            &&& outside.filter is Ok
            &&& effective_password(call, outside) is Ok
            &&& outside.connection is Ok
            &&& outside.bind is Granted
            &&& outside.search is Granted
        },
        ending(call, outside).result is Ok <==> ending(call, outside).label == "ok"@,
        ending(call, outside).result is Ok ==> ending(call, outside).result->Ok_0.len()
            <= call.settings.size_limit,
{
    reveal_strlit("ok");
    reveal_strlit("timeout");
    reveal_strlit("transport_error");
    reveal_strlit("ldap_error");
    reveal_strlit("invalid_spec");
    assert("ok"@.len() == 2 && "timeout"@.len() == 7 && "transport_error"@.len() == 15
        && "ldap_error"@.len() == 10 && "invalid_spec"@.len() == 12);
}

/// The answer signals a failure exactly where the call failed: its `downstreamError` is
/// null and so is its `error` where the call went through, and there are entries then;
/// else there is a failure, which says whether to try again, and there are none.
pub proof fn law_answer_signals_failure(c: CompletionView, duration_ms: int)
    ensures
        (member_of(answer(c, duration_ms), "downstreamError"@) == Some(JsonView::Null))
            <==> c.result is Ok,
        (member_of(answer(c, duration_ms), "error"@) == Some(JsonView::Null)) <==> c.result is Ok,
        (member_of(answer(c, duration_ms), "response"@) == Some(JsonView::Null))
            <==> c.result is Err,
        c.result matches Ok(entries) ==> {
            &&& member_of(answer(c, duration_ms), "response"@) == Some(
                response_json(entries, duration_ms),
            )
            &&& member_of(answer(c, duration_ms), "downstreamErrors"@) == Some(
                JsonView::Array(Seq::empty()),
            )
        },
        c.result matches Err(message) ==> {
            &&& member_of(answer(c, duration_ms), "downstreamError"@) == Some(classified(message))
            &&& member_of(answer(c, duration_ms), "downstreamErrors"@) == Some(
                JsonView::Array(seq![classified(message)]),
            )
            &&& member_of(answer(c, duration_ms), "error"@) == Some(JsonView::Str(message))
        },
{
    let (entries, downstream_error, error) = match c.result {
        Ok(entries) => (Some(entries), None, None),
        Err(message) => (None, Some(classified(message)), Some(message)),
    };
    law_envelope_members(searched_for(c), entries, duration_ms, downstream_error, error);
}

/// The count in an answer is the number of entries in it.
pub proof fn law_count_is_right(entries: Seq<JsonView>, duration_ms: int)
    ensures
        member_of(response_json(entries, duration_ms), "entries"@) == Some(
            JsonView::Array(entries),
        ),
        member_of(response_json(entries, duration_ms), "count"@) == Some(
            JsonView::Int(entries.len() as int),
        ),
        member_of(response_json(entries, duration_ms), "durationMs"@) == Some(
            JsonView::Int(duration_ms),
        ),
{
    reveal_strlit("entries");
    reveal_strlit("count");
    reveal_strlit("durationMs");
    assert("entries"@.len() == 7 && "count"@.len() == 5 && "durationMs"@.len() == 10);
}

/// A call is answered the same whatever account it bound: neither the account's name nor
/// its password is put into the answer.
pub proof fn law_answer_hides_the_account(
    c: CompletionView,
    bind_dn: Seq<char>,
    bind_password: Seq<char>,
    duration_ms: int,
)
    ensures
        answer(
            CompletionView {
                call: InvocationView {
                    settings: LdapSettingsView { bind_dn, bind_password, ..c.call.settings },
                    ..c.call
                },
                ..c
            },
            duration_ms,
        ) == answer(c, duration_ms),
{
}

/// The template of a filter sees no text of the arguments that could break out of the
/// filter.
pub proof fn law_filter_sees_inert_arguments(
    settings: LdapSettingsView,
    backend_name: Seq<char>,
    request: BackendRequestView,
    arguments: Result<JsonView, Seq<char>>,
)
    ensures
        arguments matches Ok(a) ==> {
            &&& opening(settings, backend_name, request, arguments) is Ok
            &&& opening(settings, backend_name, request, arguments)->Ok_0.context.arguments
                == escape_view(a)
            &&& all_inert(
                opening(settings, backend_name, request, arguments)->Ok_0.context.arguments,
            )
        },
{
    if let Ok(a) = arguments {
        law_escaped_arguments_are_inert(a);
    }
}

/// The credential cache is asked only where the password is a `cred://` URI, and only
/// for that; a literal password is used as it is.
pub proof fn law_credential_boundary(call: InvocationView, filter: Seq<char>)
    ensures
        after_filter(call, Ok(filter)) is Credential <==> is_credential(
            call.settings.bind_password,
        ),
        !is_credential(call.settings.bind_password) ==> after_filter(call, Ok(filter)) == (
        StepView::Connect { call, filter, bind_password: call.settings.bind_password }),
        credential_request(call).snapshot == JsonView::Object(
            map![call.settings.bind_password => JsonView::Str(call.settings.bind_password)],
        ),
{
}

/// Texts as a JSON array are kept exactly by JSON text.
proof fn lemma_texts_readable(texts: Seq<Seq<char>>, levels: nat)
    requires
        levels >= 1,
    ensures
        readable(texts_view(texts), levels),
{
    reveal_with_fuel(readable, 2);
}

/// An entry as JSON is kept exactly by JSON text.
proof fn lemma_entry_readable(entry: SearchEntryView, levels: nat)
    requires
        levels >= 3,
    ensures
        readable(entry_json(entry), levels),
{
    reveal_with_fuel(readable, 2);
    let attributes = entry.attrs.map_values(|values: Seq<Seq<char>>| texts_view(values));
    assert forall|k: Seq<char>| attributes.contains_key(k) implies readable(
        #[trigger] attributes[k],
        (levels - 2) as nat,
    ) by {
        lemma_texts_readable(entry.attrs[k], (levels - 2) as nat);
    }
    assert(readable(JsonView::Object(attributes), (levels - 1) as nat));
}

/// A call's answer is kept exactly by JSON text, whatever the outside gave: what is
/// handed over reads as the answer.
pub proof fn law_answers_read_back(call: InvocationView, outside: Outside, duration_ms: int)
    ensures
        readable(answer(ending(call, outside), duration_ms), read_levels()),
{
    reveal_with_fuel(readable, 2);
    let c = ending(call, outside);
    let below = (read_levels() - 1) as nat;
    lemma_texts_readable(searched_for(c).attributes, (below - 1) as nat);
    assert(readable(request_json(searched_for(c)), below));
    match c.result {
        Ok(entries) => {
            let found = outside.search->Granted_0;
            assert forall|i: int| 0 <= i < entries.len() implies readable(
                #[trigger] entries[i],
                (below - 2) as nat,
            ) by {
                lemma_entry_readable(found_view(found@)[i], (below - 2) as nat);
            }
            assert(readable(JsonView::Array(entries), (below - 1) as nat));
            assert(readable(response_json(entries, duration_ms), below));
        },
        Err(message) => {
            assert(readable(classified(message), (below - 1) as nat));
            assert(readable(classified(message), below));
            assert(readable(listed(Some(classified(message))), below));
        },
    }
}

/// What holds of every step of a call, in terms of the call and of what the outside gave.
spec fn in_keeping(step: StepView, call: InvocationView, outside: Outside) -> bool {
    match step {
        StepView::Credential { call: c, filter } => {
            &&& c == call
            &&& outside.filter == Ok::<Seq<char>, Seq<char>>(filter)
            &&& is_credential(call.settings.bind_password)
        },
        StepView::Connect { call: c, filter, bind_password } => {
            &&& c == call
            &&& outside.filter == Ok::<Seq<char>, Seq<char>>(filter)
            &&& effective_password(call, outside) == Ok::<Seq<char>, Seq<char>>(bind_password)
        },
        StepView::Bind { call: c, filter, bind_password } => {
            &&& c == call
            &&& outside.filter == Ok::<Seq<char>, Seq<char>>(filter)
            &&& effective_password(call, outside) == Ok::<Seq<char>, Seq<char>>(bind_password)
            &&& outside.connection is Ok
        },
        StepView::Search { call: c, filter, attributes } => {
            &&& c == call
            &&& outside.filter == Ok::<Seq<char>, Seq<char>>(filter)
            &&& attributes == wanted_attributes(call.settings.attributes)
            &&& outside.connection is Ok
            &&& outside.bind is Granted
        },
        StepView::Redact { call: c, filter, message: _ } => {
            &&& c == call
            &&& outside.filter == Ok::<Seq<char>, Seq<char>>(filter)
        },
        StepView::Unbind { completion } => completion.call == call,
        StepView::Done { completion } => completion.call == call,
    }
}

proof fn lemma_steps_in_keeping(step: StepView, call: InvocationView, outside: Outside, steps: nat)
    requires
        in_keeping(step, call, outside),
    ensures
        in_keeping(after(step, outside, steps), call, outside),
    decreases steps,
{
    if steps > 0 {
        lemma_steps_in_keeping(next(step, outside), call, outside, (steps - 1) as nat);
    }
}

/// Along every run of a call, an account is bound with the password configured where
/// that is a literal, and with the text that the credential cache gave under it where it
/// is a `cred://` URI; and so it is on the way there. The call is the one that was begun,
/// and the filter the one that was resolved.
pub proof fn law_binds_with_the_calls_password(call: InvocationView, outside: Outside, steps: nat)
    ensures
        after(after_filter(call, outside.filter), outside, steps) matches StepView::Bind {
            call: c,
            filter,
            bind_password,
        } ==> {
            &&& c == call
            &&& outside.filter == Ok::<Seq<char>, Seq<char>>(filter)
            &&& !begins_with(call.settings.bind_password, "cred://"@) ==> bind_password
                == call.settings.bind_password
            &&& begins_with(call.settings.bind_password, "cred://"@) ==> {
                &&& outside.credential is Ok
                &&& member_of(outside.credential->Ok_0, call.settings.bind_password) == Some(
                    JsonView::Str(bind_password),
                )
            }
            &&& outside.connection is Ok
        },
        after(after_filter(call, outside.filter), outside, steps) matches StepView::Connect {
            call: c,
            filter,
            bind_password,
        } ==> {
            &&& c == call
            &&& outside.filter == Ok::<Seq<char>, Seq<char>>(filter)
            &&& !begins_with(call.settings.bind_password, "cred://"@) ==> bind_password
                == call.settings.bind_password
            &&& begins_with(call.settings.bind_password, "cred://"@) ==> {
                &&& outside.credential is Ok
                &&& member_of(outside.credential->Ok_0, call.settings.bind_password) == Some(
                    JsonView::Str(bind_password),
                )
            }
        },
{
    lemma_steps_in_keeping(after_filter(call, outside.filter), call, outside, steps);
}

/// Along every run of a call, the credential cache is asked only for a `cred://` URI, and
/// the search is for the resolved filter and the configured attributes, or for all where
/// none are configured; and it is run only where the bind was granted. Whatever is cleared
/// of secrets, and however the call ends, it is the call that was begun.
pub proof fn law_searches_for_what_was_asked(call: InvocationView, outside: Outside, steps: nat)
    ensures
        match after(after_filter(call, outside.filter), outside, steps) {
            StepView::Credential { call: c, filter } => {
                &&& c == call
                &&& outside.filter == Ok::<Seq<char>, Seq<char>>(filter)
                &&& begins_with(call.settings.bind_password, "cred://"@)
            },
            StepView::Search { call: c, filter, attributes } => {
                &&& c == call
                &&& outside.filter == Ok::<Seq<char>, Seq<char>>(filter)
                &&& call.settings.attributes.len() > 0 ==> attributes == call.settings.attributes
                &&& call.settings.attributes.len() == 0 ==> attributes == seq!["*"@]
                &&& outside.connection is Ok
                &&& outside.bind is Granted
            },
            StepView::Redact { call: c, filter, message: _ } => {
                &&& c == call
                &&& outside.filter == Ok::<Seq<char>, Seq<char>>(filter)
            },
            StepView::Unbind { completion } => completion.call == call,
            StepView::Done { completion } => completion.call == call,
            _ => true,
        },
{
    lemma_steps_in_keeping(after_filter(call, outside.filter), call, outside, steps);
}

/// What each step leads to. Nothing that a step was given is lost or changed on the way
/// to the next, and what went wrong is told after the words for where it did.
pub proof fn law_steps(
    call: InvocationView,
    filter: Seq<char>,
    bind_password: Seq<char>,
    e: Seq<char>,
    text: String,
    snapshot: JsonView,
)
    ensures
        begins_with(call.settings.bind_password, "cred://"@) ==> after_filter(call, Ok(filter)) == (
        StepView::Credential { call, filter }),
        !begins_with(call.settings.bind_password, "cred://"@) ==> after_filter(call, Ok(filter))
            == (StepView::Connect { call, filter, bind_password: call.settings.bind_password }),
        member_of(snapshot, call.settings.bind_password) == Some(JsonView::Str(bind_password))
            ==> after_credential(call, filter, Ok(snapshot)) == (StepView::Connect {
            call,
            filter,
            bind_password,
        }),
        after_credential(call, filter, Err(e)) matches StepView::Done { completion: c } && c.call
            == call && c.result == Err::<Seq<JsonView>, Seq<char>>("bind credential: "@ + e),
        after_connect(call, filter, bind_password, Ok(())) == (StepView::Bind {
            call,
            filter,
            bind_password,
        }),
        after_connect(call, filter, bind_password, Err(e)) == (StepView::Redact {
            call,
            filter,
            message: "LDAP connect failed: "@ + e,
        }),
        after_bind(call, filter, Reply::Failed(text)) == (StepView::Redact {
            call,
            filter,
            message: "LDAP bind failed: "@ + text@,
        }),
        after_bind(call, filter, Reply::Rejected(text)) == (StepView::Redact {
            call,
            filter,
            message: "LDAP bind rejected: "@ + text@,
        }),
        after_bind(call, filter, Reply::Granted(())) matches StepView::Search {
            call: c,
            filter: f,
            attributes: _,
        } && c == call && f == filter,
        after_search(call, filter, Reply::Failed(text)) matches StepView::Done { completion: c }
            && c.call == call && c.filter == filter && c.result == Err::<Seq<JsonView>, Seq<char>>(
            "LDAP search failed: "@ + text@,
        ),
        after_search(call, filter, Reply::Rejected(text)) matches StepView::Done { completion: c }
            && c.call == call && c.filter == filter && c.result == Err::<Seq<JsonView>, Seq<char>>(
            "LDAP search rejected: "@ + text@,
        ),
{
}

/// The password that the credential cache gave is the text under the URI. Where it gave
/// an error, that is the error; where there is no text under the URI, it did not resolve.
pub proof fn law_resolved_passwords(
    raw: Seq<char>,
    snapshot: JsonView,
    password: Seq<char>,
    e: Seq<char>,
)
    ensures
        password_in(raw, Ok(snapshot)) == Ok::<Seq<char>, Seq<char>>(password) <==> member_of(
            snapshot,
            raw,
        ) == Some(JsonView::Str(password)),
        !(member_of(snapshot, raw) matches Some(JsonView::Str(_))) ==> password_in(
            raw,
            Ok(snapshot),
        ) == Err::<Seq<char>, Seq<char>>("bind credential did not resolve"@),
        password_in(raw, Err(e)) == Err::<Seq<char>, Seq<char>>(e),
{
}

/// The credential cache is asked for the call that is made: its request, session, binding
/// and identity, and the configured URI, under itself and for nothing else.
pub proof fn law_credential_request_is_the_calls(call: Invocation, request: CredentialRequest)
    requires
        request@ == credential_request(call@),
    ensures
        request.request_id@ == call.request.request_id@,
        request.session_id.deep_view() == call.request.session_id.deep_view(),
        request.backend_name@ == call.backend_name@,
        request.identity is Some <==> call.request.identity is Some,
        request.identity is Some ==> request.identity->0@ == call.request.identity->0@,
        forall|name: Seq<char>| #[trigger]
            member_of(request.snapshot@, name) == if name == call.settings.bind_password@ {
                Some(JsonView::Str(call.settings.bind_password@))
            } else {
                None
            },
{
}

/// Calls that denote the same are of the same binding, request and tool, and have the
/// same settings.
pub proof fn law_calls_are_told_apart(a: Invocation, b: Invocation)
    requires
        a@ == b@,
    ensures
        a.backend_name@ == b.backend_name@,
        a.tool_name@ == b.tool_name@,
        a.request@ == b.request@,
        a.settings@ == b.settings@,
{
}

/// What a step denotes is what it holds.
pub proof fn law_step_views(step: Step)
    ensures
        step matches Step::Credential(s) ==> step@ == (StepView::Credential {
            call: s.call@,
            filter: s.filter@,
        }),
        step matches Step::Connect(s) ==> step@ == (StepView::Connect {
            call: s.call@,
            filter: s.filter@,
            bind_password: s.bind_password@,
        }),
        step matches Step::Bind(s) ==> step@ == (StepView::Bind {
            call: s.call@,
            filter: s.filter@,
            bind_password: s.bind_password@,
        }),
        step matches Step::Search(s) ==> step@ == (StepView::Search {
            call: s.call@,
            filter: s.filter@,
            attributes: s.attributes.deep_view(),
        }),
        step matches Step::Redact(s) ==> step@ == (StepView::Redact {
            call: s.call@,
            filter: s.filter@,
            message: s.message@,
        }),
        step matches Step::Unbind(s) ==> step@ == (StepView::Unbind { completion: s.completion@ }),
        step matches Step::Done(c) ==> step@ == (StepView::Done { completion: c@ }),
{
}

/// How a call ends: with what went wrong first, after the words for where it did, and
/// with the resolved filter once there is a password to search with.
pub proof fn law_what_went_wrong(call: InvocationView, outside: Outside)
    ensures
        ({
            let c = ending(call, outside);
            let raw = call.settings.bind_password;
            let uri = begins_with(raw, "cred://"@);
            let text_given = outside.credential is Ok && (member_of(
                outside.credential->Ok_0,
                raw,
            ) matches Some(JsonView::Str(_)));
            let secret = !uri || text_given;
            &&& c.call == call
            &&& outside.filter matches Err(e) ==> {
                &&& c.result == Err::<Seq<JsonView>, Seq<char>>("evaluating filter: "@ + e)
                &&& c.filter.len() == 0 && c.label == "invalid_spec"@
            }
            &&& outside.filter is Ok && !secret ==> {
                &&& c.filter.len() == 0 && c.label == "invalid_spec"@
                &&& c.result == Err::<Seq<JsonView>, Seq<char>>(
                    "bind credential: "@ + match outside.credential {
                        Err(e) => e,
                        Ok(_) => "bind credential did not resolve"@,
                    },
                )
            }
            &&& outside.filter is Ok && secret ==> {
                &&& c.filter == outside.filter->Ok_0
                &&& outside.connection matches Err(e) ==> c.result == Err::<
                    Seq<JsonView>,
                    Seq<char>,
                >((outside.redacted)("LDAP connect failed: "@ + e))
                &&& outside.connection is Ok ==> match outside.bind {
                    Reply::Failed(e) => c.result == Err::<Seq<JsonView>, Seq<char>>(
                        (outside.redacted)("LDAP bind failed: "@ + e@),
                    ),
                    Reply::Rejected(e) => c.result == Err::<Seq<JsonView>, Seq<char>>(
                        (outside.redacted)("LDAP bind rejected: "@ + e@),
                    ),
                    Reply::Granted(_) => match outside.search {
                        Reply::Failed(e) => c.result == Err::<Seq<JsonView>, Seq<char>>(
                            "LDAP search failed: "@ + e@,
                        ),
                        Reply::Rejected(e) => c.result == Err::<Seq<JsonView>, Seq<char>>(
                            "LDAP search rejected: "@ + e@,
                        ),
                        Reply::Granted(found) => c.result is Ok && c.label == "ok"@,
                    },
                }
                &&& c.result matches Err(message) ==> c.label == failure_label(message)
            }
        }),
{
}

/// Where a call goes through, its answer holds the entries found, each in its place and
/// with its name, up to the limit; and the time it took.
pub proof fn law_answer_holds_what_was_found(
    call: InvocationView,
    outside: Outside,
    found: Vec<SearchEntry>,
    duration_ms: int,
)
    requires
        ending(call, outside).result is Ok,
        outside.search == Reply::Granted(found),
    ensures
        ({
            let response = member_of(answer(ending(call, outside), duration_ms), "response"@);
            &&& response is Some
            &&& member_of(response->0, "entries"@) matches Some(JsonView::Array(items))
            &&& items.len() <= found@.len() && items.len() <= call.settings.size_limit
            &&& items.len() == found@.len() || items.len() == call.settings.size_limit
            &&& forall|i: int|
                #![trigger items[i]]
                0 <= i < items.len() ==> items[i] == entry_json(found@[i]@) && member_of(
                    items[i],
                    "dn"@,
                ) == Some(JsonView::Str(found@[i].dn@))
            &&& member_of(response->0, "count"@) == Some(JsonView::Int(items.len() as int))
            &&& member_of(response->0, "durationMs"@) == Some(JsonView::Int(duration_ms))
        }),
{
    let c = ending(call, outside);
    let entries = c.result->Ok_0;
    law_answer_signals_failure(c, duration_ms);
    law_count_is_right(entries, duration_ms);
    law_first_entries(found, call.settings.size_limit);
    assert forall|i: int| #![trigger entries[i]] 0 <= i < entries.len() implies entries[i]
        == entry_json(found@[i]@) && member_of(entries[i], "dn"@) == Some(
        JsonView::Str(found@[i].dn@),
    ) by {
        law_entry_name(found@[i]);
    }
}

/// A call's answer is about the call. It is of the tool that the first header named
/// `mcpg-tool-name` says, or the binding's name where there is none; its profile is the
/// binding's name; and what it says of the search is the binding's settings and the
/// resolved filter, which is empty where there was no filter or no password.
pub proof fn law_answer_is_about_the_call(
    settings: LdapSettings,
    backend_name: Seq<char>,
    request: BackendRequest,
    arguments: JsonView,
    outside: Outside,
    duration_ms: int,
)
    ensures
        ({
            let opened = opening(settings@, backend_name, request@, Ok(arguments));
            let a = answer(ending(opened->Ok_0.call, outside), duration_ms);
            let raw = settings.bind_password@;
            let text_given = outside.credential is Ok && (member_of(
                outside.credential->Ok_0,
                raw,
            ) matches Some(JsonView::Str(_)));
            let secret = !begins_with(raw, "cred://"@) || text_given;
            &&& opened is Ok
            &&& forall|i: int|
                0 <= i < request.headers@.len() && lower((#[trigger] request.headers@[i]).0@)
                    == "mcpg-tool-name"@ && (forall|k: int|
                    0 <= k < i ==> lower((#[trigger] request.headers@[k]).0@)
                        != "mcpg-tool-name"@) ==> member_of(a, "toolName"@) == Some(
                    JsonView::Str(request.headers@[i].1@),
                )
            &&& (forall|k: int|
                0 <= k < request.headers@.len() ==> lower((#[trigger] request.headers@[k]).0@)
                    != "mcpg-tool-name"@) ==> member_of(a, "toolName"@) == Some(
                JsonView::Str(backend_name),
            )
            &&& member_of(a, "profile"@) == Some(JsonView::Str(backend_name))
            &&& member_of(a, "request"@) matches Some(r)
            &&& member_of(r, "url"@) == Some(JsonView::Str(settings.url@))
            &&& member_of(r, "baseDn"@) == Some(JsonView::Str(settings.base_dn@))
            &&& member_of(r, "scope"@) == Some(
                JsonView::Str(
                    match settings.scope {
                        LdapScope::Base => "base"@,
                        LdapScope::One => "one"@,
                        LdapScope::Subtree => "subtree"@,
                    },
                ),
            )
            &&& outside.filter is Ok && secret ==> member_of(r, "filter"@) == Some(
                JsonView::Str(outside.filter->Ok_0),
            )
            &&& outside.filter is Err || !secret ==> member_of(r, "filter"@) == Some(
                JsonView::Str(Seq::empty()),
            )
            &&& member_of(r, "attributes"@) matches Some(JsonView::Array(items))
            &&& items.len() == settings.attributes@.len()
            &&& forall|i: int|
                0 <= i < items.len() ==> #[trigger] items[i] == JsonView::Str(
                    settings.attributes@[i]@,
                )
        }),
{
    let step = opening(settings@, backend_name, request@, Ok(arguments))->Ok_0;
    let c = ending(step.call, outside);
    let (entries, downstream_error, error) = match c.result {
        Ok(entries) => (Some(entries), None, None),
        Err(message) => (None, Some(classified(message)), Some(message)),
    };
    law_envelope_members(searched_for(c), entries, duration_ms, downstream_error, error);
    law_request_members(searched_for(c));
    law_called_tool(request.headers, backend_name);
    assert(settings.attributes.deep_view().len() == settings.attributes@.len());
    assert forall|i: int| 0 <= i < settings.attributes@.len() implies #[trigger] settings@.attributes[i]
        == settings.attributes@[i]@ by {}
}

/// A call is begun with what it was given: the binding's settings, its name, and the
/// request; the template sees the arguments escaped, and the same tool as the answer is of.
pub proof fn law_opening(
    settings: LdapSettingsView,
    backend_name: Seq<char>,
    request: BackendRequestView,
    arguments: JsonView,
    e: Seq<char>,
)
    ensures
        opening(settings, backend_name, request, Ok(arguments)) matches Ok(step)
            && step.call.settings == settings && step.call.backend_name == backend_name
            && step.call.request == request && step.context.tool_name == step.call.tool_name
            && step.context.arguments == escape_view(arguments) && step.context.context.session_id
            == request.session_id && (step.context.context.claims is Some <==> request.identity is Some)
            && step.context == expr_context(escape_view(arguments), step.call.tool_name, request),
        opening(settings, backend_name, request, Err(e)) == Err::<FilterStepView, BackendErrorView>(
            BackendErrorView::InvalidSpec {
                message: "LDAP plugin payload is not valid JSON: "@ + e,
            },
        ),
{
}

/// A payload that is empty holds no arguments; any other holds what it reads as.
pub proof fn law_arguments(payload: Seq<u8>)
    ensures
        payload.len() == 0 ==> arguments_in(payload) == Ok::<JsonView, Seq<char>>(
            JsonView::Object(Map::empty()),
        ),
        payload.len() > 0 ==> arguments_in(payload) == codec::parsed(payload),
        no_arguments(payload) <==> payload.len() == 0 || payload == seq![0x7bu8, 0x7du8],
{
}

/// What the end of a call denotes: the call, the filter, the label, and every entry in its
/// place, or the message.
pub proof fn law_completion_views(c: Completion)
    ensures
        c@.call == c.call@,
        c@.filter == c.filter@,
        c@.label == c.label@,
        c@.result is Ok <==> c.result is Ok,
        c.result matches Err(message) ==> c@.result == Err::<Seq<JsonView>, Seq<char>>(message@),
        c.result matches Ok(entries) ==> {
            &&& c@.result->Ok_0.len() == entries@.len()
            &&& forall|i: int|
                0 <= i < entries@.len() ==> #[trigger] c@.result->Ok_0[i] == entries@[i]@
        },
{
}

/// What the first step of a call denotes, and the error in its place.
pub proof fn law_first_step_views(step: FilterStep, error: BackendError)
    ensures
        step@.call == step.call@,
        step@.context.arguments == step.context.arguments@,
        step@.context.tool_name == step.context.tool_name@,
        step@.context.context == step.context.context@,
        opened(Ok(step)) == Ok::<FilterStepView, BackendErrorView>(step@),
        opened(Err(error)) == Err::<FilterStepView, BackendErrorView>(error@),
{
}

/// What is handed in from the outside is taken as it is: values and the texts of errors.
pub proof fn law_outcomes_are_taken_as_they_are(text: String, j: Json, error: String)
    ensures
        text_result(Ok(text)) == Ok::<Seq<char>, Seq<char>>(text@),
        text_result(Err(error)) == Err::<Seq<char>, Seq<char>>(error@),
        json_result(Ok(j)) == Ok::<JsonView, Seq<char>>(j@),
        json_result(Err(error)) == Err::<JsonView, Seq<char>>(error@),
        unit_result(Ok(())) == Ok::<(), Seq<char>>(()),
        unit_result(Err(error)) == Err::<(), Seq<char>>(error@),
{
}

} // verus!
