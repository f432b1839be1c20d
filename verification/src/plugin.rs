//! The plugin: its bindings, and the way to the host.

use vstd::prelude::*;
use crate::execution;
use crate::execution::{
    answer, arguments_in, credential_request, ending, no_arguments, opening, FilterStep,
    FilterStepView, Outside,
};
use crate::json::{Json, JsonView, Members};
use crate::observability::{observe, observes, Call, Observation};
use crate::profiles::{LdapProfile, LdapProfileView, Profiles};
use crate::protocol::{invalid, BackendError, BackendErrorView, BackendRequest, BackendRequestView};
use crate::text;
use crate::types::{settings_of, sound_settings, spec_problem, LdapBackendSpec, LdapBackendSpecView};

verus! {

/// What a plugin is for.
#[derive(Debug, Clone, Copy, PartialEq, Eq, Structural)]
pub enum PluginClass {
    Backend,
}

/// What a plugin says of itself.
#[derive(Debug, Clone, Copy, PartialEq, Eq)]
pub struct PluginManifest {
    pub id: &'static str,
    pub name: &'static str,
    pub class: PluginClass,
}

/// A binding that was found sound and that waits for its filter to be compiled.
pub struct Registration {
    backend_name: String,
    spec: LdapBackendSpec,
}

/// The name of a binding, and the binding.
#[verifier::ext_equal]
pub struct RegistrationView {
    pub backend_name: Seq<char>,
    pub spec: LdapBackendSpecView,
}

impl View for Registration {
    type V = RegistrationView;

    closed spec fn view(&self) -> RegistrationView {
        RegistrationView { backend_name: self.backend_name@, spec: self.spec@ }
    }
}

/// The error of a binding that cannot be read or is not sound; nothing for one that is.
pub open spec fn registration_error(spec: Result<LdapBackendSpecView, Seq<char>>) -> Option<
    BackendErrorView,
> {
    match spec {
        Err(e) => Some(BackendErrorView::InvalidSpec { message: "LDAP binding spec: "@ + e }),
        Ok(s) => match spec_problem(s) {
            Some(problem) => Some(BackendErrorView::InvalidSpec { message: problem }),
            None => None,
        },
    }
}

/// A binding, or the text of the error that reading it gave.
pub open spec fn spec_result(spec: Result<LdapBackendSpec, String>) -> Result<
    LdapBackendSpecView,
    Seq<char>,
> {
    match spec {
        Ok(s) => Ok(s@),
        Err(e) => Err(e@),
    }
}

impl Registration {
    #[verifier::type_invariant]
    spec fn inv(self) -> bool {
        spec_problem(self.spec@) is None
    }

    /// Takes a binding, from what reading it gave, if it is sound.
    pub fn check(backend_name: &str, spec: Result<LdapBackendSpec, String>) -> (r: Result<
        Registration,
        BackendError,
    >)
        ensures
            match registration_error(spec_result(spec)) {
                Some(error) => r is Err && r->Err_0@ == error,
                None => {
                    &&& r is Ok
                    &&& r->Ok_0@ == (RegistrationView {
                        backend_name: backend_name@,
                        spec: spec->Ok_0@,
                    })
                },
            },
    {
        match spec {
            Err(e) => Err(invalid(text::join("LDAP binding spec: ", e.as_str()))),
            Ok(spec) => match spec.validate() {
                Err(e) => Err(e),
                Ok(_) => Ok(Registration { backend_name: backend_name.to_owned(), spec }),
            },
        }
    }

    /// The filter to compile. It holds no `cred://`.
    pub fn filter(&self) -> (r: &str)
        ensures
            r@ == self@.spec.filter,
            spec_problem(self@.spec) is None,
    {
        proof {
            use_type_invariant(self);
        }
        self.spec.filter.as_str()
    }
}

/// The plugin. A binding runs on an `R`; the host is reached through an `H`.
pub struct LdapBackendPlugin<R, H> {
    profiles: Profiles<R>,
    host: Option<H>,
}

/// The bindings by name, and the way to the host where there is one.
#[verifier::reject_recursive_types(R)]
#[verifier::reject_recursive_types(H)]
#[verifier::ext_equal]
pub struct PluginView<R, H> {
    pub profiles: Map<Seq<char>, LdapProfileView<R>>,
    pub host: Option<H>,
}

impl<R, H> View for LdapBackendPlugin<R, H> {
    type V = PluginView<R, H>;

    closed spec fn view(&self) -> PluginView<R, H> {
        PluginView { profiles: self.profiles@, host: self.host }
    }
}

/// The bindings once a registration went through.
pub open spec fn registered<R>(
    profiles: Map<Seq<char>, LdapProfileView<R>>,
    registration: RegistrationView,
    runtime: R,
) -> Map<Seq<char>, LdapProfileView<R>> {
    profiles.insert(
        registration.backend_name,
        LdapProfileView { settings: settings_of(registration.spec), runtime },
    )
}

/// Why a call was turned down before anything was done for it, and the label that it
/// is counted under.
#[derive(Debug, PartialEq)]
pub struct Rejection {
    pub error: BackendError,
    pub label: &'static str,
}

#[verifier::ext_equal]
pub struct RejectionView {
    pub error: BackendErrorView,
    pub label: Seq<char>,
}

impl View for Rejection {
    type V = RejectionView;

    open spec fn view(&self) -> RejectionView {
        RejectionView { error: self.error@, label: self.label@ }
    }
}

/// How a call begins, given what reading its arguments gives: with its first step, or
/// turned down because its binding is not registered or its arguments are no JSON.
pub open spec fn beginning<R>(
    profiles: Map<Seq<char>, LdapProfileView<R>>,
    backend_name: Seq<char>,
    request: BackendRequestView,
    arguments: Result<JsonView, Seq<char>>,
) -> Result<(FilterStepView, R), RejectionView> {
    if !profiles.contains_key(backend_name) {
        Err(
            RejectionView {
                error: BackendErrorView::ProfileNotFound { backend_name },
                label: "profile_not_found"@,
            },
        )
    } else {
        match opening(profiles[backend_name].settings, backend_name, request, arguments) {
            Ok(step) => Ok((step, profiles[backend_name].runtime)),
            Err(error) => Err(RejectionView { error, label: "invalid_spec"@ }),
        }
    }
}

/// How a call began.
pub open spec fn began<R>(r: Result<(FilterStep, &R), Rejection>) -> Result<
    (FilterStepView, R),
    RejectionView,
> {
    match r {
        Ok(start) => Ok((start.0@, *start.1)),
        Err(rejection) => Err(rejection@),
    }
}

impl<R, H> LdapBackendPlugin<R, H> {
    /// A plugin without bindings and without a host.
    pub fn new() -> (r: Self)
        ensures
            r@ == (PluginView::<R, H> { profiles: Map::empty(), host: None }),
    {
        LdapBackendPlugin { profiles: Profiles::new(), host: None }
    }

    /// Takes the way to the host, and says whether it did: only the first one is taken.
    pub fn set_host_handle(&mut self, host: H) -> (r: bool)
        ensures
            r == (old(self)@.host is None),
            final(self)@ == (PluginView {
                profiles: old(self)@.profiles,
                host: if old(self)@.host is None {
                    Some(host)
                } else {
                    old(self)@.host
                },
            }),
    {
        if self.host.is_none() {
            self.host = Some(host);
            true
        } else {
            false
        }
    }

    /// The way to the host, where there is one.
    pub fn host_handle(&self) -> (r: Option<&H>)
        ensures
            match self@.host {
                Some(host) => r is Some && *r->0 == host,
                None => r is None,
            },
    {
        self.host.as_ref()
    }

    /// What is told the host of a call that has ended, and the way to it. Where there is
    /// no host, nothing is told.
    pub fn emit_host_observability(&self, call: &Call<'_>) -> (r: Option<(&H, Observation)>)
        ensures
            match self@.host {
                Some(host) => r matches Some(told) && *told.0 == host && observes(told.1, call@),
                None => r is None,
            },
    {
        match &self.host {
            Some(host) => Some((host, observe(call))),
            None => None,
        }
    }

    /// What the plugin says of itself.
    pub fn manifest(&self) -> (r: PluginManifest)
        ensures
            r.id@ == "dev.mcpg.backend.ldap"@,
            r.name@ == "LDAP Binding"@,
            r.class == PluginClass::Backend,
    {
        PluginManifest {
            id: "dev.mcpg.backend.ldap",
            name: "LDAP Binding",
            class: PluginClass::Backend,
        }
    }

    /// The kind of binding that this plugin serves.
    pub fn kind(&self) -> (r: &'static str)
        ensures
            r@ == "ldap"@,
    {
        "ldap"
    }

    /// What is recorded with every call of a binding.
    pub fn audit_metadata(&self, backend_name: &str) -> (r: Json)
        ensures
            r@ == JsonView::Object(map!["ldap.transport"@ => JsonView::Str("plugin"@)]),
    {
        Members::new().with("ldap.transport", Json::text("plugin")).object()
    }

    /// The binding with a name.
    pub fn profile(&self, backend_name: &str) -> (r: Option<&LdapProfile<R>>)
        ensures
            match r {
                Some(p) => {
                    &&& self@.profiles.contains_key(backend_name@)
                    &&& p@ == self@.profiles[backend_name@]
                    &&& sound_settings(p.settings@)
                },
                None => !self@.profiles.contains_key(backend_name@),
            },
    {
        self.profiles.get(backend_name)
    }

    /// Registers a sound binding, from what compiling its filter gave: in place of one
    /// with its name, or not at all where the filter does not compile.
    pub fn register_profile(
        &mut self,
        registration: Registration,
        compiled: Result<R, String>,
    ) -> (r: Result<(), BackendError>)
        ensures
            match compiled {
                Ok(runtime) => {
                    &&& r is Ok
                    &&& final(self)@ == (PluginView {
                        profiles: registered(old(self)@.profiles, registration@, runtime),
                        host: old(self)@.host,
                    })
                },
                Err(e) => {
                    &&& r is Err
                    &&& r->Err_0@ == (BackendErrorView::InvalidSpec {
                        message: "filter expression: "@ + e@,
                    })
                    &&& final(self)@ == old(self)@
                },
            },
    {
        match compiled {
            Err(e) => Err(invalid(text::join("filter expression: ", e.as_str()))),
            Ok(runtime) => {
                proof {
                    use_type_invariant(&registration);
                }
                let Registration { backend_name, spec } = registration;
                self.profiles.insert(
                    backend_name.as_str(),
                    LdapProfile { settings: spec.into_settings(), runtime },
                );
                Ok(())
            },
        }
    }

    /// Begins a call of a binding, from what reading its arguments gave.
    pub fn begin(
        &self,
        backend_name: &str,
        request: BackendRequest,
        arguments: Result<Json, String>,
    ) -> (r: Result<(FilterStep, &R), Rejection>)
        ensures
            began(r) == beginning(
                self@.profiles,
                backend_name@,
                request@,
                execution::json_result(arguments),
            ),
            r is Ok ==> sound_settings(r->Ok_0.0@.call.settings),
    {
        match self.profiles.get(backend_name) {
            None => Err(
                Rejection {
                    error: BackendError::ProfileNotFound { backend_name: backend_name.to_owned() },
                    label: "profile_not_found",
                },
            ),
            Some(profile) => match execution::open_call(
                profile.settings.clone(),
                backend_name,
                request,
                arguments,
            ) {
                Ok(step) => Ok((step, &profile.runtime)),
                Err(error) => Err(Rejection { error, label: "invalid_spec" }),
            },
        }
    }

    /// Begins a call of a binding: its first step and what the binding runs on, or why
    /// it is turned down.
    pub fn execute(&self, backend_name: &str, request: BackendRequest) -> (r: Result<
        (FilterStep, &R),
        Rejection,
    >)
        ensures
            began(r) == beginning(
                self@.profiles,
                backend_name@,
                request@,
                arguments_in(request@.payload),
            ),
            no_arguments(request@.payload) ==> began(r) == beginning(
                self@.profiles,
                backend_name@,
                request@,
                Ok(JsonView::Object(Map::empty())),
            ),
            r is Ok ==> sound_settings(r->Ok_0.0@.call.settings),
    {
        let arguments = execution::read_arguments(request.payload.as_slice());
        self.begin(backend_name, request, arguments)
    }
}

impl<R, H> Default for LdapBackendPlugin<R, H> {
    fn default() -> (r: Self)
        ensures
            r@ == (PluginView::<R, H> { profiles: Map::empty(), host: None }),
    {
        Self::new()
    }
}

/// A call of a binding that is not registered is turned down as such, whatever else is
/// right or wrong with it.
pub proof fn law_unknown_binding<R>(
    profiles: Map<Seq<char>, LdapProfileView<R>>,
    backend_name: Seq<char>,
    request: BackendRequestView,
    arguments: Result<JsonView, Seq<char>>,
)
    requires
        !profiles.contains_key(backend_name),
    ensures
        beginning(profiles, backend_name, request, arguments) == Err::<(FilterStepView, R), _>(
            RejectionView {
                error: BackendErrorView::ProfileNotFound { backend_name },
                label: "profile_not_found"@,
            },
        ),
{
}

/// A call of a binding that was just registered runs on it, whatever had its name
/// before, and a call of any other binding begins as it would have.
pub proof fn law_registered_binding_is_called<R>(
    profiles: Map<Seq<char>, LdapProfileView<R>>,
    registration: RegistrationView,
    runtime: R,
    backend_name: Seq<char>,
    request: BackendRequestView,
    arguments: Result<JsonView, Seq<char>>,
)
    ensures
        beginning(
            registered(profiles, registration, runtime),
            backend_name,
            request,
            arguments,
        ) == if backend_name == registration.backend_name {
            match opening(settings_of(registration.spec), backend_name, request, arguments) {
                Ok(step) => Ok((step, runtime)),
                Err(error) => Err(RejectionView { error, label: "invalid_spec"@ }),
            }
        } else {
            beginning(profiles, backend_name, request, arguments)
        },
{
}

/// Registering a binding twice leaves what registering it last left.
pub proof fn law_last_registration_counts<R>(
    profiles: Map<Seq<char>, LdapProfileView<R>>,
    first: RegistrationView,
    first_runtime: R,
    last: RegistrationView,
    last_runtime: R,
)
    requires
        first.backend_name == last.backend_name,
    ensures
        registered(registered(profiles, first, first_runtime), last, last_runtime) == registered(
            profiles,
            last,
            last_runtime,
        ),
{
    assert(registered(registered(profiles, first, first_runtime), last, last_runtime)
        =~= registered(profiles, last, last_runtime));
}

/// Of a call's payload only the arguments in it matter. Two calls that differ in their
/// payloads alone, and whose arguments are the same, are turned down alike, or they have
/// their filter and their password resolved alike, are answered alike whatever the
/// outside gives, and are counted alike.
pub proof fn law_payload_matters_by_its_arguments<R>(
    profiles: Map<Seq<char>, LdapProfileView<R>>,
    backend_name: Seq<char>,
    request: BackendRequestView,
    payload: Seq<u8>,
    arguments: Result<JsonView, Seq<char>>,
    outside: Outside,
    duration_ms: int,
)
    ensures
        match (
            beginning(profiles, backend_name, request, arguments),
            beginning(
                profiles,
                backend_name,
                BackendRequestView { payload, ..request },
                arguments,
            ),
        ) {
            (Ok(a), Ok(b)) => {
                &&& a.1 == b.1
                &&& a.0.context == b.0.context
                &&& credential_request(a.0.call) == credential_request(b.0.call)
                &&& answer(ending(a.0.call, outside), duration_ms) == answer(
                    ending(b.0.call, outside),
                    duration_ms,
                )
                &&& ending(a.0.call, outside).label == ending(b.0.call, outside).label
            },
            (Err(a), Err(b)) => a == b,
            _ => false,
        },
{
}

/// Once a binding is registered, every setting of it is what its configuration says, and
/// it runs on what its filter was compiled to. No other binding is touched.
pub proof fn law_registered_settings<R>(
    profiles: Map<Seq<char>, LdapProfileView<R>>,
    backend_name: Seq<char>,
    spec: LdapBackendSpec,
    runtime: R,
    profile: LdapProfile<R>,
    other: Seq<char>,
)
    requires
        profile@ == registered(
            profiles,
            RegistrationView { backend_name, spec: spec@ },
            runtime,
        )[backend_name],
    ensures
        registered(profiles, RegistrationView { backend_name, spec: spec@ }, runtime).contains_key(
            backend_name,
        ),
        profile.settings.url@ == spec.url@,
        profile.settings.bind_dn@ == spec.bind_dn@,
        profile.settings.bind_password@ == spec.bind_password@,
        profile.settings.base_dn@ == spec.base_dn@,
        profile.settings.scope == spec.scope,
        profile.settings.attributes.deep_view() == spec.attributes.deep_view(),
        profile.settings.size_limit == spec.size_limit,
        profile.settings.timeout_ms == spec.timeout_ms,
        profile.runtime == runtime,
        other != backend_name ==> {
            let now = registered(
                profiles,
                RegistrationView { backend_name, spec: spec@ },
                runtime,
            );
            &&& now.contains_key(other) <==> profiles.contains_key(other)
            &&& now.contains_key(other) ==> now[other] == profiles[other]
        },
{
}

/// A call of a registered binding runs with its settings and on what it runs on, under
/// the name it was called by and for the request that was made.
pub proof fn law_call_runs_on_its_binding<R>(
    profiles: Map<Seq<char>, LdapProfileView<R>>,
    backend_name: Seq<char>,
    request: BackendRequestView,
    arguments: JsonView,
)
    requires
        profiles.contains_key(backend_name),
    ensures
        beginning(profiles, backend_name, request, Ok(arguments)) matches Ok(start)
            && start.0.call.settings == profiles[backend_name].settings
            && start.0.call.backend_name == backend_name && start.0.call.request == request
            && start.1 == profiles[backend_name].runtime,
{
}

/// A call whose arguments are no JSON is turned down, and counted as one that does not
/// make sense.
pub proof fn law_unreadable_arguments<R>(
    profiles: Map<Seq<char>, LdapProfileView<R>>,
    backend_name: Seq<char>,
    request: BackendRequestView,
    e: Seq<char>,
)
    requires
        profiles.contains_key(backend_name),
    ensures
        beginning(profiles, backend_name, request, Err(e)) == Err::<(FilterStepView, R), _>(
            RejectionView {
                error: BackendErrorView::InvalidSpec {
                    message: "LDAP plugin payload is not valid JSON: "@ + e,
                },
                label: "invalid_spec"@,
            },
        ),
{
}

/// A binding that cannot be read is refused with the reason; one that can be is refused
/// exactly where something is wrong with it, and with that.
pub proof fn law_refused_bindings(spec: LdapBackendSpecView, e: Seq<char>)
    ensures
        registration_error(Err(e)) == Some(
            BackendErrorView::InvalidSpec { message: "LDAP binding spec: "@ + e },
        ),
        registration_error(Ok(spec)) is None <==> spec_problem(spec) is None,
        spec_problem(spec) matches Some(problem) ==> registration_error(Ok(spec)) == Some(
            BackendErrorView::InvalidSpec { message: problem },
        ),
{
}

/// What a refusal denotes.
pub proof fn law_rejection_views(rejection: Rejection)
    ensures
        rejection@.error == rejection.error@,
        rejection@.label == rejection.label@,
{
}

/// A binding that was read, or the error of reading it, is taken as it is; and so is how a
/// call began.
pub proof fn law_outcomes_are_taken_as_they_are<R>(
    spec: LdapBackendSpec,
    error: String,
    step: FilterStep,
    runtime: &R,
    rejection: Rejection,
)
    ensures
        spec_result(Ok(spec)) == Ok::<LdapBackendSpecView, Seq<char>>(spec@),
        spec_result(Err(error)) == Err::<LdapBackendSpecView, Seq<char>>(error@),
        began(Ok((step, runtime))) == Ok::<(FilterStepView, R), RejectionView>((step@, *runtime)),
        began(Err::<(FilterStep, &R), Rejection>(rejection)) == Err::<
            (FilterStepView, R),
            RejectionView,
        >(rejection@),
{
}

} // verus!
