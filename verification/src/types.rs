//! What an operator configures: one binding is one search of one directory.

use vstd::prelude::*;
use crate::protocol::{copy_texts, invalid, BackendError, BackendErrorView};
use crate::text;
use crate::text::{begins_with, blank, occurs};

verus! {

/// `ldap3::Scope`, with its three variants.
#[verifier::external_type_specification]
pub struct ExScope(ldap3::Scope);

/// How far below its base a search goes.
#[derive(Debug, Clone, Copy, PartialEq, Eq, Structural)]
pub enum LdapScope {
    /// The base object only.
    Base,
    /// The immediate children of the base.
    One,
    /// The base and everything below it.
    Subtree,
}

/// The name of a scope.
pub open spec fn scope_name(scope: LdapScope) -> Seq<char> {
    match scope {
        LdapScope::Base => "base"@,
        LdapScope::One => "one"@,
        LdapScope::Subtree => "subtree"@,
    }
}

impl Default for LdapScope {
    /// The base and everything below it.
    fn default() -> (r: Self)
        ensures
            r == LdapScope::Subtree,
    {
        LdapScope::Subtree
    }
}

impl LdapScope {
    /// The scope as the directory client has it.
    pub fn to_ldap3(self) -> (r: ldap3::Scope)
        ensures
            r == (match self {
                LdapScope::Base => ldap3::Scope::Base,
                LdapScope::One => ldap3::Scope::OneLevel,
                LdapScope::Subtree => ldap3::Scope::Subtree,
            }),
    {
        match self {
            LdapScope::Base => ldap3::Scope::Base,
            LdapScope::One => ldap3::Scope::OneLevel,
            LdapScope::Subtree => ldap3::Scope::Subtree,
        }
    }

    /// The name of the scope.
    pub fn as_str(self) -> (r: &'static str)
        ensures
            r@ == scope_name(self),
    {
        match self {
            LdapScope::Base => "base",
            LdapScope::One => "one",
            LdapScope::Subtree => "subtree",
        }
    }
}

/// A binding, as it is configured.
#[derive(Debug, PartialEq)]
pub struct LdapBackendSpec {
    /// `ldap://host:389` or `ldaps://host:636`.
    pub url: String,
    /// The name that the service account binds with.
    pub bind_dn: String,
    /// The service account's password: a literal, or a `cred://` URI that is resolved
    /// for each call.
    pub bind_password: String,
    /// Where the search starts.
    pub base_dn: String,
    pub scope: LdapScope,
    /// The search filter, a template over the tool arguments. Texts put into it are
    /// escaped.
    pub filter: String,
    /// The attributes to return. None means all.
    pub attributes: Vec<String>,
    /// How many entries are returned at most.
    pub size_limit: usize,
    /// How long a call may take to connect, bind and search, all together, in
    /// milliseconds.
    pub timeout_ms: u64,
}

#[verifier::ext_equal]
pub struct LdapBackendSpecView {
    pub url: Seq<char>,
    pub bind_dn: Seq<char>,
    pub bind_password: Seq<char>,
    pub base_dn: Seq<char>,
    pub scope: LdapScope,
    pub filter: Seq<char>,
    pub attributes: Seq<Seq<char>>,
    pub size_limit: nat,
    pub timeout_ms: nat,
}

impl View for LdapBackendSpec {
    type V = LdapBackendSpecView;

    open spec fn view(&self) -> LdapBackendSpecView {
        LdapBackendSpecView {
            url: self.url@,
            bind_dn: self.bind_dn@,
            bind_password: self.bind_password@,
            base_dn: self.base_dn@,
            scope: self.scope,
            filter: self.filter@,
            attributes: self.attributes.deep_view(),
            size_limit: self.size_limit as nat,
            timeout_ms: self.timeout_ms as nat,
        }
    }
}

impl Clone for LdapBackendSpec {
    fn clone(&self) -> (r: Self)
        ensures
            r@ == self@,
    {
        LdapBackendSpec {
            url: self.url.clone(),
            bind_dn: self.bind_dn.clone(),
            bind_password: self.bind_password.clone(),
            base_dn: self.base_dn.clone(),
            scope: self.scope,
            filter: self.filter.clone(),
            attributes: copy_texts(&self.attributes),
            size_limit: self.size_limit,
            timeout_ms: self.timeout_ms,
        }
    }
}

/// How many entries a binding returns at most where it does not say.
pub fn default_size_limit() -> (r: usize)
    ensures
        r == 100,
{
    100
}

/// How long a binding lets a call take where it does not say, in milliseconds.
pub fn default_timeout_ms() -> (r: u64)
    ensures
        r == 10_000,
{
    10_000
}

/// The URL names the protocol, with or without encryption.
pub open spec fn is_directory_url(url: Seq<char>) -> bool {
    begins_with(url, "ldap://"@) || begins_with(url, "ldaps://"@)
}

/// What is wrong with a binding: the first complaint, or nothing.
pub open spec fn spec_problem(spec: LdapBackendSpecView) -> Option<Seq<char>> {
    if !is_directory_url(spec.url) {
        Some("url must start with ldap:// or ldaps://, got '"@ + spec.url + "'"@)
    } else if blank(spec.bind_dn) {
        Some("bind_dn must not be empty"@)
    } else if blank(spec.base_dn) {
        Some("base_dn must not be empty"@)
    } else if blank(spec.filter) {
        Some("filter must not be empty"@)
    } else if spec.timeout_ms == 0 {
        Some("timeout_ms must be greater than 0"@)
    } else if spec.size_limit == 0 {
        Some("size_limit must be greater than 0"@)
    } else if occurs("cred://"@, spec.filter) {
        Some("filter must not contain cred:// — put bind credentials in bind_password"@)
    } else {
        None
    }
}

impl LdapBackendSpec {
    /// A binding from what its configuration says; what it leaves out takes its default.
    pub fn from_fields(
        url: String,
        bind_dn: String,
        bind_password: String,
        base_dn: String,
        scope: Option<LdapScope>,
        filter: String,
        attributes: Option<Vec<String>>,
        size_limit: Option<usize>,
        timeout_ms: Option<u64>,
    ) -> (r: LdapBackendSpec)
        ensures
            r@ == (LdapBackendSpecView {
                url: url@,
                bind_dn: bind_dn@,
                bind_password: bind_password@,
                base_dn: base_dn@,
                scope: match scope {
                    Some(s) => s,
                    None => LdapScope::Subtree,
                },
                filter: filter@,
                attributes: match attributes {
                    Some(a) => a.deep_view(),
                    None => Seq::empty(),
                },
                size_limit: match size_limit {
                    Some(n) => n as nat,
                    None => 100,
                },
                timeout_ms: match timeout_ms {
                    Some(n) => n as nat,
                    None => 10_000,
                },
            }),
    {
        LdapBackendSpec {
            url,
            bind_dn,
            bind_password,
            base_dn,
            scope: match scope {
                Some(s) => s,
                None => LdapScope::default(),
            },
            filter,
            attributes: match attributes {
                Some(a) => a,
                None => Vec::new(),
            },
            size_limit: match size_limit {
                Some(n) => n,
                None => default_size_limit(),
            },
            timeout_ms: match timeout_ms {
                Some(n) => n,
                None => default_timeout_ms(),
            },
        }
    }

    /// Accepts a binding, or says what is wrong with it.
    pub fn validate(&self) -> (r: Result<(), BackendError>)
        ensures
            match spec_problem(self@) {
                Some(problem) => r is Err && r->Err_0@ == (BackendErrorView::InvalidSpec {
                    message: problem,
                }),
                None => r is Ok,
            },
    {
        if !text::starts_with(self.url.as_str(), "ldap://") && !text::starts_with(
            self.url.as_str(),
            "ldaps://",
        ) {
            return Err(
                invalid(
                    text::join(
                        "url must start with ldap:// or ldaps://, got '",
                        self.url.as_str(),
                    ).concat("'"),
                ),
            );
        }
        if text::is_blank(self.bind_dn.as_str()) {
            return Err(invalid("bind_dn must not be empty".to_owned()));
        }
        if text::is_blank(self.base_dn.as_str()) {
            return Err(invalid("base_dn must not be empty".to_owned()));
        }
        if text::is_blank(self.filter.as_str()) {
            return Err(invalid("filter must not be empty".to_owned()));
        }
        if self.timeout_ms == 0 {
            return Err(invalid("timeout_ms must be greater than 0".to_owned()));
        }
        if self.size_limit == 0 {
            return Err(invalid("size_limit must be greater than 0".to_owned()));
        }
        // Credentials belong in the password, which is resolved for each caller, not in
        // the filter, which is filled in from arguments.
        if text::contains(&text::chars_of(self.filter.as_str()), "cred://") {
            return Err(
                invalid(
                    "filter must not contain cred:// — put bind credentials in bind_password".to_owned(),
                ),
            );
        }
        Ok(())
    }

    /// Whether binding sends a password over a connection that is not encrypted.
    pub fn sends_password_in_clear(&self) -> (r: bool)
        ensures
            r == (begins_with(self@.url, "ldap://"@) && self@.bind_password.len() > 0),
    {
        text::starts_with(self.url.as_str(), "ldap://") && !self.bind_password.as_str().is_empty()
    }
}

/// What a registered binding searches, and how.
#[derive(Debug, PartialEq)]
pub struct LdapSettings {
    pub url: String,
    pub bind_dn: String,
    pub bind_password: String,
    pub base_dn: String,
    pub scope: LdapScope,
    pub attributes: Vec<String>,
    pub size_limit: usize,
    pub timeout_ms: u64,
}

#[verifier::ext_equal]
pub struct LdapSettingsView {
    pub url: Seq<char>,
    pub bind_dn: Seq<char>,
    pub bind_password: Seq<char>,
    pub base_dn: Seq<char>,
    pub scope: LdapScope,
    pub attributes: Seq<Seq<char>>,
    pub size_limit: nat,
    pub timeout_ms: nat,
}

impl View for LdapSettings {
    type V = LdapSettingsView;

    open spec fn view(&self) -> LdapSettingsView {
        LdapSettingsView {
            url: self.url@,
            bind_dn: self.bind_dn@,
            bind_password: self.bind_password@,
            base_dn: self.base_dn@,
            scope: self.scope,
            attributes: self.attributes.deep_view(),
            size_limit: self.size_limit as nat,
            timeout_ms: self.timeout_ms as nat,
        }
    }
}

/// What is left of a time limit after a time.
pub open spec fn remaining(timeout_ms: nat, elapsed_ms: nat) -> nat {
    if elapsed_ms < timeout_ms {
        (timeout_ms - elapsed_ms) as nat
    } else {
        0
    }
}

impl LdapSettings {
    /// What is left of the time limit, so long after connecting began.
    pub fn time_left(&self, elapsed_ms: u64) -> (r: u64)
        ensures
            r == remaining(self@.timeout_ms, elapsed_ms as nat),
    {
        if elapsed_ms < self.timeout_ms {
            self.timeout_ms - elapsed_ms
        } else {
            0
        }
    }
}

impl Clone for LdapSettings {
    fn clone(&self) -> (r: Self)
        ensures
            r@ == self@,
    {
        LdapSettings {
            url: self.url.clone(),
            bind_dn: self.bind_dn.clone(),
            bind_password: self.bind_password.clone(),
            base_dn: self.base_dn.clone(),
            scope: self.scope,
            attributes: copy_texts(&self.attributes),
            size_limit: self.size_limit,
            timeout_ms: self.timeout_ms,
        }
    }
}

/// What a binding searches, and how.
pub open spec fn settings_of(spec: LdapBackendSpecView) -> LdapSettingsView {
    LdapSettingsView {
        url: spec.url,
        bind_dn: spec.bind_dn,
        bind_password: spec.bind_password,
        base_dn: spec.base_dn,
        scope: spec.scope,
        attributes: spec.attributes,
        size_limit: spec.size_limit,
        timeout_ms: spec.timeout_ms,
    }
}

/// What holds of every registered binding.
pub open spec fn sound_settings(settings: LdapSettingsView) -> bool {
    &&& is_directory_url(settings.url)
    &&& !blank(settings.bind_dn)
    &&& !blank(settings.base_dn)
    &&& settings.size_limit > 0
    &&& settings.timeout_ms > 0
}

impl LdapBackendSpec {
    /// What the binding searches, and how.
    pub fn into_settings(self) -> (r: LdapSettings)
        ensures
            r@ == settings_of(self@),
            r.url == self.url,
            r.bind_dn == self.bind_dn,
            r.bind_password == self.bind_password,
            r.base_dn == self.base_dn,
            r.scope == self.scope,
            r.attributes == self.attributes,
            r.size_limit == self.size_limit,
            r.timeout_ms == self.timeout_ms,
    {
        LdapSettings {
            url: self.url,
            bind_dn: self.bind_dn,
            bind_password: self.bind_password,
            base_dn: self.base_dn,
            scope: self.scope,
            attributes: self.attributes,
            size_limit: self.size_limit,
            timeout_ms: self.timeout_ms,
        }
    }
}

/// A binding without a complaint has sound settings, and no credential in its filter.
pub proof fn law_accepted_bindings_are_sound(spec: LdapBackendSpecView)
    requires
        spec_problem(spec) is None,
    ensures
        sound_settings(settings_of(spec)),
        !blank(spec.filter),
        !occurs("cred://"@, spec.filter),
{
}

/// The time limit holds for a call as a whole: whatever a stage leaves of it is what the
/// next stage gets, and what the stages take never adds up to more than the limit.
pub proof fn law_time_limit_is_shared(timeout_ms: nat, first_ms: nat, second_ms: nat)
    ensures
        remaining(timeout_ms, first_ms + second_ms) == remaining(
            remaining(timeout_ms, first_ms),
            second_ms,
        ),
        first_ms <= timeout_ms && second_ms <= remaining(timeout_ms, first_ms) ==> first_ms
            + second_ms + remaining(timeout_ms, first_ms + second_ms) == timeout_ms,
{
}

/// Each scope has a name of its own.
pub proof fn law_scope_names(scope: LdapScope)
    ensures
        scope_name(scope) == "base"@ <==> scope == LdapScope::Base,
        scope_name(scope) == "one"@ <==> scope == LdapScope::One,
        scope_name(scope) == "subtree"@ <==> scope == LdapScope::Subtree,
{
    reveal_strlit("base");
    reveal_strlit("one");
    reveal_strlit("subtree");
    assert("base"@.len() == 4 && "one"@.len() == 3 && "subtree"@.len() == 7);
}

/// A binding is accepted exactly where its URL names the protocol, its names and its
/// filter are not blank, its limits are not zero, and its filter holds no credential.
pub proof fn law_when_a_binding_is_accepted(spec: LdapBackendSpec)
    ensures
        spec_problem(spec@) is None <==> {
            &&& begins_with(spec.url@, "ldap://"@) || begins_with(spec.url@, "ldaps://"@)
            &&& !blank(spec.bind_dn@)
            &&& !blank(spec.base_dn@)
            &&& !blank(spec.filter@)
            &&& spec.timeout_ms > 0
            &&& spec.size_limit > 0
            &&& !occurs("cred://"@, spec.filter@)
        },
{
}

/// Which complaint is made of a binding: of the one thing that is wrong, and of the URL
/// before the names, of these before the limits, and of the credential last.
pub proof fn law_complaints(spec: LdapBackendSpec)
    ensures
        ({
            let url = begins_with(spec.url@, "ldap://"@) || begins_with(spec.url@, "ldaps://"@);
            let names = url && !blank(spec.bind_dn@);
            let base = names && !blank(spec.base_dn@);
            let filter = base && !blank(spec.filter@);
            let time = filter && spec.timeout_ms > 0;
            let size = time && spec.size_limit > 0;
            &&& !url ==> spec_problem(spec@) == Some(
                "url must start with ldap:// or ldaps://, got '"@ + spec.url@ + "'"@,
            )
            &&& url && !names ==> spec_problem(spec@) == Some("bind_dn must not be empty"@)
            &&& names && !base ==> spec_problem(spec@) == Some("base_dn must not be empty"@)
            &&& base && !filter ==> spec_problem(spec@) == Some("filter must not be empty"@)
            &&& filter && !time ==> spec_problem(spec@) == Some(
                "timeout_ms must be greater than 0"@,
            )
            &&& time && !size ==> spec_problem(spec@) == Some(
                "size_limit must be greater than 0"@,
            )
            &&& size && occurs("cred://"@, spec.filter@) ==> spec_problem(spec@) == Some(
                "filter must not contain cred:// — put bind credentials in bind_password"@,
            )
        }),
{
}

/// Every setting of a binding is the field of that name in its configuration.
pub proof fn law_settings_are_the_configuration(spec: LdapBackendSpec, settings: LdapSettings)
    requires
        settings@ == settings_of(spec@),
    ensures
        settings.url@ == spec.url@,
        settings.bind_dn@ == spec.bind_dn@,
        settings.bind_password@ == spec.bind_password@,
        settings.base_dn@ == spec.base_dn@,
        settings.scope == spec.scope,
        settings.attributes@.len() == spec.attributes@.len(),
        forall|i: int|
            0 <= i < spec.attributes@.len() ==> (#[trigger] settings.attributes@[i])@
                == spec.attributes@[i]@,
        settings.size_limit == spec.size_limit,
        settings.timeout_ms == spec.timeout_ms,
{
    assert(settings.attributes.deep_view().len() == settings.attributes@.len());
    assert(spec.attributes.deep_view().len() == spec.attributes@.len());
    assert forall|i: int| 0 <= i < spec.attributes@.len() implies (
    #[trigger] settings.attributes@[i])@ == spec.attributes@[i]@ by {
        assert(settings.attributes.deep_view()[i] == settings.attributes@[i]@);
        assert(spec.attributes.deep_view()[i] == spec.attributes@[i]@);
    }
}

/// Bindings that denote the same have the same fields, and so have settings: what a
/// binding or its settings denote leaves nothing out.
pub proof fn law_bindings_are_told_apart(
    a: LdapBackendSpec,
    b: LdapBackendSpec,
    c: LdapSettings,
    d: LdapSettings,
)
    ensures
        a@ == b@ ==> {
            &&& a.url@ == b.url@ && a.bind_dn@ == b.bind_dn@ && a.bind_password@ == b.bind_password@
            &&& a.base_dn@ == b.base_dn@ && a.scope == b.scope && a.filter@ == b.filter@
            &&& a.attributes.deep_view() == b.attributes.deep_view()
            &&& a.size_limit == b.size_limit && a.timeout_ms == b.timeout_ms
        },
        c@ == d@ ==> {
            &&& c.url@ == d.url@ && c.bind_dn@ == d.bind_dn@ && c.bind_password@ == d.bind_password@
            &&& c.base_dn@ == d.base_dn@ && c.scope == d.scope
            &&& c.attributes.deep_view() == d.attributes.deep_view()
            &&& c.size_limit == d.size_limit && c.timeout_ms == d.timeout_ms
        },
{
}

/// What is left of a time limit and what has passed make up the limit, until it has
/// passed; then nothing is left.
pub proof fn law_time_left(timeout_ms: nat, elapsed_ms: nat)
    ensures
        elapsed_ms <= timeout_ms ==> elapsed_ms + remaining(timeout_ms, elapsed_ms) == timeout_ms,
        elapsed_ms >= timeout_ms ==> remaining(timeout_ms, elapsed_ms) == 0,
{
}

/// Sound settings name the protocol, have names that are not blank, and limits that are
/// not zero.
pub proof fn law_sound_settings(settings: LdapSettings)
    ensures
        sound_settings(settings@) <==> {
            &&& begins_with(settings.url@, "ldap://"@) || begins_with(settings.url@, "ldaps://"@)
            &&& !blank(settings.bind_dn@)
            &&& !blank(settings.base_dn@)
            &&& settings.size_limit > 0
            &&& settings.timeout_ms > 0
        },
{
}

} // verus!
