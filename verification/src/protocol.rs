//! What the gateway and a backend hand each other.

use vstd::prelude::*;
use crate::json::{object_view, Json, JsonView};

verus! {

/// Who a call is made for.
#[derive(Debug, PartialEq)]
pub struct PluginIdentity {
    pub kind: String,
    pub trust_level: String,
    pub subject_id: Option<String>,
    pub auth_provider: Option<String>,
    pub issuer: Option<String>,
    pub roles: Vec<String>,
    pub groups: Vec<String>,
    pub scopes: Vec<String>,
    pub attributes: Vec<(String, Json)>,
}

#[verifier::ext_equal]
pub struct PluginIdentityView {
    pub kind: Seq<char>,
    pub trust_level: Seq<char>,
    pub subject_id: Option<Seq<char>>,
    pub auth_provider: Option<Seq<char>>,
    pub issuer: Option<Seq<char>>,
    pub roles: Seq<Seq<char>>,
    pub groups: Seq<Seq<char>>,
    pub scopes: Seq<Seq<char>>,
    pub attributes: Map<Seq<char>, JsonView>,
}

impl View for PluginIdentity {
    type V = PluginIdentityView;

    open spec fn view(&self) -> PluginIdentityView {
        PluginIdentityView {
            kind: self.kind@,
            trust_level: self.trust_level@,
            subject_id: self.subject_id.deep_view(),
            auth_provider: self.auth_provider.deep_view(),
            issuer: self.issuer.deep_view(),
            roles: self.roles.deep_view(),
            groups: self.groups.deep_view(),
            scopes: self.scopes.deep_view(),
            attributes: object_view(self.attributes@),
        }
    }
}

/// A copy of some texts.
pub fn copy_texts(texts: &Vec<String>) -> (r: Vec<String>)
    ensures
        r.deep_view() == texts.deep_view(),
{
    let r = texts.clone();
    assert(r.deep_view() =~= texts.deep_view());
    r
}

/// A copy of a text that may be missing.
pub fn copy_optional(text: &Option<String>) -> (r: Option<String>)
    ensures
        r.deep_view() == text.deep_view(),
{
    text.clone()
}

/// A copy of an object's members.
pub fn copy_members(members: &Vec<(String, Json)>) -> (r: Vec<(String, Json)>)
    ensures
        object_view(r@) == object_view(members@),
{
    let mut r: Vec<(String, Json)> = Vec::new();
    let mut i: usize = 0;
    while i < members.len()
        invariant
            i <= members.len(),
            object_view(r@) == object_view(members@.take(i as int)),
        decreases members.len() - i,
    {
        let ghost before = r@;
        r.push((members[i].0.clone(), members[i].1.clone()));
        i += 1;
        assert(r@.drop_last() =~= before);
        assert(members@.take(i as int).drop_last() =~= members@.take(i - 1));
    }
    assert(members@.take(i as int) =~= members@);
    r
}

impl Clone for PluginIdentity {
    fn clone(&self) -> (r: Self)
        ensures
            r@ == self@,
    {
        PluginIdentity {
            kind: self.kind.clone(),
            trust_level: self.trust_level.clone(),
            subject_id: copy_optional(&self.subject_id),
            auth_provider: copy_optional(&self.auth_provider),
            issuer: copy_optional(&self.issuer),
            roles: copy_texts(&self.roles),
            groups: copy_texts(&self.groups),
            scopes: copy_texts(&self.scopes),
            attributes: copy_members(&self.attributes),
        }
    }
}

/// The identity view of an identity that may be missing.
pub open spec fn identity_view(identity: Option<PluginIdentity>) -> Option<PluginIdentityView> {
    match identity {
        Some(i) => Some(i@),
        None => None,
    }
}

/// A copy of an identity that may be missing.
pub fn copy_identity(identity: &Option<PluginIdentity>) -> (r: Option<PluginIdentity>)
    ensures
        identity_view(r) == identity_view(*identity),
{
    match identity {
        Some(i) => Some(i.clone()),
        None => None,
    }
}

/// One call of a backend.
#[derive(Debug, PartialEq)]
pub struct BackendRequest {
    pub payload: Vec<u8>,
    pub headers: Vec<(String, String)>,
    pub request_id: String,
    pub session_id: Option<String>,
    pub identity: Option<PluginIdentity>,
}

#[verifier::ext_equal]
pub struct BackendRequestView {
    pub payload: Seq<u8>,
    pub headers: Seq<(Seq<char>, Seq<char>)>,
    pub request_id: Seq<char>,
    pub session_id: Option<Seq<char>>,
    pub identity: Option<PluginIdentityView>,
}

impl View for BackendRequest {
    type V = BackendRequestView;

    open spec fn view(&self) -> BackendRequestView {
        BackendRequestView {
            payload: self.payload@,
            headers: self.headers.deep_view(),
            request_id: self.request_id@,
            session_id: self.session_id.deep_view(),
            identity: identity_view(self.identity),
        }
    }
}

/// The answer to a call.
#[derive(Debug, PartialEq)]
pub struct BackendResponse {
    pub payload: Vec<u8>,
    pub truncated: bool,
}

pub struct BackendResponseView {
    pub payload: Seq<u8>,
    pub truncated: bool,
}

impl View for BackendResponse {
    type V = BackendResponseView;

    open spec fn view(&self) -> BackendResponseView {
        BackendResponseView { payload: self.payload@, truncated: self.truncated }
    }
}

/// Why a backend gives no answer.
#[derive(Debug, PartialEq)]
pub enum BackendError {
    /// A binding or a call that does not make sense.
    InvalidSpec { message: String },
    /// A call of a binding that is not registered.
    ProfileNotFound { backend_name: String },
    /// An answer that could not be handed over.
    Transport { message: String },
}

pub enum BackendErrorView {
    InvalidSpec { message: Seq<char> },
    ProfileNotFound { backend_name: Seq<char> },
    Transport { message: Seq<char> },
}

impl View for BackendError {
    type V = BackendErrorView;

    open spec fn view(&self) -> BackendErrorView {
        match self {
            BackendError::InvalidSpec { message } => BackendErrorView::InvalidSpec { message: message@ },
            BackendError::ProfileNotFound { backend_name } => BackendErrorView::ProfileNotFound {
                backend_name: backend_name@,
            },
            BackendError::Transport { message } => BackendErrorView::Transport { message: message@ },
        }
    }
}

/// The error of something that does not make sense.
pub fn invalid(message: String) -> (r: BackendError)
    ensures
        r@ == (BackendErrorView::InvalidSpec { message: message@ }),
{
    BackendError::InvalidSpec { message }
}

/// Identities that denote the same have the same fields: what an identity denotes leaves
/// nothing of it out.
pub proof fn law_identities_are_told_apart(a: PluginIdentity, b: PluginIdentity)
    requires
        a@ == b@,
    ensures
        a.kind@ == b.kind@,
        a.trust_level@ == b.trust_level@,
        a.subject_id.deep_view() == b.subject_id.deep_view(),
        a.auth_provider.deep_view() == b.auth_provider.deep_view(),
        a.issuer.deep_view() == b.issuer.deep_view(),
        a.roles.deep_view() == b.roles.deep_view(),
        a.groups.deep_view() == b.groups.deep_view(),
        a.scopes.deep_view() == b.scopes.deep_view(),
        object_view(a.attributes@) == object_view(b.attributes@),
{
}

/// Requests that denote the same have the same payload, headers, request, session and
/// identity.
pub proof fn law_requests_are_told_apart(a: BackendRequest, b: BackendRequest)
    requires
        a@ == b@,
    ensures
        a.payload@ == b.payload@,
        a.headers.deep_view() == b.headers.deep_view(),
        a.request_id@ == b.request_id@,
        a.session_id.deep_view() == b.session_id.deep_view(),
        a.identity is Some <==> b.identity is Some,
        a.identity is Some ==> a.identity->0@ == b.identity->0@,
{
}

/// What answers and errors denote.
pub proof fn law_replies_are_told_apart(response: BackendResponse, error: BackendError)
    ensures
        response@.payload == response.payload@,
        response@.truncated == response.truncated,
        error matches BackendError::InvalidSpec { message } ==> error@ == (
        BackendErrorView::InvalidSpec { message: message@ }),
        error matches BackendError::ProfileNotFound { backend_name } ==> error@ == (
        BackendErrorView::ProfileNotFound { backend_name: backend_name@ }),
        error matches BackendError::Transport { message } ==> error@ == (
        BackendErrorView::Transport { message: message@ }),
{
}

} // verus!
