//! What a filter template can refer to.

use vstd::prelude::*;
use crate::json::{object_view, Json, JsonView};
use crate::protocol::{
    copy_members, copy_optional, copy_texts, BackendRequest, BackendRequestView, PluginIdentity,
    PluginIdentityView,
};
use crate::text;
use crate::text::lower;

verus! {

/// What a template can refer to of the caller's identity.
#[derive(Debug, PartialEq)]
pub struct IdentityClaims {
    pub principal_id: Option<String>,
    pub trust_level: String,
    pub auth_provider: Option<String>,
    pub transport: String,
    pub roles: Vec<String>,
    pub groups: Vec<String>,
    pub scopes: Vec<String>,
    pub attributes: Vec<(String, Json)>,
}

#[verifier::ext_equal]
pub struct IdentityClaimsView {
    pub principal_id: Option<Seq<char>>,
    pub trust_level: Seq<char>,
    pub auth_provider: Option<Seq<char>>,
    pub transport: Seq<char>,
    pub roles: Seq<Seq<char>>,
    pub groups: Seq<Seq<char>>,
    pub scopes: Seq<Seq<char>>,
    pub attributes: Map<Seq<char>, JsonView>,
}

impl View for IdentityClaims {
    type V = IdentityClaimsView;

    open spec fn view(&self) -> IdentityClaimsView {
        IdentityClaimsView {
            principal_id: self.principal_id.deep_view(),
            trust_level: self.trust_level@,
            auth_provider: self.auth_provider.deep_view(),
            transport: self.transport@,
            roles: self.roles.deep_view(),
            groups: self.groups.deep_view(),
            scopes: self.scopes.deep_view(),
            attributes: object_view(self.attributes@),
        }
    }
}

/// What a template can refer to of the caller: the session, and the identity where the
/// call has one.
#[derive(Debug, PartialEq)]
pub struct ExprRequestContext {
    pub session_id: Option<String>,
    pub claims: Option<IdentityClaims>,
}

#[verifier::ext_equal]
pub struct ExprRequestContextView {
    pub session_id: Option<Seq<char>>,
    pub claims: Option<IdentityClaimsView>,
}

impl View for ExprRequestContext {
    type V = ExprRequestContextView;

    open spec fn view(&self) -> ExprRequestContextView {
        ExprRequestContextView {
            session_id: self.session_id.deep_view(),
            claims: match self.claims {
                Some(c) => Some(c@),
                None => None,
            },
        }
    }
}

/// What a template can refer to. There are no earlier steps and no environment.
#[derive(Debug, PartialEq)]
pub struct ExprContext {
    pub arguments: Json,
    pub tool_name: String,
    pub context: ExprRequestContext,
}

#[verifier::ext_equal]
pub struct ExprContextView {
    pub arguments: JsonView,
    pub tool_name: Seq<char>,
    pub context: ExprRequestContextView,
}

impl View for ExprContext {
    type V = ExprContextView;

    open spec fn view(&self) -> ExprContextView {
        ExprContextView {
            arguments: self.arguments@,
            tool_name: self.tool_name@,
            context: self.context@,
        }
    }
}

/// What a template can refer to of an identity. The kind of identity says what the
/// call came in by.
pub open spec fn claims_of(identity: PluginIdentityView) -> IdentityClaimsView {
    IdentityClaimsView {
        principal_id: identity.subject_id,
        trust_level: identity.trust_level,
        auth_provider: identity.auth_provider,
        transport: identity.kind,
        roles: identity.roles,
        groups: identity.groups,
        scopes: identity.scopes,
        attributes: identity.attributes,
    }
}

/// What a template can refer to in a call.
pub open spec fn expr_context(
    arguments: JsonView,
    tool_name: Seq<char>,
    request: BackendRequestView,
) -> ExprContextView {
    ExprContextView {
        arguments,
        tool_name,
        context: ExprRequestContextView {
            session_id: request.session_id,
            claims: match request.identity {
                Some(identity) => Some(claims_of(identity)),
                None => None,
            },
        },
    }
}

fn claims(identity: &PluginIdentity) -> (r: IdentityClaims)
    ensures
        r@ == claims_of(identity@),
{
    IdentityClaims {
        principal_id: copy_optional(&identity.subject_id),
        trust_level: identity.trust_level.clone(),
        auth_provider: copy_optional(&identity.auth_provider),
        transport: identity.kind.clone(),
        roles: copy_texts(&identity.roles),
        groups: copy_texts(&identity.groups),
        scopes: copy_texts(&identity.scopes),
        attributes: copy_members(&identity.attributes),
    }
}

/// What a template can refer to in a call.
pub fn build_expr_context(arguments: &Json, tool_name: &str, request: &BackendRequest) -> (r:
    ExprContext)
    ensures
        r@ == expr_context(arguments@, tool_name@, request@),
{
    ExprContext {
        arguments: arguments.clone(),
        tool_name: tool_name.to_owned(),
        context: ExprRequestContext {
            session_id: copy_optional(&request.session_id),
            claims: match &request.identity {
                Some(identity) => Some(claims(identity)),
                None => None,
            },
        },
    }
}

/// The header that names the tool, whatever the case of its letters.
pub open spec fn names_tool(header: (Seq<char>, Seq<char>)) -> bool {
    lower(header.0) == lower("mcpg-tool-name"@)
}

/// The tool that a call is of: what the first header that names one says, or else the
/// binding's own name.
pub open spec fn called_tool(headers: Seq<(Seq<char>, Seq<char>)>, backend_name: Seq<char>) -> Seq<
    char,
>
    decreases headers.len(),
{
    if headers.len() == 0 {
        backend_name
    } else if names_tool(headers[0]) {
        headers[0].1
    } else {
        called_tool(headers.drop_first(), backend_name)
    }
}

/// The tool that a call is of.
pub fn tool_name(headers: &Vec<(String, String)>, backend_name: &str) -> (r: String)
    ensures
        r@ == called_tool(headers.deep_view(), backend_name@),
{
    let ghost all = headers.deep_view();
    let mut i: usize = 0;
    assert(all.skip(0) =~= all);
    while i < headers.len()
        invariant
            i <= headers.len(),
            all == headers.deep_view(),
            called_tool(all.skip(i as int), backend_name@) == called_tool(all, backend_name@),
        decreases headers.len() - i,
    {
        assert(all.skip(i as int)[0] == (headers@[i as int].0@, headers@[i as int].1@));
        if text::same_ignoring_case(headers[i].0.as_str(), "mcpg-tool-name") {
            return headers[i].1.clone();
        }
        assert(all.skip(i as int).drop_first() =~= all.skip(i + 1));
        i += 1;
    }
    backend_name.to_owned()
}

/// The tool that a call is of is what the first header says whose name is
/// `mcpg-tool-name`, in capitals or not; where there is none, it is the binding's own name.
pub proof fn law_called_tool(headers: Vec<(String, String)>, backend_name: Seq<char>)
    ensures
        forall|i: int|
            0 <= i < headers@.len() && lower((#[trigger] headers@[i]).0@) == "mcpg-tool-name"@ && (
            forall|k: int|
                0 <= k < i ==> lower((#[trigger] headers@[k]).0@) != "mcpg-tool-name"@)
                ==> called_tool(headers.deep_view(), backend_name) == headers@[i].1@,
        (forall|k: int|
            0 <= k < headers@.len() ==> lower((#[trigger] headers@[k]).0@) != "mcpg-tool-name"@)
            ==> called_tool(headers.deep_view(), backend_name) == backend_name,
{
    let all = headers.deep_view();
    assert(all.len() == headers@.len());
    assert forall|k: int| 0 <= k < headers@.len() implies #[trigger] all[k] == (
        headers@[k].0@,
        headers@[k].1@,
    ) by {}
    reveal_strlit("mcpg-tool-name");
    assert(lower("mcpg-tool-name"@) =~= "mcpg-tool-name"@);
    assert forall|i: int|
        0 <= i < headers@.len() && lower((#[trigger] headers@[i]).0@) == "mcpg-tool-name"@ && (
        forall|k: int| 0 <= k < i ==> lower((#[trigger] headers@[k]).0@) != "mcpg-tool-name"@)
    implies called_tool(all, backend_name) == headers@[i].1@ by {
        assert(names_tool(all[i]));
        assert forall|k: int| 0 <= k < i implies !names_tool(#[trigger] all[k]) by {
            assert(lower(headers@[k].0@) != "mcpg-tool-name"@);
        }
        lemma_first_naming(all, backend_name, i);
    }
    if forall|k: int|
        0 <= k < headers@.len() ==> lower((#[trigger] headers@[k]).0@) != "mcpg-tool-name"@ {
        assert forall|k: int| 0 <= k < all.len() implies !names_tool(#[trigger] all[k]) by {
            assert(lower(headers@[k].0@) != "mcpg-tool-name"@);
        }
        lemma_none_naming(all, backend_name);
    }
}

proof fn lemma_first_naming(headers: Seq<(Seq<char>, Seq<char>)>, backend_name: Seq<char>, i: int)
    requires
        0 <= i < headers.len(),
        names_tool(headers[i]),
        forall|k: int| 0 <= k < i ==> !names_tool(#[trigger] headers[k]),
    ensures
        called_tool(headers, backend_name) == headers[i].1,
    decreases headers.len(),
{
    if i > 0 {
        let rest = headers.drop_first();
        assert(!names_tool(headers[0]));
        assert forall|k: int| 0 <= k < i - 1 implies !names_tool(#[trigger] rest[k]) by {
            assert(rest[k] == headers[k + 1]);
        }
        lemma_first_naming(rest, backend_name, i - 1);
    }
}

proof fn lemma_none_naming(headers: Seq<(Seq<char>, Seq<char>)>, backend_name: Seq<char>)
    requires
        forall|k: int| 0 <= k < headers.len() ==> !names_tool(#[trigger] headers[k]),
    ensures
        called_tool(headers, backend_name) == backend_name,
    decreases headers.len(),
{
    if headers.len() > 0 {
        let rest = headers.drop_first();
        assert(!names_tool(headers[0]));
        assert forall|k: int| 0 <= k < rest.len() implies !names_tool(#[trigger] rest[k]) by {
            assert(rest[k] == headers[k + 1]);
        }
        lemma_none_naming(rest, backend_name);
    }
}

/// What a template sees is the call's own: its arguments, its tool, its session, and of
/// its identity each claim under its name. It sees no identity where the call has none.
pub proof fn law_template_sees_the_call(
    arguments: JsonView,
    tool_name: Seq<char>,
    request: BackendRequest,
    context: ExprContext,
)
    requires
        context@ == expr_context(arguments, tool_name, request@),
    ensures
        context.arguments@ == arguments,
        context.tool_name@ == tool_name,
        context.context.session_id.deep_view() == request.session_id.deep_view(),
        context.context.claims is Some <==> request.identity is Some,
        request.identity matches Some(identity) ==> {
            let claims = context.context.claims->0;
            &&& claims.principal_id.deep_view() == identity.subject_id.deep_view()
            &&& claims.trust_level@ == identity.trust_level@
            &&& claims.auth_provider.deep_view() == identity.auth_provider.deep_view()
            &&& claims.transport@ == identity.kind@
            &&& claims.roles.deep_view() == identity.roles.deep_view()
            &&& claims.groups.deep_view() == identity.groups.deep_view()
            &&& claims.scopes.deep_view() == identity.scopes.deep_view()
            &&& object_view(claims.attributes@) == object_view(identity.attributes@)
        },
{
}

} // verus!
