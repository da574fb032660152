use vstd::prelude::*;

use crate::context::RequestContext;
use crate::error::AuthError;
use crate::facts::{build_facts, SubscriptionFacts};
use crate::decision::{consult_engine, decide, identity_of};
use crate::operation::{document_of, has_selectable, introspect, opt_str_view};
use crate::engine::token_verifies;
use crate::token::{bearer_payload, extract_token, is_bearer, RootKey};

verus! {

/// The whole authorization of one request: introspect the query, derive its facts,
/// extract and verify the credential, evaluate the policy. On success the
/// returned carrier holds the credential text exactly as presented and the
/// identity the policy derived. `service` names the service evaluating the
/// request, when it is a downstream one.
pub fn validate_request(
    query: &str,
    operation_name: Option<&str>,
    header: Option<&str>,
    root: &RootKey,
    policy: &str,
    subscriptions: SubscriptionFacts,
    service: Option<&str>,
) -> (r: Result<RequestContext, AuthError>)
    ensures
        !has_selectable(document_of(query@).1, opt_str_view(operation_name)) ==> r
            == Err::<RequestContext, AuthError>(AuthError::OperationNotFound),
        has_selectable(document_of(query@).1, opt_str_view(operation_name)) && header is Some
            && !is_bearer(header->Some_0@) ==> r == Err::<RequestContext, AuthError>(
            AuthError::MalformedHeader,
        ),
        r is Err && r->Err_0 is OperationNotFound ==> !has_selectable(
            document_of(query@).1,
            opt_str_view(operation_name),
        ),
        r is Err && r->Err_0 is MalformedHeader ==> header is Some && !is_bearer(header->Some_0@),
        has_selectable(document_of(query@).1, opt_str_view(operation_name)) && header is Some
            && is_bearer(header->Some_0@) && !token_verifies(
            bearer_payload(header->Some_0@),
            root.bytes@,
        ) ==> r is Err && r->Err_0 is TokenInvalid,
        r is Ok && header is Some ==> token_verifies(bearer_payload(header->Some_0@), root.bytes@),
        r is Ok ==> has_selectable(document_of(query@).1, opt_str_view(operation_name)),
        r is Ok && header is None ==> r->Ok_0.token_view() is None,
        r is Ok && header is Some ==> is_bearer(header->Some_0@) && r->Ok_0.token_view() == Some(
            bearer_payload(header->Some_0@),
        ),
        r is Err ==> r->Err_0 is OperationNotFound || r->Err_0 is MalformedHeader
            || r->Err_0 is TokenInvalid || r->Err_0 is AuthorizationDenied,
{
    let desc = introspect(query, operation_name)?;
    let facts = build_facts(&desc, subscriptions, service);
    let token = extract_token(header, root)?;
    let answers = match &token {
        None => consult_engine(policy, &facts, None)?,
        Some(t) => consult_engine(policy, &facts, Some(&t.token))?,
    };
    let raw = match token {
        None => None,
        Some(t) => Some(t.raw),
    };
    conclude_request(raw, answers)
}

/// The view of an optional credential text.
pub open spec fn raw_view(raw: Option<String>) -> Option<Seq<char>> {
    match raw {
        Some(t) => Some(t@),
        None => None,
    }
}

/// Ends the authorization of one request from the engine's answers: a
/// refusal is `AuthorizationDenied` with the engine's reason verbatim;
/// otherwise the carrier holds the accepted credential text and, as the
/// caller's identity, the single id the policy derived, or none when it
/// derived none or several.
pub fn conclude_request(raw: Option<String>, answer: Result<Vec<i64>, String>) -> (r: Result<
    RequestContext,
    AuthError,
>)
    ensures
        answer is Err ==> r == Err::<RequestContext, AuthError>(
            AuthError::AuthorizationDenied(answer->Err_0),
        ),
        answer is Ok ==> r is Ok && r->Ok_0.token_view() == raw_view(raw)
            && r->Ok_0.identity_view() == identity_of(answer->Ok_0@),
{
    let identity = decide(answer)?;
    let mut ctx = RequestContext::new();
    match raw {
        Some(t) => ctx.set_raw_token(t),
        None => {},
    }
    ctx.set_identity(identity);
    Ok(ctx)
}

} // verus!
