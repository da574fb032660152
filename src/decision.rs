use biscuit_auth::{Authorizer, Biscuit};
use vstd::prelude::*;

use crate::engine::{
    authorizer_facts, add_current_time, add_policy_code, add_string_fact, add_token, new_authorizer, query_integers,
    run_authorization, set_time_limit, token_error_text,
};
use crate::error::AuthError;
use crate::facts::{predicate_name, Fact};

verus! {

/// The rule that gathers the ids of the `user` relation the policy derives.
pub const IDENTITY_QUERY: &'static str = "query($id) <- user($id)";

/// How long one policy evaluation may run, in milliseconds. The engine's
/// own default (one millisecond) is short enough for a loaded machine to
/// turn allowed requests into refusals; the overall request deadline is the
/// deployment's concern.
pub const EVALUATION_TIME_LIMIT_MS: u64 = 200;

/// The caller's identity: the one id the policy derived, and none when it
/// derived no id or several.
pub open spec fn identity_of(ids: Seq<i64>) -> Option<i64> {
    if ids.len() == 1 {
        Some(ids[0])
    } else {
        None
    }
}

pub fn identity_from_candidates(ids: &Vec<i64>) -> (r: Option<i64>)
    ensures
        r == identity_of(ids@),
{
    if ids.len() == 1 {
        Some(ids[0])
    } else {
        None
    }
}

/// Turns the engine's answer into the request's outcome: a refusal carries
/// the engine's reason verbatim; an allowance carries the identity found
/// among the ids the policy derived.
pub fn decide(answer: Result<Vec<i64>, String>) -> (r: Result<Option<i64>, AuthError>)
    ensures
        answer is Err ==> r == Err::<Option<i64>, AuthError>(
            AuthError::AuthorizationDenied(answer->Err_0),
        ),
        answer is Ok ==> r == Ok::<Option<i64>, AuthError>(identity_of(answer->Ok_0@)),
{
    match answer {
        Err(reason) => Err(AuthError::AuthorizationDenied(reason)),
        Ok(ids) => Ok(identity_from_candidates(&ids)),
    }
}

/// The fact that `f` asserts, as (predicate, string).
pub open spec fn asserted(f: Fact) -> (Seq<char>, Seq<char>) {
    (predicate_name(f.kind), f.value@)
}

/// A fresh authorizer loaded with the policy, every fact of `facts`, the
/// current time and the token if one was presented. A policy or fact the
/// engine cannot take refuses the request; a token it cannot load is
/// `TokenInvalid`.
pub fn load_authorizer(policy: &str, facts: &Vec<Fact>, token: Option<&Biscuit>) -> (r: Result<
    Authorizer,
    AuthError,
>)
    ensures
        r is Ok ==> forall|i: int|
            0 <= i < facts@.len() ==> authorizer_facts(r->Ok_0).contains(
                #[trigger] asserted(facts@[i]),
            ),
        r is Err ==> r->Err_0 is AuthorizationDenied || r->Err_0 is TokenInvalid,
{
    let mut authorizer = new_authorizer();
    set_time_limit(&mut authorizer, EVALUATION_TIME_LIMIT_MS);
    if let Err(e) = add_policy_code(&mut authorizer, policy) {
        return Err(AuthError::AuthorizationDenied(token_error_text(&e)));
    }
    let mut i: usize = 0;
    while i < facts.len()
        invariant
            i <= facts@.len(),
            forall|j: int| 0 <= j < i ==> authorizer_facts(authorizer).contains(#[trigger] asserted(facts@[j])),
        decreases facts@.len() - i,
    {
        let f = &facts[i];
        let ghost before = authorizer_facts(authorizer);
        if let Err(e) = add_string_fact(&mut authorizer, f.kind.predicate(), f.value.as_str()) {
            return Err(AuthError::AuthorizationDenied(token_error_text(&e)));
        }
        proof {
            let after = authorizer_facts(authorizer);
            assert(after[before.len() as int] == asserted(facts@[i as int]));
            assert forall|j: int| 0 <= j <= i implies after.contains(#[trigger] asserted(facts@[j])) by {
                if j < i {
                    let k = choose|k: int| 0 <= k < before.len() && before[k] == asserted(facts@[j]);
                    assert(after[k] == before[k]);
                }
            }
        }
        i += 1;
    }
    let ghost loaded = authorizer_facts(authorizer);
    add_current_time(&mut authorizer);
    proof {
        let after = authorizer_facts(authorizer);
        assert forall|j: int| 0 <= j < facts@.len() implies after.contains(#[trigger] asserted(facts@[j])) by {
            let k = choose|k: int| 0 <= k < loaded.len() && loaded[k] == asserted(facts@[j]);
            assert(after.subrange(0, loaded.len() as int)[k] == loaded[k]);
        }
    }
    if let Some(t) = token {
        if let Err(e) = add_token(&mut authorizer, t) {
            return Err(AuthError::TokenInvalid(token_error_text(&e)));
        }
    }
    Ok(authorizer)
}

/// Asks the loaded engine for its decision on one request and, when it
/// allows, for the ids of the `user` relation the policy derives: the ids on
/// an allowance, the engine's reason on a refusal. A failing identity query
/// fails the request.
pub fn consult_engine(policy: &str, facts: &Vec<Fact>, token: Option<&Biscuit>) -> (r: Result<
    Result<Vec<i64>, String>,
    AuthError,
>)
    ensures
        r is Err ==> r->Err_0 is AuthorizationDenied || r->Err_0 is TokenInvalid,
{
    let mut authorizer = load_authorizer(policy, facts, token)?;
    if let Err(e) = run_authorization(&mut authorizer) {
        return Ok(Err(token_error_text(&e)));
    }
    match query_integers(&mut authorizer, IDENTITY_QUERY) {
        Ok(ids) => Ok(Ok(ids)),
        Err(e) => Err(AuthError::AuthorizationDenied(token_error_text(&e))),
    }
}

/// The decision of the policy for one request: a refusal with the engine's
/// reason, or the caller's identity (see `decide`).
pub fn evaluate(policy: &str, facts: &Vec<Fact>, token: Option<&Biscuit>) -> (r: Result<
    Option<i64>,
    AuthError,
>)
    ensures
        r is Err ==> r->Err_0 is AuthorizationDenied || r->Err_0 is TokenInvalid,
{
    let answer = consult_engine(policy, facts, token)?;
    decide(answer)
}

} // verus!
