use vstd::prelude::*;
use vstd::string::*;

use crate::context::RequestContext;
use crate::engine::{
    append_check, check_block, decode_unverified, encode_unverified, encoded_blocks, encoded_sealed,
    token_decodes, token_error_text, token_verifies,
};
use crate::error::AuthError;
use crate::facts::{predicate_name, FactKind};
use crate::token::{bearer_payload, bearer_prefix, is_bearer};

verus! {

/// `after` holds the blocks of `before`, unchanged and in order, and exactly
/// one block more.
pub open spec fn extends_by_one(before: Seq<Seq<char>>, after: Seq<Seq<char>>) -> bool {
    &&& after.len() == before.len() + 1
    &&& after.subrange(0, before.len() as int) == before
}

/// `after` is `before` narrowed to `service`: every block kept, in order,
/// and one block more, holding only the check `subgraph("<service>")`.
pub open spec fn narrowed_to(before: Seq<Seq<char>>, after: Seq<Seq<char>>, service: Seq<char>) -> bool {
    &&& extends_by_one(before, after)
    &&& after.last() == check_block(predicate_name(FactKind::Subgraph), service)
}

/// The Attenuator: the token `token`, read back from its base64 text, with
/// one more block that checks `subgraph("<service>")`, serialized again.
/// Every failure on the way is `AttenuationError`; the input is never
/// handed back in place of a narrowed token.
pub fn attenuate(token: &str, service: &str) -> (r: Result<String, AuthError>)
    ensures
        !token_decodes(token@) ==> r is Err,
        token_decodes(token@) && !encoded_sealed(token@) ==> r is Ok,
        r is Err ==> r->Err_0 is AttenuationError,
        r is Ok ==> token_decodes(r->Ok_0@) && narrowed_to(
            encoded_blocks(token@),
            encoded_blocks(r->Ok_0@),
            service@,
        ),
        r is Ok ==> forall|key: Seq<u8>|
            token_verifies(token@, key) ==> #[trigger] token_verifies(r->Ok_0@, key),
{
    let parsed = match decode_unverified(token) {
        Ok(t) => t,
        Err(e) => return Err(AuthError::AttenuationError(token_error_text(&e))),
    };
    let narrowed = match append_check(&parsed, FactKind::Subgraph.predicate(), service) {
        Ok(t) => t,
        Err(e) => return Err(AuthError::AttenuationError(token_error_text(&e))),
    };
    match encode_unverified(&narrowed) {
        Ok(s) => Ok(s),
        Err(e) => Err(AuthError::AttenuationError(token_error_text(&e))),
    }
}

/// The authorization header value that presents `token`.
pub fn bearer_header(token: &str) -> (r: String)
    ensures
        r@ == bearer_prefix() + token@,
        is_bearer(r@),
        bearer_payload(r@) == token@,
{
    proof { reveal_strlit("Bearer "); }
    let r = String::from_str("Bearer ").concat(token);
    assert(r@.subrange(0, bearer_prefix().len() as int) =~= bearer_prefix());
    assert(bearer_payload(r@) =~= token@);
    r
}

/// Prepares the authorization header of one outgoing call to `service`:
/// none when the request carried no credential, else a bearer header with
/// a copy of the accepted credential narrowed to that service.
pub fn attenuate_for_hop(ctx: &RequestContext, service: &str) -> (r: Result<
    Option<String>,
    AuthError,
>)
    ensures
        ctx.token_view() is None ==> r == Ok::<Option<String>, AuthError>(None),
        ctx.token_view() is Some && !token_decodes(ctx.token_view()->Some_0) ==> r is Err
            && r->Err_0 is AttenuationError,
        ctx.token_view() is Some && token_decodes(ctx.token_view()->Some_0) && !encoded_sealed(
            ctx.token_view()->Some_0,
        ) ==> r is Ok,
        ctx.token_view() is Some ==> match r {
            Ok(Some(h)) => is_bearer(h@) && token_decodes(bearer_payload(h@)) && narrowed_to(
                encoded_blocks(ctx.token_view()->Some_0),
                encoded_blocks(bearer_payload(h@)),
                service@,
            ) && forall|key: Seq<u8>|
                token_verifies(ctx.token_view()->Some_0, key) ==> #[trigger] token_verifies(
                    bearer_payload(h@),
                    key,
                ),
            Ok(None) => false,
            Err(e) => e is AttenuationError,
        },
{
    match ctx.raw_token() {
        None => Ok(None),
        Some(t) => {
            let narrowed = attenuate(t, service)?;
            Ok(Some(bearer_header(narrowed.as_str())))
        },
    }
}

/// Narrowing twice, for one service and then another, keeps every block of
/// the original token, in order, and adds exactly the two narrowing blocks,
/// the first service's check before the second's: a later attenuation cannot
/// take an earlier restriction away.
pub proof fn lemma_attenuation_keeps_earlier_restrictions(
    s0: Seq<char>,
    s1: Seq<char>,
    s2: Seq<char>,
    first: Seq<char>,
    second: Seq<char>,
)
    requires
        narrowed_to(encoded_blocks(s0), encoded_blocks(s1), first),
        narrowed_to(encoded_blocks(s1), encoded_blocks(s2), second),
    ensures
        encoded_blocks(s2).len() == encoded_blocks(s0).len() + 2,
        encoded_blocks(s2)[encoded_blocks(s0).len() as int] == check_block(
            predicate_name(FactKind::Subgraph),
            first,
        ),
        encoded_blocks(s2).last() == check_block(predicate_name(FactKind::Subgraph), second),
        encoded_blocks(s2).subrange(0, encoded_blocks(s0).len() as int) == encoded_blocks(s0),
        encoded_blocks(s2).subrange(0, encoded_blocks(s1).len() as int) == encoded_blocks(s1),
{
    let b0 = encoded_blocks(s0);
    let b1 = encoded_blocks(s1);
    let b2 = encoded_blocks(s2);
    assert(b2.subrange(0, b0.len() as int) =~= b2.subrange(0, b1.len() as int).subrange(0, b0.len() as int));
    assert(b2[b0.len() as int] == b2.subrange(0, b1.len() as int)[b0.len() as int]);
}

} // verus!
