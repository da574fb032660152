//! The capability token engine, reached through biscuit-auth. Every item here
//! is taken on trust: each says which call of the crate it makes.

use biscuit_auth::builder::{check, fact, pred, string, BlockBuilder, CheckKind};
use biscuit_auth::error::{Format, Token};
use biscuit_auth::{Authorizer, AuthorizerLimits, Biscuit, PublicKey, UnverifiedBiscuit};
use std::time::Duration;
use vstd::prelude::*;

verus! {

#[verifier::external_type_specification]
#[verifier::external_body]
pub struct ExPublicKey(PublicKey);

#[verifier::external_type_specification]
#[verifier::external_body]
pub struct ExBiscuit(Biscuit);

#[verifier::external_type_specification]
#[verifier::external_body]
pub struct ExUnverifiedBiscuit(UnverifiedBiscuit);

#[verifier::external_type_specification]
#[verifier::external_body]
pub struct ExAuthorizer(Authorizer);

#[verifier::external_type_specification]
#[verifier::external_body]
pub struct ExToken(Token);

#[verifier::external_type_specification]
#[verifier::external_body]
pub struct ExFormat(Format);

/// `hex` encodes a valid Ed25519 public key.
pub uninterp spec fn key_hex_valid(hex: Seq<char>) -> bool;

/// The value of a hexadecimal digit, either case.
pub open spec fn hex_value(c: char) -> int {
    if '0' <= c && c <= '9' {
        c as int - '0' as int
    } else if 'a' <= c && c <= 'f' {
        c as int - 'a' as int + 10
    } else {
        c as int - 'A' as int + 10
    }
}

/// The bytes that the hexadecimal text `h` spells, two digits per byte.
pub open spec fn hex_decoded(h: Seq<char>) -> Seq<u8> {
    Seq::new(h.len() / 2, |i: int| (16 * hex_value(h[2 * i]) + hex_value(h[2 * i + 1])) as u8)
}

/// The facts of an authorizer's own block whose single term is a string, as
/// (predicate, string), in the order they were added.
pub uninterp spec fn authorizer_facts(a: Authorizer) -> Seq<(Seq<char>, Seq<char>)>;

/// `after` starts with all of `before`.
pub open spec fn keeps_prefix(
    before: Seq<(Seq<char>, Seq<char>)>,
    after: Seq<(Seq<char>, Seq<char>)>,
) -> bool {
    after.len() >= before.len() && after.subrange(0, before.len() as int) == before
}

/// The blocks of a verified token, authority block first, each as its
/// Datalog source.
pub uninterp spec fn verified_blocks(t: Biscuit) -> Seq<Seq<char>>;

/// The signature chain of the token verifies against the public key of
/// bytes `key`.
pub uninterp spec fn chain_verifies(t: UnverifiedBiscuit, key: Seq<u8>) -> bool;

/// The token is sealed: no block can be appended to it.
pub uninterp spec fn token_sealed(t: UnverifiedBiscuit) -> bool;

/// The base64 text `encoded` decodes to a sealed token.
pub uninterp spec fn encoded_sealed(encoded: Seq<char>) -> bool;

/// The base64 text `encoded` is a token whose signature chain verifies
/// against the public key of bytes `key`.
pub uninterp spec fn token_verifies(encoded: Seq<char>, key: Seq<u8>) -> bool;

/// The base64 text `encoded` decodes to a token, signatures unchecked.
pub uninterp spec fn token_decodes(encoded: Seq<char>) -> bool;

/// The blocks a token holds, authority block first, each as its Datalog
/// source.
pub uninterp spec fn token_blocks(t: UnverifiedBiscuit) -> Seq<Seq<char>>;

/// The Datalog source of a block holding the single check
/// `check if <predicate>("<value>")`, as a block prints it.
pub open spec fn check_block(predicate: Seq<char>, value: Seq<char>) -> Seq<char> {
    seq!['c', 'h', 'e', 'c', 'k', ' ', 'i', 'f', ' '] + predicate + seq!['(', '"'] + value + seq![
        '"',
        ')',
        ';',
        '\n',
    ]
}

/// The blocks of the token that the base64 text `encoded` decodes to.
pub uninterp spec fn encoded_blocks(encoded: Seq<char>) -> Seq<Seq<char>>;

/// Relies on biscuit_auth::PublicKey::from_bytes_hex: decodes a hex-encoded
/// Ed25519 public key (hex::decode, either case, then
/// ed25519_dalek::PublicKey::from_bytes), handed back as its bytes
/// (PublicKey::to_bytes returns the compressed bytes it was built from).
#[verifier::external_body]
pub(crate) fn public_key_from_hex(hex: &str) -> (r: Result<Vec<u8>, Format>)
    ensures
        r is Ok <==> key_hex_valid(hex@),
        r is Ok ==> r->Ok_0@ == hex_decoded(hex@) && r->Ok_0@.len() == 32 && hex@.len() == 64,
{
    PublicKey::from_bytes_hex(hex).map(|k| k.to_bytes().to_vec())
}

/// Relies on the Display impl of biscuit_auth::error::Format for its text.
#[verifier::external_body]
pub(crate) fn format_error_text(e: &Format) -> (r: String) {
    e.to_string()
}

/// Relies on the Display impl of biscuit_auth::error::Token for its text.
#[verifier::external_body]
pub(crate) fn token_error_text(e: &Token) -> (r: String) {
    e.to_string()
}

/// Relies on biscuit_auth::Biscuit::from_base64: decodes the token and checks
/// its signature chain against the root key, given by its bytes
/// (PublicKey::from_bytes; bytes that are no key fail as a format error).
#[verifier::external_body]
pub(crate) fn verify_token(encoded: &str, key: &Vec<u8>) -> (r: Result<Biscuit, Token>)
    ensures
        r is Ok <==> token_verifies(encoded@, key@),
        r is Ok ==> verified_blocks(r->Ok_0) == encoded_blocks(encoded@),
{
    let root = PublicKey::from_bytes(key).map_err(Token::Format)?;
    Biscuit::from_base64(encoded, root)
}

/// Relies on biscuit_auth::Authorizer::new: an authorizer with no fact,
/// rule, check or policy.
#[verifier::external_body]
pub(crate) fn new_authorizer() -> (r: Authorizer)
    ensures
        authorizer_facts(r) == Seq::<(Seq<char>, Seq<char>)>::empty(),
{
    Authorizer::new()
}

/// Relies on biscuit_auth::Authorizer::set_limits: evaluation may run for
/// `millis` milliseconds; the fact and iteration bounds stay the crate's
/// defaults.
#[verifier::external_body]
pub(crate) fn set_time_limit(authorizer: &mut Authorizer, millis: u64)
    ensures
        authorizer_facts(*final(authorizer)) == authorizer_facts(*old(authorizer)),
{
    authorizer.set_limits(AuthorizerLimits { max_time: Duration::from_millis(millis), ..Default::default() })
}

/// Relies on biscuit_auth::Authorizer::add_code: parses policy text and adds
/// its facts, rules, checks and policies; facts are only ever appended.
#[verifier::external_body]
pub(crate) fn add_policy_code(authorizer: &mut Authorizer, code: &str) -> (r: Result<(), Token>)
    ensures
        keeps_prefix(authorizer_facts(*old(authorizer)), authorizer_facts(*final(authorizer))),
{
    authorizer.add_code(code)
}

/// Relies on biscuit_auth::Authorizer::add_fact: adds the fact
/// `<predicate>("<value>")`, built term by term so that no text is parsed.
#[verifier::external_body]
pub(crate) fn add_string_fact(authorizer: &mut Authorizer, predicate: &str, value: &str) -> (r:
    Result<(), Token>)
    ensures
        r is Ok ==> authorizer_facts(*final(authorizer)) == authorizer_facts(*old(authorizer)).push(
            (predicate@, value@),
        ),
{
    authorizer.add_fact(fact(predicate, &[string(value)]))
}

/// Relies on biscuit_auth::Authorizer::set_time: adds the current time as an
/// ambient fact (a date term, so not one of the string facts).
#[verifier::external_body]
pub(crate) fn add_current_time(authorizer: &mut Authorizer)
    ensures
        keeps_prefix(authorizer_facts(*old(authorizer)), authorizer_facts(*final(authorizer))),
{
    authorizer.set_time()
}

/// Relies on biscuit_auth::Authorizer::add_token: loads a verified token's
/// blocks into the authorizer, leaving the authorizer's own block alone.
#[verifier::external_body]
pub(crate) fn add_token(authorizer: &mut Authorizer, token: &Biscuit) -> (r: Result<(), Token>)
    ensures
        authorizer_facts(*final(authorizer)) == authorizer_facts(*old(authorizer)),
{
    authorizer.add_token(token)
}

/// Relies on biscuit_auth::Authorizer::authorize: runs the checks and the
/// policies; the first matching policy decides, and no match denies.
#[verifier::external_body]
pub(crate) fn run_authorization(authorizer: &mut Authorizer) -> (r: Result<usize, Token>) {
    authorizer.authorize()
}

/// Relies on biscuit_auth::Authorizer::query: the integer head terms of the
/// facts that `rule` derives, one per fact.
#[verifier::external_body]
pub(crate) fn query_integers(authorizer: &mut Authorizer, rule: &str) -> (r: Result<Vec<i64>, Token>) {
    let found: Result<Vec<(i64,)>, Token> = authorizer.query(rule);
    found.map(|v| v.into_iter().map(|(id,)| id).collect())
}

/// Relies on biscuit_auth::UnverifiedBiscuit::from_base64: decodes a token
/// without checking its signatures.
#[verifier::external_body]
pub(crate) fn decode_unverified(encoded: &str) -> (r: Result<UnverifiedBiscuit, Token>)
    ensures
        r is Ok <==> token_decodes(encoded@),
        r is Ok ==> token_blocks(r->Ok_0) == encoded_blocks(encoded@),
        r is Ok ==> token_sealed(r->Ok_0) == encoded_sealed(encoded@),
        r is Ok ==> forall|key: Seq<u8>|
            #[trigger] chain_verifies(r->Ok_0, key) == token_verifies(encoded@, key),
{
    UnverifiedBiscuit::from_base64(encoded)
}

/// Relies on biscuit_auth::UnverifiedBiscuit::append (append_with_keypair): a
/// new token holding the old authority block and blocks, unchanged, and one
/// more block, built here with the single check
/// `check if <predicate>("<value>")`. It fails only on a sealed token, whose
/// proof holds no secret key to sign with (SerializedBiscuit::append). The new
/// block is signed with the token's next secret key and names a fresh next
/// key, so the chain verifies against every root key it verified against.
#[verifier::external_body]
pub(crate) fn append_check(token: &UnverifiedBiscuit, predicate: &str, value: &str) -> (r: Result<
    UnverifiedBiscuit,
    Token,
>)
    ensures
        r is Ok ==> token_blocks(r->Ok_0).len() == token_blocks(*token).len() + 1,
        r is Ok ==> token_blocks(r->Ok_0).subrange(0, token_blocks(*token).len() as int)
            == token_blocks(*token),
        r is Ok ==> token_blocks(r->Ok_0).last() == check_block(predicate@, value@),
        r is Ok ==> !token_sealed(r->Ok_0),
        r is Ok ==> forall|key: Seq<u8>|
            chain_verifies(*token, key) ==> #[trigger] chain_verifies(r->Ok_0, key),
        !token_sealed(*token) ==> r is Ok,
{
    let mut block = BlockBuilder::new();
    block.add_check(check(&[pred(predicate, &[string(value)])], CheckKind::One))?;
    token.append(block)
}

/// Relies on biscuit_auth::UnverifiedBiscuit::to_base64: serializes a token
/// (protobuf encoding into a growing buffer, which does not fail) in the
/// URL-safe base64 that from_base64 reads back.
#[verifier::external_body]
pub(crate) fn encode_unverified(token: &UnverifiedBiscuit) -> (r: Result<String, Token>)
    ensures
        r is Ok,
        r is Ok ==> token_decodes(r->Ok_0@) && encoded_blocks(r->Ok_0@) == token_blocks(*token),
        r is Ok ==> encoded_sealed(r->Ok_0@) == token_sealed(*token),
        r is Ok ==> forall|key: Seq<u8>|
            #[trigger] token_verifies(r->Ok_0@, key) == chain_verifies(*token, key),
{
    token.to_base64()
}

} // verus!
