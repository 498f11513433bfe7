//! Stateless bearer tokens: a digest over a user's name, password hash and
//! a server-side secret. A token is checked by computing it again.

use base64::Engine;
use sha2::Digest;
use vstd::prelude::*;
use vstd::string::StringSliceAdditionalSpecFns;
use vstd::string::StrSliceExecFns;

verus! {

/// The SHA-256 digest of `data`, as `sha2::Sha256::digest` computes it.
pub uninterp spec fn sha256_digest(data: Seq<u8>) -> Seq<u8>;

/// The base64 text of `data` in the standard alphabet with padding, as
/// `base64::engine::general_purpose::STANDARD` encodes it.
pub uninterp spec fn base64_standard(data: Seq<u8>) -> Seq<char>;

/// Calls `sha2::Sha256::digest` on `data`. Trusted: the result is the
/// digest named by [`sha256_digest`], and it is 32 bytes long.
#[verifier::external_body]
fn sha256(data: &Vec<u8>) -> (digest: Vec<u8>)
    ensures
        digest@ == sha256_digest(data@),
        digest@.len() == 32,
{
    sha2::Sha256::digest(data).to_vec()
}

/// Calls `encode` of `base64::engine::general_purpose::STANDARD` on
/// `data`. Trusted: the result is the text named by [`base64_standard`].
/// The encoder panics when the encoded length overflows `usize`, which
/// inputs of at most a gigabyte never reach.
#[verifier::external_body]
fn base64_encode(data: &Vec<u8>) -> (text: String)
    requires
        data@.len() <= 0x4000_0000,
    ensures
        text@ == base64_standard(data@),
{
    base64::engine::general_purpose::STANDARD.encode(data)
}

/// The bytes of the fixed server-side secret that every token covers.
pub open spec fn secret_bytes() -> Seq<u8> {
    "demeter_secret_key".spec_bytes()
}

/// The bytes a token is the digest of: the UTF-8 bytes of the username,
/// then those of the password hash, then the secret.
pub open spec fn token_input(username: Seq<char>, password_hash: Seq<char>) -> Seq<u8> {
    vstd::utf8::encode_utf8(username) + vstd::utf8::encode_utf8(password_hash) + secret_bytes()
}

/// The token of the user with this name and password hash.
pub open spec fn token_text(username: Seq<char>, password_hash: Seq<char>) -> Seq<char> {
    base64_standard(sha256_digest(token_input(username, password_hash)))
}

/// Issues the bearer token of a user. The token depends on nothing but the
/// two arguments, so it changes whenever the password hash does.
pub fn generate_token(username: &str, password_hash: &str) -> (token: String)
    ensures
        token@ == token_text(username@, password_hash@),
{
    let mut input = username.as_bytes_vec();
    let hash_bytes = password_hash.as_bytes_vec();
    let secret = "demeter_secret_key".as_bytes_vec();
    input.extend_from_slice(hash_bytes.as_slice());
    input.extend_from_slice(secret.as_slice());
    assert(input@ =~= token_input(username@, password_hash@));
    let digest = sha256(&input);
    base64_encode(&digest)
}

/// Whether `token` is the token of the user with this name and password hash.
pub fn verify_token(token: &str, username: &str, password_hash: &str) -> (valid: bool)
    ensures
        valid == (token@ == token_text(username@, password_hash@)),
{
    let expected_token = generate_token(username, password_hash);
    token.to_string() == expected_token
}

/// Issuing is deterministic: equal names and password hashes give equal tokens.
pub proof fn lemma_token_deterministic(
    username_a: Seq<char>,
    hash_a: Seq<char>,
    username_b: Seq<char>,
    hash_b: Seq<char>,
)
    requires
        username_a == username_b,
        hash_a == hash_b,
    ensures
        token_text(username_a, hash_a) == token_text(username_b, hash_b),
{
}

} // verus!
