//! Signed bearer tokens: RS256 or EdDSA JWTs carrying subject, token family id and expiry.
//! Access and refresh tokens are signed with separate key pairs.
use vstd::prelude::*;
use crate::error::AppError;
use crate::ids::{expires_at, expiry_after, parsed_uuid, uuid_from_text, uuid_text, uuid_to_text};

verus! {

/// jsonwebtoken's signing key, held opaque.
#[verifier::external_type_specification]
#[verifier::external_body]
pub struct ExEncodingKey(jsonwebtoken::EncodingKey);

/// jsonwebtoken's verification key, held opaque.
#[verifier::external_type_specification]
#[verifier::external_body]
pub struct ExDecodingKey(jsonwebtoken::DecodingKey);

/// jsonwebtoken's error, carried out of its calls and mapped to the library's errors.
#[verifier::external_type_specification]
#[verifier::external_body]
pub struct ExJwtError(jsonwebtoken::errors::Error);

/// Relies on jsonwebtoken's `EncodingKey::from_rsa_pem`: parses an RSA private key.
#[verifier::external_body]
fn rsa_encoding_key(pem: &[u8]) -> (r: Result<jsonwebtoken::EncodingKey, jsonwebtoken::errors::Error>) {
    jsonwebtoken::EncodingKey::from_rsa_pem(pem)
}

/// Relies on jsonwebtoken's `DecodingKey::from_rsa_pem`: parses an RSA public key.
#[verifier::external_body]
fn rsa_decoding_key(pem: &[u8]) -> (r: Result<jsonwebtoken::DecodingKey, jsonwebtoken::errors::Error>) {
    jsonwebtoken::DecodingKey::from_rsa_pem(pem)
}

/// Relies on jsonwebtoken's `EncodingKey::from_ed_der`: takes a PKCS#8 Ed25519 key as it is.
#[verifier::external_body]
fn ed25519_encoding_key(der: &[u8]) -> (r: jsonwebtoken::EncodingKey) {
    jsonwebtoken::EncodingKey::from_ed_der(der)
}

/// Relies on jsonwebtoken's `DecodingKey::from_ed_der`: takes a raw Ed25519 public key as it is.
#[verifier::external_body]
fn ed25519_decoding_key(der: &[u8]) -> (r: jsonwebtoken::DecodingKey) {
    jsonwebtoken::DecodingKey::from_ed_der(der)
}

/// Relies on jsonwebtoken's `encode` with an RS256 or EdDSA header, over the JSON
/// object `{"sub", "token_id", "exp"}`. The token depends on the key, which is opaque here.
#[verifier::external_body]
fn jwt_sign(sub: &str, token_id: &str, exp: i64, key: &jsonwebtoken::EncodingKey, algorithm: SigningAlgorithm) -> (r: Result<String, jsonwebtoken::errors::Error>) {
    let mut claims = serde_json::Map::new();
    claims.insert("sub".to_string(), serde_json::Value::from(sub));
    claims.insert("token_id".to_string(), serde_json::Value::from(token_id));
    claims.insert("exp".to_string(), serde_json::Value::from(exp));
    let header = jsonwebtoken::Header::new(match algorithm {
        SigningAlgorithm::Rs256 => jsonwebtoken::Algorithm::RS256,
        SigningAlgorithm::EdDsa => jsonwebtoken::Algorithm::EdDSA,
    });
    jsonwebtoken::encode(&header, &serde_json::Value::Object(claims), key)
}

/// Relies on jsonwebtoken's `decode` with RS256 or EdDSA validation: checks the signature
/// against the key and that an `exp` claim is present (its time is judged by the
/// caller's clock, not the system's), then hands out the `sub`, `token_id` and `exp`
/// claims where they have the expected JSON types.
#[verifier::external_body]
fn jwt_verify(token: &str, key: &jsonwebtoken::DecodingKey, algorithm: SigningAlgorithm) -> (r: Result<(Option<String>, Option<String>, Option<i64>), jsonwebtoken::errors::Error>) {
    let mut validation = jsonwebtoken::Validation::new(match algorithm {
        SigningAlgorithm::Rs256 => jsonwebtoken::Algorithm::RS256,
        SigningAlgorithm::EdDsa => jsonwebtoken::Algorithm::EdDSA,
    });
    validation.validate_exp = false;
    jsonwebtoken::decode::<serde_json::Value>(token, key, &validation).map(|data| (
        data.claims.get("sub").and_then(|v| v.as_str()).map(|s| s.to_string()),
        data.claims.get("token_id").and_then(|v| v.as_str()).map(|s| s.to_string()),
        data.claims.get("exp").and_then(|v| v.as_i64()),
    ))
}

/// The asymmetric signature scheme of the tokens.
#[derive(Debug, Clone, Copy, PartialEq, Eq, Structural)]
pub enum SigningAlgorithm {
    /// RSA PKCS#1 v1.5 with SHA-256.
    Rs256,
    /// Ed25519.
    EdDsa,
}

/// Why a signing key could not be read.
#[derive(Debug, Clone, Copy, PartialEq, Eq, Structural)]
pub enum KeyError {
    /// The access-token public key.
    AccessPublic,
    /// The access-token private key.
    AccessPrivate,
    /// The refresh-token public key.
    RefreshPublic,
    /// The refresh-token private key.
    RefreshPrivate,
}

/// What a token says: its subject, its family, and when it stops being accepted.
#[derive(Debug, Clone, Copy, PartialEq, Eq, Structural)]
pub struct AccessTokenClaims {
    pub sub: u128,
    pub token_id: u128,
    pub exp: i64,
}

/// Refresh tokens carry the same claims as access tokens, under another key pair.
pub type RefreshTokenClaims = AccessTokenClaims;

/// The signing configuration: token lifetimes in seconds, the signature scheme
/// and the two key pairs. It is built once at start-up and never changed.
pub struct JwtConfig {
    pub algorithm: SigningAlgorithm,
    pub access_token_max_age: u64,
    pub refresh_token_max_age: u64,
    pub access_token_public_key: jsonwebtoken::DecodingKey,
    pub access_token_private_key: jsonwebtoken::EncodingKey,
    pub refresh_token_public_key: jsonwebtoken::DecodingKey,
    pub refresh_token_private_key: jsonwebtoken::EncodingKey,
}

impl JwtConfig {
    /// Reads the four PEM-encoded RSA keys; names the first that does not parse.
    pub fn from_pem(
        access_token_max_age: u64,
        refresh_token_max_age: u64,
        access_public_pem: &[u8],
        access_private_pem: &[u8],
        refresh_public_pem: &[u8],
        refresh_private_pem: &[u8],
    ) -> (r: Result<JwtConfig, KeyError>)
        ensures
            r is Ok ==> r->Ok_0.access_token_max_age == access_token_max_age
                && r->Ok_0.refresh_token_max_age == refresh_token_max_age
                && r->Ok_0.algorithm == SigningAlgorithm::Rs256,
    {
        let access_token_public_key = match rsa_decoding_key(access_public_pem) {
            Ok(k) => k,
            Err(_) => return Err(KeyError::AccessPublic),
        };
        let access_token_private_key = match rsa_encoding_key(access_private_pem) {
            Ok(k) => k,
            Err(_) => return Err(KeyError::AccessPrivate),
        };
        let refresh_token_public_key = match rsa_decoding_key(refresh_public_pem) {
            Ok(k) => k,
            Err(_) => return Err(KeyError::RefreshPublic),
        };
        let refresh_token_private_key = match rsa_encoding_key(refresh_private_pem) {
            Ok(k) => k,
            Err(_) => return Err(KeyError::RefreshPrivate),
        };
        Ok(JwtConfig {
            algorithm: SigningAlgorithm::Rs256,
            access_token_max_age,
            refresh_token_max_age,
            access_token_public_key,
            access_token_private_key,
            refresh_token_public_key,
            refresh_token_private_key,
        })
    }

    /// Takes two Ed25519 key pairs: PKCS#8 private keys and raw 32-byte public keys.
    /// A key that is not well formed makes signing or verification fail later.
    pub fn from_ed25519(
        access_token_max_age: u64,
        refresh_token_max_age: u64,
        access_public_key: &[u8],
        access_private_pkcs8: &[u8],
        refresh_public_key: &[u8],
        refresh_private_pkcs8: &[u8],
    ) -> (r: JwtConfig)
        ensures
            r.access_token_max_age == access_token_max_age,
            r.refresh_token_max_age == refresh_token_max_age,
            r.algorithm == SigningAlgorithm::EdDsa,
    {
        JwtConfig {
            algorithm: SigningAlgorithm::EdDsa,
            access_token_max_age,
            refresh_token_max_age,
            access_token_public_key: ed25519_decoding_key(access_public_key),
            access_token_private_key: ed25519_encoding_key(access_private_pkcs8),
            refresh_token_public_key: ed25519_decoding_key(refresh_public_key),
            refresh_token_private_key: ed25519_encoding_key(refresh_private_pkcs8),
        }
    }
}

/// The claims of a token issued at `now` that lives `age` seconds.
pub open spec fn claims_at(sub: u128, token_id: u128, now: i64, age: u64) -> AccessTokenClaims {
    AccessTokenClaims { sub, token_id, exp: expiry_after(now, age) }
}

/// The claims of a token issued at `now` that lives `age` seconds.
pub fn claims_for(sub: u128, token_id: u128, now: i64, age: u64) -> (r: AccessTokenClaims)
    ensures
        r == claims_at(sub, token_id, now, age),
{
    AccessTokenClaims { sub, token_id, exp: expires_at(now, age) }
}

/// The claim fields that a token of these claims carries: both ids as hyphenated
/// text, and the expiry. Read back before the expiry, they give the same claims.
pub fn claims_to_fields(claims: AccessTokenClaims) -> (r: (String, String, i64))
    ensures
        r.0@ == uuid_text(claims.sub),
        r.1@ == uuid_text(claims.token_id),
        r.2 == claims.exp,
        forall|now: i64| now < claims.exp ==> #[trigger] claims_of_fields(Some(r.0), Some(r.1), Some(r.2), now) == Some(claims),
{
    let sub = uuid_to_text(claims.sub);
    let token_id = uuid_to_text(claims.token_id);
    (sub, token_id, claims.exp)
}

fn sign_claims(claims: AccessTokenClaims, key: &jsonwebtoken::EncodingKey, algorithm: SigningAlgorithm) -> (r: Result<String, AppError>)
    ensures
        r is Err ==> r == Err::<String, AppError>(AppError::Internal),
{
    let (sub, token_id, exp) = claims_to_fields(claims);
    match jwt_sign(sub.as_str(), token_id.as_str(), exp, key, algorithm) {
        Ok(t) => Ok(t),
        Err(_) => Err(AppError::Internal),
    }
}

/// Signs an access token of family `token_id` for `participant_id`, living
/// `access_token_max_age` seconds from `now`. Fails only where signing fails.
pub fn create_access_token(jwt_config: &JwtConfig, token_id: u128, participant_id: u128, now: i64) -> (r: Result<String, AppError>)
    ensures
        r is Err ==> r == Err::<String, AppError>(AppError::Internal),
{
    let claims = claims_for(participant_id, token_id, now, jwt_config.access_token_max_age);
    sign_claims(claims, &jwt_config.access_token_private_key, jwt_config.algorithm)
}

/// Signs a refresh token of family `token_id` for `participant_id`, living
/// `refresh_token_max_age` seconds from `now`. Fails only where signing fails.
pub fn create_refresh_token(jwt_config: &JwtConfig, token_id: u128, participant_id: u128, now: i64) -> (r: Result<String, AppError>)
    ensures
        r is Err ==> r == Err::<String, AppError>(AppError::Internal),
{
    let claims = claims_for(participant_id, token_id, now, jwt_config.refresh_token_max_age);
    sign_claims(claims, &jwt_config.refresh_token_private_key, jwt_config.algorithm)
}

/// A token is accepted only strictly before its expiration.
pub fn validate_expiration_date(expiration: i64, now: i64) -> (r: Result<(), AppError>)
    ensures
        r is Ok <==> expiration > now,
        r is Err ==> r == Err::<(), AppError>(AppError::InvalidToken),
{
    if expiration > now {
        Ok(())
    } else {
        Err(AppError::InvalidToken)
    }
}

pub open spec fn parsed_field(f: Option<String>) -> Option<u128> {
    match f {
        Some(s) => parsed_uuid(s@),
        None => None,
    }
}

/// The claims that verified token fields stand for at `now`: both ids must read
/// as UUIDs, the expiry must be present and lie after `now`.
pub open spec fn claims_of_fields(sub: Option<String>, token_id: Option<String>, exp: Option<i64>, now: i64) -> Option<AccessTokenClaims> {
    match (parsed_field(sub), parsed_field(token_id), exp) {
        (Some(s), Some(t), Some(e)) => if e > now {
            Some(AccessTokenClaims { sub: s, token_id: t, exp: e })
        } else {
            None
        },
        _ => None,
    }
}

/// Reads the claims out of the fields of a token whose signature has been checked.
pub fn claims_from_fields(sub: Option<String>, token_id: Option<String>, exp: Option<i64>, now: i64) -> (r: Result<AccessTokenClaims, AppError>)
    ensures
        r is Ok <==> claims_of_fields(sub, token_id, exp, now) is Some,
        r is Ok ==> Some(r->Ok_0) == claims_of_fields(sub, token_id, exp, now),
        r is Err ==> r == Err::<AccessTokenClaims, AppError>(AppError::InvalidToken),
{
    let s = match &sub {
        Some(text) => uuid_from_text(text.as_str()),
        None => None,
    };
    let t = match &token_id {
        Some(text) => uuid_from_text(text.as_str()),
        None => None,
    };
    match (s, t, exp) {
        (Some(s), Some(t), Some(e)) => {
            match validate_expiration_date(e, now) {
                Ok(()) => Ok(AccessTokenClaims { sub: s, token_id: t, exp: e }),
                Err(err) => Err(err),
            }
        },
        _ => Err(AppError::InvalidToken),
    }
}

fn decode_with(token: &str, key: &jsonwebtoken::DecodingKey, algorithm: SigningAlgorithm, now: i64) -> (r: Result<AccessTokenClaims, AppError>)
    ensures
        r is Ok ==> r->Ok_0.exp > now,
        r is Err ==> r == Err::<AccessTokenClaims, AppError>(AppError::InvalidToken),
{
    match jwt_verify(token, key, algorithm) {
        Ok((sub, token_id, exp)) => claims_from_fields(sub, token_id, exp, now),
        Err(_) => Err(AppError::InvalidToken),
    }
}

/// Checks an access token's signature and expiry; every failure is `InvalidToken`.
pub fn decode_access_token(jwt_config: &JwtConfig, token: &str, now: i64) -> (r: Result<AccessTokenClaims, AppError>)
    ensures
        r is Ok ==> r->Ok_0.exp > now,
        r is Err ==> r == Err::<AccessTokenClaims, AppError>(AppError::InvalidToken),
{
    decode_with(token, &jwt_config.access_token_public_key, jwt_config.algorithm, now)
}

/// Checks a refresh token's signature and expiry; every failure is `InvalidToken`.
pub fn decode_refresh_token(jwt_config: &JwtConfig, token: &str, now: i64) -> (r: Result<RefreshTokenClaims, AppError>)
    ensures
        r is Ok ==> r->Ok_0.exp > now,
        r is Err ==> r == Err::<RefreshTokenClaims, AppError>(AppError::InvalidToken),
{
    decode_with(token, &jwt_config.refresh_token_public_key, jwt_config.algorithm, now)
}

} // verus!
