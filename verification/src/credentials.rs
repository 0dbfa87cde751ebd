//! Password hashing, session tokens and the clock, as the `rust-argon2`
//! crate, the `jsonwebtoken` crate and std provide them.

use vstd::prelude::*;

verus! {

/// What `argon2::hash_encoded` gives for a password and a salt under the
/// default configuration (Argon2i, version 0x13, 4096 KiB, 3 passes, one lane,
/// 32-byte hash): the encoded hash text.
pub uninterp spec fn argon2_encoded(pwd: Seq<u8>, salt: Seq<u8>) -> Seq<char>;

/// Calls `argon2::hash_encoded` with `argon2::Config::default()`.  Trusted:
/// under that configuration the crate refuses exactly a salt shorter than 8
/// bytes and a password or salt longer than `u32::MAX` bytes (its
/// `Context::new`); otherwise the result is the encoded hash, which depends on
/// the password and the salt alone.
#[verifier::external_body]
pub(crate) fn hash_password(pwd: &[u8], salt: &[u8]) -> (r: Option<String>)
    ensures
        r is Some <== (8 <= salt@.len() <= u32::MAX && pwd@.len() <= u32::MAX),
        r is Some ==> (8 <= salt@.len() <= u32::MAX && pwd@.len() <= u32::MAX),
        r matches Some(h) ==> h@ == argon2_encoded(pwd@, salt@),
{
    argon2::hash_encoded(pwd, salt, &argon2::Config::default()).ok()
}

/// What `jsonwebtoken::encode` gives for the default header (HS256) and the
/// claims object `{ text_key: text_value, number_key: number_value }`,
/// signed with the HMAC secret: the token text.
pub uninterp spec fn jwt_hs256(
    text_key: Seq<char>,
    text_value: Seq<char>,
    number_key: Seq<char>,
    number_value: u64,
    secret: Seq<u8>,
) -> Seq<char>;

/// Calls `jsonwebtoken::encode` with `Header::default()`, a JSON object of
/// the two claims in that order (serde_json keeps the order of insertion with
/// its `preserve_order` feature, which this crate enables), and
/// `EncodingKey::from_secret(secret)`.  Trusted: with an HMAC key and the
/// HS256 header the crate does not fail (its only errors are a key of another
/// family and a claim that does not serialise), and the token depends on the
/// arguments alone.
#[verifier::external_body]
pub(crate) fn sign_token(
    text_key: &str,
    text_value: &str,
    number_key: &str,
    number_value: u64,
    secret: &[u8],
) -> (r: String)
    ensures
        r@ == jwt_hs256(text_key@, text_value@, number_key@, number_value, secret@),
{
    let mut claims = serde_json::Map::new();
    claims.insert(text_key.to_string(), serde_json::Value::from(text_value));
    claims.insert(number_key.to_string(), serde_json::Value::from(number_value));
    let key = jsonwebtoken::EncodingKey::from_secret(secret);
    jsonwebtoken::encode(&jsonwebtoken::Header::default(), &claims, &key).unwrap_or_default()
}

/// What `jsonwebtoken::dangerous_insecure_decode` reads from the payload of
/// a token (without checking its signature or any claim): the string claim
/// `text_key` and the unsigned integer claim `number_key`, or `None` where
/// the token does not decode or either claim is missing or of another kind.
pub uninterp spec fn jwt_payload_claims(
    token: Seq<char>,
    text_key: Seq<char>,
    number_key: Seq<char>,
) -> Option<(Seq<char>, u64)>;

/// The claims as plain values.
pub open spec fn claims_view(r: Option<(String, u64)>) -> Option<(Seq<char>, u64)> {
    match r {
        Some((t, n)) => Some((t@, n)),
        None => None,
    }
}

/// Calls `jsonwebtoken::dangerous_insecure_decode` into a JSON object and
/// picks the two claims from it.  Trusted: the result depends on the
/// arguments alone (the call reads no clock and checks no signature), and a
/// token that [`sign_token`] made with two different keys decodes to the
/// values it was made with (the payload is the base64url text of the JSON
/// object, which decodes back to it).
#[verifier::external_body]
pub(crate) fn token_claims(token: &str, text_key: &str, number_key: &str) -> (r: Option<(String, u64)>)
    ensures
        claims_view(r) == jwt_payload_claims(token@, text_key@, number_key@),
        forall|tv: Seq<char>, nv: u64, secret: Seq<u8>|
            #[trigger] jwt_hs256(text_key@, tv, number_key@, nv, secret) == token@ && text_key@
                != number_key@ ==> claims_view(r) == Some((tv, nv)),
{
    let data = jsonwebtoken::dangerous_insecure_decode::<serde_json::Map<String, serde_json::Value>>(token).ok()?;
    let text = data.claims.get(text_key)?.as_str()?.to_string();
    let number = data.claims.get(number_key)?.as_u64()?;
    Some((text, number))
}

/// The std type `SystemTime`, a reading of the system clock.
#[verifier::external_type_specification]
#[verifier::external_body]
pub struct ExSystemTime(std::time::SystemTime);

/// Calls `std::time::SystemTime::now`.  Nothing is stated of the reading.
#[verifier::external_body]
fn clock_reading() -> (r: std::time::SystemTime) {
    std::time::SystemTime::now()
}

/// Calls `SystemTime::duration_since(UNIX_EPOCH)`: the time since the Unix
/// epoch, or `None` where the reading is before it.  Nothing more is stated.
#[verifier::external_body]
fn since_unix_epoch(t: &std::time::SystemTime) -> (r: Option<core::time::Duration>) {
    t.duration_since(std::time::UNIX_EPOCH).ok()
}

/// Calls `Duration::as_secs`: the whole seconds of the duration.  Nothing
/// is stated of the value.
#[verifier::external_body]
fn whole_seconds(d: &core::time::Duration) -> (r: u64) {
    d.as_secs()
}

/// Reads the system clock: the whole seconds since the Unix epoch, or
/// `None` where the clock is set before it.
pub fn unix_time_now() -> (r: Option<u64>) {
    let t = clock_reading();
    match since_unix_epoch(&t) {
        Some(d) => Some(whole_seconds(&d)),
        None => None,
    }
}

} // verus!
