//! Signed identity tokens: issuing them with a private key and checking them
//! with the matching public key.
//!
//! A token is `H.P.S`: `H` the base64url text of a fixed header naming the
//! algorithm, `P` the base64url text of the claims' JSON, and `S` the
//! signature of `H.P`.

use crate::claims::{claims_json, claims_ok, is_id, is_id_byte, ClaimsModel, TokenClaims};
use crate::claims::{append_bytes, check_id, copy_range, lemma_claims_json_injective};
use crate::entropy::{fresh_token_id, hex_digit, hex_of};
use base64::Engine;
use vstd::prelude::*;

verus! {

#[verifier::external_type_specification]
#[verifier::external_body]
pub struct ExEncodingKey(jsonwebtoken::EncodingKey);

#[verifier::external_type_specification]
#[verifier::external_body]
pub struct ExDecodingKey(jsonwebtoken::DecodingKey);

/// The asymmetric signature scheme of a key pair.
#[derive(Clone, Copy, Debug, PartialEq, Eq, Structural)]
pub enum SigningAlgorithm {
    /// RSASSA-PKCS1-v1_5 with SHA-256.
    Rs256,
    /// Ed25519.
    EdDsa,
}

/// The base64url text, without padding, of some bytes.
pub uninterp spec fn b64url(b: Seq<u8>) -> Seq<u8>;

/// Bytes of the base64url alphabet.
pub open spec fn is_b64url_byte(c: u8) -> bool {
    (48 <= c && c <= 57) || (65 <= c && c <= 90) || (97 <= c && c <= 122) || c == 45 || c == 95
}

pub open spec fn is_b64url_text(s: Seq<u8>) -> bool {
    forall|i: int| 0 <= i < s.len() ==> is_b64url_byte(#[trigger] s[i])
}

/// Relies on base64's `URL_SAFE_NO_PAD.encode`: the text uses the URL-safe
/// alphabet only, and no other input has the same text.
#[verifier::external_body]
fn b64url_encode(b: &[u8]) -> (r: Vec<u8>)
    requires
        b@.len() <= usize::MAX / 4,
    ensures
        r@ == b64url(b@),
        is_b64url_text(r@),
        forall|x: Seq<u8>| #[trigger] b64url(x) == r@ ==> x == b@,
{
    base64::engine::general_purpose::URL_SAFE_NO_PAD.encode(b).into_bytes()
}

/// Relies on base64's `URL_SAFE_NO_PAD.decode`: it inverts the encoding,
/// and accepts only canonical text (no padding, no stray trailing bits).
#[verifier::external_body]
fn b64url_decode(s: &[u8]) -> (r: Option<Vec<u8>>)
    ensures
        r is Some ==> b64url(r->Some_0@) == s@,
        forall|x: Seq<u8>| #[trigger] b64url(x) == s@ ==> (r is Some && r->Some_0@ == x),
{
    base64::engine::general_purpose::URL_SAFE_NO_PAD.decode(s).ok()
}

/// What base64's `STANDARD.decode` gives for a text: its bytes, or `None`
/// when the text is not standard padded base64.
pub uninterp spec fn b64_standard_of(s: Seq<char>) -> Option<Seq<u8>>;

/// Relies on base64's `STANDARD.decode`, for key material given as base64.
#[verifier::external_body]
fn b64_standard_decode(s: &str) -> (r: Option<Vec<u8>>)
    ensures
        r is None <==> b64_standard_of(s@) is None,
        r is Some ==> b64_standard_of(s@) == Some(r->Some_0@),
{
    base64::engine::general_purpose::STANDARD.decode(s).ok()
}

/// Does jsonwebtoken's `EncodingKey::from_rsa_pem` accept these bytes?
pub uninterp spec fn rsa_private_pem_ok(pem: Seq<u8>) -> bool;

/// Does jsonwebtoken's `EncodingKey::from_ed_pem` accept these bytes?
pub uninterp spec fn ed_private_pem_ok(pem: Seq<u8>) -> bool;

/// Does jsonwebtoken's `DecodingKey::from_rsa_pem` accept these bytes?
pub uninterp spec fn rsa_public_pem_ok(pem: Seq<u8>) -> bool;

/// Does jsonwebtoken's `DecodingKey::from_ed_pem` accept these bytes?
pub uninterp spec fn ed_public_pem_ok(pem: Seq<u8>) -> bool;

/// Relies on jsonwebtoken's `EncodingKey::from_rsa_pem`, a function of the
/// bytes alone.
#[verifier::external_body]
fn rsa_encoding_key(pem: &[u8]) -> (r: Option<jsonwebtoken::EncodingKey>)
    ensures
        r is Some <==> rsa_private_pem_ok(pem@),
{
    jsonwebtoken::EncodingKey::from_rsa_pem(pem).ok()
}

/// Relies on jsonwebtoken's `EncodingKey::from_ed_pem`, a function of the
/// bytes alone.
#[verifier::external_body]
fn ed_encoding_key(pem: &[u8]) -> (r: Option<jsonwebtoken::EncodingKey>)
    ensures
        r is Some <==> ed_private_pem_ok(pem@),
{
    jsonwebtoken::EncodingKey::from_ed_pem(pem).ok()
}

/// Relies on jsonwebtoken's `DecodingKey::from_rsa_pem`, a function of the
/// bytes alone.
#[verifier::external_body]
fn rsa_decoding_key(pem: &[u8]) -> (r: Option<jsonwebtoken::DecodingKey>)
    ensures
        r is Some <==> rsa_public_pem_ok(pem@),
{
    jsonwebtoken::DecodingKey::from_rsa_pem(pem).ok()
}

/// Relies on jsonwebtoken's `DecodingKey::from_ed_pem`, a function of the
/// bytes alone.
#[verifier::external_body]
fn ed_decoding_key(pem: &[u8]) -> (r: Option<jsonwebtoken::DecodingKey>)
    ensures
        r is Some <==> ed_public_pem_ok(pem@),
{
    jsonwebtoken::DecodingKey::from_ed_pem(pem).ok()
}

/// Does the PEM text hold a private key of the kind `alg` signs with?
pub open spec fn private_pem_ok(alg: SigningAlgorithm, pem: Seq<u8>) -> bool {
    match alg {
        SigningAlgorithm::Rs256 => rsa_private_pem_ok(pem),
        SigningAlgorithm::EdDsa => ed_private_pem_ok(pem),
    }
}

/// Does the PEM text hold a public key of the kind `alg` checks with?
pub open spec fn public_pem_ok(alg: SigningAlgorithm, pem: Seq<u8>) -> bool {
    match alg {
        SigningAlgorithm::Rs256 => rsa_public_pem_ok(pem),
        SigningAlgorithm::EdDsa => ed_public_pem_ok(pem),
    }
}

/// The signature (as base64url text) that the private key in `pem` gives
/// `msg` under `alg`. RSASSA-PKCS1-v1_5 and Ed25519 signatures depend on
/// the key and the message alone.
pub uninterp spec fn signature_of(pem: Seq<u8>, alg: SigningAlgorithm, msg: Seq<u8>) -> Seq<u8>;

/// Is `sig` a valid signature of `msg` under the public key in `pem`?
pub uninterp spec fn sig_ok(pem: Seq<u8>, alg: SigningAlgorithm, msg: Seq<u8>, sig: Seq<u8>) -> bool;

/// A private key, parsed once and kept for signing, with the PEM text it
/// was read from.
pub struct SigningKey {
    alg: SigningAlgorithm,
    pem: Vec<u8>,
    key: jsonwebtoken::EncodingKey,
}

/// A public key, parsed once and kept for checking signatures, with the PEM
/// text it was read from.
pub struct VerifyingKey {
    alg: SigningAlgorithm,
    pem: Vec<u8>,
    key: jsonwebtoken::DecodingKey,
}

impl SigningKey {
    /// The algorithm this key signs with.
    pub closed spec fn algorithm(&self) -> SigningAlgorithm {
        self.alg
    }

    /// The PEM text this key was read from.
    pub closed spec fn pem_bytes(&self) -> Seq<u8> {
        self.pem@
    }

    /// The algorithm this key signs with.
    pub fn alg(&self) -> (r: SigningAlgorithm)
        ensures
            r == self.algorithm(),
    {
        self.alg
    }
}

impl VerifyingKey {
    /// The algorithm this key checks with.
    pub closed spec fn algorithm(&self) -> SigningAlgorithm {
        self.alg
    }

    /// The PEM text this key was read from.
    pub closed spec fn pem_bytes(&self) -> Seq<u8> {
        self.pem@
    }

    /// The algorithm this key checks with.
    pub fn alg(&self) -> (r: SigningAlgorithm)
        ensures
            r == self.algorithm(),
    {
        self.alg
    }
}

/// Relies on jsonwebtoken's `crypto::sign`: the signature of `msg` under the
/// key, as base64url text without padding. It may fail (an RSA key that the
/// signer refuses, or its random source for blinding failing).
#[verifier::external_body]
fn sign_message(msg: &[u8], key: &SigningKey) -> (r: Option<Vec<u8>>)
    ensures
        r is Some ==> is_b64url_text(r->Some_0@),
        r is Some ==> r->Some_0@ == signature_of(key.pem_bytes(), key.algorithm(), msg@),
{
    let alg = match key.alg {
        SigningAlgorithm::Rs256 => jsonwebtoken::Algorithm::RS256,
        SigningAlgorithm::EdDsa => jsonwebtoken::Algorithm::EdDSA,
    };
    jsonwebtoken::crypto::sign(msg, &key.key, alg).ok().map(|s| s.into_bytes())
}

/// Relies on jsonwebtoken's `crypto::verify`: whether `sig` is a valid
/// signature of `msg` under the key. A signature that is not text, or that
/// the library cannot decode, counts as invalid.
#[verifier::external_body]
fn signature_valid(sig: &[u8], msg: &[u8], key: &VerifyingKey) -> (r: bool)
    ensures
        r == sig_ok(key.pem_bytes(), key.algorithm(), msg@, sig@),
{
    let alg = match key.alg {
        SigningAlgorithm::Rs256 => jsonwebtoken::Algorithm::RS256,
        SigningAlgorithm::EdDsa => jsonwebtoken::Algorithm::EdDSA,
    };
    match std::str::from_utf8(sig) {
        Ok(s) => jsonwebtoken::crypto::verify(s, msg, &key.key, alg).unwrap_or(false),
        Err(_) => false,
    }
}

#[verifier::external_type_specification]
#[verifier::external_body]
pub struct ExSystemTime(std::time::SystemTime);

/// Relies on std's `SystemTime::now`. Nothing is known of its value.
#[verifier::external_body]
fn system_now() -> (r: std::time::SystemTime) {
    std::time::SystemTime::now()
}

/// Relies on std's `SystemTime::duration_since(UNIX_EPOCH)`: whole seconds
/// since the Unix epoch, or `None` for an instant before it.
#[verifier::external_body]
fn seconds_since_epoch(t: &std::time::SystemTime) -> (r: Option<u64>) {
    t.duration_since(std::time::UNIX_EPOCH).ok().map(|d| d.as_secs())
}

/// The current time in seconds since the Unix epoch; a clock set before the
/// epoch reads as zero.
pub fn unix_now() -> (r: u64) {
    match seconds_since_epoch(&system_now()) {
        Some(t) => t,
        None => 0,
    }
}

/// Key material that could not be read.
#[derive(Clone, Copy, Debug, PartialEq, Eq, Structural)]
pub enum KeyError {
    /// The text is not base64.
    NotBase64,
    /// The decoded bytes are not a PEM key of the expected kind.
    NotAKey,
}

impl SigningKey {
    /// Reads a private key given as base64 text of a PEM file.
    pub fn from_base64_pem(text: &str, alg: SigningAlgorithm) -> (r: Result<SigningKey, KeyError>)
        ensures
            b64_standard_of(text@) is None <==> r == Err::<SigningKey, KeyError>(KeyError::NotBase64),
            r is Ok <==> (b64_standard_of(text@) matches Some(pem) && private_pem_ok(alg, pem)),
            r matches Ok(k) ==> k.algorithm() == alg && Some(k.pem_bytes()) == b64_standard_of(
                text@,
            ),
    {
        let pem = match b64_standard_decode(text) {
            Some(p) => p,
            None => return Err(KeyError::NotBase64),
        };
        let key = match alg {
            SigningAlgorithm::Rs256 => rsa_encoding_key(&pem),
            SigningAlgorithm::EdDsa => ed_encoding_key(&pem),
        };
        match key {
            Some(key) => Ok(SigningKey { alg, pem, key }),
            None => Err(KeyError::NotAKey),
        }
    }
}

impl VerifyingKey {
    /// Reads a public key given as base64 text of a PEM file.
    pub fn from_base64_pem(text: &str, alg: SigningAlgorithm) -> (r: Result<VerifyingKey, KeyError>)
        ensures
            b64_standard_of(text@) is None <==> r == Err::<VerifyingKey, KeyError>(
                KeyError::NotBase64,
            ),
            r is Ok <==> (b64_standard_of(text@) matches Some(pem) && public_pem_ok(alg, pem)),
            r matches Ok(k) ==> k.algorithm() == alg && Some(k.pem_bytes()) == b64_standard_of(
                text@,
            ),
    {
        let pem = match b64_standard_decode(text) {
            Some(p) => p,
            None => return Err(KeyError::NotBase64),
        };
        let key = match alg {
            SigningAlgorithm::Rs256 => rsa_decoding_key(&pem),
            SigningAlgorithm::EdDsa => ed_decoding_key(&pem),
        };
        match key {
            Some(key) => Ok(VerifyingKey { alg, pem, key }),
            None => Err(KeyError::NotAKey),
        }
    }
}

/// The JSON header of a token signed with `alg`:
/// `{"typ":"JWT","alg":"RS256"}` or `{"typ":"JWT","alg":"EdDSA"}`.
pub open spec fn header_json(alg: SigningAlgorithm) -> Seq<u8> {
    match alg {
        SigningAlgorithm::Rs256 => seq![
            123u8, 34, 116, 121, 112, 34, 58, 34, 74, 87, 84, 34, 44, 34, 97, 108, 103, 34, 58, 34,
            82, 83, 50, 53, 54, 34, 125,
        ],
        SigningAlgorithm::EdDsa => seq![
            123u8, 34, 116, 121, 112, 34, 58, 34, 74, 87, 84, 34, 44, 34, 97, 108, 103, 34, 58, 34,
            69, 100, 68, 83, 65, 34, 125,
        ],
    }
}

fn header_bytes(alg: SigningAlgorithm) -> (r: Vec<u8>)
    ensures
        r@ == header_json(alg),
{
    let r = match alg {
        SigningAlgorithm::Rs256 => vec![
            123u8, 34, 116, 121, 112, 34, 58, 34, 74, 87, 84, 34, 44, 34, 97, 108, 103, 34, 58, 34,
            82, 83, 50, 53, 54, 34, 125,
        ],
        SigningAlgorithm::EdDsa => vec![
            123u8, 34, 116, 121, 112, 34, 58, 34, 74, 87, 84, 34, 44, 34, 97, 108, 103, 34, 58, 34,
            69, 100, 68, 83, 65, 34, 125,
        ],
    };
    assert(r@ =~= header_json(alg));
    r
}

/// The byte `.` that separates the parts of a token.
pub open spec fn dot() -> u8 {
    46u8
}

/// The text that the signature covers: header part, `.`, claims part.
pub open spec fn signing_input(alg: SigningAlgorithm, c: ClaimsModel) -> Seq<u8> {
    b64url(header_json(alg)) + seq![dot()] + b64url(claims_json(c))
}

/// The full text of a token.
pub open spec fn compact(alg: SigningAlgorithm, c: ClaimsModel, sig: Seq<u8>) -> Seq<u8> {
    signing_input(alg, c) + seq![dot()] + sig
}

/// `t` is a token for `alg` that carries the claims `c` and the signature
/// part `sig`.
pub open spec fn token_shaped(t: Seq<u8>, alg: SigningAlgorithm, c: ClaimsModel, sig: Seq<u8>) -> bool {
    &&& claims_ok(c)
    &&& is_b64url_text(sig)
    &&& t == compact(alg, c, sig)
}

/// Everything an issued token states, and the token itself.
#[derive(Clone, Debug)]
pub struct TokenDetails {
    pub token: Vec<u8>,
    pub token_id: Vec<u8>,
    pub user_id: Vec<u8>,
    pub issued_at: u64,
    pub expires_at: u64,
}

/// The claims that `d` records.
pub open spec fn details_claims(d: TokenDetails) -> ClaimsModel {
    ClaimsModel { sub: d.user_id@, jti: d.token_id@, iat: d.issued_at, exp: d.expires_at }
}

/// Why a token could not be issued.
#[derive(Clone, Copy, Debug, PartialEq, Eq, Structural)]
pub enum IssueError {
    /// The user id is not an identifier (letters, digits, `-`, `_`).
    InvalidSubject,
    /// The expiry instant does not fit in a `u64`.
    ExpiryOutOfRange,
    /// The random source failed to give a token id.
    RandomSourceFailed,
    /// The signing library refused the key or the message.
    SigningFailed,
}

/// Why a token was rejected.
#[derive(Clone, Copy, Debug, PartialEq, Eq, Structural)]
pub enum TokenError {
    /// Not a token: wrong layout, header, encoding or claims.
    Malformed,
    /// The signature does not check under the public key.
    InvalidSignature,
    /// The current time is at or after the expiry instant.
    Expired,
}

proof fn lemma_hex_is_id(raw: Seq<u8>)
    requires
        raw.len() >= 1,
    ensures
        is_id(hex_of(raw)),
{
    let h = hex_of(raw);
    assert forall|i: int| 0 <= i < h.len() implies is_id_byte(#[trigger] h[i]) by {
        let v: u8 = if i % 2 == 0 { (raw[i / 2] / 16) as u8 } else { (raw[i / 2] % 16) as u8 };
        assert(h[i] == hex_digit(v));
    }
}

/// The text of the token that `key` issues for the claims `c`: header and
/// claims parts, signed with the key.
pub open spec fn issued_text(key: &SigningKey, c: ClaimsModel) -> Seq<u8> {
    compact(
        key.algorithm(),
        c,
        signature_of(key.pem_bytes(), key.algorithm(), signing_input(key.algorithm(), c)),
    )
}

/// Issues a token for `user_id` at time `now`, valid for `ttl_seconds`.
/// Subjects are identifiers (ASCII letters, digits, `-`, `_`), so that the
/// claims text needs no escaping; other user ids are refused.
pub fn generate_at(user_id: &[u8], ttl_seconds: u64, key: &SigningKey, now: u64) -> (r: Result<
    TokenDetails,
    IssueError,
>)
    ensures
        !is_id(user_id@) <==> r == Err::<TokenDetails, IssueError>(IssueError::InvalidSubject),
        is_id(user_id@) && now + ttl_seconds > u64::MAX <==> r == Err::<TokenDetails, IssueError>(
            IssueError::ExpiryOutOfRange,
        ),
        r matches Ok(d) ==> {
            &&& d.user_id@ == user_id@
            &&& d.issued_at == now
            &&& d.expires_at == now + ttl_seconds
            &&& d.token_id@.len() == 32
            &&& d.token@ == issued_text(key, details_claims(d))
            &&& exists|sig: Seq<u8>| token_shaped(d.token@, key.algorithm(), details_claims(d), sig)
        },
{
    if !check_id(user_id) {
        return Err(IssueError::InvalidSubject);
    }
    if ttl_seconds > u64::MAX - now {
        return Err(IssueError::ExpiryOutOfRange);
    }
    let jti = match fresh_token_id() {
        Some(id) => id,
        None => return Err(IssueError::RandomSourceFailed),
    };
    proof {
        let raw = choose|raw: Seq<u8>| raw.len() == 16 && jti@ == hex_of(raw);
        lemma_hex_is_id(raw);
        assert(jti@.len() == 32);
    }
    let claims = TokenClaims {
        sub: copy_range(user_id, 0, user_id.len()),
        jti,
        iat: now,
        exp: now + ttl_seconds,
    };
    assert(user_id@.subrange(0, user_id@.len() as int) =~= user_id@);
    let json = claims.to_json();
    if json.len() > usize::MAX / 4 {
        return Err(IssueError::SigningFailed);
    }
    let alg = key.alg();
    let mut msg = b64url_encode(&header_bytes(alg));
    msg.push(46u8);
    append_bytes(&mut msg, &b64url_encode(&json));
    assert(msg@ =~= signing_input(alg, claims@));
    let sig = match sign_message(&msg, key) {
        Some(s) => s,
        None => return Err(IssueError::SigningFailed),
    };
    let mut token = msg;
    token.push(46u8);
    append_bytes(&mut token, &sig);
    let d = TokenDetails {
        token,
        token_id: claims.jti,
        user_id: claims.sub,
        issued_at: now,
        expires_at: now + ttl_seconds,
    };
    assert(details_claims(d) == claims@);
    assert(d.token@ =~= compact(alg, claims@, sig@));
    assert(claims_ok(claims@));
    assert(token_shaped(d.token@, alg, details_claims(d), sig@));
    assert(d.token_id@.len() == 32);
    Ok(d)
}

/// Issues a token for `user_id`, valid for `ttl_seconds` from now.
pub fn generate(user_id: &[u8], ttl_seconds: u64, key: &SigningKey) -> (r: Result<
    TokenDetails,
    IssueError,
>)
    ensures
        !is_id(user_id@) <==> r == Err::<TokenDetails, IssueError>(IssueError::InvalidSubject),
        r matches Ok(d) ==> {
            &&& d.user_id@ == user_id@
            &&& d.expires_at == d.issued_at + ttl_seconds
            &&& d.token@ == issued_text(key, details_claims(d))
            &&& exists|sig: Seq<u8>| token_shaped(d.token@, key.algorithm(), details_claims(d), sig)
        },
{
    generate_at(user_id, ttl_seconds, key, unix_now())
}

/// Where the parts of a token lie: the header part, a dot, the claims part,
/// a dot, and the signature part, with no dot in the first or last part.
proof fn lemma_token_layout(t: Seq<u8>, alg: SigningAlgorithm, c: ClaimsModel, sig: Seq<u8>)
    requires
        token_shaped(t, alg, c, sig),
        is_b64url_text(b64url(header_json(alg))),
    ensures
        ({
            let h = b64url(header_json(alg));
            let hl = h.len() as int;
            let pe = hl + 1 + b64url(claims_json(c)).len() as int;
            &&& t.subrange(0, hl) == h
            &&& t[hl] == dot()
            &&& t.subrange(hl + 1, pe) == b64url(claims_json(c))
            &&& t[pe] == dot()
            &&& t.subrange(pe + 1, t.len() as int) == sig
            &&& forall|j: int| 0 <= j < h.len() ==> t[j] != dot()
            &&& forall|j: int| pe < j < t.len() ==> t[j] != dot()
        }),
{
    let h = b64url(header_json(alg));
    let hl = h.len() as int;
    let pe = hl + 1 + b64url(claims_json(c)).len();
    assert(t.subrange(0, hl) =~= h);
    assert(t.subrange(hl + 1, pe) =~= b64url(claims_json(c)));
    assert(t.subrange(pe + 1, t.len() as int) =~= sig);
    assert forall|j: int| 0 <= j < hl implies t[j] != dot() by {
        assert(t[j] == h[j]);
        assert(is_b64url_byte(h[j]));
    }
    assert forall|j: int| pe < j < t.len() implies t[j] != dot() by {
        assert(t[j] == sig[j - pe - 1]);
        assert(is_b64url_byte(sig[j - pe - 1]));
    }
}

/// The position of the first `.` in `t`, or its length when there is none.
fn first_dot(t: &[u8]) -> (r: usize)
    ensures
        r <= t@.len(),
        forall|j: int| 0 <= j < r ==> t@[j] != dot(),
        r < t@.len() ==> t@[r as int] == dot(),
{
    let mut i: usize = 0;
    while i < t.len() && t[i] != 46u8
        invariant
            i <= t@.len(),
            forall|j: int| 0 <= j < i ==> t@[j] != dot(),
        decreases t@.len() - i,
    {
        i = i + 1;
    }
    i
}

/// The position of the last `.` in `t`, if any.
fn last_dot(t: &[u8]) -> (r: Option<usize>)
    ensures
        r matches Some(p) ==> p < t@.len() && t@[p as int] == dot() && forall|j: int|
            p < j < t@.len() ==> t@[j] != dot(),
        r is None ==> forall|j: int| 0 <= j < t@.len() ==> t@[j] != dot(),
{
    let mut i: usize = t.len();
    while i > 0
        invariant
            i <= t@.len(),
            forall|j: int| i <= j < t@.len() ==> t@[j] != dot(),
        decreases i,
    {
        if t[i - 1] == 46u8 {
            return Some(i - 1);
        }
        i = i - 1;
    }
    None
}

/// Is every byte of `s` in the base64url alphabet?
fn check_b64url_text(s: &[u8]) -> (r: bool)
    ensures
        r == is_b64url_text(s@),
{
    let mut i: usize = 0;
    while i < s.len()
        invariant
            i <= s@.len(),
            forall|j: int| 0 <= j < i ==> is_b64url_byte(#[trigger] s@[j]),
        decreases s@.len() - i,
    {
        let c = s[i];
        if !((48 <= c && c <= 57) || (65 <= c && c <= 90) || (97 <= c && c <= 122) || c == 45
            || c == 95) {
            return false;
        }
        i = i + 1;
    }
    true
}

/// A token taken apart: its claims, the text its signature covers, and the
/// signature part.
#[derive(Clone, Debug)]
pub struct DecodedToken {
    pub claims: TokenClaims,
    pub signing_input: Vec<u8>,
    pub signature: Vec<u8>,
}

/// Takes a token apart without checking its signature or its expiry.
/// Succeeds exactly on the texts that are tokens for `alg`, and then gives
/// the only claims and signature part that the text can carry.
pub fn decode_token(t: &[u8], alg: SigningAlgorithm) -> (r: Result<DecodedToken, TokenError>)
    ensures
        match r {
            Ok(d) => {
                &&& token_shaped(t@, alg, d.claims@, d.signature@)
                &&& d.signing_input@ == signing_input(alg, d.claims@)
                &&& forall|c: ClaimsModel, sig: Seq<u8>|
                    token_shaped(t@, alg, c, sig) ==> c == d.claims@ && sig == d.signature@
            },
            Err(e) => e == TokenError::Malformed && forall|c: ClaimsModel, sig: Seq<u8>|
                !token_shaped(t@, alg, c, sig),
        },
{
    let n = t.len();
    let ghost has = exists|c: ClaimsModel, sig: Seq<u8>| token_shaped(t@, alg, c, sig);
    let header = b64url_encode(&header_bytes(alg));
    let ghost hlen = header@.len() as int;
    let d1 = first_dot(t);
    let d2 = match last_dot(t) {
        Some(p) => p,
        None => {
            proof {
                assert forall|c: ClaimsModel, sig: Seq<u8>| !token_shaped(t@, alg, c, sig) by {
                    if token_shaped(t@, alg, c, sig) {
                        lemma_token_layout(t@, alg, c, sig);
                        assert(t@[hlen] == dot());
                    }
                }
            }
            return Err(TokenError::Malformed);
        },
    };
    proof {
        assert forall|c: ClaimsModel, sig: Seq<u8>| token_shaped(t@, alg, c, sig) implies d1 == hlen
            && d2 == hlen + 1 + b64url(claims_json(c)).len() by {
            lemma_token_layout(t@, alg, c, sig);
            let pe = hlen + 1 + b64url(claims_json(c)).len();
            if d1 < hlen {
                assert(t@[d1 as int] != dot());
            }
            if d1 > hlen {
                assert(t@[hlen] == dot());
            }
            if d2 < pe {
                assert(t@[pe] == dot());
            }
            if d2 > pe {
                assert(t@[d2 as int] != dot());
            }
        }
    }
    if d1 >= d2 || d1 != header.len() || !crate::claims::has_at(t, 0, &header) {
        proof {
            assert forall|c: ClaimsModel, sig: Seq<u8>| !token_shaped(t@, alg, c, sig) by {
                if token_shaped(t@, alg, c, sig) {
                    lemma_token_layout(t@, alg, c, sig);
                }
            }
        }
        return Err(TokenError::Malformed);
    }
    let payload = copy_range(t, d1 + 1, d2);
    proof {
        assert forall|c: ClaimsModel, sig: Seq<u8>| token_shaped(t@, alg, c, sig) implies payload@
            == b64url(claims_json(c)) && t@.subrange(d2 + 1, t@.len() as int) == sig by {
            lemma_token_layout(t@, alg, c, sig);
        }
    }
    let json = match b64url_decode(&payload) {
        Some(v) => v,
        None => return Err(TokenError::Malformed),
    };
    let claims = match TokenClaims::from_json(&json) {
        Some(c) => c,
        None => return Err(TokenError::Malformed),
    };
    let signature = copy_range(t, d2 + 1, n);
    if !check_b64url_text(&signature) {
        proof {
            assert forall|c: ClaimsModel, sig: Seq<u8>| !token_shaped(t@, alg, c, sig) by {
                if token_shaped(t@, alg, c, sig) {
                    assert(signature@ == sig);
                }
            }
        }
        return Err(TokenError::Malformed);
    }
    let signing_input = copy_range(t, 0, d2);
    proof {
        let tt = t@;
        assert(tt.subrange(0, d1 as int) == b64url(header_json(alg)));
        assert(tt =~= tt.subrange(0, d1 as int) + seq![dot()] + payload@ + seq![dot()] + signature@);
        assert(signing_input@ =~= tt.subrange(0, d1 as int) + seq![dot()] + payload@);
        assert(tt =~= compact(alg, claims@, signature@));
        assert forall|c: ClaimsModel, sig: Seq<u8>| token_shaped(t@, alg, c, sig) implies c
            == claims@ && sig == signature@ by {
            assert(json@ == claims_json(c));
            lemma_claims_json_injective(c, claims@);
        }
    }
    Ok(DecodedToken { claims, signing_input, signature })
}

/// What checking a well-shaped token gives, once its signature has been
/// checked: the signature first, then the expiry.
pub open spec fn check_outcome(signature_ok: bool, now: u64, exp: u64) -> Option<TokenError> {
    if !signature_ok {
        Some(TokenError::InvalidSignature)
    } else if now >= exp {
        Some(TokenError::Expired)
    } else {
        None
    }
}

/// Decides on a decoded token, given whether its signature checked and the
/// current time.
pub fn check_decoded(d: DecodedToken, signature_ok: bool, now: u64) -> (r: Result<
    TokenClaims,
    TokenError,
>)
    ensures
        match check_outcome(signature_ok, now, d.claims.exp) {
            Some(e) => r == Err::<TokenClaims, TokenError>(e),
            None => r matches Ok(c) && c@ == d.claims@,
        },
{
    if !signature_ok {
        Err(TokenError::InvalidSignature)
    } else if now >= d.claims.exp {
        Err(TokenError::Expired)
    } else {
        Ok(d.claims)
    }
}

/// What checking the text `t` with `key` at time `now` gives: `Malformed`
/// when it is not a token, then `InvalidSignature` when its signature does
/// not check under the key, then `Expired` from its expiry instant on, and
/// otherwise the claims it carries.
pub open spec fn token_verdict(t: Seq<u8>, key: &VerifyingKey, now: u64) -> Result<
    ClaimsModel,
    TokenError,
> {
    let alg = key.algorithm();
    if exists|c: ClaimsModel, sig: Seq<u8>| token_shaped(t, alg, c, sig) {
        let w = choose|c: ClaimsModel, sig: Seq<u8>| token_shaped(t, alg, c, sig);
        if !sig_ok(key.pem_bytes(), alg, signing_input(alg, w.0), w.1) {
            Err(TokenError::InvalidSignature)
        } else if now >= w.0.exp {
            Err(TokenError::Expired)
        } else {
            Ok(w.0)
        }
    } else {
        Err(TokenError::Malformed)
    }
}

/// Does the result `r` of checking `t` report the verdict `v`?
pub open spec fn reports(r: Result<TokenDetails, TokenError>, t: Seq<u8>, v: Result<
    ClaimsModel,
    TokenError,
>) -> bool {
    match v {
        Ok(c) => r matches Ok(d) && details_claims(d) == c && d.token@ == t,
        Err(e) => r == Err::<TokenDetails, TokenError>(e),
    }
}

/// Checks a token at time `now` with the public key: its layout, its
/// signature, then its expiry. The result is the verdict exactly.
pub fn verify_at(t: &[u8], key: &VerifyingKey, now: u64) -> (r: Result<TokenDetails, TokenError>)
    ensures
        reports(r, t@, token_verdict(t@, key, now)),
{
    let alg = key.alg();
    let d = decode_token(t, alg)?;
    let ghost c = d.claims@;
    let ghost sig = d.signature@;
    proof {
        assert(token_shaped(t@, alg, c, sig));
        let w = choose|c: ClaimsModel, sig: Seq<u8>| token_shaped(t@, alg, c, sig);
        assert(w.0 == c && w.1 == sig);
    }
    let ok = signature_valid(&d.signature, &d.signing_input, key);
    let claims = check_decoded(d, ok, now)?;
    let token = copy_range(t, 0, t.len());
    assert(token@ =~= t@);
    let out = TokenDetails {
        token,
        token_id: claims.jti,
        user_id: claims.sub,
        issued_at: claims.iat,
        expires_at: claims.exp,
    };
    assert(details_claims(out) == claims@);
    Ok(out)
}

/// Checks a token now, with the public key: the result is the verdict at
/// the instant the clock was read.
pub fn verify(t: &[u8], key: &VerifyingKey) -> (r: Result<TokenDetails, TokenError>)
    ensures
        exists|now: u64| reports(r, t@, token_verdict(t@, key, now)),
{
    let now = unix_now();
    verify_at(t, key, now)
}

/// The verdict on a text depends on the time only through the expiry:
/// whether it is a token, and whether its signature checks, are the same at
/// every instant.
pub proof fn lemma_verdict_time_independent(t: Seq<u8>, key: &VerifyingKey, now1: u64, now2: u64)
    ensures
        (token_verdict(t, key, now1) == Err::<ClaimsModel, TokenError>(TokenError::Malformed))
            == (token_verdict(t, key, now2) == Err::<ClaimsModel, TokenError>(
            TokenError::Malformed,
        )),
        (token_verdict(t, key, now1) == Err::<ClaimsModel, TokenError>(
            TokenError::InvalidSignature,
        )) == (token_verdict(t, key, now2) == Err::<ClaimsModel, TokenError>(
            TokenError::InvalidSignature,
        )),
        now1 <= now2 && token_verdict(t, key, now2) is Ok ==> token_verdict(t, key, now1)
            == token_verdict(t, key, now2),
{
}

/// A token is accepted only before its expiry instant: from that instant
/// on it is refused, whatever else holds (a live session included, since
/// the verdict does not read the session store).
pub proof fn lemma_expired_token_refused(t: Seq<u8>, key: &VerifyingKey, now: u64)
    ensures
        token_verdict(t, key, now) matches Ok(c) ==> now < c.exp,
{
}

} // verus!
