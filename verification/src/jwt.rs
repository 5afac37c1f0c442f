//! Verification of JSON Web Tokens: which signing algorithms are accepted,
//! which key of a key set verifies a token, and the checks on the claims of
//! a token whose signature was verified (issuer, expiry, maturity, issue
//! time, audience, groups).
use vstd::prelude::*;

use crate::date_scalar::all_digits;
use crate::json::{json_field, json_text, json_view, opt_json_view, parse_json, parse_json_text, JsonValue, JsonView};
use crate::util::{owned, str_eq};

use chrono::TimeZone;
use jwt_compact::alg::{Hs256, Hs384, Hs512, Rsa, RsaPublicKey, StrongAlg, StrongKey};
use jwt_compact::jwk::JsonWebKey;
use jwt_compact::{AlgorithmExt, UntrustedToken, ValidationError};
use serde_json::Value;

verus! {

/// Where an OpenID Connect provider publishes its configuration, relative to
/// the issuer's base URL.
pub const OIDC_DISCOVERY_PATH: &'static str = "/.well-known/openid-configuration";

/// How long (in seconds) a key fetched from a key set endpoint may be cached.
pub const JWKS_CACHE_TTL: u64 = 3600;

/// The earliest second that `chrono`'s `DateTime<Utc>` can hold.
pub const MIN_UTC_SECS: i64 = -8334601315200;

/// The latest second that `chrono`'s `DateTime<Utc>` can hold.
pub const MAX_UTC_SECS: i64 = 8210266876799;

/// The largest number of seconds a `chrono::TimeDelta` can hold.
pub const MAX_DELTA_SECS: i64 = 9223372036854775;

/// A point in time: seconds since the Unix epoch and nanoseconds within the
/// second.
#[derive(Debug, Clone, Copy, PartialEq, Eq, Structural)]
pub struct Timestamp {
    pub secs: i64,
    pub nanos: u32,
}

/// A second `chrono`'s `DateTime<Utc>` can hold.
pub open spec fn in_utc_range(secs: int) -> bool {
    MIN_UTC_SECS <= secs <= MAX_UTC_SECS
}

/// A point in time `chrono`'s `DateTime<Utc>` can hold.
pub open spec fn valid_timestamp(t: Timestamp) -> bool {
    in_utc_range(t.secs as int) && t.nanos < 1_000_000_000
}

/// A number of seconds a `chrono::TimeDelta` can hold.
pub open spec fn valid_leeway(secs: i64) -> bool {
    -MAX_DELTA_SECS <= secs <= MAX_DELTA_SECS
}

/// `t` is strictly later than the whole second `s`.
pub open spec fn later_than(t: Timestamp, s: int) -> bool {
    t.secs > s || (t.secs == s && t.nanos > 0)
}

/// A claim that a validation can require.
#[derive(Debug, Clone, Copy, PartialEq, Eq, Structural)]
pub enum Claim {
    /// `exp` claim (expiration time).
    Expiration,
    /// `nbf` claim (valid not before).
    NotBefore,
}

/// Why a token failed validation of its signature or of its time claims.
#[derive(Debug)]
pub enum IntegrityError {
    /// The algorithm in the token header differs from the one used.
    AlgorithmMismatch { expected: String, actual: String },
    /// The signature has the wrong length.
    InvalidSignatureLen { expected_len: usize, actual_len: usize },
    /// The signature is malformed; the text says how.
    MalformedSignature(String),
    /// The signature does not verify.
    InvalidSignature,
    /// The claims are not valid JSON for the claims type; the text says how.
    MalformedClaims(String),
    /// A claim required by the validation is missing.
    NoClaim(Claim),
    /// The token has expired.
    Expired,
    /// The token is not valid yet.
    NotMature,
    /// Another failure; the text says which.
    Other(String),
}

/// Why a token was refused.
#[derive(Debug)]
pub enum VerificationError {
    /// A request to the identity provider failed; the text says how.
    HttpRequest(String),
    /// The signature or a time claim did not validate.
    Integrity(IntegrityError),
    /// The issuer's discovery document names another issuer.
    InvalidIssuer,
    /// The token is signed with an algorithm this verifier does not accept.
    UnsupportedAlgorithm { algorithm: String },
    /// The token cannot be read as a token.
    InvalidToken,
    /// No key of the key set has the token's key id.
    JwkNotFound { kid: String },
    /// The key found has an unusable format.
    JwkFormat,
    /// The token's issuer is not the expected one.
    IssuerClaimMismatch,
    /// The token has no issue time, or one in the future.
    InvalidIssueTime,
    /// The token is not meant for this client.
    InvalidAudience,
    /// The groups claim is neither absent nor a list of strings.
    InvalidGroups { claim: String },
}

/// An RSA signature algorithm with SHA-2.
#[derive(Debug, Clone, Copy, PartialEq, Eq, Structural)]
pub enum RsaAlgorithm {
    Rs256,
    Rs384,
    Rs512,
}

/// An HMAC signature algorithm with SHA-2.
#[derive(Debug, Clone, Copy, PartialEq, Eq, Structural)]
pub enum HsAlgorithm {
    Hs256,
    Hs384,
    Hs512,
}

/// The RSA algorithm a token header names, if it names one this verifier
/// accepts.
pub open spec fn rsa_algorithm_of(alg: Seq<char>) -> Option<RsaAlgorithm> {
    if alg == "RS256"@ {
        Some(RsaAlgorithm::Rs256)
    } else if alg == "RS384"@ {
        Some(RsaAlgorithm::Rs384)
    } else if alg == "RS512"@ {
        Some(RsaAlgorithm::Rs512)
    } else {
        None
    }
}

/// The name a token header gives an RSA algorithm.
pub open spec fn rsa_name_of(alg: RsaAlgorithm) -> Seq<char> {
    match alg {
        RsaAlgorithm::Rs256 => "RS256"@,
        RsaAlgorithm::Rs384 => "RS384"@,
        RsaAlgorithm::Rs512 => "RS512"@,
    }
}

/// The HMAC algorithm a token header names, if it names one this verifier
/// accepts.
pub open spec fn hs_algorithm_of(alg: Seq<char>) -> Option<HsAlgorithm> {
    if alg == "HS256"@ {
        Some(HsAlgorithm::Hs256)
    } else if alg == "HS384"@ {
        Some(HsAlgorithm::Hs384)
    } else if alg == "HS512"@ {
        Some(HsAlgorithm::Hs512)
    } else {
        None
    }
}

/// The registered claims of a token whose signature was verified.
#[derive(Debug)]
pub struct TokenClaims {
    /// `exp`, in seconds since the Unix epoch.
    pub expiration: Option<i64>,
    /// `nbf`, in seconds since the Unix epoch.
    pub not_before: Option<i64>,
    /// `iat`, in seconds since the Unix epoch.
    pub issued_at: Option<i64>,
    /// `iss`.
    pub issuer: Option<String>,
    /// `sub`.
    pub subject: Option<String>,
    /// `aud`, whether it was written as one string or as a list.
    pub audience: Vec<String>,
}

/// Mathematical model of [`TokenClaims`].
pub struct TokenClaimsView {
    pub expiration: Option<i64>,
    pub not_before: Option<i64>,
    pub issued_at: Option<i64>,
    pub issuer: Option<Seq<char>>,
    pub subject: Option<Seq<char>>,
    pub audience: Seq<Seq<char>>,
}

pub open spec fn strs_view(v: Seq<String>) -> Seq<Seq<char>> {
    v.map_values(|s: String| s@)
}

impl View for TokenClaims {
    type V = TokenClaimsView;

    open spec fn view(&self) -> TokenClaimsView {
        TokenClaimsView {
            expiration: self.expiration,
            not_before: self.not_before,
            issued_at: self.issued_at,
            issuer: opt_view(self.issuer),
            subject: opt_view(self.subject),
            audience: strs_view(self.audience@),
        }
    }
}

/// What the verification of a token establishes.
#[derive(Debug)]
pub struct VerifiedToken {
    /// The token's subject.
    pub identity: Option<String>,
    /// The groups the subject belongs to, each once.
    pub groups: Vec<String>,
}

/// A key of a key set: its key id and the key itself, kept as JSON text.
#[derive(Debug)]
pub struct JwkEntry {
    pub id: String,
    pub key_json: String,
}

/// The configuration of a verifier.
#[derive(Debug)]
pub struct Client {
    /// The request this verifier serves, for logs.
    pub trace_id: String,
    /// How far (in seconds) the clock may be off when time claims are checked.
    pub leeway_secs: i64,
    /// The path of the claim that holds the groups, if groups are wanted.
    pub groups_claim: Option<String>,
    /// The application that must be among the token's audience, if any.
    pub client_id: Option<String>,
}

/// What `jwt_compact::Claims::validate_expiration` gives, by its source:
/// no `exp` claim is an error; else the token has expired when the clock is
/// later than `exp` plus the leeway (when that sum leaves the range of
/// `DateTime<Utc>`, the latest time is used instead, so nothing expires).
pub open spec fn expiration_check(expiration: Option<i64>, now: Timestamp, leeway: i64) -> Result<(), IntegrityError> {
    match expiration {
        None => Err(IntegrityError::NoClaim(Claim::Expiration)),
        Some(exp) => if in_utc_range(exp + leeway) && later_than(now, exp + leeway) {
            Err(IntegrityError::Expired)
        } else {
            Ok(())
        },
    }
}

/// What `jwt_compact::Claims::validate_maturity` gives, by its source: no
/// `nbf` claim is an error; else the token is not mature when the clock is
/// earlier than `nbf` minus the leeway.
pub open spec fn maturity_check(not_before: Option<i64>, now: Timestamp, leeway: i64) -> Result<(), IntegrityError> {
    match not_before {
        None => Err(IntegrityError::NoClaim(Claim::NotBefore)),
        Some(nbf) => if now.secs < nbf - leeway {
            Err(IntegrityError::NotMature)
        } else {
            Ok(())
        },
    }
}

/// Builds a `jwt_compact::Claims` holding the given expiration and calls
/// `Claims::validate_expiration` with a clock stopped at `now` and the given
/// leeway. The contract restates that method's source (a few lines).
/// `DateTime::from_timestamp` and `TimeDelta::seconds` need their
/// arguments in range, which `requires` states.
#[verifier::external_body]
fn jwt_validate_expiration(expiration: Option<i64>, now: Timestamp, leeway_secs: i64) -> (r: Result<(), IntegrityError>)
    requires
        expiration matches Some(e) ==> in_utc_range(e as int),
        valid_timestamp(now),
        valid_leeway(leeway_secs),
    ensures
        r == expiration_check(expiration, now, leeway_secs),
{
    let mut claims = jwt_compact::Claims::new(jwt_compact::Empty {});
    claims.expiration = expiration.and_then(|e| chrono::Utc.timestamp_opt(e, 0).single());
    let clock = chrono::Utc.timestamp_opt(now.secs, now.nanos).unwrap();
    let options = jwt_compact::TimeOptions::new(chrono::TimeDelta::seconds(leeway_secs), move || clock);
    match claims.validate_expiration(&options) {
        Ok(_) => Ok(()),
        Err(jwt_compact::ValidationError::NoClaim(_)) => Err(IntegrityError::NoClaim(Claim::Expiration)),
        Err(jwt_compact::ValidationError::Expired) => Err(IntegrityError::Expired),
        Err(e) => Err(IntegrityError::Other(e.to_string())),
    }
}

/// Builds a `jwt_compact::Claims` holding the given maturity time and calls
/// `Claims::validate_maturity` with a clock stopped at `now` and the given
/// leeway. The contract restates that method's source (a few lines). It
/// subtracts the leeway from `nbf`, which panics outside the range of
/// `DateTime<Utc>`; `requires` leaves that out.
#[verifier::external_body]
fn jwt_validate_maturity(not_before: Option<i64>, now: Timestamp, leeway_secs: i64) -> (r: Result<(), IntegrityError>)
    requires
        not_before matches Some(n) ==> in_utc_range(n as int) && in_utc_range(n - leeway_secs),
        valid_timestamp(now),
        valid_leeway(leeway_secs),
    ensures
        r == maturity_check(not_before, now, leeway_secs),
{
    let mut claims = jwt_compact::Claims::new(jwt_compact::Empty {});
    claims.not_before = not_before.and_then(|n| chrono::Utc.timestamp_opt(n, 0).single());
    let clock = chrono::Utc.timestamp_opt(now.secs, now.nanos).unwrap();
    let options = jwt_compact::TimeOptions::new(chrono::TimeDelta::seconds(leeway_secs), move || clock);
    match claims.validate_maturity(&options) {
        Ok(_) => Ok(()),
        Err(jwt_compact::ValidationError::NoClaim(_)) => Err(IntegrityError::NoClaim(Claim::NotBefore)),
        Err(jwt_compact::ValidationError::NotMature) => Err(IntegrityError::NotMature),
        Err(e) => Err(IntegrityError::Other(e.to_string())),
    }
}

/// What `url::Url::parse` gives for a string: the parsed URL's
/// serialization, or nothing when the string is no URL.
pub uninterp spec fn url_parse(s: Seq<char>) -> Option<Seq<char>>;

/// What `Url::join` gives for the URL whose serialization is `base` and
/// the string `input`: the joined URL's serialization, or nothing when the
/// join fails.
pub uninterp spec fn url_join(base: Seq<char>, input: Seq<char>) -> Option<Seq<char>>;

pub open spec fn opt_view(s: Option<String>) -> Option<Seq<char>> {
    match s {
        Some(s) => Some(s@),
        None => None,
    }
}

/// Calls `url::Url::parse` and gives the serialization of the URL (URLs
/// compare equal exactly when their serializations do). Nothing more is
/// claimed than that the result is a function of the string (`url_parse`).
#[verifier::external_body]
pub(crate) fn parse_url(s: &str) -> (r: Option<String>)
    ensures
        opt_view(r) == url_parse(s@),
{
    match url::Url::parse(s) {
        Ok(u) => Some(u.to_string()),
        Err(_) => None,
    }
}

/// Calls `url::Url::parse` on `base` and then `Url::join` with `input` on
/// the URL it gives, giving the joined URL's serialization. Nothing more is
/// claimed than that the parse is the one named `url_parse` and the join a
/// function of the parsed URL (a URL is determined by its serialization)
/// and the string (`url_join`).
#[verifier::external_body]
pub(crate) fn join_url(base: &str, input: &str) -> (r: Option<String>)
    ensures
        opt_view(r) == match url_parse(base@) {
            None => None,
            Some(u) => url_join(u, input@),
        },
{
    match url::Url::parse(base) {
        Ok(b) => match b.join(input) {
            Ok(u) => Some(u.to_string()),
            Err(_) => None,
        },
        Err(_) => None,
    }
}

/// The URL of the discovery document of the issuer whose base URL is
/// `base`: the discovery path joined to the URL `base` parses as; nothing
/// when `base` is no URL or the join fails.
pub open spec fn discovery_url_of(base: Seq<char>) -> Option<Seq<char>> {
    match url_parse(base) {
        None => None,
        Some(u) => url_join(u, OIDC_DISCOVERY_PATH@),
    }
}

/// The issuer check passes: either no issuer is expected, or the token's
/// issuer is exactly the expected one, or both parse as the same URL.
pub open spec fn issuer_accepted(expected: Option<Seq<char>>, actual: Option<Seq<char>>) -> bool {
    match expected {
        None => true,
        Some(e) => actual == Some(e) || (match (url_parse(e), actual) {
            (Some(eu), Some(a)) => url_parse(a) == Some(eu),
            _ => false,
        }),
    }
}

/// What the value found under the groups claim yields: the strings of a
/// list of strings; nothing for no value, `null` or a list holding only
/// `null`; `None` (an error) for anything else.
pub open spec fn groups_of(found: Result<Option<JsonView>, ()>) -> Option<Set<Seq<char>>> {
    match found {
        Ok(None) => Some(Set::empty()),
        Ok(Some(JsonView::Null)) => Some(Set::empty()),
        Ok(Some(JsonView::Array(items))) => if items == seq![JsonView::Null] {
            Some(Set::empty())
        } else if forall|i: int| 0 <= i < items.len() ==> (#[trigger] items[i]) is String {
            Some(Set::new(|g: Seq<char>| exists|i: int| 0 <= i < items.len() && items[i] == JsonView::String(g)))
        } else {
            None
        },
        _ => None,
    }
}

pub open spec fn found_view(found: Result<Option<JsonValue>, ()>) -> Result<Option<JsonView>, ()> {
    match found {
        Ok(Some(v)) => Ok(Some(v@)),
        Ok(None) => Ok(None),
        Err(()) => Err(()),
    }
}

/// The strings of a vector, as a set.
pub open spec fn string_set(v: Seq<String>) -> Set<Seq<char>> {
    Set::new(|g: Seq<char>| exists|i: int| 0 <= i < v.len() && v[i]@ == g)
}

/// No string occurs twice.
pub open spec fn distinct_strings(v: Seq<String>) -> bool {
    forall|i: int, j: int| 0 <= i < j < v.len() ==> v[i]@ != v[j]@
}

/// The audience check passes: no client id is configured, or it is among
/// the token's audience.
pub open spec fn audience_accepted(client_id: Option<Seq<char>>, audience: Seq<Seq<char>>) -> bool {
    match client_id {
        None => true,
        Some(c) => exists|i: int| 0 <= i < audience.len() && audience[i] == c,
    }
}

/// The issue time check passes: the token has an issue time, and it is not
/// later than the clock plus the leeway.
pub open spec fn issue_time_accepted(issued_at: Option<i64>, now: Timestamp, leeway: i64) -> bool {
    match issued_at {
        Some(iat) => iat <= now.secs + leeway,
        None => false,
    }
}

/// The time claims are times `DateTime<Utc>` can hold.
pub open spec fn claim_times_valid(claims: TokenClaimsView) -> bool {
    &&& claims.expiration matches Some(e) ==> in_utc_range(e as int)
    &&& claims.not_before matches Some(n) ==> in_utc_range(n as int)
    &&& claims.issued_at matches Some(t) ==> in_utc_range(t as int)
}

pub open spec fn str_opt_view(s: Option<&str>) -> Option<Seq<char>> {
    match s {
        Some(s) => Some(s@),
        None => None,
    }
}

/// What checking the claims of a token gives (`r`), in order: the issuer
/// (when one is expected), the expiration, the maturity time (when
/// present), the issue time, the audience (when a client id is
/// configured), and the groups (when a groups claim is configured,
/// `groups_found` holds what was found under it). The first failing check
/// gives the error; when all pass, the token's subject and groups.
pub open spec fn claims_verdict(
    client: &Client,
    claims: TokenClaimsView,
    groups_found: Result<Option<JsonView>, ()>,
    expected: Option<Seq<char>>,
    now: Timestamp,
    r: Result<VerifiedToken, VerificationError>,
) -> bool {
    let leeway = client.leeway_secs;
    if !issuer_accepted(expected, claims.issuer) {
        r matches Err(e) && e is IssuerClaimMismatch
    } else if expiration_check(claims.expiration, now, leeway) is Err {
        r matches Err(VerificationError::Integrity(e)) && Err::<(), IntegrityError>(e) == expiration_check(
            claims.expiration,
            now,
            leeway,
        )
    } else if claims.not_before is Some && maturity_check(claims.not_before, now, leeway) is Err {
        r matches Err(VerificationError::Integrity(e)) && e is NotMature
    } else if !issue_time_accepted(claims.issued_at, now, leeway) {
        r matches Err(e) && e is InvalidIssueTime
    } else if !audience_accepted(opt_view(client.client_id), claims.audience) {
        r matches Err(e) && e is InvalidAudience
    } else {
        match client.groups_claim {
            Some(c) => match groups_of(groups_found) {
                None => r matches Err(VerificationError::InvalidGroups { claim: x }) && x@ == c@,
                Some(g) => r matches Ok(t) && opt_view(t.identity) == claims.subject && string_set(t.groups@) == g
                    && distinct_strings(t.groups@),
            },
            None => r matches Ok(t) && opt_view(t.identity) == claims.subject && t.groups@.len() == 0,
        }
    }
}

/// Checking the claims panics in `chrono` before it concludes: the issuer
/// and expiration checks pass, and then either the maturity time minus the
/// leeway, or (once the maturity check passes) the clock plus the leeway
/// for the issue time check, leaves the range of `DateTime<Utc>`.
pub open spec fn checks_panic(client: &Client, claims: TokenClaimsView, expected: Option<Seq<char>>, now: Timestamp) -> bool {
    let leeway = client.leeway_secs;
    &&& issuer_accepted(expected, claims.issuer)
    &&& expiration_check(claims.expiration, now, leeway) is Ok
    &&& {
        ||| claims.not_before matches Some(n) && !in_utc_range(n - leeway)
        ||| (claims.not_before is None || maturity_check(claims.not_before, now, leeway) is Ok)
            && claims.issued_at is Some && !in_utc_range(now.secs + leeway)
    }
}

/// What checking the claims ends with: nothing where `chrono` panics (see
/// `checks_panic`), else what `claims_verdict` says.
pub open spec fn checks_outcome(
    client: &Client,
    claims: TokenClaimsView,
    groups_found: Result<Option<JsonView>, ()>,
    expected: Option<Seq<char>>,
    now: Timestamp,
    r: Option<Result<VerifiedToken, VerificationError>>,
) -> bool {
    if checks_panic(client, claims, expected, now) {
        r is None
    } else {
        r matches Some(x) && claims_verdict(client, claims, groups_found, expected, now, x)
    }
}

impl Client {
    /// The RSA algorithm of a token header, or `UnsupportedAlgorithm` with
    /// the header's algorithm for anything but RS256, RS384 and RS512.
    pub fn get_rsa_algorithm(algorithm: &str) -> (r: Result<RsaAlgorithm, VerificationError>)
        ensures
            match rsa_algorithm_of(algorithm@) {
                Some(a) => r == Ok::<RsaAlgorithm, VerificationError>(a),
                None => r matches Err(VerificationError::UnsupportedAlgorithm { algorithm: a }) && a@ == algorithm@,
            },
    {
        if str_eq(algorithm, "RS256") {
            Ok(RsaAlgorithm::Rs256)
        } else if str_eq(algorithm, "RS384") {
            Ok(RsaAlgorithm::Rs384)
        } else if str_eq(algorithm, "RS512") {
            Ok(RsaAlgorithm::Rs512)
        } else {
            Err(VerificationError::UnsupportedAlgorithm { algorithm: owned(algorithm) })
        }
    }

    /// The HMAC algorithm of a token header, or `UnsupportedAlgorithm` with
    /// the header's algorithm for anything but HS256, HS384 and HS512.
    pub fn get_hs_algorithm(algorithm: &str) -> (r: Result<HsAlgorithm, VerificationError>)
        ensures
            match hs_algorithm_of(algorithm@) {
                Some(a) => r == Ok::<HsAlgorithm, VerificationError>(a),
                None => r matches Err(VerificationError::UnsupportedAlgorithm { algorithm: a }) && a@ == algorithm@,
            },
    {
        if str_eq(algorithm, "HS256") {
            Ok(HsAlgorithm::Hs256)
        } else if str_eq(algorithm, "HS384") {
            Ok(HsAlgorithm::Hs384)
        } else if str_eq(algorithm, "HS512") {
            Ok(HsAlgorithm::Hs512)
        } else {
            Err(VerificationError::UnsupportedAlgorithm { algorithm: owned(algorithm) })
        }
    }

    /// The position of the first key of the set whose key id is `kid`, or
    /// `JwkNotFound` with `kid` when there is none.
    pub fn find_jwk(keys: &Vec<JwkEntry>, kid: &str) -> (r: Result<usize, VerificationError>)
        ensures
            match r {
                Ok(i) => i < keys@.len() && keys@[i as int].id@ == kid@ && forall|j: int|
                    0 <= j < i ==> keys@[j].id@ != kid@,
                Err(e) => (e matches VerificationError::JwkNotFound { kid: k } && k@ == kid@) && forall|j: int|
                    0 <= j < keys@.len() ==> keys@[j].id@ != kid@,
            },
    {
        let mut i: usize = 0;
        while i < keys.len()
            invariant
                i <= keys.len(),
                forall|j: int| 0 <= j < i ==> keys@[j].id@ != kid@,
            decreases keys.len() - i,
        {
            if str_eq(keys[i].id.as_str(), kid) {
                return Ok(i);
            }
            i += 1;
        }
        Err(VerificationError::JwkNotFound { kid: owned(kid) })
    }

    /// The URL of the provider's discovery document: the discovery path
    /// joined to the issuer's base URL.
    pub fn discovery_url(issuer_base_url: &str) -> (r: Option<String>)
        ensures
            opt_view(r) == discovery_url_of(issuer_base_url@),
    {
        join_url(issuer_base_url, OIDC_DISCOVERY_PATH)
    }

    /// The discovery document must name the issuer it was fetched for (both
    /// given as URL serializations, which URLs compare by), so that an
    /// issuer cannot assume another identity: `IssuerClaimMismatch` when the
    /// two differ.
    pub fn check_discovered_issuer(discovered: &str, issuer_base_url: &str) -> (r: Result<(), VerificationError>)
        ensures
            discovered@ == issuer_base_url@ <==> r is Ok,
            r matches Err(e) ==> e is IssuerClaimMismatch,
    {
        if str_eq(discovered, issuer_base_url) {
            Ok(())
        } else {
            Err(VerificationError::IssuerClaimMismatch)
        }
    }

    /// The key under which a key is cached: the discovery URL and the key
    /// id, separated by `|`, so that two issuers using the same key id do
    /// not share a cache entry.
    pub fn jwk_cache_key(discovery_url: &str, kid: &str) -> (r: String)
        ensures
            r@ == discovery_url@ + "|"@ + kid@,
    {
        let mut s = owned(discovery_url);
        s.append("|");
        s.append(kid);
        s
    }

    /// Whether the token's issuer is acceptable.
    fn check_issuer(expected_issuer: Option<&str>, issuer: &Option<String>) -> (r: bool)
        ensures
            r == issuer_accepted(
                match expected_issuer {
                    Some(e) => Some(e@),
                    None => None,
                },
                opt_view(*issuer),
            ),
    {
        match expected_issuer {
            None => true,
            Some(expected) => {
                let exact = match issuer {
                    Some(actual) => str_eq(actual.as_str(), expected),
                    None => false,
                };
                if exact {
                    true
                } else {
                    match (parse_url(expected), issuer) {
                        (Some(expected_url), Some(actual)) => match parse_url(actual.as_str()) {
                            Some(actual_url) => str_eq(expected_url.as_str(), actual_url.as_str()),
                            None => false,
                        },
                        _ => false,
                    }
                }
            },
        }
    }

    /// The groups held by the value found under the groups claim (each once,
    /// in the order they first appear), or `InvalidGroups` with the claim.
    pub fn extract_groups(claim: &str, found: &Result<Option<JsonValue>, ()>) -> (r: Result<Vec<String>, VerificationError>)
        ensures
            match groups_of(found_view(*found)) {
                Some(g) => r matches Ok(v) && string_set(v@) == g && distinct_strings(v@),
                None => r matches Err(VerificationError::InvalidGroups { claim: c }) && c@ == claim@,
            },
    {
        match found {
            Ok(None) => {
                let v: Vec<String> = Vec::new();
                assert(string_set(v@) =~= Set::empty());
                Ok(v)
            },
            Ok(Some(JsonValue::Null)) => {
                let v: Vec<String> = Vec::new();
                assert(string_set(v@) =~= Set::empty());
                Ok(v)
            },
            Ok(Some(JsonValue::Array(items))) => {
                let ghost vs = match found_view(*found) {
                    Ok(Some(JsonView::Array(vs))) => vs,
                    _ => Seq::empty(),
                };
                assert(vs.len() == items@.len());
                assert forall|i: int| 0 <= i < vs.len() implies vs[i] == (#[trigger] items@[i])@ by {
                }
                if items.len() == 1 && matches!(items[0], JsonValue::Null) {
                    assert(vs =~= seq![JsonView::Null]);
                    let v: Vec<String> = Vec::new();
                    assert(string_set(v@) =~= Set::empty());
                    return Ok(v);
                }
                assert(vs != seq![JsonView::Null]) by {
                    if vs == seq![JsonView::Null] {
                        assert(vs[0] == items@[0]@);
                    }
                }
                let mut out: Vec<String> = Vec::new();
                let mut i: usize = 0;
                while i < items.len()
                    invariant
                        i <= items.len(),
                        vs.len() == items@.len(),
                        found_view(*found) == Ok::<Option<JsonView>, ()>(Some(JsonView::Array(vs))),
                        vs != seq![JsonView::Null],
                        forall|k: int| 0 <= k < vs.len() ==> vs[k] == (#[trigger] items@[k])@,
                        forall|k: int| 0 <= k < i ==> (#[trigger] vs[k]) is String,
                        distinct_strings(out@),
                        forall|g: Seq<char>| string_set(out@).contains(g) <==> exists|k: int| 0 <= k < i && vs[k] == JsonView::String(g),
                    decreases items.len() - i,
                {
                    match &items[i] {
                        JsonValue::String(group) => {
                            assert(vs[i as int] == JsonView::String(group@));
                            let mut seen = false;
                            let mut j: usize = 0;
                            while j < out.len()
                                invariant
                                    j <= out.len(),
                                    !seen ==> forall|k: int| 0 <= k < j ==> out@[k]@ != group@,
                                    seen ==> exists|k: int| 0 <= k < out@.len() && out@[k]@ == group@,
                                decreases out.len() - j,
                            {
                                if str_eq(out[j].as_str(), group.as_str()) {
                                    seen = true;
                                }
                                j += 1;
                            }
                            if !seen {
                                let ghost before = out@;
                                out.push(group.clone());
                                assert forall|a: int, b: int| 0 <= a < b < out@.len() implies out@[a]@ != out@[b]@ by {
                                    if b < before.len() {
                                        assert(before[a] == out@[a] && before[b] == out@[b]);
                                    }
                                }
                                assert forall|g: Seq<char>| string_set(out@).contains(g) <==> exists|k: int| 0 <= k < i + 1 && vs[k] == JsonView::String(g) by {
                                    if string_set(out@).contains(g) {
                                        let w = choose|w: int| 0 <= w < out@.len() && out@[w]@ == g;
                                        if w < before.len() {
                                            assert(string_set(before).contains(g));
                                        }
                                    }
                                    if exists|k: int| 0 <= k < i + 1 && vs[k] == JsonView::String(g) {
                                        let k = choose|k: int| 0 <= k < i + 1 && vs[k] == JsonView::String(g);
                                        if k < i {
                                            assert(string_set(before).contains(g));
                                            let w = choose|w: int| 0 <= w < before.len() && before[w]@ == g;
                                            assert(out@[w] == before[w]);
                                        } else {
                                            assert(out@[before.len() as int]@ == g);
                                        }
                                    }
                                }
                            } else {
                                assert forall|g: Seq<char>| string_set(out@).contains(g) <==> exists|k: int| 0 <= k < i + 1 && vs[k] == JsonView::String(g) by {
                                    if exists|k: int| 0 <= k < i + 1 && vs[k] == JsonView::String(g) {
                                        let k = choose|k: int| 0 <= k < i + 1 && vs[k] == JsonView::String(g);
                                        if k == i {
                                            let w = choose|w: int| 0 <= w < out@.len() && out@[w]@ == group@;
                                            assert(string_set(out@).contains(g));
                                        }
                                    }
                                }
                            }
                        },
                        _ => {
                            assert(!(vs[i as int] is String));
                            return Err(VerificationError::InvalidGroups { claim: owned(claim) });
                        },
                    }
                    i += 1;
                }
                assert(string_set(out@) =~= Set::new(|g: Seq<char>| exists|k: int| 0 <= k < vs.len() && vs[k] == JsonView::String(g)));
                Ok(out)
            },
            _ => {
                proof {
                    match found_view(*found) {
                        Ok(Some(v)) => {
                            assert(!(v is Null) && !(v is Array));
                        },
                        _ => {
                        },
                    }
                }
                Err(VerificationError::InvalidGroups { claim: owned(claim) })
            },
        }
    }

    /// Check the claims of a token whose signature was verified, in order:
    /// the issuer (when one is expected), the expiration, the maturity time
    /// (when present), the issue time, the audience (when a client id is
    /// configured), and the groups (when a groups claim is configured,
    /// `groups_found` holds what was found under it). The first failing
    /// check gives the error; when all pass, the token's subject and groups.
    /// `None` where `chrono` panics: the maturity time minus the leeway, or
    /// the clock plus the leeway, leaves its range when it is computed.
    pub fn check_claims(
        &self,
        claims: &TokenClaims,
        groups_found: &Result<Option<JsonValue>, ()>,
        expected_issuer: Option<&str>,
        now: Timestamp,
    ) -> (r: Option<Result<VerifiedToken, VerificationError>>)
        requires
            valid_timestamp(now),
            valid_leeway(self.leeway_secs),
            claim_times_valid(claims@),
        ensures
            checks_outcome(self, claims@, found_view(*groups_found), str_opt_view(expected_issuer), now, r),
    {
        if !Self::check_issuer(expected_issuer, &claims.issuer) {
            return Some(Err(VerificationError::IssuerClaimMismatch));
        }
        match jwt_validate_expiration(claims.expiration, now, self.leeway_secs) {
            Ok(()) => {},
            Err(e) => {
                return Some(Err(VerificationError::Integrity(e)));
            },
        }
        if let Some(n) = claims.not_before {
            if !in_utc_range_exec(n as i128 - self.leeway_secs as i128) {
                return None;
            }
            match jwt_validate_maturity(claims.not_before, now, self.leeway_secs) {
                Ok(()) => {},
                Err(e) => {
                    return Some(Err(VerificationError::Integrity(e)));
                },
            }
        }
        let issue_time_ok = match claims.issued_at {
            Some(issued_at) => {
                if !in_utc_range_exec(now.secs as i128 + self.leeway_secs as i128) {
                    return None;
                }
                issued_at <= now.secs + self.leeway_secs
            },
            None => false,
        };
        if !issue_time_ok {
            return Some(Err(VerificationError::InvalidIssueTime));
        }
        match &self.client_id {
            Some(client_id) => {
                let mut found = false;
                let mut i: usize = 0;
                while i < claims.audience.len()
                    invariant
                        i <= claims.audience@.len(),
                        found <==> exists|k: int| 0 <= k < i && claims.audience@[k]@ == client_id@,
                        strs_view(claims.audience@).len() == claims.audience@.len(),
                        forall|k: int| 0 <= k < claims.audience@.len() ==> #[trigger] strs_view(claims.audience@)[k] == claims.audience@[k]@,
                    decreases claims.audience.len() - i,
                {
                    if str_eq(claims.audience[i].as_str(), client_id.as_str()) {
                        found = true;
                    }
                    i += 1;
                }
                proof {
                    if found {
                        let k = choose|k: int| 0 <= k < i && claims.audience@[k]@ == client_id@;
                        assert(strs_view(claims.audience@)[k] == client_id@);
                    } else {
                        assert forall|k: int| 0 <= k < strs_view(claims.audience@).len() implies strs_view(
                            claims.audience@,
                        )[k] != client_id@ by {
                            assert(claims.audience@[k]@ != client_id@);
                        }
                    }
                }
                if !found {
                    return Some(Err(VerificationError::InvalidAudience));
                }
            },
            None => {},
        }
        let groups = match &self.groups_claim {
            Some(claim) => match Self::extract_groups(claim.as_str(), groups_found) {
                Ok(g) => g,
                Err(e) => {
                    return Some(Err(e));
                },
            },
            None => Vec::new(),
        };
        let identity = match &claims.subject {
            Some(s) => Some(s.clone()),
            None => None,
        };
        Some(Ok(VerifiedToken { identity, groups }))
    }
}

/// Keys are cached under the discovery URL as well as the key id, so that
/// two issuers using the same key id never share a cache entry: for one key
/// id, different discovery URLs give different cache keys.
pub proof fn lemma_cache_key_separates_issuers(d1: Seq<char>, d2: Seq<char>, kid: Seq<char>)
    requires
        d1 != d2,
    ensures
        d1 + "|"@ + kid != d2 + "|"@ + kid,
{
    let suffix = "|"@ + kid;
    assert(d1 + "|"@ + kid =~= d1 + suffix);
    assert(d2 + "|"@ + kid =~= d2 + suffix);
    if d1 + suffix == d2 + suffix {
        if d1.len() == d2.len() {
            assert forall|i: int| 0 <= i < d1.len() implies d1[i] == d2[i] by {
                assert((d1 + suffix)[i] == (d2 + suffix)[i]);
            }
            assert(d1 =~= d2);
        } else {
            assert((d1 + suffix).len() != (d2 + suffix).len());
        }
    }
}

#[verifier::external_type_specification]
#[verifier::external_body]
pub struct ExValidationError(jwt_compact::ValidationError);

/// What checking a token's signature gives.
#[derive(Debug)]
pub enum SignatureOutcome {
    /// The text is no token.
    InvalidToken,
    /// The key cannot be used as an RSA key of sufficient strength.
    JwkFormat,
    /// The token failed validation before its signature was checked (its
    /// signature or claims cannot be read), with this error.
    Invalid(ValidationError),
    /// The token's claims were read, and the signature does not verify.
    BadSignature,
    /// The signature verifies.
    Valid,
}

/// Mathematical model of a [`SignatureOutcome`].
pub enum SignatureOutcomeView {
    InvalidToken,
    JwkFormat,
    Invalid,
    BadSignature,
    Valid,
}

impl View for SignatureOutcome {
    type V = SignatureOutcomeView;

    open spec fn view(&self) -> SignatureOutcomeView {
        match self {
            SignatureOutcome::InvalidToken => SignatureOutcomeView::InvalidToken,
            SignatureOutcome::JwkFormat => SignatureOutcomeView::JwkFormat,
            SignatureOutcome::Invalid(_) => SignatureOutcomeView::Invalid,
            SignatureOutcome::BadSignature => SignatureOutcomeView::BadSignature,
            SignatureOutcome::Valid => SignatureOutcomeView::Valid,
        }
    }
}

/// What `jwt_compact` gives for a token checked with an HMAC algorithm and a
/// key: no token, a failed validation, a bad signature, or a valid one.
pub uninterp spec fn hs_token_check(token: Seq<char>, alg: HsAlgorithm, key: Seq<u8>) -> SignatureOutcomeView;

/// What `jwt_compact` gives for a token checked with the RSA algorithm of
/// that name and a key given as JSON: no token, an unusable key, a failed
/// validation, a bad signature, or a valid one.
pub uninterp spec fn rsa_token_check(token: Seq<char>, alg: Seq<char>, key_json: Seq<char>) -> SignatureOutcomeView;

/// Calls `UntrustedToken::new` and validates the token with
/// `Hs256`/`Hs384`/`Hs512` and the key made from the bytes
/// (`validator().validate()`, claims read as `Claims<Value>`), telling the
/// `InvalidSignature` error apart from the others. Nothing more is claimed
/// than that the outcome is a function of the token, algorithm and key
/// (named `hs_token_check`).
#[verifier::external_body]
fn check_hs_token(token: &str, alg: HsAlgorithm, key: &[u8]) -> (r: SignatureOutcome)
    ensures
        r@ == hs_token_check(token@, alg, key@),
{
    let Ok(t) = UntrustedToken::new(token) else { return SignatureOutcome::InvalidToken };
    let v = match alg {
        HsAlgorithm::Hs256 => Hs256.validator::<Value>(&key.into()).validate(&t),
        HsAlgorithm::Hs384 => Hs384.validator::<Value>(&key.into()).validate(&t),
        HsAlgorithm::Hs512 => Hs512.validator::<Value>(&key.into()).validate(&t),
    };
    match v {
        Ok(_) => SignatureOutcome::Valid,
        Err(ValidationError::InvalidSignature) => SignatureOutcome::BadSignature,
        Err(e) => SignatureOutcome::Invalid(e),
    }
}

/// Calls `UntrustedToken::new`, reads the key (`JsonWebKey` from JSON,
/// `RsaPublicKey::try_from`, `StrongKey::try_from`) and validates the token
/// with `StrongAlg(Rsa::with_name(alg))` (`validator().validate()`, claims
/// read as `Claims<Value>`), telling the `InvalidSignature` error apart
/// from the others. `with_name` panics on a name that is no RSA
/// algorithm's, which `requires` leaves out. Nothing more is claimed than
/// that the outcome is a function of the token, algorithm name and key
/// (named `rsa_token_check`).
#[verifier::external_body]
fn check_rsa_token(token: &str, alg: &str, key_json: &str) -> (r: SignatureOutcome)
    requires
        rsa_algorithm_of(alg@) is Some,
    ensures
        r@ == rsa_token_check(token@, alg@, key_json@),
{
    let Ok(t) = UntrustedToken::new(token) else { return SignatureOutcome::InvalidToken };
    let k = serde_json::from_str::<JsonWebKey>(key_json).ok().and_then(|j| RsaPublicKey::try_from(&j).ok());
    let Some(Ok(k)) = k.map(StrongKey::try_from) else { return SignatureOutcome::JwkFormat };
    match StrongAlg(Rsa::with_name(alg)).validator::<Value>(&k).validate(&t) {
        Ok(_) => SignatureOutcome::Valid,
        Err(ValidationError::InvalidSignature) => SignatureOutcome::BadSignature,
        Err(e) => SignatureOutcome::Invalid(e),
    }
}

/// What a token's claims are, read without checking its signature
/// (`UntrustedToken::deserialize_claims_unchecked::<Value>`), as the JSON
/// text `serde_json` writes for them: the time claims `exp`, `nbf` and
/// `iat` as integers, then the other claims; nothing when the text is no
/// token or its claims cannot be read.
pub uninterp spec fn jwt_claims_text(token: Seq<char>) -> Option<Seq<char>>;

/// Calls `UntrustedToken::new`, reads the claims with
/// `deserialize_claims_unchecked::<Value>` and writes them with
/// `serde_json::to_string`. Nothing more is claimed than that the result is
/// a function of the token (named `jwt_claims_text`).
#[verifier::external_body]
fn token_claims_text(token: &str) -> (r: Option<String>)
    ensures
        opt_view(r) == jwt_claims_text(token@),
{
    let t = UntrustedToken::new(token).ok()?;
    let c = t.deserialize_claims_unchecked::<Value>().ok()?;
    serde_json::to_string(&c).ok()
}

/// Gives the library's form of a `jwt_compact::ValidationError`, variant by
/// variant (the texts of malformed signatures and claims are the errors'
/// `Display`). Nothing is claimed of the result.
#[verifier::external_body]
fn integrity_error(e: ValidationError) -> (r: IntegrityError) {
    match e {
        ValidationError::AlgorithmMismatch { expected, actual } => IntegrityError::AlgorithmMismatch { expected, actual },
        ValidationError::InvalidSignatureLen { expected, actual } => IntegrityError::InvalidSignatureLen { expected_len: expected, actual_len: actual },
        ValidationError::MalformedSignature(e) => IntegrityError::MalformedSignature(e.to_string()),
        ValidationError::InvalidSignature => IntegrityError::InvalidSignature,
        ValidationError::MalformedClaims(e) => IntegrityError::MalformedClaims(e.to_string()),
        ValidationError::NoClaim(jwt_compact::Claim::Expiration) => IntegrityError::NoClaim(Claim::Expiration),
        ValidationError::NoClaim(jwt_compact::Claim::NotBefore) => IntegrityError::NoClaim(Claim::NotBefore),
        ValidationError::Expired => IntegrityError::Expired,
        ValidationError::NotMature => IntegrityError::NotMature,
        other => IntegrityError::Other(other.to_string()),
    }
}

/// What `json_dotpath`'s `dot_get::<serde_json::Value>` finds under a path
/// in the JSON document `doc`: the JSON text of what is found, nothing, or
/// an error (also when `doc` is no JSON).
pub uninterp spec fn json_dot_get(doc: Seq<char>, path: Seq<char>) -> Result<Option<Seq<char>>, ()>;

pub open spec fn found_text_view(r: Result<Option<String>, ()>) -> Result<Option<Seq<char>>, ()> {
    match r {
        Ok(Some(t)) => Ok(Some(t@)),
        Ok(None) => Ok(None),
        Err(()) => Err(()),
    }
}

/// Reads the document with `serde_json::from_str` and calls
/// `DotPaths::dot_get::<serde_json::Value>` with the path, giving what is
/// found as JSON text. Nothing more is claimed than that the result is a
/// function of the document and the path (named `json_dot_get`).
#[verifier::external_body]
fn dot_get_text(doc: &str, path: &str) -> (r: Result<Option<String>, ()>)
    ensures
        found_text_view(r) == json_dot_get(doc@, path@),
{
    let v = serde_json::from_str::<serde_json::Value>(doc).map_err(|_| ())?;
    json_dotpath::DotPaths::dot_get::<serde_json::Value>(&v, path).map(|f| f.map(|x| x.to_string())).map_err(|_| ())
}

/// What `jwt_compact::UntrustedToken::new` reads from a token's text: the
/// algorithm and key id of its header, or nothing when the text is no
/// token.
pub uninterp spec fn jwt_header(token: Seq<char>) -> Option<(Seq<char>, Option<Seq<char>>)>;

pub open spec fn header_view(h: Option<(String, Option<String>)>) -> Option<(Seq<char>, Option<Seq<char>>)> {
    match h {
        Some((alg, kid)) => Some((alg@, opt_view(kid))),
        None => None,
    }
}

/// Calls `jwt_compact::UntrustedToken::new` and gives the header's
/// algorithm and key id. Nothing more is claimed than that the result is a
/// function of the token's text (named `jwt_header`).
#[verifier::external_body]
pub(crate) fn token_header(token: &str) -> (r: Option<(String, Option<String>)>)
    ensures
        header_view(r) == jwt_header(token@),
{
    match UntrustedToken::new(token) {
        Ok(t) => Some((t.algorithm().to_string(), t.header().key_id.clone())),
        Err(_) => None,
    }
}

/// A string claim (`iss`, `sub`): absent or `null` is none, a string is
/// itself, anything else cannot be read.
pub open spec fn string_claim(v: Option<JsonView>) -> Result<Option<Seq<char>>, ()> {
    match v {
        None => Ok(None),
        Some(JsonView::Null) => Ok(None),
        Some(JsonView::String(s)) => Ok(Some(s)),
        _ => Err(()),
    }
}

/// The strings of a list of JSON values that are all strings.
pub open spec fn string_items(items: Seq<JsonView>) -> Seq<Seq<char>> {
    Seq::new(
        items.len(),
        |i: int|
            match items[i] {
                JsonView::String(s) => s,
                _ => Seq::empty(),
            },
    )
}

/// The `aud` claim, one string or a list of strings: absent is no
/// audience; anything else cannot be read.
pub open spec fn audience_claim(v: Option<JsonView>) -> Result<Seq<Seq<char>>, ()> {
    match v {
        None => Ok(Seq::empty()),
        Some(JsonView::String(s)) => Ok(seq![s]),
        Some(JsonView::Array(items)) => if forall|i: int| 0 <= i < items.len() ==> (#[trigger] items[i]) is String {
            Ok(string_items(items))
        } else {
            Err(())
        },
        _ => Err(()),
    }
}

/// The value of a run of decimal digits.
pub open spec fn digits_value(s: Seq<char>) -> int
    decreases s.len(),
{
    if s.len() == 0 {
        0
    } else {
        digits_value(s.drop_last()) * 10 + ((s.last() as u32) - ('0' as u32))
    }
}

/// The integer a JSON number's text writes, when it is digits after an
/// optional minus sign.
pub open spec fn decimal_value(t: Seq<char>) -> Option<int> {
    if t.len() > 0 && t[0] == '-' {
        if all_digits(t.drop_first()) {
            Some(-digits_value(t.drop_first()))
        } else {
            None
        }
    } else if all_digits(t) {
        Some(digits_value(t))
    } else {
        None
    }
}

/// The second a JSON number's text writes, when it is an integer that
/// `DateTime<Utc>` can hold.
pub open spec fn utc_seconds_of(t: Seq<char>) -> Option<i64> {
    match decimal_value(t) {
        Some(n) => if in_utc_range(n) {
            Some(n as i64)
        } else {
            None
        },
        None => None,
    }
}

/// A time claim (`exp`, `nbf`, `iat`): absent is none, an integer second
/// `DateTime<Utc>` can hold is itself, anything else cannot be read.
pub open spec fn time_claim(v: Option<JsonView>) -> Result<Option<i64>, ()> {
    match v {
        None => Ok(None),
        Some(JsonView::Number(t)) => match utc_seconds_of(t) {
            Some(n) => Ok(Some(n)),
            None => Err(()),
        },
        _ => Err(()),
    }
}

/// The claim of that name among a token's claims (its first field of the
/// name).
#[verifier::opaque]
pub open spec fn claim_of(claims: JsonView, name: Seq<char>) -> Option<JsonView> {
    json_field(claims, name)
}

/// The registered claims of a token's claims: nothing when they are no
/// object or one of `exp`, `nbf`, `iat`, `iss`, `sub` and `aud` cannot be
/// read.
pub open spec fn token_claims_of(claims: JsonView) -> Option<TokenClaimsView> {
    if !(claims is Object) {
        None
    } else {
        match (
            time_claim(claim_of(claims, "exp"@)),
            time_claim(claim_of(claims, "nbf"@)),
            time_claim(claim_of(claims, "iat"@)),
            string_claim(claim_of(claims, "iss"@)),
            string_claim(claim_of(claims, "sub"@)),
            audience_claim(claim_of(claims, "aud"@)),
        ) {
            (Ok(expiration), Ok(not_before), Ok(issued_at), Ok(issuer), Ok(subject), Ok(audience)) => Some(
                TokenClaimsView { expiration, not_before, issued_at, issuer, subject, audience },
            ),
            _ => None,
        }
    }
}

/// A claim read into the registered claims.
pub open spec fn is_registered(name: Seq<char>) -> bool {
    name == "exp"@ || name == "nbf"@ || name == "iat"@ || name == "iss"@ || name == "sub"@ || name == "aud"@
}

pub open spec fn unregistered_fields(fields: Seq<(Seq<char>, JsonView)>) -> Seq<(Seq<char>, JsonView)>
    decreases fields.len(),
{
    if fields.len() == 0 {
        Seq::empty()
    } else if is_registered(fields[0].0) {
        unregistered_fields(fields.drop_first())
    } else {
        seq![fields[0]] + unregistered_fields(fields.drop_first())
    }
}

/// The claims other than the registered ones.
pub open spec fn extra_claims(claims: JsonView) -> JsonView {
    match claims {
        JsonView::Object(fields) => JsonView::Object(unregistered_fields(fields)),
        other => other,
    }
}

/// What is found under the groups claim `path` among the other claims: as
/// `json_dotpath` finds it in their JSON text, read back as a value; an
/// error when it cannot be looked up.
pub open spec fn groups_found_in(claims: JsonView, path: Seq<char>) -> Result<Option<JsonView>, ()> {
    match json_text(extra_claims(claims)) {
        None => Err(()),
        Some(doc) => match json_dot_get(doc, path) {
            Err(()) => Err(()),
            Ok(None) => Ok(None),
            Ok(Some(t)) => match parse_json_text(t) {
                Some(v) => Ok(Some(v)),
                None => Err(()),
            },
        },
    }
}

/// What the client's groups claim finds among the claims.
pub open spec fn client_groups(client: &Client, claims: JsonView) -> Result<Option<JsonView>, ()> {
    match client.groups_claim {
        Some(c) => groups_found_in(claims, c@),
        None => Ok(None),
    }
}

/// The outcome is a malformed-claims integrity error.
pub open spec fn malformed(r: Option<Result<VerifiedToken, VerificationError>>) -> bool {
    r matches Some(Err(VerificationError::Integrity(IntegrityError::MalformedClaims(_))))
}

/// What checking a token's claims (a JSON value, as `jwt_compact` writes
/// them) gives: a malformed-claims integrity error when the registered
/// claims cannot be read; else what `checks_outcome` says, with the groups
/// found under the configured groups claim.
pub open spec fn claims_outcome(
    client: &Client,
    claims: JsonView,
    expected: Option<Seq<char>>,
    now: Timestamp,
    r: Option<Result<VerifiedToken, VerificationError>>,
) -> bool {
    match token_claims_of(claims) {
        None => malformed(r),
        Some(tc) => checks_outcome(client, tc, client_groups(client, claims), expected, now, r),
    }
}

/// The claims text, read as a value whose registered claims can be read.
pub open spec fn readable_claims(text: Option<Seq<char>>) -> Option<JsonView> {
    match text {
        Some(t) => match parse_json_text(t) {
            Some(c) => if token_claims_of(c) is Some {
                Some(c)
            } else {
                None
            },
            None => None,
        },
        None => None,
    }
}

/// What a signature check's outcome ends with, given the token's claims
/// text: `InvalidToken`, `JwkFormat`, or an integrity error for a failed
/// validation; for a bad signature, a malformed-claims error when the
/// registered claims cannot be read (they are read first) and else
/// `InvalidSignature`; for a valid one, a malformed-claims error likewise,
/// nothing when the clock or the leeway is no `chrono` time, else what
/// checking the claims gives.
pub open spec fn signed_verdict(
    client: &Client,
    o: SignatureOutcomeView,
    claims_text: Option<Seq<char>>,
    expected: Option<Seq<char>>,
    now: Timestamp,
    r: Option<Result<VerifiedToken, VerificationError>>,
) -> bool {
    match o {
        SignatureOutcomeView::InvalidToken => r matches Some(Err(e)) && e is InvalidToken,
        SignatureOutcomeView::JwkFormat => r matches Some(Err(e)) && e is JwkFormat,
        SignatureOutcomeView::Invalid => r matches Some(Err(e)) && e is Integrity,
        SignatureOutcomeView::BadSignature => match readable_claims(claims_text) {
            None => malformed(r),
            Some(_) => r matches Some(Err(VerificationError::Integrity(IntegrityError::InvalidSignature))),
        },
        SignatureOutcomeView::Valid => match readable_claims(claims_text) {
            None => malformed(r),
            Some(c) => if valid_timestamp(now) && valid_leeway(client.leeway_secs) {
                claims_outcome(client, c, expected, now, r)
            } else {
                r is None
            },
        },
    }
}

fn string_claim_exec(v: Option<&JsonValue>) -> (r: Result<Option<String>, ()>)
    ensures
        match (r, string_claim(match v {
            Some(x) => Some(x@),
            None => None,
        })) {
            (Ok(a), Ok(b)) => opt_view(a) == b,
            (Err(()), Err(())) => true,
            _ => false,
        },
{
    match v {
        None => Ok(None),
        Some(JsonValue::Null) => Ok(None),
        Some(JsonValue::String(s)) => Ok(Some(s.clone())),
        Some(_) => Err(()),
    }
}

fn audience_claim_exec(v: Option<&JsonValue>) -> (r: Result<Vec<String>, ()>)
    ensures
        match (r, audience_claim(match v {
            Some(x) => Some(x@),
            None => None,
        })) {
            (Ok(a), Ok(b)) => strs_view(a@) == b,
            (Err(()), Err(())) => true,
            _ => false,
        },
{
    match v {
        None => {
            let a: Vec<String> = Vec::new();
            assert(strs_view(a@) =~= Seq::<Seq<char>>::empty());
            Ok(a)
        },
        Some(JsonValue::String(s)) => {
            let mut a: Vec<String> = Vec::new();
            a.push(s.clone());
            assert(strs_view(a@) =~= seq![s@]);
            Ok(a)
        },
        Some(JsonValue::Array(items)) => {
            let ghost vs = match json_view(JsonValue::Array(*items)) {
                JsonView::Array(vs) => vs,
                _ => Seq::empty(),
            };
            assert(vs.len() == items@.len());
            assert forall|k: int| 0 <= k < vs.len() implies vs[k] == (#[trigger] items@[k])@ by {}
            assert(v.unwrap()@ == JsonView::Array(vs));
            let mut a: Vec<String> = Vec::new();
            let mut i: usize = 0;
            while i < items.len()
                invariant
                    v matches Some(x) && x@ == JsonView::Array(vs),
                    i <= items@.len(),
                    vs.len() == items@.len(),
                    forall|k: int| 0 <= k < vs.len() ==> vs[k] == (#[trigger] items@[k])@,
                    a@.len() == i,
                    forall|k: int| 0 <= k < i ==> (#[trigger] vs[k]) is String,
                    forall|k: int| 0 <= k < i ==> (#[trigger] strs_view(a@)[k]) == string_items(vs)[k],
                decreases items.len() - i,
            {
                match &items[i] {
                    JsonValue::String(x) => {
                        assert(vs[i as int] == JsonView::String(x@));
                        let ghost before = a@;
                        a.push(x.clone());
                        assert forall|k: int| 0 <= k < i + 1 implies (#[trigger] strs_view(a@)[k]) == string_items(
                            vs,
                        )[k] by {
                            if k < i {
                                assert(strs_view(a@)[k] == strs_view(before)[k]);
                            }
                        }
                    },
                    _ => {
                        assert(!(vs[i as int] is String));
                        return Err(());
                    },
                }
                i += 1;
            }
            assert(strs_view(a@) =~= string_items(vs));
            Ok(a)
        },
        Some(_) => Err(()),
    }
}

fn extra_claims_exec(custom: &JsonValue) -> (r: JsonValue)
    ensures
        r@ == extra_claims(custom@),
{
    match custom {
        JsonValue::Object(fields) => {
            let ghost fs = match custom@ {
                JsonView::Object(fs) => fs,
                _ => Seq::empty(),
            };
            assert(fs.len() == fields@.len());
            let mut out: Vec<(String, JsonValue)> = Vec::new();
            let mut i: usize = 0;
            assert(fs.skip(0) =~= fs);
            assert(out@.map_values(|e: (String, JsonValue)| (e.0@, e.1@)) =~= Seq::<(Seq<char>, JsonView)>::empty());
            while i < fields.len()
                invariant
                    i <= fields@.len(),
                    fs.len() == fields@.len(),
                    forall|k: int| 0 <= k < fs.len() ==> fs[k] == ((#[trigger] fields@[k]).0@, fields@[k].1@),
                    unregistered_fields(fs) == out@.map_values(|e: (String, JsonValue)| (e.0@, e.1@))
                        + unregistered_fields(fs.skip(i as int)),
                decreases fields.len() - i,
            {
                let ghost rest = fs.skip(i as int);
                assert(rest.drop_first() =~= fs.skip(i + 1));
                assert(rest[0] == fs[i as int]);
                let name = fields[i].0.as_str();
                let ghost before = out@.map_values(|e: (String, JsonValue)| (e.0@, e.1@));
                if !(is_registered_exec(name)) {
                    let k = fields[i].0.clone();
                    let v = fields[i].1.duplicate();
                    out.push((k, v));
                    assert(out@.map_values(|e: (String, JsonValue)| (e.0@, e.1@)) =~= before.push(fs[i as int]));
                    assert(before + (seq![fs[i as int]] + unregistered_fields(fs.skip(i + 1))) =~= before.push(
                        fs[i as int],
                    ) + unregistered_fields(fs.skip(i + 1)));
                }
                i += 1;
            }
            assert(fs.skip(i as int) =~= Seq::<(Seq<char>, JsonView)>::empty());
            let r = JsonValue::Object(out);
            proof {
                match r@ {
                    JsonView::Object(a) => {
                        assert(a =~= out@.map_values(|e: (String, JsonValue)| (e.0@, e.1@)));
                        assert(a + Seq::<(Seq<char>, JsonView)>::empty() =~= a);
                    },
                    _ => {},
                }
            }
            r
        },
        other => other.duplicate(),
    }
}

fn groups_found_exec(custom: &JsonValue, path: &str) -> (r: Result<Option<JsonValue>, ()>)
    ensures
        found_view(r) == groups_found_in(custom@, path@),
{
    let extra = extra_claims_exec(custom);
    match extra.to_json_text() {
        None => Err(()),
        Some(doc) => match dot_get_text(doc.as_str(), path) {
            Err(()) => Err(()),
            Ok(None) => Ok(None),
            Ok(Some(t)) => match parse_json(t.as_str()) {
                Some(v) => Ok(Some(v)),
                None => Err(()),
            },
        },
    }
}

fn malformed_claims() -> (r: VerificationError)
    ensures
        r matches VerificationError::Integrity(IntegrityError::MalformedClaims(_)),
{
    VerificationError::Integrity(
        IntegrityError::MalformedClaims(owned("the `iss` and `sub` claims must be strings and `aud` one or more strings")),
    )
}

fn is_registered_exec(name: &str) -> (r: bool)
    ensures
        r == is_registered(name@),
{
    str_eq(name, "exp") || str_eq(name, "nbf") || str_eq(name, "iat") || str_eq(name, "iss") || str_eq(name, "sub")
        || str_eq(name, "aud")
}

proof fn lemma_digits_value_nonneg(s: Seq<char>)
    requires
        forall|i: int| 0 <= i < s.len() ==> '0' <= #[trigger] s[i] <= '9',
    ensures
        digits_value(s) >= 0,
    decreases s.len(),
{
    if s.len() > 0 {
        lemma_digits_value_nonneg(s.drop_last());
    }
}

/// A run of digits is worth at least any of its prefixes.
proof fn lemma_digits_value_prefix(s: Seq<char>, k: int)
    requires
        0 <= k <= s.len(),
        forall|i: int| 0 <= i < s.len() ==> '0' <= #[trigger] s[i] <= '9',
    ensures
        digits_value(s.take(k)) <= digits_value(s),
    decreases s.len(),
{
    if k == s.len() {
        assert(s.take(k) =~= s);
    } else {
        lemma_digits_value_prefix(s.drop_last(), k);
        assert(s.drop_last().take(k) =~= s.take(k));
        lemma_digits_value_nonneg(s.drop_last());
    }
}

/// Whether a second lies in the range of `DateTime<Utc>`.
fn in_utc_range_exec(x: i128) -> (r: bool)
    ensures
        r == in_utc_range(x as int),
{
    MIN_UTC_SECS as i128 <= x && x <= MAX_UTC_SECS as i128
}

/// The second a JSON number's text writes (see `utc_seconds_of`).
fn utc_seconds(t: &str) -> (r: Option<i64>)
    ensures
        r == utc_seconds_of(t@),
{
    let n = t.unicode_len();
    let neg = n > 0 && t.get_char(0) == '-';
    let start: usize = if neg {
        1
    } else {
        0
    };
    let ghost ds = t@.subrange(start as int, n as int);
    proof {
        if neg {
            assert(ds =~= t@.drop_first());
        } else {
            assert(ds =~= t@);
        }
    }
    if start >= n {
        assert(!all_digits(ds));
        return None;
    }
    let mut acc: u64 = 0;
    let mut i: usize = start;
    assert(t@.subrange(start as int, start as int) =~= Seq::<char>::empty());
    while i < n
        invariant
            start <= i <= n,
            n == t@.len(),
            ds == t@.subrange(start as int, n as int),
            neg ==> t@.len() > 0 && t@[0] == '-',
            !neg ==> !(t@.len() > 0 && t@[0] == '-'),
            start == (if neg {
                1usize
            } else {
                0usize
            }),
            forall|k: int| start <= k < i ==> '0' <= #[trigger] t@[k] <= '9',
            acc == digits_value(t@.subrange(start as int, i as int)),
            acc <= 10_000_000_000_000u64,
        decreases n - i,
    {
        let c = t.get_char(i);
        if !('0' <= c && c <= '9') {
            assert(ds[i - start] == c);
            return None;
        }
        let d: u64 = (c as u32 - '0' as u32) as u64;
        let ghost before = t@.subrange(start as int, i as int);
        acc = acc * 10 + d;
        assert(t@.subrange(start as int, i + 1).drop_last() =~= before);
        assert(t@.subrange(start as int, i + 1).last() == c);
        i += 1;
        if acc > 10_000_000_000_000u64 {
            proof {
                if all_digits(ds) {
                    assert(ds.take(i - start) =~= t@.subrange(start as int, i as int));
                    lemma_digits_value_prefix(ds, i - start);
                    assert(digits_value(ds) > 10_000_000_000_000);
                    if neg {
                        assert(ds =~= t@.drop_first());
                        assert(decimal_value(t@) == Some(-digits_value(ds)));
                    } else {
                        assert(ds =~= t@);
                        assert(decimal_value(t@) == Some(digits_value(ds)));
                    }
                }
            }
            return None;
        }
    }
    assert(t@.subrange(start as int, n as int) =~= ds);
    assert(all_digits(ds));
    let v: i64 = acc as i64;
    let v: i64 = if neg {
        -v
    } else {
        v
    };
    if in_utc_range_exec(v as i128) {
        Some(v)
    } else {
        None
    }
}

fn time_claim_exec(v: Option<&JsonValue>) -> (r: Result<Option<i64>, ()>)
    ensures
        r == time_claim(
            match v {
                Some(x) => Some(x@),
                None => None,
            },
        ),
{
    match v {
        None => Ok(None),
        Some(JsonValue::Number(t)) => match utc_seconds(t.as_str()) {
            Some(n) => Ok(Some(n)),
            None => Err(()),
        },
        Some(_) => Err(()),
    }
}

fn time_claim_at(claims: &JsonValue, name: &str) -> (r: Result<Option<i64>, ()>)
    ensures
        r == time_claim(claim_of(claims@, name@)),
{
    proof {
        reveal(claim_of);
    }
    time_claim_exec(claims.get(name))
}

fn string_claim_at(claims: &JsonValue, name: &str) -> (r: Result<Option<String>, ()>)
    ensures
        match (r, string_claim(claim_of(claims@, name@))) {
            (Ok(a), Ok(b)) => opt_view(a) == b,
            (Err(()), Err(())) => true,
            _ => false,
        },
{
    proof {
        reveal(claim_of);
    }
    string_claim_exec(claims.get(name))
}

fn audience_claim_at(claims: &JsonValue, name: &str) -> (r: Result<Vec<String>, ()>)
    ensures
        match (r, audience_claim(claim_of(claims@, name@))) {
            (Ok(a), Ok(b)) => strs_view(a@) == b,
            (Err(()), Err(())) => true,
            _ => false,
        },
{
    proof {
        reveal(claim_of);
    }
    audience_claim_exec(claims.get(name))
}

/// The registered claims of a token's claims (see `token_claims_of`).
fn token_claims_exec(claims: &JsonValue) -> (r: Option<TokenClaims>)
    ensures
        match token_claims_of(claims@) {
            Some(v) => r matches Some(x) && x@ == v,
            None => r is None,
        },
{
    if !matches!(claims, JsonValue::Object(_)) {
        return None;
    }
    let expiration = match time_claim_at(claims, "exp") {
        Ok(x) => x,
        Err(()) => {
            return None;
        },
    };
    let not_before = match time_claim_at(claims, "nbf") {
        Ok(x) => x,
        Err(()) => {
            return None;
        },
    };
    let issued_at = match time_claim_at(claims, "iat") {
        Ok(x) => x,
        Err(()) => {
            return None;
        },
    };
    let issuer = match string_claim_at(claims, "iss") {
        Ok(x) => x,
        Err(()) => {
            return None;
        },
    };
    let subject = match string_claim_at(claims, "sub") {
        Ok(x) => x,
        Err(()) => {
            return None;
        },
    };
    let audience = match audience_claim_at(claims, "aud") {
        Ok(x) => x,
        Err(()) => {
            return None;
        },
    };
    Some(TokenClaims { expiration, not_before, issued_at, issuer, subject, audience })
}

/// The claims text, read as a value whose registered claims can be read.
fn readable_claims_exec(text: Option<String>) -> (r: Option<JsonValue>)
    ensures
        opt_json_view(r) == readable_claims(opt_view(text)),
{
    match text {
        None => None,
        Some(t) => match parse_json(t.as_str()) {
            None => None,
            Some(c) => {
                if token_claims_exec(&c).is_some() {
                    Some(c)
                } else {
                    None
                }
            },
        },
    }
}

impl Client {
    /// Check a token's claims, given as the JSON value `jwt_compact` writes
    /// for them: the registered claims are read (a malformed-claims
    /// integrity error when they cannot be), the groups are looked up under
    /// the configured groups claim among the other claims, and then the
    /// checks of `check_claims` run.
    pub fn verify_claims(&self, claims: &JsonValue, expected_issuer: Option<&str>, now: Timestamp) -> (r: Option<
        Result<VerifiedToken, VerificationError>,
    >)
        requires
            valid_timestamp(now),
            valid_leeway(self.leeway_secs),
        ensures
            claims_outcome(self, claims@, str_opt_view(expected_issuer), now, r),
    {
        let token_claims = match token_claims_exec(claims) {
            Some(c) => c,
            None => {
                return Some(Err(malformed_claims()));
            },
        };
        let groups_found = match &self.groups_claim {
            Some(path) => groups_found_exec(claims, path.as_str()),
            None => Ok(None),
        };
        self.check_claims(&token_claims, &groups_found, expected_issuer, now)
    }

    /// The outcome of checking the signature of `token`, concluded: its
    /// error, or (the claims read first) what checking the claims gives;
    /// `None` where `chrono` would panic.
    pub fn conclude(&self, token: &str, outcome: SignatureOutcome, expected_issuer: Option<&str>, now: Timestamp) -> (r:
        Option<Result<VerifiedToken, VerificationError>>)
        ensures
            signed_verdict(self, outcome@, jwt_claims_text(token@), str_opt_view(expected_issuer), now, r),
    {
        match outcome {
            SignatureOutcome::InvalidToken => Some(Err(VerificationError::InvalidToken)),
            SignatureOutcome::JwkFormat => Some(Err(VerificationError::JwkFormat)),
            SignatureOutcome::Invalid(e) => Some(Err(VerificationError::Integrity(integrity_error(e)))),
            SignatureOutcome::BadSignature => match readable_claims_exec(token_claims_text(token)) {
                None => Some(Err(malformed_claims())),
                Some(_) => Some(Err(VerificationError::Integrity(IntegrityError::InvalidSignature))),
            },
            SignatureOutcome::Valid => match readable_claims_exec(token_claims_text(token)) {
                None => Some(Err(malformed_claims())),
                Some(c) => {
                    let valid_now = in_utc_range_exec(now.secs as i128) && now.nanos < 1_000_000_000;
                    if !(valid_now && -MAX_DELTA_SECS <= self.leeway_secs && self.leeway_secs <= MAX_DELTA_SECS) {
                        return None;
                    }
                    self.verify_claims(&c, expected_issuer, now)
                },
            },
        }
    }

    /// Verify a token signed with HMAC + SHA (HS256, HS384 or HS512) with
    /// the signing key: `InvalidToken` when the text is no token,
    /// `UnsupportedAlgorithm` for another algorithm, an integrity error when
    /// the token does not validate, else what checking its claims gives;
    /// `None` where `chrono` would panic.
    pub fn verify_hs_token(&self, token: &str, expected_issuer: &str, signing_key: &[u8], now: Timestamp) -> (r: Option<
        Result<VerifiedToken, VerificationError>,
    >)
        ensures
            match jwt_header(token@) {
                None => r matches Some(Err(e)) && e is InvalidToken,
                Some((alg, _)) => match hs_algorithm_of(alg) {
                    None => r matches Some(Err(VerificationError::UnsupportedAlgorithm { algorithm: a })) && a@ == alg,
                    Some(a) => signed_verdict(
                        self,
                        hs_token_check(token@, a, signing_key@),
                        jwt_claims_text(token@),
                        Some(expected_issuer@),
                        now,
                        r,
                    ),
                },
            },
    {
        match token_header(token) {
            None => Some(Err(VerificationError::InvalidToken)),
            Some((alg, _)) => match Client::get_hs_algorithm(alg.as_str()) {
                Err(e) => Some(Err(e)),
                Ok(a) => {
                    let outcome = check_hs_token(token, a, signing_key);
                    self.conclude(token, outcome, Some(expected_issuer), now)
                },
            },
        }
    }

    /// Check a token's RSA signature with a key given as JSON, and conclude.
    pub fn verify_rs_signature(
        &self,
        token: &str,
        algorithm: RsaAlgorithm,
        key_json: &str,
        expected_issuer: Option<&str>,
        now: Timestamp,
    ) -> (r: Option<Result<VerifiedToken, VerificationError>>)
        ensures
            signed_verdict(
                self,
                rsa_token_check(token@, rsa_name_of(algorithm), key_json@),
                jwt_claims_text(token@),
                str_opt_view(expected_issuer),
                now,
                r,
            ),
    {
        let outcome = check_rsa_token(token, rsa_algorithm_name(algorithm), key_json);
        self.conclude(token, outcome, expected_issuer, now)
    }
}

/// The name a token header gives the algorithm.
fn rsa_algorithm_name(algorithm: RsaAlgorithm) -> (r: &'static str)
    ensures
        r@ == rsa_name_of(algorithm),
        rsa_algorithm_of(r@) == Some(algorithm),
{
    proof {
        reveal_strlit("RS256");
        reveal_strlit("RS384");
        reveal_strlit("RS512");
    }
    assert("RS384"@ != "RS256"@ && "RS512"@ != "RS256"@ && "RS512"@ != "RS384"@) by {
        assert("RS384"@[3] != "RS256"@[3]);
        assert("RS512"@[3] != "RS256"@[3]);
        assert("RS512"@[3] != "RS384"@[3]);
    }
    match algorithm {
        RsaAlgorithm::Rs256 => "RS256",
        RsaAlgorithm::Rs384 => "RS384",
        RsaAlgorithm::Rs512 => "RS512",
    }
}

} // verus!
