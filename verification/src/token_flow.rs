//! The steps of verifying a token whose key is fetched from the identity
//! provider: a state machine that tells its host what to fetch, look up or
//! store next, and decides from what came back. The host performs the
//! requests and reads the clock; the signature is checked and every
//! decision is taken here.
use vstd::prelude::*;

use crate::jwt::{
    jwt_claims_text, jwt_header, opt_view, rsa_algorithm_of, rsa_name_of, rsa_token_check, signed_verdict, str_opt_view, token_header,
    discovery_url_of, Client, JwkEntry, RsaAlgorithm, Timestamp, VerificationError, VerifiedToken, JWKS_CACHE_TTL,
};
use crate::util::owned;

verus! {

/// The part of a provider's discovery document the verifier reads, both
/// URLs given as their serializations.
#[derive(Debug)]
pub struct DiscoveryDocument {
    pub issuer: String,
    pub jwks_uri: String,
}

/// Where a verification stands. Each state but the last holds the token.
#[derive(Debug)]
pub enum TokenFlow {
    /// Waiting for the cache lookup of the key.
    AwaitingCache {
        token: String,
        algorithm: RsaAlgorithm,
        kid: String,
        discovery_url: String,
        issuer_base_url: String,
        expected_issuer: Option<String>,
    },
    /// Waiting for the provider's discovery document.
    AwaitingDiscovery {
        token: String,
        algorithm: RsaAlgorithm,
        kid: String,
        discovery_url: String,
        issuer_base_url: String,
        expected_issuer: Option<String>,
    },
    /// Waiting for the key set; a key found is cached under the discovery
    /// URL, when there is one.
    AwaitingKeySet {
        token: String,
        algorithm: RsaAlgorithm,
        kid: String,
        cache_under: Option<String>,
        expected_issuer: Option<String>,
    },
    /// Waiting for the key to be stored in the cache.
    AwaitingCacheWrite { token: String, algorithm: RsaAlgorithm, key_json: String, expected_issuer: Option<String> },
    /// Waiting for the clock, to check the signature and the claims with the
    /// key.
    AwaitingClock { token: String, algorithm: RsaAlgorithm, key_json: String, expected_issuer: Option<String> },
    /// The verification is over.
    Finished,
}

/// What the host is asked to do next.
#[derive(Debug)]
pub enum TokenAction {
    /// Look up the key cached under `key` (answer `CacheLookedUp`).
    LookUpCache { key: String },
    /// Fetch the discovery document at `url` (answer `DiscoveryFetched`).
    FetchDiscovery { url: String },
    /// Fetch the key set at `url` (answer `KeySetFetched`).
    FetchKeySet { url: String },
    /// Store the key under `key` for `ttl_secs` seconds (answer
    /// `CacheWritten`, whatever happened).
    StoreInCache { key: String, key_json: String, ttl_secs: u64 },
    /// Read the current time (answer `ClockRead`).
    ReadClock,
    /// The verification is over, with this outcome.
    Finish(Result<VerifiedToken, VerificationError>),
    /// The token's times, the clock or the leeway leave the range of
    /// `chrono`'s times, where `chrono` panics: the host stops as it would.
    ClaimsOutOfRange,
}

/// What the host reports back.
#[derive(Debug)]
pub enum TokenEvent {
    /// The cached key, if one was found (a failed lookup finds nothing).
    CacheLookedUp(Option<String>),
    /// The discovery document, or the text of the request's failure.
    DiscoveryFetched(Result<DiscoveryDocument, String>),
    /// The key set, or the text of the request's failure.
    KeySetFetched(Result<Vec<JwkEntry>, String>),
    /// The key was stored (or storing it failed, which changes nothing).
    CacheWritten,
    /// The current time.
    ClockRead(Timestamp),
}

/// The event answers the state's request.
pub open spec fn answers(state: TokenFlow, event: TokenEvent) -> bool {
    match (state, event) {
        (TokenFlow::AwaitingCache { .. }, TokenEvent::CacheLookedUp(_)) => true,
        (TokenFlow::AwaitingDiscovery { .. }, TokenEvent::DiscoveryFetched(_)) => true,
        (TokenFlow::AwaitingKeySet { .. }, TokenEvent::KeySetFetched(_)) => true,
        (TokenFlow::AwaitingCacheWrite { .. }, TokenEvent::CacheWritten) => true,
        (TokenFlow::AwaitingClock { .. }, TokenEvent::ClockRead(_)) => true,
        _ => false,
    }
}

/// The state that waits for the clock before the signature of `token` is
/// checked with `key_json`.
pub open spec fn awaits_clock(
    r: (TokenFlow, TokenAction),
    token: Seq<char>,
    algorithm: RsaAlgorithm,
    key_json: Seq<char>,
    expected_issuer: Option<Seq<char>>,
) -> bool {
    r matches (
        TokenFlow::AwaitingClock { token: t, algorithm: a, key_json: j, expected_issuer: ei },
        TokenAction::ReadClock,
    ) && t@ == token && a == algorithm && j@ == key_json && opt_view(ei) == expected_issuer
}

/// The verification is over, with what checking the RSA signature of
/// `token` with `key_json` and then its claims at `now` gives
/// (`ClaimsOutOfRange` where `chrono` would panic).
pub open spec fn concluded(
    client: &Client,
    r: (TokenFlow, TokenAction),
    token: Seq<char>,
    algorithm: RsaAlgorithm,
    key_json: Seq<char>,
    expected_issuer: Option<Seq<char>>,
    now: Timestamp,
) -> bool {
    let o = rsa_token_check(token, rsa_name_of(algorithm), key_json);
    r.0 is Finished && match r.1 {
        TokenAction::Finish(out) => signed_verdict(client, o, jwt_claims_text(token), expected_issuer, now, Some(out)),
        TokenAction::ClaimsOutOfRange => signed_verdict(client, o, jwt_claims_text(token), expected_issuer, now, None),
        _ => false,
    }
}

/// The verification ended with the error `e`.
pub open spec fn failed_with(step: (TokenFlow, TokenAction), e: spec_fn(VerificationError) -> bool) -> bool {
    step.0 is Finished && (step.1 matches TokenAction::Finish(Err(x)) && e(x))
}

/// The first key of the set with the key id `kid`, if any.
pub open spec fn is_first_key(keys: Seq<JwkEntry>, kid: Seq<char>, i: int) -> bool {
    0 <= i < keys.len() && keys[i].id@ == kid && forall|j: int| 0 <= j < i ==> keys[j].id@ != kid
}

/// What a started RSA verification asks first, when the token names an RSA
/// algorithm and a key id.
pub open spec fn rsa_header(token: Seq<char>) -> Option<(RsaAlgorithm, Seq<char>)> {
    match jwt_header(token) {
        Some((alg, Some(kid))) => match rsa_algorithm_of(alg) {
            Some(a) => Some((a, kid)),
            None => None,
        },
        _ => None,
    }
}

/// How the start of an RSA verification fails, when the token does not name
/// an RSA algorithm and a key id: no token is `InvalidToken`, another
/// algorithm is `UnsupportedAlgorithm`, no key id is `InvalidToken`.
pub open spec fn rsa_header_failure(token: Seq<char>, step: (TokenFlow, TokenAction)) -> bool {
    match jwt_header(token) {
        None => failed_with(step, |e: VerificationError| e is InvalidToken),
        Some((alg, kid)) => match rsa_algorithm_of(alg) {
            None => failed_with(
                step,
                |e: VerificationError| e matches VerificationError::UnsupportedAlgorithm { algorithm: a } && a@ == alg,
            ),
            Some(_) => kid is None && failed_with(step, |e: VerificationError| e is InvalidToken),
        },
    }
}

fn finish_err(e: VerificationError) -> (r: (TokenFlow, TokenAction))
    ensures
        r.0 is Finished,
        r.1 == TokenAction::Finish(Err(e)),
{
    (TokenFlow::Finished, TokenAction::Finish(Err(e)))
}

/// The algorithm and key id of an RSA-signed token, or the error that ends
/// the verification.
fn read_rsa_header(token: &str) -> (r: Result<(RsaAlgorithm, String), VerificationError>)
    ensures
        match rsa_header(token@) {
            Some((a, kid)) => r matches Ok((x, k)) && x == a && k@ == kid,
            None => r matches Err(e) && rsa_header_failure(token@, finish_err_spec(e)),
        },
{
    match token_header(token) {
        None => Err(VerificationError::InvalidToken),
        Some((alg, kid)) => match Client::get_rsa_algorithm(alg.as_str()) {
            Err(e) => Err(e),
            Ok(a) => match kid {
                Some(k) => Ok((a, k)),
                None => Err(VerificationError::InvalidToken),
            },
        },
    }
}

pub open spec fn finish_err_spec(e: VerificationError) -> (TokenFlow, TokenAction) {
    (TokenFlow::Finished, TokenAction::Finish(Err(e)))
}

impl Client {
    /// Start verifying an RSA-signed token with a key found through the
    /// provider's discovery document: read the token's header, then look up
    /// the key in the cache, under the discovery URL and the key id.
    /// `None` when the discovery URL cannot be formed from the issuer's base
    /// URL (which cannot happen for a valid URL).
    pub fn start_oidc_verification(&self, token: &str, issuer_base_url: &str, expected_issuer: &str) -> (r: Option<
        (TokenFlow, TokenAction),
    >)
        ensures
            match rsa_header(token@) {
                None => r matches Some(step) && rsa_header_failure(token@, step),
                Some((a, kid)) => match discovery_url_of(issuer_base_url@) {
                    None => r is None,
                    Some(d) => r matches Some(
                        (
                            TokenFlow::AwaitingCache {
                                token: t,
                                algorithm,
                                kid: k,
                                discovery_url,
                                issuer_base_url: ib,
                                expected_issuer: ei,
                            },
                            TokenAction::LookUpCache { key },
                        ),
                    ) && t@ == token@ && algorithm == a && k@ == kid && discovery_url@ == d && ib@
                        == issuer_base_url@ && opt_view(ei) == Some(expected_issuer@) && key@ == d + "|"@ + kid,
                },
            },
    {
        match read_rsa_header(token) {
            Err(e) => Some(finish_err(e)),
            Ok((algorithm, kid)) => match Client::discovery_url(issuer_base_url) {
                None => None,
                Some(discovery_url) => {
                    let key = Client::jwk_cache_key(discovery_url.as_str(), kid.as_str());
                    Some(
                        (
                            TokenFlow::AwaitingCache {
                                token: owned(token),
                                algorithm,
                                kid,
                                discovery_url,
                                issuer_base_url: owned(issuer_base_url),
                                expected_issuer: Some(owned(expected_issuer)),
                            },
                            TokenAction::LookUpCache { key },
                        ),
                    )
                },
            },
        }
    }

    /// Start verifying an RSA-signed token with a key from a key set
    /// endpoint: read the token's header, then fetch the key set (no cache
    /// is used).
    pub fn start_jwks_verification(&self, token: &str, jwks_uri: &str, expected_issuer: Option<&str>) -> (r: (
        TokenFlow,
        TokenAction,
    ))
        ensures
            match rsa_header(token@) {
                None => rsa_header_failure(token@, r),
                Some((a, kid)) => r matches (
                    TokenFlow::AwaitingKeySet { token: t, algorithm, kid: k, cache_under: None, expected_issuer: ei },
                    TokenAction::FetchKeySet { url },
                ) && t@ == token@ && algorithm == a && k@ == kid && opt_view(ei) == str_opt_view(expected_issuer)
                    && url@ == jwks_uri@,
            },
    {
        match read_rsa_header(token) {
            Err(e) => finish_err(e),
            Ok((algorithm, kid)) => {
                let ei = match expected_issuer {
                    Some(e) => Some(owned(e)),
                    None => None,
                };
                (
                    TokenFlow::AwaitingKeySet { token: owned(token), algorithm, kid, cache_under: None, expected_issuer: ei },
                    TokenAction::FetchKeySet { url: owned(jwks_uri) },
                )
            },
        }
    }

    /// The next step of a verification, given what the host reports back:
    /// - a key found in the cache is used; none found, the discovery
    ///   document is fetched;
    /// - a failed request ends with `HttpRequest`; a discovery document
    ///   naming another issuer ends with `IssuerClaimMismatch`; else the key
    ///   set it names is fetched;
    /// - in the key set, the first key with the token's key id is stored in
    ///   the cache for `JWKS_CACHE_TTL` seconds (when the flow caches) and
    ///   then used; no such key ends with `JwkNotFound`;
    /// - a key is used by reading the clock, then checking the token's
    ///   signature with it and the claims at that time.
    pub fn step(&self, state: TokenFlow, event: TokenEvent) -> (r: (TokenFlow, TokenAction))
        requires
            answers(state, event),
        ensures
            match (state, event) {
                (
                    TokenFlow::AwaitingCache { token, algorithm, kid, discovery_url, issuer_base_url, expected_issuer },
                    TokenEvent::CacheLookedUp(found),
                ) => match found {
                    Some(j) => awaits_clock(r, token@, algorithm, j@, opt_view(expected_issuer)),
                    None => r matches (
                        TokenFlow::AwaitingDiscovery {
                            token: t,
                            algorithm: a,
                            kid: k,
                            discovery_url: d,
                            issuer_base_url: ib,
                            expected_issuer: ei,
                        },
                        TokenAction::FetchDiscovery { url },
                    ) && t == token && a == algorithm && k == kid && d == discovery_url && ib == issuer_base_url
                        && ei == expected_issuer && url@ == discovery_url@,
                },
                (
                    TokenFlow::AwaitingDiscovery {
                        token,
                        algorithm,
                        kid,
                        discovery_url,
                        issuer_base_url,
                        expected_issuer,
                    },
                    TokenEvent::DiscoveryFetched(fetched),
                ) => match fetched {
                    Err(m) => failed_with(
                        r,
                        |e: VerificationError| e matches VerificationError::HttpRequest(x) && x@ == m@,
                    ),
                    Ok(doc) => if doc.issuer@ != issuer_base_url@ {
                        failed_with(r, |e: VerificationError| e is IssuerClaimMismatch)
                    } else {
                        r matches (
                            TokenFlow::AwaitingKeySet {
                                token: t,
                                algorithm: a,
                                kid: k,
                                cache_under: Some(c),
                                expected_issuer: ei,
                            },
                            TokenAction::FetchKeySet { url },
                        ) && t == token && a == algorithm && k == kid && c@ == discovery_url@ && ei == expected_issuer
                            && url@ == doc.jwks_uri@
                    },
                },
                (
                    TokenFlow::AwaitingKeySet { token, algorithm, kid, cache_under, expected_issuer },
                    TokenEvent::KeySetFetched(fetched),
                ) => match fetched {
                    Err(m) => failed_with(
                        r,
                        |e: VerificationError| e matches VerificationError::HttpRequest(x) && x@ == m@,
                    ),
                    Ok(keys) => if exists|i: int| is_first_key(keys@, kid@, i) {
                        let i = choose|i: int| is_first_key(keys@, kid@, i);
                        let key_json = keys@[i].key_json;
                        match cache_under {
                            Some(c) => r matches (
                                TokenFlow::AwaitingCacheWrite { token: t, algorithm: a, key_json: j, expected_issuer: ei },
                                TokenAction::StoreInCache { key, key_json: j2, ttl_secs },
                            ) && t == token && a == algorithm && j == key_json && j2 == key_json && ei
                                == expected_issuer && key@ == c@ + "|"@ + kid@ && ttl_secs == JWKS_CACHE_TTL,
                            None => awaits_clock(r, token@, algorithm, key_json@, opt_view(expected_issuer)),
                        }
                    } else {
                        failed_with(
                            r,
                            |e: VerificationError|
                                e matches VerificationError::JwkNotFound { kid: k } && k@ == kid@,
                        )
                    },
                },
                (
                    TokenFlow::AwaitingCacheWrite { token, algorithm, key_json, expected_issuer },
                    TokenEvent::CacheWritten,
                ) => awaits_clock(r, token@, algorithm, key_json@, opt_view(expected_issuer)),
                (
                    TokenFlow::AwaitingClock { token, algorithm, key_json, expected_issuer },
                    TokenEvent::ClockRead(now),
                ) => concluded(self, r, token@, algorithm, key_json@, opt_view(expected_issuer), now),
                _ => false,
            },
    {
        match (state, event) {
            (
                TokenFlow::AwaitingCache { token, algorithm, kid, discovery_url, issuer_base_url, expected_issuer },
                TokenEvent::CacheLookedUp(found),
            ) => match found {
                Some(key_json) => (
                    TokenFlow::AwaitingClock { token, algorithm, key_json, expected_issuer },
                    TokenAction::ReadClock,
                ),
                None => {
                    let url = discovery_url.clone();
                    (
                        TokenFlow::AwaitingDiscovery {
                            token,
                            algorithm,
                            kid,
                            discovery_url,
                            issuer_base_url,
                            expected_issuer,
                        },
                        TokenAction::FetchDiscovery { url },
                    )
                },
            },
            (
                TokenFlow::AwaitingDiscovery { token, algorithm, kid, discovery_url, issuer_base_url, expected_issuer },
                TokenEvent::DiscoveryFetched(fetched),
            ) => match fetched {
                Err(m) => finish_err(VerificationError::HttpRequest(m)),
                Ok(doc) => {
                    if Client::check_discovered_issuer(doc.issuer.as_str(), issuer_base_url.as_str()).is_err() {
                        finish_err(VerificationError::IssuerClaimMismatch)
                    } else {
                        (
                            TokenFlow::AwaitingKeySet {
                                token,
                                algorithm,
                                kid,
                                cache_under: Some(discovery_url),
                                expected_issuer,
                            },
                            TokenAction::FetchKeySet { url: doc.jwks_uri },
                        )
                    }
                },
            },
            (
                TokenFlow::AwaitingKeySet { token, algorithm, kid, cache_under, expected_issuer },
                TokenEvent::KeySetFetched(fetched),
            ) => match fetched {
                Err(m) => finish_err(VerificationError::HttpRequest(m)),
                Ok(keys) => match Client::find_jwk(&keys, kid.as_str()) {
                    Err(e) => {
                        proof {
                            assert forall|i: int| !is_first_key(keys@, kid@, i) by {
                                if is_first_key(keys@, kid@, i) {
                                    assert(keys@[i].id@ != kid@);
                                }
                            }
                        }
                        finish_err(e)
                    },
                    Ok(i) => {
                        proof {
                            assert(is_first_key(keys@, kid@, i as int));
                            let w = choose|w: int| is_first_key(keys@, kid@, w);
                            if w < i {
                                assert(keys@[w].id@ != kid@);
                            } else if w > i {
                                assert(keys@[i as int].id@ != kid@);
                            }
                        }
                        let key_json = keys[i].key_json.clone();
                        match cache_under {
                            Some(c) => {
                                let key = Client::jwk_cache_key(c.as_str(), kid.as_str());
                                let j2 = key_json.clone();
                                (
                                    TokenFlow::AwaitingCacheWrite { token, algorithm, key_json, expected_issuer },
                                    TokenAction::StoreInCache { key, key_json: j2, ttl_secs: JWKS_CACHE_TTL },
                                )
                            },
                            None => (
                                TokenFlow::AwaitingClock { token, algorithm, key_json, expected_issuer },
                                TokenAction::ReadClock,
                            ),
                        }
                    },
                },
            },
            (
                TokenFlow::AwaitingCacheWrite { token, algorithm, key_json, expected_issuer },
                TokenEvent::CacheWritten,
            ) => (TokenFlow::AwaitingClock { token, algorithm, key_json, expected_issuer }, TokenAction::ReadClock),
            (
                TokenFlow::AwaitingClock { token, algorithm, key_json, expected_issuer },
                TokenEvent::ClockRead(now),
            ) => {
                let expected: Option<&str> = match &expected_issuer {
                    Some(e) => Some(e.as_str()),
                    None => None,
                };
                match self.verify_rs_signature(token.as_str(), algorithm, key_json.as_str(), expected, now) {
                    Some(out) => (TokenFlow::Finished, TokenAction::Finish(out)),
                    None => (TokenFlow::Finished, TokenAction::ClaimsOutOfRange),
                }
            },
            _ => {
                proof {
                    assert(false);
                }
                (TokenFlow::Finished, TokenAction::Finish(Err(VerificationError::InvalidToken)))
            },
        }
    }
}

} // verus!
