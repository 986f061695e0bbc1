//! Access tokens: the bearer header, and the validation of the identity
//! provider's RS256 tokens.

use jsonwebtoken::{decode, Algorithm, DecodingKey, Validation};
use serde_json::Value;
use vstd::prelude::*;
use vstd::string::StrSliceExecFns;
use vstd::string::StringExecFns;

use crate::error::ApiError;
use crate::text::{
    bytes_of,
    chars_of,
    starts_with,
    strip_white_space,
    trim_bounds,
    trimmed,
    without_white_space,
};

verus! {

/// The view of an optional string slice.
pub open spec fn opt_str_view(o: Option<&str>) -> Option<Seq<char>> {
    match o {
        Some(s) => Some(s@),
        None => None,
    }
}

/// The scheme prefix of a bearer credential, capitalised.
pub open spec fn bearer_prefix_upper() -> Seq<char> {
    seq!['B', 'e', 'a', 'r', 'e', 'r', ' ']
}

/// The scheme prefix of a bearer credential, lower case.
pub open spec fn bearer_prefix_lower() -> Seq<char> {
    seq!['b', 'e', 'a', 'r', 'e', 'r', ' ']
}

/// The token carried by an `Authorization` header value: the text after
/// `Bearer ` or `bearer `, trimmed, when that is not empty.
pub open spec fn bearer_token(header: Option<Seq<char>>) -> Option<Seq<char>> {
    match header {
        None => None,
        Some(v) => if (starts_with(v, bearer_prefix_upper()) || starts_with(
            v,
            bearer_prefix_lower(),
        )) && trimmed(v.skip(7)).len() > 0 {
            Some(trimmed(v.skip(7)))
        } else {
            None
        },
    }
}

/// A header written as `Bearer <token>` gives the token back, for any token
/// that is not empty and has no white space at its ends.
pub proof fn bearer_header_gives_back_its_token(token: Seq<char>)
    requires
        token.len() > 0,
        trimmed(token) == token,
    ensures
        bearer_token(Some(bearer_prefix_upper() + token)) == Some(token),
        bearer_token(Some(bearer_prefix_lower() + token)) == Some(token),
{
    let upper = bearer_prefix_upper() + token;
    let lower = bearer_prefix_lower() + token;
    assert(upper.subrange(0, 7) =~= bearer_prefix_upper());
    assert(upper.skip(7) =~= token);
    assert(lower.subrange(0, 7) =~= bearer_prefix_lower());
    assert(lower.skip(7) =~= token);
}

/// Extracts the token from an `Authorization` header value.
pub fn bearer_from_header(value: Option<&str>) -> (res: Result<&str, ApiError>)
    ensures
        match res {
            Ok(token) => bearer_token(opt_str_view(value)) == Some(token@),
            Err(e) => bearer_token(opt_str_view(value)) is None && e == ApiError::MissingToken,
        },
{
    let value = match value {
        Some(v) => v,
        None => return Err(ApiError::MissingToken),
    };
    let v = chars_of(value);
    let n = v.len();
    if n < 7 {
        return Err(ApiError::MissingToken);
    }
    let scheme = (v[0] == 'B' || v[0] == 'b') && v[1] == 'e' && v[2] == 'a' && v[3] == 'r' && v[4]
        == 'e' && v[5] == 'r' && v[6] == ' ';
    proof {
        if v[0] == 'B' {
            assert(starts_with(v@, bearer_prefix_upper()) <==> v@.subrange(0, 7)
                =~= bearer_prefix_upper());
        }
        assert(!starts_with(v@, bearer_prefix_upper()) || v@.subrange(0, 7)[0] == 'B');
        assert(!starts_with(v@, bearer_prefix_lower()) || v@.subrange(0, 7)[0] == 'b');
        if scheme {
            if v[0] == 'B' {
                assert(v@.subrange(0, 7) =~= bearer_prefix_upper());
            } else {
                assert(v@.subrange(0, 7) =~= bearer_prefix_lower());
            }
        }
        if starts_with(v@, bearer_prefix_upper()) {
            assert(v@.subrange(0, 7)[1] == 'e');
            assert(v@.subrange(0, 7)[2] == 'a');
            assert(v@.subrange(0, 7)[3] == 'r');
            assert(v@.subrange(0, 7)[4] == 'e');
            assert(v@.subrange(0, 7)[5] == 'r');
            assert(v@.subrange(0, 7)[6] == ' ');
        }
        if starts_with(v@, bearer_prefix_lower()) {
            assert(v@.subrange(0, 7)[1] == 'e');
            assert(v@.subrange(0, 7)[2] == 'a');
            assert(v@.subrange(0, 7)[3] == 'r');
            assert(v@.subrange(0, 7)[4] == 'e');
            assert(v@.subrange(0, 7)[5] == 'r');
            assert(v@.subrange(0, 7)[6] == ' ');
        }
    }
    if !scheme {
        return Err(ApiError::MissingToken);
    }
    let (i, j) = trim_bounds(&v, 7, n);
    assert(v@.subrange(7, n as int) =~= v@.skip(7));
    if i == j {
        return Err(ApiError::MissingToken);
    }
    Ok(value.substring_char(i, j))
}

/// Clock skew, in seconds, allowed when checking `exp` and `nbf`; the
/// identity provider validates its own tokens with the same leeway.
pub const TOKEN_LEEWAY_SECS: u64 = 30;

/// The text given when a validated token has no string `sub` claim.
pub open spec fn missing_subject_text() -> Seq<char> {
    "JSON error: missing field `sub`"@
}

/// The claims the connector reads from an access token.
#[derive(Debug, Clone, PartialEq, Eq)]
pub struct AccessClaims {
    /// The user's GUID, the key under which the user's blob is stored.
    pub sub: String,
}

/// The identity provider's RSA public key, as PEM bytes or as the base64url
/// modulus and exponent of a JWK.
#[derive(Debug, Clone)]
pub enum RsaPublicKey {
    Pem(Vec<u8>),
    Components { n: String, e: String },
}

/// The view of an [`RsaPublicKey`].
pub enum RsaKeyView {
    Pem(Seq<u8>),
    Components(Seq<char>, Seq<char>),
}

impl View for RsaPublicKey {
    type V = RsaKeyView;

    open spec fn view(&self) -> RsaKeyView {
        match self {
            RsaPublicKey::Pem(pem) => RsaKeyView::Pem(pem@),
            RsaPublicKey::Components { n, e } => RsaKeyView::Components(n@, e@),
        }
    }
}

/// How tokens are validated.
#[derive(Debug, Clone)]
pub struct TokenRules {
    /// The only issuer accepted (a token without `iss` is not checked).
    pub issuer: String,
    /// Clock skew allowed on `exp` and `nbf`, in seconds.
    pub leeway_secs: u64,
    /// Reject expired tokens.
    pub validate_exp: bool,
    /// Reject tokens that are not valid yet.
    pub validate_nbf: bool,
    /// Check the `aud` claim.
    pub validate_aud: bool,
}

/// What `jsonwebtoken::decode` with RS256 gives for `token`, `key` and the
/// validation settings when its checks of `exp` and `nbf` against the clock
/// pass: nothing if it rejects the token anyway, otherwise the token's `sub`
/// claim when that is a string.
pub uninterp spec fn jwt_untimed_subject(
    token: Seq<char>,
    key: RsaKeyView,
    issuer: Seq<char>,
    leeway_secs: u64,
    validate_exp: bool,
    validate_nbf: bool,
    validate_aud: bool,
) -> Option<Option<Seq<char>>>;

/// The error text of `DecodingKey::from_rsa_pem` for `pem`, if it fails.
pub uninterp spec fn rsa_pem_error(pem: Seq<u8>) -> Option<Seq<char>>;

/// The error text of `DecodingKey::from_rsa_components` for `n` and `e`, if
/// it fails.
pub uninterp spec fn rsa_components_error(n: Seq<char>, e: Seq<char>) -> Option<Seq<char>>;

/// The texts of `jsonwebtoken`'s two refusals that rest on the clock: an
/// expired token and a token not valid yet.
pub open spec fn is_clock_refusal(m: Seq<char>) -> bool {
    m == "ExpiredSignature"@ || m == "ImmatureSignature"@
}

/// The view of an optional string.
pub open spec fn opt_text(o: Option<String>) -> Option<Seq<char>> {
    match o {
        Some(s) => Some(s@),
        None => None,
    }
}

/// The view of a checking outcome: the error text, if any.
pub open spec fn error_text(r: Result<(), String>) -> Option<Seq<char>> {
    match r {
        Ok(()) => None,
        Err(m) => Some(m@),
    }
}

/// What RS256 validation under `rules` gives for `token` and `key` when the
/// clock checks pass.
pub open spec fn untimed_subject(token: Seq<char>, key: RsaKeyView, rules: TokenRules) -> Option<
    Option<Seq<char>>,
> {
    jwt_untimed_subject(
        token,
        key,
        rules.issuer@,
        rules.leeway_secs,
        rules.validate_exp,
        rules.validate_nbf,
        rules.validate_aud,
    )
}

/// `DecodingKey::from_rsa_pem`: whether `pem` holds an RSA public key. The
/// contract names the outcome and says nothing more of it.
#[verifier::external_body]
fn check_rsa_pem(pem: &[u8]) -> (res: Result<(), String>)
    ensures
        error_text(res) == rsa_pem_error(pem@),
{
    DecodingKey::from_rsa_pem(pem).map(|_| ()).map_err(|e| e.to_string())
}

/// `DecodingKey::from_rsa_components`: whether `n` and `e` are valid base64url
/// RSA components. The contract names the outcome and says nothing more of it.
#[verifier::external_body]
fn check_rsa_components(n: &str, e: &str) -> (res: Result<(), String>)
    ensures
        error_text(res) == rsa_components_error(n@, e@),
{
    DecodingKey::from_rsa_components(n, e).map(|_| ()).map_err(|e| e.to_string())
}

/// `jsonwebtoken::decode` of `token` with RS256 under `key` and `rules`,
/// returning the `sub` claim when it is a string. Whether it succeeds also
/// depends on the clock (`exp`, `nbf`), so the contract claims only that a
/// success gives what the named untimed outcome gives, and that a token the
/// untimed checks accept is refused only by the clock checks, with the text
/// `ExpiredSignature` or `ImmatureSignature` (`validate` runs the signature,
/// claim parsing and required-claim checks before them, and the issuer check
/// after them, so no other refusal is left); other error texts are not
/// stated. `jsonwebtoken` computes `now - leeway` and `now + leeway`, so the
/// leeway is kept small; reading the clock panics there only if it reads a
/// time before 1970 (plus the leeway).
#[verifier::external_body]
fn decode_rs256(token: &str, key: &RsaPublicKey, rules: &TokenRules) -> (res: Result<
    Option<String>,
    String,
>)
    requires
        rules.leeway_secs <= TOKEN_LEEWAY_SECS,
    ensures
        res matches Ok(sub) ==> jwt_untimed_subject(
            token@,
            key@,
            rules.issuer@,
            rules.leeway_secs,
            rules.validate_exp,
            rules.validate_nbf,
            rules.validate_aud,
        ) == Some(opt_text(sub)),
        res matches Err(m) ==> (jwt_untimed_subject(
            token@,
            key@,
            rules.issuer@,
            rules.leeway_secs,
            rules.validate_exp,
            rules.validate_nbf,
            rules.validate_aud,
        ) is Some ==> is_clock_refusal(m@)),
{
    let key = match key {
        RsaPublicKey::Pem(pem) => DecodingKey::from_rsa_pem(pem),
        RsaPublicKey::Components { n, e } => DecodingKey::from_rsa_components(n, e),
    }.map_err(|e| e.to_string())?;
    let mut validation = Validation::new(Algorithm::RS256);
    validation.leeway = rules.leeway_secs;
    validation.validate_exp = rules.validate_exp;
    validation.validate_nbf = rules.validate_nbf;
    validation.validate_aud = rules.validate_aud;
    validation.set_issuer(&[rules.issuer.as_str()]);
    decode::<serde_json::Map<String, Value>>(token, &key, &validation).map(
        |data| data.claims.get("sub").and_then(Value::as_str).map(String::from),
    ).map_err(|e| e.to_string())
}

/// An RSA public key from PEM text.
pub fn key_from_pem(pem: &[u8]) -> (res: Result<RsaPublicKey, String>)
    ensures
        match res {
            Ok(key) => rsa_pem_error(pem@) is None && key@ == RsaKeyView::Pem(pem@),
            Err(m) => rsa_pem_error(pem@) matches Some(e) && m@
                == "identity public key is not a valid RSA PEM: "@ + e,
        },
{
    match check_rsa_pem(pem) {
        Ok(()) => Ok(RsaPublicKey::Pem(bytes_of(pem))),
        Err(e) => {
            let mut m = String::from_str("identity public key is not a valid RSA PEM: ");
            m.append(e.as_str());
            Err(m)
        },
    }
}

/// Turns the outcome of decoding into the claims, or the refusal.
pub fn claims_from_decoded(decoded: Result<Option<String>, String>) -> (res: Result<
    AccessClaims,
    ApiError,
>)
    ensures
        match decoded {
            Ok(Some(sub)) => res matches Ok(c) && c.sub@ == sub@,
            Ok(None) => res matches Err(ApiError::InvalidToken(m)) && m@ == missing_subject_text(),
            Err(e) => res matches Err(ApiError::InvalidToken(m)) && m@ == e@,
        },
{
    match decoded {
        Ok(Some(sub)) => Ok(AccessClaims { sub }),
        Ok(None) => Err(ApiError::InvalidToken(String::from_str("JSON error: missing field `sub`"))),
        Err(e) => Err(ApiError::InvalidToken(e)),
    }
}

/// Dropping white space twice is dropping it once, so a token and its
/// white-space-free form are judged alike by [`TokenVerifier::verify`].
pub proof fn white_space_free_token_is_judged_alike(token: Seq<char>)
    ensures
        without_white_space(without_white_space(token)) == without_white_space(token),
    decreases token.len(),
{
    reveal_with_fuel(Seq::filter, 1);
    if token.len() > 0 {
        white_space_free_token_is_judged_alike(token.drop_last());
        let once = without_white_space(token);
        let rest = without_white_space(token.drop_last());
        if !crate::text::is_white_space(token.last()) {
            assert(once == rest.push(token.last()));
            assert(once.drop_last() =~= rest);
        }
    }
}

/// Two tokens that differ only in white space get the same untimed outcome
/// from [`TokenVerifier::verify`], whose contract speaks of the token without
/// its white space.
pub proof fn tokens_alike_but_white_space_are_judged_alike(
    a: Seq<char>,
    b: Seq<char>,
    key: RsaKeyView,
    rules: TokenRules,
)
    requires
        without_white_space(a) == without_white_space(b),
    ensures
        untimed_subject(without_white_space(a), key, rules) == untimed_subject(
            without_white_space(b),
            key,
            rules,
        ),
{
}

/// Validates the identity provider's access tokens.
#[derive(Debug)]
pub struct TokenVerifier {
    key: RsaPublicKey,
    rules: TokenRules,
}

impl TokenVerifier {
    #[verifier::type_invariant]
    spec fn leeway_is_small(&self) -> bool {
        self.rules.leeway_secs <= TOKEN_LEEWAY_SECS
    }

    /// The key tokens are checked against.
    pub closed spec fn key_view(&self) -> RsaKeyView {
        self.key@
    }

    /// The validation settings.
    pub closed spec fn rules_view(&self) -> TokenRules {
        self.rules
    }

    /// A verifier for `key`. The configured issuer wins over the one found by
    /// discovery; without either there is nothing to check `iss` against.
    /// Tokens are validated as the identity provider does: RS256, `exp` and
    /// `nbf` with a 30 second leeway, the issuer, and no audience.
    pub fn new(
        key: RsaPublicKey,
        configured_issuer: Option<String>,
        discovered_issuer: Option<String>,
    ) -> (res: Result<TokenVerifier, String>)
        ensures
            res is Ok <==> (configured_issuer is Some || discovered_issuer is Some),
            match res {
                Ok(v) => {
                    &&& v.key_view() == key@
                    &&& v.rules_view().issuer@ == (match configured_issuer {
                        Some(i) => i@,
                        None => discovered_issuer->Some_0@,
                    })
                    &&& v.rules_view().leeway_secs == TOKEN_LEEWAY_SECS
                    &&& v.rules_view().validate_exp
                    &&& v.rules_view().validate_nbf
                    &&& !v.rules_view().validate_aud
                },
                Err(m) => configured_issuer is None && discovered_issuer is None && m@
                    == "KC_JWT_ISSUER is required when the key is given as a PEM"@,
            },
    {
        let issuer = match configured_issuer {
            Some(i) => i,
            None => match discovered_issuer {
                Some(i) => i,
                None => {
                    return Err(
                        String::from_str("KC_JWT_ISSUER is required when the key is given as a PEM"),
                    )
                },
            },
        };
        let rules = TokenRules {
            issuer,
            leeway_secs: TOKEN_LEEWAY_SECS,
            validate_exp: true,
            validate_nbf: true,
            validate_aud: false,
        };
        Ok(TokenVerifier { key, rules })
    }

    /// Validates `token`, with any white space in it dropped first as the
    /// identity provider does, and returns its claims. Every refusal is
    /// `InvalidToken`; an accepted token is one whose signature, issuer and
    /// claims pass, and its `sub` is the one returned.
    pub fn verify(&self, token: &str) -> (res: Result<AccessClaims, ApiError>)
        ensures
            match res {
                Ok(c) => untimed_subject(without_white_space(token@), self.key_view(), self.rules_view())
                    == Some(Some(c.sub@)),
                Err(e) => e is InvalidToken,
            },
            untimed_subject(without_white_space(token@), self.key_view(), self.rules_view()) matches Some(
                Some(s),
            ) ==> match res {
                Ok(c) => c.sub@ == s,
                Err(e) => e matches ApiError::InvalidToken(m) && is_clock_refusal(m@),
            },
            untimed_subject(without_white_space(token@), self.key_view(), self.rules_view())
                == Some(None::<Seq<char>>) ==> (res matches Err(ApiError::InvalidToken(m)) && (m@
                == missing_subject_text() || is_clock_refusal(m@))),
    {
        proof {
            use_type_invariant(self);
        }
        let compact = strip_white_space(token);
        let decoded = decode_rs256(compact.as_str(), &self.key, &self.rules);
        claims_from_decoded(decoded)
    }

    /// Takes a key fetched again from the identity provider; when fetching
    /// failed the current key stays.
    pub fn apply_refresh(&mut self, fetched: Result<RsaPublicKey, String>)
        ensures
            final(self).rules_view() == old(self).rules_view(),
            match fetched {
                Ok(k) => final(self).key_view() == k@,
                Err(_) => final(self).key_view() == old(self).key_view(),
            },
    {
        proof {
            use_type_invariant(&*self);
        }
        match fetched {
            Ok(k) => {
                self.key = k;
            },
            Err(_) => {},
        }
    }
}

/// The user a request acts for: the `sub` of the bearer token in its
/// `Authorization` header, once the token is validated.
pub fn authenticate(verifier: &TokenVerifier, header: Option<&str>) -> (res: Result<
    String,
    ApiError,
>)
    ensures
        match res {
            Ok(user) => bearer_token(opt_str_view(header)) matches Some(token) && untimed_subject(
                without_white_space(token),
                verifier.key_view(),
                verifier.rules_view(),
            ) == Some(Some(user@)),
            Err(e) => bearer_token(opt_str_view(header)) is None && e == ApiError::MissingToken
                || bearer_token(opt_str_view(header)) is Some && e is InvalidToken,
        },
        bearer_token(opt_str_view(header)) matches Some(token) ==> (untimed_subject(
            without_white_space(token),
            verifier.key_view(),
            verifier.rules_view(),
        ) matches Some(Some(s)) ==> match res {
            Ok(user) => user@ == s,
            Err(e) => e matches ApiError::InvalidToken(m) && is_clock_refusal(m@),
        }),
{
    let token = match bearer_from_header(header) {
        Ok(t) => t,
        Err(e) => return Err(e),
    };
    match verifier.verify(token) {
        Ok(claims) => Ok(claims.sub),
        Err(e) => Err(e),
    }
}

/// A key of the identity provider's JWK set, with the members the connector
/// reads.
#[derive(Debug, Clone)]
pub struct Jwk {
    /// Key type, `RSA` for the keys the connector can use.
    pub kty: String,
    /// The `use` member: `sig` for signing keys; absent means signing.
    pub usage: Option<String>,
    /// RSA modulus, base64url.
    pub n: Option<String>,
    /// RSA exponent, base64url.
    pub e: Option<String>,
}

/// `k` is an RSA key meant for signatures.
pub open spec fn is_rsa_signing_key(k: Jwk) -> bool {
    &&& k.kty@ == "RSA"@
    &&& match k.usage {
        Some(u) => u@ == "sig"@,
        None => true,
    }
}

/// The first RSA signing key of a JWK set.
pub open spec fn first_signing_key(keys: Seq<Jwk>) -> Option<Jwk>
    decreases keys.len(),
{
    if keys.len() == 0 {
        None
    } else if is_rsa_signing_key(keys[0]) {
        Some(keys[0])
    } else {
        first_signing_key(keys.drop_first())
    }
}

/// The first RSA signing key of a set is the signing key at the lowest index:
/// it is one of the set's keys, it is a signing key, and no key before it is.
/// A set without one has none.
pub proof fn first_signing_key_is_the_earliest(keys: Seq<Jwk>)
    ensures
        match first_signing_key(keys) {
            Some(k) => exists|i: int|
                0 <= i < keys.len() && #[trigger] keys[i] == k && is_rsa_signing_key(k) && forall|
                    j: int,
                | 0 <= j < i ==> !is_rsa_signing_key(#[trigger] keys[j]),
            None => forall|i: int| 0 <= i < keys.len() ==> !is_rsa_signing_key(#[trigger] keys[i]),
        },
    decreases keys.len(),
{
    if keys.len() > 0 && !is_rsa_signing_key(keys[0]) {
        let rest = keys.drop_first();
        first_signing_key_is_the_earliest(rest);
        match first_signing_key(rest) {
            Some(k) => {
                let i0 = choose|i: int|
                    0 <= i < rest.len() && #[trigger] rest[i] == k && is_rsa_signing_key(k)
                        && forall|j: int| 0 <= j < i ==> !is_rsa_signing_key(#[trigger] rest[j]);
                assert(keys[i0 + 1] == k);
                assert forall|j: int| 0 <= j < i0 + 1 implies !is_rsa_signing_key(
                    #[trigger] keys[j],
                ) by {
                    if j > 0 {
                        assert(keys[j] == rest[j - 1]);
                    }
                }
            },
            None => {
                assert forall|i: int| 0 <= i < keys.len() implies !is_rsa_signing_key(
                    #[trigger] keys[i],
                ) by {
                    if i > 0 {
                        assert(keys[i] == rest[i - 1]);
                    }
                }
            },
        }
    } else if keys.len() > 0 {
        assert(keys[0] == keys[0]);
    }
}

/// What a JWK gives as a key: its RSA components, or why it cannot be used.
pub open spec fn jwk_key_outcome(k: Jwk) -> Result<RsaKeyView, Seq<char>> {
    match (k.n, k.e) {
        (Some(n), Some(e)) => match rsa_components_error(n@, e@) {
            None => Ok(RsaKeyView::Components(n@, e@)),
            Some(err) => Err("bad RSA components in JWK: "@ + err),
        },
        _ => Err("JWK is missing the RSA n/e components"@),
    }
}

/// The view of a key outcome.
pub open spec fn key_outcome(r: Result<RsaPublicKey, String>) -> Result<RsaKeyView, Seq<char>> {
    match r {
        Ok(k) => Ok(k@),
        Err(m) => Err(m@),
    }
}

/// Whether `k` is an RSA signing key.
pub fn is_signing_key(k: &Jwk) -> (res: bool)
    ensures
        res == is_rsa_signing_key(*k),
{
    let rsa = String::from_str("RSA");
    if k.kty != rsa {
        return false;
    }
    match &k.usage {
        Some(u) => {
            let sig = String::from_str("sig");
            *u == sig
        },
        None => true,
    }
}

/// An RSA public key from the components of a JWK.
pub fn key_from_jwk(jwk: &Jwk) -> (res: Result<RsaPublicKey, String>)
    ensures
        key_outcome(res) == jwk_key_outcome(*jwk),
{
    match (&jwk.n, &jwk.e) {
        (Some(n), Some(e)) => match check_rsa_components(n.as_str(), e.as_str()) {
            Ok(()) => Ok(RsaPublicKey::Components { n: n.clone(), e: e.clone() }),
            Err(err) => {
                let mut m = String::from_str("bad RSA components in JWK: ");
                m.append(err.as_str());
                Err(m)
            },
        },
        _ => Err(String::from_str("JWK is missing the RSA n/e components")),
    }
}

/// The key of the first RSA signing key in a JWK set fetched from
/// `jwks_uri`.
pub fn key_from_jwks(keys: &Vec<Jwk>, jwks_uri: &str) -> (res: Result<RsaPublicKey, String>)
    ensures
        match first_signing_key(keys@) {
            Some(k) => key_outcome(res) == jwk_key_outcome(k),
            None => res matches Err(m) && m@ == "no RSA signing key in the JWKS at '"@ + jwks_uri@
                + seq!['\''],
        },
        (forall|i: int| 0 <= i < keys@.len() ==> !is_rsa_signing_key(#[trigger] keys@[i])) ==> (res
            matches Err(m) && m@ == "no RSA signing key in the JWKS at '"@ + jwks_uri@ + seq!['\'']),
        forall|i: int|
            0 <= i < keys@.len() && is_rsa_signing_key(#[trigger] keys@[i]) && (forall|j: int|
                0 <= j < i ==> !is_rsa_signing_key(#[trigger] keys@[j])) ==> key_outcome(res)
                == jwk_key_outcome(keys@[i]),
{
    let mut i: usize = 0;
    assert(keys@.skip(0) =~= keys@);
    while i < keys.len()
        invariant
            i <= keys@.len(),
            first_signing_key(keys@) == first_signing_key(keys@.skip(i as int)),
            forall|j: int| 0 <= j < i ==> !is_rsa_signing_key(#[trigger] keys@[j]),
        decreases keys@.len() - i,
    {
        assert(keys@.skip(i as int).drop_first() =~= keys@.skip(i + 1));
        if is_signing_key(&keys[i]) {
            return key_from_jwk(&keys[i]);
        }
        i = i + 1;
    }
    let mut m = String::from_str("no RSA signing key in the JWKS at '");
    m.append(jwks_uri);
    crate::text::push_char(&mut m, '\'');
    Err(m)
}

/// How many times discovery is tried before giving up.
pub const DISCOVERY_ATTEMPTS: u32 = 60;

/// Seconds to wait between two discovery attempts.
pub const DISCOVERY_RETRY_SECS: u64 = 2;

/// Seconds between two fetches of the JWK set.
pub const JWKS_REFRESH_SECS: u64 = 600;

/// The OIDC discovery document URL of an identity provider.
pub fn discovery_url(authority: &str) -> (res: String)
    ensures
        res@ == authority@ + "/.well-known/openid-configuration"@,
{
    let mut url = String::from_str(authority);
    url.append("/.well-known/openid-configuration");
    url
}

/// The members of the discovery document the connector reads.
#[derive(Debug, Clone)]
pub struct DiscoveryDocument {
    /// The issuer the provider's tokens carry.
    pub issuer: String,
    /// Where the provider's JWK set is published.
    pub jwks_uri: String,
}

/// What to do next while waiting for the identity provider.
#[derive(Debug)]
pub enum DiscoveryAction {
    /// Fetch the discovery document after waiting this many seconds.
    Fetch { delay_secs: u64 },
    /// Stop, with this error.
    GiveUp(String),
}

/// The state of the wait for the identity provider, which may come up after
/// the connector.
pub struct DiscoveryRetry {
    url: String,
    failures: u32,
    last_error: String,
}

impl DiscoveryRetry {
    /// The discovery URL.
    pub closed spec fn url_view(&self) -> Seq<char> {
        self.url@
    }

    /// How many fetches have failed.
    pub closed spec fn failures(&self) -> nat {
        self.failures as nat
    }

    /// The error of the last failed fetch (empty before any).
    pub closed spec fn last_error_view(&self) -> Seq<char> {
        self.last_error@
    }

    /// No fetch made yet.
    pub fn new(url: String) -> (res: DiscoveryRetry)
        ensures
            res.url_view() == url@,
            res.failures() == 0,
            res.last_error_view() == Seq::<char>::empty(),
    {
        DiscoveryRetry { url, failures: 0, last_error: String::new() }
    }

    /// The next step: fetch (at once the first time, after a pause later)
    /// until 60 fetches have failed, then give up with the last error.
    pub fn next_action(&self) -> (res: DiscoveryAction)
        ensures
            match res {
                DiscoveryAction::Fetch { delay_secs } => self.failures() < DISCOVERY_ATTEMPTS
                    && delay_secs == (if self.failures() == 0 {
                    0
                } else {
                    DISCOVERY_RETRY_SECS
                }),
                DiscoveryAction::GiveUp(m) => self.failures() >= DISCOVERY_ATTEMPTS && m@
                    == "giving up on '"@ + self.url_view() + "': "@ + self.last_error_view(),
            },
    {
        if self.failures < DISCOVERY_ATTEMPTS {
            let delay_secs = if self.failures == 0 {
                0
            } else {
                DISCOVERY_RETRY_SECS
            };
            DiscoveryAction::Fetch { delay_secs }
        } else {
            let mut m = String::from_str("giving up on '");
            m.append(self.url.as_str());
            m.append("': ");
            m.append(self.last_error.as_str());
            DiscoveryAction::GiveUp(m)
        }
    }

    /// Notes a failed fetch.
    pub fn record_failure(&mut self, error: String)
        ensures
            final(self).url_view() == old(self).url_view(),
            final(self).last_error_view() == error@,
            final(self).failures() == if old(self).failures() < u32::MAX {
                old(self).failures() + 1
            } else {
                old(self).failures()
            },
    {
        if self.failures < u32::MAX {
            self.failures = self.failures + 1;
        }
        self.last_error = error;
    }
}

} // verus!
