//! Runtime configuration: from the raw `KC_*` settings to a checked
//! [`Config`], and the browser origins it admits.

use vstd::prelude::*;
use vstd::string::StringExecFns;

use crate::codec::{base64_decode, base64_decoding};
use crate::jwt::opt_text;
use crate::text::{
    chars_of,
    decimal,
    decimal_text,
    push_char,
    string_from_chars,
    trim,
    trim_bounds,
    trimmed,
};

verus! {

/// Length in bytes the at-rest encryption key must decode to.
pub const ENCRYPTION_KEY_LEN: usize = 32;

/// The raw settings, one per `KC_*` environment variable, `None` where the
/// variable is not set.
#[derive(Debug, Clone, Default)]
pub struct Settings {
    /// `KC_BIND_ADDR`
    pub bind_addr: Option<String>,
    /// `KC_DATABASE_URL`
    pub database_url: Option<String>,
    /// `KC_JWT_ISSUER`
    pub jwt_issuer: Option<String>,
    /// `KC_IDENTITY_AUTHORITY`
    pub identity_authority: Option<String>,
    /// `KC_IDENTITY_PUBLIC_KEY_PATH`
    pub public_key_path: Option<String>,
    /// `KC_IDENTITY_PUBLIC_KEY_PEM`
    pub public_key_pem: Option<String>,
    /// `KC_ENCRYPTION_KEY_PATH`
    pub encryption_key_path: Option<String>,
    /// `KC_ENCRYPTION_KEY`
    pub encryption_key: Option<String>,
    /// `KC_CORS_ALLOWED_ORIGINS`
    pub cors_allowed_origins: Option<String>,
}

/// Where to obtain the RSA public key used to verify access tokens.
#[derive(Debug, Clone)]
pub enum PublicKeySource {
    /// Path to a PEM file holding the identity provider's RSA public key.
    Path(String),
    /// Inline PEM contents.
    Inline(String),
    /// Base URL of the identity provider, e.g.
    /// `https://vault.example.com/identity`. Issuer and signing key are
    /// fetched from its OIDC discovery document.
    Authority(String),
}

/// The view of a [`PublicKeySource`].
pub enum SourceView {
    Path(Seq<char>),
    Inline(Seq<char>),
    Authority(Seq<char>),
}

impl View for PublicKeySource {
    type V = SourceView;

    open spec fn view(&self) -> SourceView {
        match self {
            PublicKeySource::Path(p) => SourceView::Path(p@),
            PublicKeySource::Inline(p) => SourceView::Inline(p@),
            PublicKeySource::Authority(u) => SourceView::Authority(u@),
        }
    }
}

/// Where the base64 text of the encryption key comes from.
#[derive(Debug, Clone)]
pub enum KeySecret {
    /// A file to read it from.
    File(String),
    /// The text itself.
    Inline(String),
}

/// The view of a [`KeySecret`].
pub enum SecretView {
    File(Seq<char>),
    Inline(Seq<char>),
}

impl View for KeySecret {
    type V = SecretView;

    open spec fn view(&self) -> SecretView {
        match self {
            KeySecret::File(p) => SecretView::File(p@),
            KeySecret::Inline(t) => SecretView::Inline(t@),
        }
    }
}

/// Runtime configuration.
#[derive(Debug, Clone)]
pub struct Config {
    /// Address to bind the HTTP server to, e.g. `0.0.0.0:8081`.
    pub bind_addr: String,
    /// sqlx database URL, e.g. `sqlite://keyconnector.db?mode=rwc`.
    pub database_url: String,
    /// Expected JWT issuer, `"<domain>|login"` for Vaultwarden. Optional
    /// when the issuer can be discovered from an authority URL; overrides the
    /// discovered value if set.
    pub jwt_issuer: Option<String>,
    /// Where to obtain the RSA public key used to verify access tokens.
    pub public_key: PublicKeySource,
    /// 32 byte key used to seal the stored key blobs at rest.
    pub encryption_key: Vec<u8>,
    /// Origins allowed to call the connector from a browser. Empty means any
    /// origin is mirrored back, which is fine because auth is a bearer token,
    /// not a cookie.
    pub cors_allowed_origins: Vec<String>,
}

/// A configuration whose encryption key text is still to be obtained.
#[derive(Debug, Clone)]
pub struct ConfigPlan {
    pub bind_addr: String,
    pub database_url: String,
    pub jwt_issuer: Option<String>,
    pub public_key: PublicKeySource,
    /// Where the encryption key's base64 text comes from.
    pub key_secret: KeySecret,
    pub cors_allowed_origins: Vec<String>,
}

/// A setting that is present and not empty.
pub open spec fn given(o: Option<String>) -> Option<Seq<char>> {
    match o {
        Some(s) => if s@.len() > 0 {
            Some(s@)
        } else {
            None
        },
        None => None,
    }
}

/// A setting, or `default` when it is not set (an empty value is kept).
pub open spec fn or_default(o: Option<String>, default: Seq<char>) -> Seq<char> {
    match o {
        Some(s) => s@,
        None => default,
    }
}

/// `s` without its trailing `c`s.
pub open spec fn trim_end_char(s: Seq<char>, c: char) -> Seq<char>
    decreases s.len(),
{
    if s.len() > 0 && s.last() == c {
        trim_end_char(s.drop_last(), c)
    } else {
        s
    }
}

/// The fields of `s` between the separators `sep` (one more than there are
/// separators).
pub open spec fn split_fields(s: Seq<char>, sep: char) -> Seq<Seq<char>>
    decreases s.len(),
{
    if s.len() == 0 {
        seq![Seq::empty()]
    } else {
        let f = split_fields(s.drop_last(), sep);
        if s.last() == sep {
            f.push(Seq::empty())
        } else {
            f.update(f.len() - 1, f.last().push(s.last()))
        }
    }
}

/// The origins listed in a comma separated setting: each trimmed, empty ones
/// dropped.
pub open spec fn origin_list(s: Seq<char>) -> Seq<Seq<char>> {
    split_fields(s, ',').map_values(trim_each()).filter(keep_nonempty())
}

/// Trimming, as a function on texts.
pub open spec fn trim_each() -> spec_fn(Seq<char>) -> Seq<char> {
    |f: Seq<char>| trimmed(f)
}

/// Whether a text is not empty, as a predicate.
pub open spec fn keep_nonempty() -> spec_fn(Seq<char>) -> bool {
    |t: Seq<char>| t.len() > 0
}

/// The views of a list of strings.
pub open spec fn texts(v: Seq<String>) -> Seq<Seq<char>> {
    v.map_values(|s: String| s@)
}

/// The error text when no identity provider key is configured.
pub open spec fn missing_public_key_text() -> Seq<char> {
    "Provide the identity provider via KC_IDENTITY_AUTHORITY (e.g. `https://vault.example.com/identity`), or its RSA public key via KC_IDENTITY_PUBLIC_KEY_PATH or KC_IDENTITY_PUBLIC_KEY_PEM"@
}

/// The error text when the issuer is neither configured nor discoverable.
pub open spec fn missing_issuer_text() -> Seq<char> {
    "KC_JWT_ISSUER is required (e.g. `https://vault.example.com|login`) unless KC_IDENTITY_AUTHORITY is used"@
}

/// The error text when no encryption key is configured.
pub open spec fn missing_encryption_key_text() -> Seq<char> {
    "Provide a base64 encoded 32 byte key via KC_ENCRYPTION_KEY_PATH or KC_ENCRYPTION_KEY (generate one with `openssl rand -base64 32`)"@
}

/// Which key source the settings select: a path wins over inline PEM, which
/// wins over an authority (whose trailing slashes are dropped).
pub open spec fn public_key_choice(s: Settings) -> Option<SourceView> {
    if given(s.public_key_path) is Some {
        Some(SourceView::Path(given(s.public_key_path)->Some_0))
    } else if given(s.public_key_pem) is Some {
        Some(SourceView::Inline(given(s.public_key_pem)->Some_0))
    } else if given(s.identity_authority) is Some {
        Some(SourceView::Authority(trim_end_char(given(s.identity_authority)->Some_0, '/')))
    } else {
        None
    }
}

/// Where the settings say the encryption key comes from: a path wins over
/// the inline text.
pub open spec fn key_secret_choice(s: Settings) -> Option<SecretView> {
    if given(s.encryption_key_path) is Some {
        Some(SecretView::File(given(s.encryption_key_path)->Some_0))
    } else if given(s.encryption_key) is Some {
        Some(SecretView::Inline(given(s.encryption_key)->Some_0))
    } else {
        None
    }
}

/// Why the settings are refused before any file is read, if they are.
pub open spec fn plan_error(s: Settings) -> Option<Seq<char>> {
    match public_key_choice(s) {
        None => Some(missing_public_key_text()),
        Some(source) => if given(s.jwt_issuer) is None && !(source is Authority) {
            Some(missing_issuer_text())
        } else if key_secret_choice(s) is None {
            Some(missing_encryption_key_text())
        } else {
            None
        },
    }
}

/// What the base64 text of the encryption key gives: the 32 key bytes, or
/// why it is refused.
pub open spec fn encryption_key_outcome(text: Seq<char>) -> Result<Seq<u8>, Seq<char>> {
    match base64_decoding(trimmed(text)) {
        Err(e) => Err("encryption key is not valid base64: "@ + e),
        Ok(bytes) => if bytes.len() == ENCRYPTION_KEY_LEN {
            Ok(bytes)
        } else {
            Err("encryption key must decode to 32 bytes, got "@ + decimal(bytes.len()))
        },
    }
}

/// Mapping a function over a sequence commutes with pushing.
proof fn lemma_map_push<A, B>(s: Seq<A>, x: A, f: spec_fn(A) -> B)
    ensures
        s.push(x).map_values(f) == s.map_values(f).push(f(x)),
{
    let l = s.push(x).map_values(f);
    let r = s.map_values(f).push(f(x));
    assert(l.len() == r.len());
    assert forall|k: int| 0 <= k < l.len() implies l[k] == r[k] by {
        if k < s.len() {
            assert(s.push(x)[k] == s[k]);
        }
    }
    assert(l =~= r);
}

/// Filtering a pushed sequence.
proof fn lemma_filter_push<A>(s: Seq<A>, x: A, p: spec_fn(A) -> bool)
    ensures
        s.push(x).filter(p) == if p(x) {
            s.filter(p).push(x)
        } else {
            s.filter(p)
        },
{
    reveal_with_fuel(Seq::filter, 1);
    assert(s.push(x).drop_last() =~= s);
}

/// Splitting never gives an empty list of fields.
proof fn lemma_split_fields_nonempty(s: Seq<char>, sep: char)
    ensures
        split_fields(s, sep).len() >= 1,
    decreases s.len(),
{
    if s.len() > 0 {
        lemma_split_fields_nonempty(s.drop_last(), sep);
    }
}

/// Splitting `a`, a separator and `b` gives the fields of `a` followed by the
/// fields of `b`.
proof fn lemma_split_fields_concat(a: Seq<char>, b: Seq<char>, sep: char)
    ensures
        split_fields(a + seq![sep] + b, sep) == split_fields(a, sep) + split_fields(b, sep),
    decreases b.len(),
{
    let s = a + seq![sep] + b;
    if b.len() == 0 {
        assert(s =~= a.push(sep));
        assert(s.drop_last() =~= a);
        assert(split_fields(a, sep).push(Seq::empty()) =~= split_fields(a, sep) + split_fields(
            b,
            sep,
        ));
    } else {
        let b0 = b.drop_last();
        lemma_split_fields_concat(a, b0, sep);
        lemma_split_fields_nonempty(b0, sep);
        assert(s.drop_last() =~= a + seq![sep] + b0);
        assert(s.last() == b.last());
        let fa = split_fields(a, sep);
        let fb = split_fields(b0, sep);
        let f = fa + fb;
        if b.last() == sep {
            assert(f.push(Seq::empty()) =~= fa + fb.push(Seq::empty()));
        } else {
            assert(f.update(f.len() - 1, f.last().push(b.last())) =~= fa + fb.update(
                fb.len() - 1,
                fb.last().push(b.last()),
            ));
        }
    }
}

/// A text without the separator is a single field.
proof fn lemma_split_fields_single(s: Seq<char>, sep: char)
    requires
        forall|k: int| 0 <= k < s.len() ==> s[k] != sep,
    ensures
        split_fields(s, sep) == seq![s],
    decreases s.len(),
{
    if s.len() > 0 {
        lemma_split_fields_single(s.drop_last(), sep);
        assert(s.drop_last().push(s.last()) =~= s);
        assert(seq![s.drop_last()].update(0, s.drop_last().push(s.last())) =~= seq![s]);
    } else {
        assert(s =~= Seq::<char>::empty());
        assert(split_fields(s, sep) =~= seq![s]);
    }
}

/// Mapping a function over a concatenation maps each part.
proof fn lemma_map_concat<A, B>(a: Seq<A>, b: Seq<A>, f: spec_fn(A) -> B)
    ensures
        (a + b).map_values(f) == a.map_values(f) + b.map_values(f),
{
    assert((a + b).map_values(f) =~= a.map_values(f) + b.map_values(f));
}

/// The origins of two comma separated lists joined by a comma are the origins
/// of the first list followed by those of the second: no origin is lost or
/// made up at a comma.
pub proof fn origins_of_joined_lists(a: Seq<char>, b: Seq<char>)
    ensures
        origin_list(a + seq![','] + b) == origin_list(a) + origin_list(b),
{
    lemma_split_fields_concat(a, b, ',');
    let fa = split_fields(a, ',');
    let fb = split_fields(b, ',');
    lemma_map_concat(fa, fb, trim_each());
    Seq::filter_distributes_over_add(
        fa.map_values(trim_each()),
        fb.map_values(trim_each()),
        keep_nonempty(),
    );
}

/// A setting without a comma names one origin, the setting trimmed, unless
/// that is empty.
pub proof fn origins_of_one_field(s: Seq<char>)
    requires
        forall|k: int| 0 <= k < s.len() ==> s[k] != ',',
    ensures
        trimmed(s).len() > 0 ==> origin_list(s) == seq![trimmed(s)],
        trimmed(s).len() == 0 ==> origin_list(s) == Seq::<Seq<char>>::empty(),
{
    lemma_split_fields_single(s, ',');
    assert(seq![s].map_values(trim_each()) =~= seq![trimmed(s)]);
    lemma_filter_push(Seq::<Seq<char>>::empty(), trimmed(s), keep_nonempty());
    assert(Seq::<Seq<char>>::empty().push(trimmed(s)) =~= seq![trimmed(s)]);
    reveal_with_fuel(Seq::filter, 1);
}

/// What the key text gives is the decoder's output exactly when that is 32
/// bytes; a text that decodes to any other length is refused with that
/// length, and one that does not decode is refused with the decoder's error.
pub proof fn encryption_key_is_exactly_the_decoded_32_bytes(text: Seq<char>)
    ensures
        match base64_decoding(trimmed(text)) {
            Ok(bytes) => if bytes.len() == 32 {
                encryption_key_outcome(text) == Ok::<Seq<u8>, Seq<char>>(bytes)
            } else {
                encryption_key_outcome(text) == Err::<Seq<u8>, Seq<char>>(
                    "encryption key must decode to 32 bytes, got "@ + decimal(bytes.len()),
                )
            },
            Err(e) => encryption_key_outcome(text) == Err::<Seq<u8>, Seq<char>>(
                "encryption key is not valid base64: "@ + e,
            ),
        },
{
}

/// The value of a setting if it is present and not empty.
fn given_value(o: &Option<String>) -> (res: Option<String>)
    ensures
        opt_text(res) == given(*o),
{
    match o {
        Some(s) => if !s.as_str().is_empty() {
            Some(s.clone())
        } else {
            None
        },
        None => None,
    }
}

/// `s` without its trailing `/`s.
fn trim_trailing_slashes(s: &str) -> (res: String)
    ensures
        res@ == trim_end_char(s@, '/'),
{
    let v = chars_of(s);
    let mut j = v.len();
    assert(v@.subrange(0, j as int) =~= v@);
    while j > 0 && v[j - 1] == '/'
        invariant
            j <= v@.len(),
            trim_end_char(s@, '/') == trim_end_char(v@.subrange(0, j as int), '/'),
            v@ == s@,
        decreases j,
    {
        assert(v@.subrange(0, j as int).drop_last() =~= v@.subrange(0, j - 1));
        j = j - 1;
    }
    string_from_chars(&v, 0, j)
}

/// The origins listed in a comma separated setting, each trimmed, empty ones
/// dropped.
pub fn parse_origins(raw: &str) -> (res: Vec<String>)
    ensures
        texts(res@) == origin_list(raw@),
{
    let v = chars_of(raw);
    let n = v.len();
    let mut out: Vec<String> = Vec::new();
    let mut start: usize = 0;
    let mut i: usize = 0;
    let ghost mut done: Seq<Seq<char>> = Seq::empty();
    assert(v@.take(0) =~= Seq::<char>::empty());
    assert(v@.subrange(0, 0) =~= Seq::<char>::empty());
    while i < n
        invariant
            n == v@.len(),
            v@ == raw@,
            start <= i <= n,
            split_fields(v@.take(i as int), ',') == done.push(v@.subrange(start as int, i as int)),
            texts(out@) == done.map_values(trim_each()).filter(keep_nonempty()),
        decreases n - i,
    {
        let ghost prefix = v@.take(i + 1);
        assert(prefix.drop_last() =~= v@.take(i as int));
        assert(prefix.last() == v@[i as int]);
        if v[i] == ',' {
            let (a, b) = trim_bounds(&v, start, i);
            let ghost field = v@.subrange(start as int, i as int);
            proof {
                lemma_map_push(done, field, trim_each());
                lemma_filter_push(done.map_values(trim_each()), trimmed(field), keep_nonempty());
            }
            if a < b {
                let t = string_from_chars(&v, a, b);
                let ghost before = out@;
                out.push(t);
                proof {
                    assert(texts(out@) =~= texts(before).push(t@));
                }
            }
            proof {
                assert(v@.subrange(a as int, b as int) == trimmed(field));
                assert(trim_each()(field) == trimmed(field));
                assert(keep_nonempty()(trimmed(field)) == (a < b));
                assert(done.push(field).map_values(trim_each()).filter(keep_nonempty()) == if a < b {
                    done.map_values(trim_each()).filter(keep_nonempty()).push(trimmed(field))
                } else {
                    done.map_values(trim_each()).filter(keep_nonempty())
                });
                assert(texts(out@) == done.push(field).map_values(trim_each()).filter(keep_nonempty()));
                assert(split_fields(prefix, ',') == done.push(field).push(Seq::<char>::empty()));
                done = done.push(field);
            }
            start = i + 1;
            assert(v@.subrange(start as int, i + 1) =~= Seq::<char>::empty());
        } else {
            proof {
                let f = done.push(v@.subrange(start as int, i as int));
                assert(split_fields(prefix, ',') == f.update(f.len() - 1, f.last().push(v@[i as int])));
                assert(v@.subrange(start as int, i + 1) =~= v@.subrange(start as int, i as int).push(
                    v@[i as int],
                ));
                assert(f.update(f.len() - 1, f.last().push(v@[i as int])) =~= done.push(
                    v@.subrange(start as int, i + 1),
                ));
            }
        }
        i = i + 1;
        proof {
            assert(split_fields(v@.take(i as int), ',') =~= done.push(
                v@.subrange(start as int, i as int),
            ));
        }
    }
    assert(v@.take(n as int) =~= v@);
    let (a, b) = trim_bounds(&v, start, n);
    let ghost field = v@.subrange(start as int, n as int);
    proof {
        lemma_map_push(done, field, trim_each());
        lemma_filter_push(done.map_values(trim_each()), trimmed(field), keep_nonempty());
        assert(origin_list(raw@) == done.push(field).map_values(trim_each()).filter(keep_nonempty()));
    }
    if a < b {
        let t = string_from_chars(&v, a, b);
        let ghost before = out@;
        out.push(t);
        proof {
            assert(texts(out@) =~= texts(before).push(t@));
        }
    }
    out
}

impl Config {
    /// Checks the settings and decides where each value comes from. Refused
    /// settings give the first problem: no identity provider key, then no
    /// issuer (needed unless the key is discovered from an authority), then
    /// no encryption key. Reading the encryption key file, when the settings
    /// name one, is left to the caller.
    pub fn plan(settings: &Settings) -> (res: Result<ConfigPlan, String>)
        ensures
            match res {
                Ok(p) => {
                    &&& plan_error(*settings) is None
                    &&& p.bind_addr@ == or_default(settings.bind_addr, "0.0.0.0:8081"@)
                    &&& p.database_url@ == or_default(
                        settings.database_url,
                        "sqlite://keyconnector.db?mode=rwc"@,
                    )
                    &&& opt_text(p.jwt_issuer) == given(settings.jwt_issuer)
                    &&& public_key_choice(*settings) == Some(p.public_key@)
                    &&& key_secret_choice(*settings) == Some(p.key_secret@)
                    &&& texts(p.cors_allowed_origins@) == origin_list(
                        or_default(settings.cors_allowed_origins, Seq::empty()),
                    )
                },
                Err(m) => plan_error(*settings) == Some(m@),
            },
    {
        let jwt_issuer = given_value(&settings.jwt_issuer);
        let public_key = match given_value(&settings.public_key_path) {
            Some(path) => PublicKeySource::Path(path),
            None => match given_value(&settings.public_key_pem) {
                Some(pem) => PublicKeySource::Inline(pem),
                None => match given_value(&settings.identity_authority) {
                    Some(url) => PublicKeySource::Authority(trim_trailing_slashes(url.as_str())),
                    None => return Err(
                        String::from_str(
                            "Provide the identity provider via KC_IDENTITY_AUTHORITY (e.g. `https://vault.example.com/identity`), or its RSA public key via KC_IDENTITY_PUBLIC_KEY_PATH or KC_IDENTITY_PUBLIC_KEY_PEM",
                        ),
                    ),
                },
            },
        };
        let discovered = match &public_key {
            PublicKeySource::Authority(_) => true,
            _ => false,
        };
        if jwt_issuer.is_none() && !discovered {
            return Err(
                String::from_str(
                    "KC_JWT_ISSUER is required (e.g. `https://vault.example.com|login`) unless KC_IDENTITY_AUTHORITY is used",
                ),
            );
        }
        let key_secret = match given_value(&settings.encryption_key_path) {
            Some(path) => KeySecret::File(path),
            None => match given_value(&settings.encryption_key) {
                Some(text) => KeySecret::Inline(text),
                None => return Err(
                    String::from_str(
                        "Provide a base64 encoded 32 byte key via KC_ENCRYPTION_KEY_PATH or KC_ENCRYPTION_KEY (generate one with `openssl rand -base64 32`)",
                    ),
                ),
            },
        };
        let bind_addr = match &settings.bind_addr {
            Some(a) => a.clone(),
            None => String::from_str("0.0.0.0:8081"),
        };
        let database_url = match &settings.database_url {
            Some(u) => u.clone(),
            None => String::from_str("sqlite://keyconnector.db?mode=rwc"),
        };
        let cors_allowed_origins = match &settings.cors_allowed_origins {
            Some(raw) => parse_origins(raw.as_str()),
            None => parse_origins(""),
        };
        proof {
            reveal_strlit("");
        }
        Ok(ConfigPlan { bind_addr, database_url, jwt_issuer, public_key, key_secret, cors_allowed_origins })
    }
}

impl ConfigPlan {
    /// Completes the configuration with the base64 text of the encryption key
    /// (read from its file, or given inline): surrounding white space is
    /// ignored, and the text must decode to 32 bytes.
    pub fn finish(self, key_text: &str) -> (res: Result<Config, String>)
        ensures
            match res {
                Ok(c) => {
                    &&& encryption_key_outcome(key_text@) == Ok::<Seq<u8>, Seq<char>>(
                        c.encryption_key@,
                    )
                    &&& c.bind_addr == self.bind_addr
                    &&& c.database_url == self.database_url
                    &&& c.jwt_issuer == self.jwt_issuer
                    &&& c.public_key == self.public_key
                    &&& c.cors_allowed_origins == self.cors_allowed_origins
                },
                Err(m) => encryption_key_outcome(key_text@) == Err::<Seq<u8>, Seq<char>>(m@),
            },
            res matches Ok(c) ==> base64_decoding(trimmed(key_text@)) == Ok::<Seq<u8>, Seq<char>>(
                c.encryption_key@,
            ) && c.encryption_key@.len() == 32,
            base64_decoding(trimmed(key_text@)) matches Ok(bytes) ==> (res is Ok <==> bytes.len()
                == 32),
            base64_decoding(trimmed(key_text@)) is Err ==> res is Err,
    {
        let encryption_key = match base64_decode(trim(key_text)) {
            Ok(bytes) => bytes,
            Err(e) => {
                let mut m = String::from_str("encryption key is not valid base64: ");
                m.append(e.as_str());
                return Err(m);
            },
        };
        if encryption_key.len() != ENCRYPTION_KEY_LEN {
            let mut m = String::from_str("encryption key must decode to 32 bytes, got ");
            let n = decimal_text(encryption_key.len());
            m.append(n.as_str());
            return Err(m);
        }
        Ok(
            Config {
                bind_addr: self.bind_addr,
                database_url: self.database_url,
                jwt_issuer: self.jwt_issuer,
                public_key: self.public_key,
                encryption_key,
                cors_allowed_origins: self.cors_allowed_origins,
            },
        )
    }
}

/// The error text when the encryption key file cannot be read.
pub fn key_file_error(path: &str, error: &str) -> (res: String)
    ensures
        res@ == "failed to read KC_ENCRYPTION_KEY_PATH '"@ + path@ + "': "@ + error@,
{
    let mut m = String::from_str("failed to read KC_ENCRYPTION_KEY_PATH '");
    m.append(path);
    m.append("': ");
    m.append(error);
    m
}

/// Whether a browser at `origin` may call the connector: any origin when
/// none are configured, else only the configured ones.
pub fn allowed_origin(configured: &Vec<String>, origin: &str) -> (res: bool)
    ensures
        res == (configured@.len() == 0 || exists|i: int|
            0 <= i < configured@.len() && (#[trigger] configured@[i])@ == origin@),
{
    if configured.len() == 0 {
        return true;
    }
    let wanted = String::from_str(origin);
    let mut i: usize = 0;
    while i < configured.len()
        invariant
            i <= configured@.len(),
            wanted@ == origin@,
            forall|k: int| 0 <= k < i ==> (#[trigger] configured@[k])@ != origin@,
        decreases configured@.len() - i,
    {
        if configured[i] == wanted {
            return true;
        }
        i = i + 1;
    }
    false
}

} // verus!
