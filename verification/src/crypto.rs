//! Sealing of stored key blobs with AES-256-GCM.
//!
//! A sealed value reads `v1|<nonce b64>|<ciphertext b64>`. The user id is the
//! associated data, so a ciphertext copied into another user's row does not
//! open. The version tag leaves room for rotating the key or algorithm.

use aes_gcm::aead::{Aead, Generate, KeyInit, Nonce, Payload};
use aes_gcm::Aes256Gcm;
use vstd::prelude::*;
use vstd::string::StrSliceExecFns;
use vstd::string::StringExecFns;
use vstd::utf8::{decode_utf8, encode_utf8, valid_utf8};

use crate::codec::{
    base64_decode,
    base64_decoding,
    base64_encode,
    base64_encoding,
    is_base64_symbol,
    padded_base64_len,
    utf8_error_text,
    utf8_to_string,
};
use crate::text::{bytes_of, chars_of, decimal, decimal_text, push_char, starts_with, string_from_chars};

verus! {

broadcast use vstd::utf8::group_utf8_lib;

/// Length in bytes of an AES-256 key.
pub const KEY_LEN: usize = 32;

/// Length in bytes of an AES-GCM nonce (96 bits).
pub const NONCE_LEN: usize = 12;

/// Length in bytes of the AES-GCM authentication tag.
pub const TAG_LEN: usize = 16;

/// Largest plaintext, in bytes, that AES-GCM encrypts (2^36 - 32).
pub const MAX_PLAINTEXT_LEN: u64 = 68719476704u64;

/// Largest associated data, in bytes, that AES-GCM authenticates (2^61 - 1).
pub const MAX_AAD_LEN: u64 = 2305843009213693951u64;

/// The AES-256-GCM ciphertext (with its tag) of `msg` under `key` and `nonce`,
/// authenticating `aad`.
pub uninterp spec fn aes256gcm_encryption(
    key: Seq<u8>,
    nonce: Seq<u8>,
    msg: Seq<u8>,
    aad: Seq<u8>,
) -> Seq<u8>;

/// What AES-256-GCM decryption of `ciphertext` gives under `key`, `nonce` and
/// `aad`: the plaintext, or nothing when the tag does not verify.
pub uninterp spec fn aes256gcm_decryption(
    key: Seq<u8>,
    nonce: Seq<u8>,
    ciphertext: Seq<u8>,
    aad: Seq<u8>,
) -> Option<Seq<u8>>;

/// The view of an optional byte vector.
pub open spec fn opt_bytes(o: Option<Vec<u8>>) -> Option<Seq<u8>> {
    match o {
        Some(b) => Some(b@),
        None => None,
    }
}

/// `Aes256Gcm::new_from_slice`: accepts exactly the 32 byte keys.
#[verifier::external_body]
fn aes256gcm_key_accepted(key: &[u8]) -> (res: bool)
    ensures
        res == (key@.len() == KEY_LEN),
{
    Aes256Gcm::new_from_slice(key).is_ok()
}

/// `Nonce::<Aes256Gcm>::generate` (the `Generate` trait, with the system's
/// generator): a fresh random 96 bit nonce. Nothing is claimed of its value; it panics if
/// the system's random source fails.
#[verifier::external_body]
fn random_nonce() -> (res: Vec<u8>)
    ensures
        res@.len() == NONCE_LEN,
{
    Nonce::<Aes256Gcm>::generate().to_vec()
}

/// `Aead::encrypt` of `Aes256Gcm`. The contract claims: it fails exactly when
/// the message exceeds 2^36 - 32 bytes or the associated data 2^61 - 1 bytes,
/// with the text
/// `aead::Error`; on success the ciphertext is the named encryption, 16 bytes
/// (the tag) longer than `msg`, and decrypting it with the same key, nonce and
/// associated data gives `msg`.
#[verifier::external_body]
fn aes256gcm_encrypt(key: &[u8], nonce: &[u8], msg: &[u8], aad: &[u8]) -> (res: Result<
    Vec<u8>,
    String,
>)
    requires
        key@.len() == KEY_LEN,
        nonce@.len() == NONCE_LEN,
    ensures
        res is Ok <==> (msg@.len() <= MAX_PLAINTEXT_LEN && aad@.len() <= MAX_AAD_LEN),
        match res {
            Ok(c) => c@ == aes256gcm_encryption(key@, nonce@, msg@, aad@) && c@.len() == msg@.len()
                + TAG_LEN && aes256gcm_decryption(
                key@,
                nonce@,
                c@,
                aad@,
            ) == Some(msg@),
            Err(m) => m@ == "aead::Error"@,
        },
{
    let cipher = Aes256Gcm::new_from_slice(key).map_err(|e| e.to_string())?;
    let nonce = Nonce::<Aes256Gcm>::try_from(nonce).map_err(|e| e.to_string())?;
    cipher.encrypt(&nonce, Payload { msg, aad }).map_err(|e| e.to_string())
}

/// `Aead::decrypt` of `Aes256Gcm`: the named decryption. Nothing more is
/// claimed of it.
#[verifier::external_body]
fn aes256gcm_decrypt(key: &[u8], nonce: &[u8], ciphertext: &[u8], aad: &[u8]) -> (res: Option<
    Vec<u8>,
>)
    requires
        key@.len() == KEY_LEN,
        nonce@.len() == NONCE_LEN,
    ensures
        opt_bytes(res) == aes256gcm_decryption(key@, nonce@, ciphertext@, aad@),
{
    let cipher = Aes256Gcm::new_from_slice(key).ok()?;
    let nonce = Nonce::<Aes256Gcm>::try_from(nonce).ok()?;
    cipher.decrypt(&nonce, Payload { msg: ciphertext, aad }).ok()
}

/// `s` split at its first `|`: the text before it and the text after it.
pub open spec fn split_at_bar(s: Seq<char>) -> Option<(Seq<char>, Seq<char>)>
    decreases s.len(),
{
    if s.len() == 0 {
        None
    } else if s[0] == '|' {
        Some((Seq::empty(), s.drop_first()))
    } else {
        match split_at_bar(s.drop_first()) {
            Some((a, b)) => Some((seq![s[0]] + a, b)),
            None => None,
        }
    }
}

/// The three `|`-separated fields of a sealed value (the last one takes the
/// rest of the text), as `splitn(3, '|')` yields them.
pub open spec fn seal_fields(s: Seq<char>) -> Option<(Seq<char>, Seq<char>, Seq<char>)> {
    match split_at_bar(s) {
        None => None,
        Some((version, rest)) => match split_at_bar(rest) {
            None => None,
            Some((nonce, ciphertext)) => Some((version, nonce, ciphertext)),
        },
    }
}

/// The version tag of the sealed format.
pub open spec fn seal_version() -> Seq<char> {
    seq!['v', '1']
}

/// Every sealed value starts with this.
pub open spec fn seal_prefix() -> Seq<char> {
    seq!['v', '1', '|']
}

/// `s` is a sealed value (and not a plaintext row from before sealing).
pub open spec fn is_sealed_text(s: Seq<char>) -> bool {
    starts_with(s, seal_prefix())
}

/// A text is sealed exactly when it starts with the three chars `v1|`;
/// length or content after them does not matter.
pub proof fn sealed_means_v1_prefix(s: Seq<char>)
    ensures
        is_sealed_text(s) <==> (s.len() >= 3 && s[0] == 'v' && s[1] == '1' && s[2] == '|'),
{
    if s.len() >= 3 {
        if s[0] == 'v' && s[1] == '1' && s[2] == '|' {
            assert(s.subrange(0, 3) =~= seal_prefix());
        } else if is_sealed_text(s) {
            assert(s.subrange(0, 3)[0] == 'v');
            assert(s.subrange(0, 3)[1] == '1');
            assert(s.subrange(0, 3)[2] == '|');
        }
    }
}

/// The sealed text for a nonce and a ciphertext.
pub open spec fn seal_text(nonce: Seq<u8>, ciphertext: Seq<u8>) -> Seq<char> {
    seal_prefix() + base64_encoding(nonce) + seq!['|'] + base64_encoding(ciphertext)
}

/// The length of the sealed text of a plaintext of `n` bytes.
pub open spec fn sealed_len(n: nat) -> nat {
    3 + padded_base64_len(NONCE_LEN as nat) + 1 + padded_base64_len(n + TAG_LEN as nat)
}

/// The plaintext and the user id are within what AES-GCM accepts.
pub open spec fn seal_fits(user_id: Seq<char>, plaintext: Seq<char>) -> bool {
    encode_utf8(plaintext).len() <= MAX_PLAINTEXT_LEN && encode_utf8(user_id).len() <= MAX_AAD_LEN
}

/// What opening `sealed` for `user_id` under `key` gives: the plaintext, or
/// the reason it failed.
pub open spec fn open_outcome(key: Seq<u8>, user_id: Seq<char>, sealed: Seq<char>) -> Result<
    Seq<char>,
    Seq<char>,
> {
    match seal_fields(sealed) {
        None => Err("malformed sealed value"@),
        Some((version, nonce_text, ciphertext_text)) => if version != seal_version() {
            Err("unknown seal version '"@ + version + seq!['\''])
        } else {
            match base64_decoding(nonce_text) {
                Err(e) => Err("bad nonce: "@ + e),
                Ok(nonce) => if nonce.len() != NONCE_LEN {
                    Err("bad nonce length "@ + decimal(nonce.len()))
                } else {
                    match base64_decoding(ciphertext_text) {
                        Err(e) => Err("bad ciphertext: "@ + e),
                        Ok(ciphertext) => match aes256gcm_decryption(
                            key,
                            nonce,
                            ciphertext,
                            encode_utf8(user_id),
                        ) {
                            None => Err("decryption failed (wrong key or tampered value)"@),
                            Some(bytes) => if valid_utf8(bytes) {
                                Ok(decode_utf8(bytes))
                            } else {
                                Err("decrypted value is not utf-8: "@ + utf8_error_text(bytes))
                            },
                        },
                    }
                },
            }
        },
    }
}

/// The view of a text outcome.
pub open spec fn text_outcome(r: Result<String, String>) -> Result<Seq<char>, Seq<char>> {
    match r {
        Ok(s) => Ok(s@),
        Err(m) => Err(m@),
    }
}

/// The first `|` of a text is at `i`.
proof fn lemma_split_at_bar(s: Seq<char>, i: int)
    requires
        0 <= i < s.len(),
        s[i] == '|',
        forall|k: int| 0 <= k < i ==> s[k] != '|',
    ensures
        split_at_bar(s) == Some((s.take(i), s.skip(i + 1))),
    decreases i,
{
    if i == 0 {
        assert(s.take(0) =~= Seq::<char>::empty());
        assert(s.skip(1) =~= s.drop_first());
    } else {
        lemma_split_at_bar(s.drop_first(), i - 1);
        assert(seq![s[0]] + s.drop_first().take(i - 1) =~= s.take(i));
        assert(s.drop_first().skip(i) =~= s.skip(i + 1));
    }
}

/// A text without `|` does not split.
proof fn lemma_split_none(s: Seq<char>)
    requires
        forall|k: int| 0 <= k < s.len() ==> s[k] != '|',
    ensures
        split_at_bar(s) is None,
    decreases s.len(),
{
    if s.len() > 0 {
        lemma_split_none(s.drop_first());
    }
}

/// The fields of a sealed text are its nonce and ciphertext encodings.
proof fn lemma_seal_text_fields(nonce: Seq<u8>, ciphertext: Seq<u8>)
    requires
        forall|i: int|
            0 <= i < base64_encoding(nonce).len() ==> is_base64_symbol(
                #[trigger] base64_encoding(nonce)[i],
            ),
        forall|i: int|
            0 <= i < base64_encoding(ciphertext).len() ==> is_base64_symbol(
                #[trigger] base64_encoding(ciphertext)[i],
            ),
    ensures
        seal_fields(seal_text(nonce, ciphertext)) == Some(
            (seal_version(), base64_encoding(nonce), base64_encoding(ciphertext)),
        ),
        is_sealed_text(seal_text(nonce, ciphertext)),
{
    let n = base64_encoding(nonce);
    let c = base64_encoding(ciphertext);
    let s = seal_text(nonce, ciphertext);
    assert(s[2] == '|');
    lemma_split_at_bar(s, 2);
    assert(s.take(2) =~= seal_version());
    let rest = s.skip(3);
    assert(rest =~= n + seq!['|'] + c);
    assert forall|k: int| 0 <= k < n.len() implies rest[k] != '|' by {
        assert(rest[k] == n[k]);
        assert(is_base64_symbol(n[k]));
    }
    assert(rest[n.len() as int] == '|');
    lemma_split_at_bar(rest, n.len() as int);
    assert(rest.take(n.len() as int) =~= n);
    assert(rest.skip(n.len() as int + 1) =~= c);
    assert(s.subrange(0, 3) =~= seal_prefix());
}

/// Finds the first `|` in `v[from..]`.
fn find_bar(v: &Vec<char>, from: usize) -> (res: Option<usize>)
    requires
        from <= v@.len(),
    ensures
        match res {
            Some(i) => from <= i < v@.len() && v@[i as int] == '|' && forall|k: int|
                from <= k < i ==> v@[k] != '|',
            None => forall|k: int| from <= k < v@.len() ==> v@[k] != '|',
        },
{
    let mut i = from;
    while i < v.len()
        invariant
            from <= i <= v@.len(),
            forall|k: int| from <= k < i ==> v@[k] != '|',
        decreases v@.len() - i,
    {
        if v[i] == '|' {
            return Some(i);
        }
        i = i + 1;
    }
    None
}

/// Seals key blobs with AES-256-GCM under a 32 byte key.
pub struct KeyCipher {
    key: Vec<u8>,
}

impl View for KeyCipher {
    type V = Seq<u8>;

    /// The key bytes.
    closed spec fn view(&self) -> Seq<u8> {
        self.key@
    }
}

impl Clone for KeyCipher {
    fn clone(&self) -> (res: Self)
        ensures
            res@ == self@,
    {
        proof {
            use_type_invariant(self);
        }
        KeyCipher { key: bytes_of(self.key.as_slice()) }
    }
}

impl KeyCipher {
    #[verifier::type_invariant]
    spec fn key_has_cipher_length(&self) -> bool {
        self.key@.len() == KEY_LEN
    }

    /// A cipher over `key`, which must be 32 bytes long.
    pub fn new(key: &[u8]) -> (res: Result<KeyCipher, String>)
        ensures
            match res {
                Ok(c) => key@.len() == KEY_LEN && c@ == key@,
                Err(m) => key@.len() != KEY_LEN && m@ == "encryption key must be 32 bytes, got "@
                    + decimal(key@.len()),
            },
    {
        if aes256gcm_key_accepted(key) {
            let bytes = bytes_of(key);
            Ok(KeyCipher { key: bytes })
        } else {
            let mut m = String::from_str("encryption key must be 32 bytes, got ");
            let n = decimal_text(key.len());
            m.append(n.as_str());
            Err(m)
        }
    }

    /// Whether a stored value is sealed; plaintext rows predate sealing.
    pub fn is_sealed(value: &str) -> (res: bool)
        ensures
            res == is_sealed_text(value@),
            res == (value@.len() >= 3 && value@[0] == 'v' && value@[1] == '1' && value@[2] == '|'),
    {
        let v = chars_of(value);
        let res = v.len() >= 3 && v[0] == 'v' && v[1] == '1' && v[2] == '|';
        proof {
            if v@.len() >= 3 {
                if res {
                    assert(v@.subrange(0, 3) =~= seal_prefix());
                } else if is_sealed_text(value@) {
                    assert(v@.subrange(0, 3)[0] == 'v');
                    assert(v@.subrange(0, 3)[1] == '1');
                    assert(v@.subrange(0, 3)[2] == '|');
                }
            }
        }
        res
    }

    /// Seals `plaintext` for `user_id` under a fresh random nonce. Opening the
    /// result for the same user gives the plaintext back.
    pub fn seal(&self, user_id: &str, plaintext: &str) -> (res: Result<String, String>)
        ensures
            res is Ok <==> seal_fits(user_id@, plaintext@),
            match res {
                Ok(sealed) => {
                    &&& exists|nonce: Seq<u8>|
                        nonce.len() == NONCE_LEN && sealed@ == seal_text(
                            nonce,
                            #[trigger] aes256gcm_encryption(
                                self@,
                                nonce,
                                encode_utf8(plaintext@),
                                encode_utf8(user_id@),
                            ),
                        )
                    &&& sealed@.len() == sealed_len(encode_utf8(plaintext@).len())
                    &&& is_sealed_text(sealed@)
                    &&& open_outcome(self@, user_id@, sealed@) == Ok::<Seq<char>, Seq<char>>(
                        plaintext@,
                    )
                },
                Err(m) => m@ == "aead::Error"@,
            },
    {
        let nonce = random_nonce();
        self.seal_with_nonce(nonce.as_slice(), user_id, plaintext)
    }

    /// Seals `plaintext` for `user_id` under `nonce`, which must never have
    /// been used with this key before: `v1|<nonce b64>|<ciphertext b64>`.
    /// Opening the result for the same user gives the plaintext back.
    pub fn seal_with_nonce(&self, nonce: &[u8], user_id: &str, plaintext: &str) -> (res: Result<
        String,
        String,
    >)
        requires
            nonce@.len() == NONCE_LEN,
        ensures
            res is Ok <==> seal_fits(user_id@, plaintext@),
            match res {
                Ok(sealed) => {
                    &&& sealed@ == seal_text(
                        nonce@,
                        aes256gcm_encryption(
                            self@,
                            nonce@,
                            encode_utf8(plaintext@),
                            encode_utf8(user_id@),
                        ),
                    )
                    &&& aes256gcm_encryption(
                        self@,
                        nonce@,
                        encode_utf8(plaintext@),
                        encode_utf8(user_id@),
                    ).len() == encode_utf8(plaintext@).len() + TAG_LEN
                    &&& sealed@.len() == sealed_len(encode_utf8(plaintext@).len())
                    &&& is_sealed_text(sealed@)
                    &&& open_outcome(self@, user_id@, sealed@) == Ok::<Seq<char>, Seq<char>>(
                        plaintext@,
                    )
                },
                Err(m) => m@ == "aead::Error"@,
            },
    {
        proof {
            use_type_invariant(self);
        }
        let msg = plaintext.as_bytes();
        let aad = user_id.as_bytes();
        let ciphertext = match aes256gcm_encrypt(self.key.as_slice(), nonce, msg, aad) {
            Ok(c) => c,
            Err(e) => return Err(e),
        };
        let nonce_text = base64_encode(nonce);
        let ciphertext_text = base64_encode(ciphertext.as_slice());
        let mut out = String::from_str("v1|");
        out.append(nonce_text.as_str());
        push_char(&mut out, '|');
        out.append(ciphertext_text.as_str());
        proof {
            reveal_strlit("v1|");
            let ct = aes256gcm_encryption(self@, nonce@, msg@, aad@);
            assert(ciphertext@ == ct);
            assert(out@ =~= seal_text(nonce@, ct));
            lemma_seal_text_fields(nonce@, ct);
            assert(open_outcome(self@, user_id@, out@) == Ok::<Seq<char>, Seq<char>>(plaintext@));
        }
        Ok(out)
    }

    /// Opens a sealed value for `user_id`.
    pub fn open(&self, user_id: &str, sealed: &str) -> (res: Result<String, String>)
        ensures
            text_outcome(res) == open_outcome(self@, user_id@, sealed@),
    {
        proof {
            use_type_invariant(self);
        }
        let v = chars_of(sealed);
        let n = v.len();
        let i = match find_bar(&v, 0) {
            Some(i) => i,
            None => {
                proof {
                    lemma_split_none(v@);
                }
                return Err(String::from_str("malformed sealed value"));
            },
        };
        proof {
            lemma_split_at_bar(v@, i as int);
        }
        let j = match find_bar(&v, i + 1) {
            Some(j) => j,
            None => {
                proof {
                    lemma_split_none(v@.skip(i + 1));
                }
                return Err(String::from_str("malformed sealed value"));
            },
        };
        proof {
            let rest = v@.skip(i + 1);
            lemma_split_at_bar(rest, j - (i + 1));
            assert(rest.take(j - (i + 1)) =~= v@.subrange(i + 1, j as int));
            assert(rest.skip(j - (i + 1) + 1) =~= v@.subrange(j + 1, n as int));
            assert(v@.take(i as int) =~= v@.subrange(0, i as int));
        }
        let version_ok = i == 2 && v[0] == 'v' && v[1] == '1';
        proof {
            if version_ok {
                assert(v@.subrange(0, i as int) =~= seal_version());
            } else if i == 2 {
                assert(v@.subrange(0, i as int)[0] == v@[0]);
                assert(v@.subrange(0, i as int)[1] == v@[1]);
            }
        }
        if !version_ok {
            let mut m = String::from_str("unknown seal version '");
            let version = string_from_chars(&v, 0, i);
            m.append(version.as_str());
            push_char(&mut m, '\'');
            proof {
                let ver = v@.subrange(0, i as int);
                assert(seal_fields(sealed@) matches Some((a, _, _)) && a == ver);
                assert(ver != seal_version());
                assert(m@ =~= "unknown seal version '"@ + ver + seq!['\'']);
            }
            return Err(m);
        }
        let nonce = match base64_decode(sealed.substring_char(i + 1, j)) {
            Ok(b) => b,
            Err(e) => {
                let mut m = String::from_str("bad nonce: ");
                m.append(e.as_str());
                return Err(m);
            },
        };
        if nonce.len() != NONCE_LEN {
            let mut m = String::from_str("bad nonce length ");
            let len_text = decimal_text(nonce.len());
            m.append(len_text.as_str());
            return Err(m);
        }
        let ciphertext = match base64_decode(sealed.substring_char(j + 1, n)) {
            Ok(b) => b,
            Err(e) => {
                let mut m = String::from_str("bad ciphertext: ");
                m.append(e.as_str());
                return Err(m);
            },
        };
        let plaintext = match aes256gcm_decrypt(
            self.key.as_slice(),
            nonce.as_slice(),
            ciphertext.as_slice(),
            user_id.as_bytes(),
        ) {
            Some(p) => p,
            None => return Err(String::from_str("decryption failed (wrong key or tampered value)")),
        };
        match utf8_to_string(plaintext) {
            Ok(s) => Ok(s),
            Err(e) => {
                let mut m = String::from_str("decrypted value is not utf-8: ");
                m.append(e.as_str());
                Err(m)
            },
        }
    }
}

} // verus!
