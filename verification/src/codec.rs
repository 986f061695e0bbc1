//! Byte/text encodings: standard base64 (through the `base64` crate) and
//! UTF-8 decoding (through std).

use base64::engine::general_purpose::STANDARD as BASE64;
use base64::Engine as _;
use vstd::prelude::*;
use vstd::utf8::{decode_utf8, valid_utf8};

verus! {

/// What the standard, padded base64 engine decodes `text` to: the bytes, or
/// the text of its `DecodeError`.
pub uninterp spec fn base64_decoding(text: Seq<char>) -> Result<Seq<u8>, Seq<char>>;

/// The standard, padded base64 text of `data`.
pub uninterp spec fn base64_encoding(data: Seq<u8>) -> Seq<char>;

/// The text of the `FromUtf8Error` for bytes that are not valid UTF-8.
pub uninterp spec fn utf8_error_text(bytes: Seq<u8>) -> Seq<char>;

/// A symbol of the standard base64 alphabet, or the padding `=`.
pub open spec fn is_base64_symbol(c: char) -> bool {
    ||| 'A' <= c <= 'Z'
    ||| 'a' <= c <= 'z'
    ||| '0' <= c <= '9'
    ||| c == '+'
    ||| c == '/'
    ||| c == '='
}

/// The length of the padded base64 text of `n` bytes.
pub open spec fn padded_base64_len(n: nat) -> nat {
    4 * ((n + 2) / 3)
}

/// A successful decoding to `data`.
pub open spec fn decoded_ok(data: Seq<u8>) -> Result<Seq<u8>, Seq<char>> {
    Ok(data)
}

/// The view of a decoding outcome.
pub open spec fn bytes_or_text(r: Result<Vec<u8>, String>) -> Result<Seq<u8>, Seq<char>> {
    match r {
        Ok(b) => Ok(b@),
        Err(m) => Err(m@),
    }
}

/// `base64::engine::general_purpose::STANDARD.decode`: decodes standard,
/// padded base64. The contract names the outcome (bytes, or the text of the
/// `DecodeError`) and says nothing more of it.
#[verifier::external_body]
pub(crate) fn base64_decode(text: &str) -> (res: Result<Vec<u8>, String>)
    ensures
        bytes_or_text(res) == base64_decoding(text@),
{
    BASE64.decode(text).map_err(|e| e.to_string())
}

/// `base64::engine::general_purpose::STANDARD.encode`: the padded base64 text
/// of `data`. The contract claims that the text uses only the standard
/// alphabet and `=`, that it is four chars for every started group of three
/// bytes, and that decoding it with the same engine gives `data` back.
#[verifier::external_body]
pub(crate) fn base64_encode(data: &[u8]) -> (res: String)
    ensures
        res@ == base64_encoding(data@),
        res@.len() == padded_base64_len(data@.len()),
        base64_decoding(res@) == decoded_ok(data@),
        forall|i: int| 0 <= i < res@.len() ==> is_base64_symbol(#[trigger] res@[i]),
{
    BASE64.encode(data)
}

/// `String::from_utf8`: succeeds exactly on valid UTF-8, with the decoded
/// chars; on failure the text of the `FromUtf8Error`.
#[verifier::external_body]
pub(crate) fn utf8_to_string(bytes: Vec<u8>) -> (res: Result<String, String>)
    ensures
        match res {
            Ok(s) => valid_utf8(bytes@) && s@ == decode_utf8(bytes@),
            Err(m) => !valid_utf8(bytes@) && m@ == utf8_error_text(bytes@),
        },
{
    String::from_utf8(bytes).map_err(|e| e.to_string())
}

} // verus!
