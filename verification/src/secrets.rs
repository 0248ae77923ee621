//! Saved passwords: the `dpapi:` envelope that marks a protected secret.
//!
//! A protected secret is the prefix `dpapi:` followed by the standard base64
//! encoding of the protected bytes.  The protection itself is the caller's
//! byte protector: on Windows the application passes the user-bound data
//! protection API (`CryptProtectData` / `CryptUnprotectData`); where there is
//! none, the application stores passwords as they are and does not call these
//! functions.
use vstd::prelude::*;
use vstd::utf8::{decode_utf8, encode_utf8, valid_utf8};

use base64::Engine;

use crate::text::{concat, is_prefix_of, starts_with, text_suffix};

verus! {

/// The marker that starts every protected secret.
pub const SECRET_PREFIX: &'static str = "dpapi:";

/// The standard base64 encoding (with padding) of `bytes`.
pub uninterp spec fn base64_encoding(bytes: Seq<u8>) -> Seq<char>;

/// What standard base64 decoding makes of `text`: the bytes, or the text of
/// the decoding error.
pub uninterp spec fn base64_decoding(text: Seq<char>) -> Result<Seq<u8>, Seq<char>>;

/// A character of the standard base64 alphabet, or its padding `=`.
pub open spec fn is_base64_char(c: char) -> bool {
    ('A' <= c && c <= 'Z') || ('a' <= c && c <= 'z') || ('0' <= c && c <= '9') || c == '+'
        || c == '/' || c == '='
}

/// Encodes with `base64::engine::general_purpose::STANDARD.encode`.
/// Trusted: the result is the named encoding of the bytes; it has four
/// characters for every started group of three bytes (padding included) and
/// uses only the base64 alphabet and `=`.  The engine panics only when the
/// encoded length overflows `usize`, which no slice can cause: a slice holds
/// at most `isize::MAX` bytes.
#[verifier::external_body]
fn base64_encode(bytes: &[u8]) -> (r: String)
    ensures
        r@ == base64_encoding(bytes@),
        r@.len() == 4 * ((bytes@.len() + 2) / 3),
        forall|i: int| 0 <= i < r@.len() ==> is_base64_char(#[trigger] r@[i]),
{
    base64::engine::general_purpose::STANDARD.encode(bytes)
}

/// Decodes with `base64::engine::general_purpose::STANDARD.decode`.
/// Trusted: the result is the named decoding of the text, an error carried by
/// its `Display` text; and decoding the encoding of some bytes gives those
/// bytes back.
#[verifier::external_body]
fn base64_decode(text: &str) -> (r: Result<Vec<u8>, String>)
    ensures
        match r {
            Ok(b) => base64_decoding(text@) == Ok::<Seq<u8>, Seq<char>>(b@),
            Err(e) => base64_decoding(text@) == Err::<Seq<u8>, Seq<char>>(e@),
        },
        forall|b: Seq<u8>|
            #[trigger] base64_encoding(b) == text@ ==> (r is Ok && r->Ok_0@ == b),
{
    base64::engine::general_purpose::STANDARD.decode(text).map_err(|e| e.to_string())
}

/// The `Display` text of the error that `String::from_utf8` gives for `bytes`.
pub uninterp spec fn utf8_error_text(bytes: Seq<u8>) -> Seq<char>;

/// Reads bytes as UTF-8 text with `String::from_utf8`.
/// Trusted: it succeeds exactly on valid UTF-8 and then holds the decoded
/// characters; its error is carried by the named `Display` text, which
/// depends on the bytes alone.
#[verifier::external_body]
fn utf8_text(bytes: Vec<u8>) -> (r: Result<String, String>)
    ensures
        r is Ok <==> valid_utf8(bytes@),
        r matches Ok(s) ==> s@ == decode_utf8(bytes@),
        r matches Err(e) ==> e@ == utf8_error_text(bytes@),
{
    String::from_utf8(bytes).map_err(|e| e.to_string())
}

/// The secret is already in the envelope.
pub open spec fn is_sealed(secret: Seq<char>) -> bool {
    is_prefix_of(SECRET_PREFIX@, secret)
}

/// The envelope around the protected bytes.
pub open spec fn sealed_form(protected: Seq<u8>) -> Seq<char> {
    SECRET_PREFIX@ + base64_encoding(protected)
}

/// The base64 text in the envelope of `p` has the padded standard shape:
/// four characters for every started group of three bytes, all of them from
/// the base64 alphabet or `=`.
pub open spec fn padded_base64(p: Seq<u8>) -> bool {
    &&& base64_encoding(p).len() == 4 * ((p.len() + 2) / 3)
    &&& forall|i: int| 0 <= i < base64_encoding(p).len() ==> is_base64_char(#[trigger] base64_encoding(p)[i])
}

/// A secret that is protected before it is stored: any that is not empty.
pub open spec fn needs_protection(secret: Seq<char>) -> bool {
    secret.len() > 0
}

/// A result of texts, as sequences of characters.
pub open spec fn result_text(r: Result<String, String>) -> Result<Seq<char>, Seq<char>> {
    match r {
        Ok(s) => Ok(s@),
        Err(e) => Err(e@),
    }
}

/// `out` is what protecting `secret` with the byte protector `f` can give:
/// the empty secret is kept; any other has its UTF-8 bytes handed to `f`, and
/// what `f` returns is sealed in padded base64, or its error is returned.
pub open spec fn protect_outcome<F: Fn(&[u8]) -> Result<Vec<u8>, String>>(
    f: F,
    secret: Seq<char>,
    out: Result<Seq<char>, Seq<char>>,
) -> bool {
    if !needs_protection(secret) {
        out == Ok::<Seq<char>, Seq<char>>(secret)
    } else {
        exists|b: &[u8], res: Result<Vec<u8>, String>|
            #![trigger call_ensures(f, (b,), res)]
            b@ == encode_utf8(secret) && call_ensures(f, (b,), res) && out == match res {
                Ok(p) => Ok::<Seq<char>, Seq<char>>(sealed_form(p@)),
                Err(e) => Err::<Seq<char>, Seq<char>>(e@),
            } && (res matches Ok(p) ==> padded_base64(p@))
    }
}

/// `out` is what reading back the protected bytes `bytes` with the byte
/// unprotector `f` can give: the error of `f`, or the UTF-8 text of what it
/// returns, or the UTF-8 error.
pub open spec fn opened_outcome<F: Fn(&[u8]) -> Result<Vec<u8>, String>>(
    f: F,
    bytes: Seq<u8>,
    out: Result<Seq<char>, Seq<char>>,
) -> bool {
    exists|b: &[u8], res: Result<Vec<u8>, String>|
        #![trigger call_ensures(f, (b,), res)]
        b@ == bytes && call_ensures(f, (b,), res) && out == match res {
            Ok(plain) => if valid_utf8(plain@) {
                Ok::<Seq<char>, Seq<char>>(decode_utf8(plain@))
            } else {
                Err::<Seq<char>, Seq<char>>(utf8_error_text(plain@))
            },
            Err(e) => Err::<Seq<char>, Seq<char>>(e@),
        }
}

/// The base64 text of a sealed secret, after the prefix.
pub open spec fn sealed_payload(secret: Seq<char>) -> Seq<char> {
    secret.skip(SECRET_PREFIX@.len() as int)
}

/// `out` is what reading back `secret` with the byte unprotector `f` can
/// give: a secret outside the envelope is kept; a sealed one fails with the
/// base64 error of its payload, or the decoded bytes are read back by `f`.
pub open spec fn unprotect_outcome<F: Fn(&[u8]) -> Result<Vec<u8>, String>>(
    f: F,
    secret: Seq<char>,
    out: Result<Seq<char>, Seq<char>>,
) -> bool {
    if !is_sealed(secret) {
        out == Ok::<Seq<char>, Seq<char>>(secret)
    } else {
        match base64_decoding(sealed_payload(secret)) {
            Err(m) => out == Err::<Seq<char>, Seq<char>>(m),
            Ok(bytes) => opened_outcome(f, bytes, out),
        }
    }
}

/// `out` is what reading back `secret` with `f` can give, and when `secret`
/// is the envelope of the bytes `p`, it is what reading back `p` gives.
pub open spec fn read_back_outcome<F: Fn(&[u8]) -> Result<Vec<u8>, String>>(
    f: F,
    secret: Seq<char>,
    out: Result<Seq<char>, Seq<char>>,
) -> bool {
    &&& unprotect_outcome(f, secret, out)
    &&& forall|p: Seq<u8>| secret == #[trigger] sealed_form(p) ==> opened_outcome(f, p, out)
}

/// Whether the secret is already in the envelope.
pub fn is_sealed_secret(secret: &str) -> (r: bool)
    ensures
        r == is_sealed(secret@),
{
    starts_with(secret, SECRET_PREFIX)
}

/// Puts protected bytes in the envelope.
pub fn seal_secret(protected: &[u8]) -> (r: String)
    ensures
        r@ == sealed_form(protected@),
        padded_base64(protected@),
{
    let encoded = base64_encode(protected);
    concat(SECRET_PREFIX, encoded.as_str())
}

/// Takes the protected bytes out of the envelope: `Ok(None)` for a secret
/// that is not sealed, `Ok(Some(bytes))` for a sealed one, and the decoding
/// error when its base64 text is invalid.
pub fn open_sealed(secret: &str) -> (r: Result<Option<Vec<u8>>, String>)
    ensures
        !is_sealed(secret@) ==> r matches Ok(None),
        is_sealed(secret@) ==> match base64_decoding(sealed_payload(secret@)) {
            Ok(bytes) => r matches Ok(Some(b)) && b@ == bytes,
            Err(m) => r matches Err(e) && e@ == m,
        },
        forall|p: Seq<u8>| secret@ == #[trigger] sealed_form(p) ==> (r matches Ok(Some(b)) && b@ == p),
{
    if !starts_with(secret, SECRET_PREFIX) {
        assert forall|p: Seq<u8>| secret@ != #[trigger] sealed_form(p) by {
            assert(sealed_form(p).take(SECRET_PREFIX@.len() as int) =~= SECRET_PREFIX@);
        }
        return Ok(None);
    }
    let prefix_len = SECRET_PREFIX.unicode_len();
    let encoded = text_suffix(secret, prefix_len);
    proof {
        assert forall|p: Seq<u8>| secret@ == #[trigger] sealed_form(p) implies encoded@ == base64_encoding(p) by {
            assert(secret@.skip(SECRET_PREFIX@.len() as int) =~= base64_encoding(p));
        }
    }
    match base64_decode(encoded.as_str()) {
        Ok(b) => Ok(Some(b)),
        Err(e) => Err(e),
    }
}

/// Whether a secret is protected before it is stored: it is not empty.
pub fn needs_protection_secret(secret: &str) -> (r: bool)
    ensures
        r == needs_protection(secret@),
{
    secret.unicode_len() != 0
}

/// Protects a secret for storage with the byte protector `protect_bytes`:
/// the empty secret is returned as it is; any other secret's UTF-8 bytes are
/// protected and sealed, or the protector's error is returned.  A secret that
/// already looks sealed is protected like any other.
pub fn protect_secret<F: Fn(&[u8]) -> Result<Vec<u8>, String>>(
    secret: &str,
    protect_bytes: &F,
) -> (r: Result<String, String>)
    requires
        forall|b: &[u8]| call_requires(*protect_bytes, (b,)),
    ensures
        protect_outcome(*protect_bytes, secret@, result_text(r)),
{
    if !needs_protection_secret(secret) {
        return Ok(secret.to_owned());
    }
    let bytes = secret.as_bytes();
    let res = protect_bytes(bytes);
    let r = match res {
        Ok(p) => Ok(seal_secret(p.as_slice())),
        Err(e) => Err(e),
    };
    assert(call_ensures(*protect_bytes, (bytes,), res));
    r
}

/// Reads a stored secret back with the byte unprotector `unprotect_bytes`:
/// a secret outside the envelope is returned as it is; a sealed one is
/// opened, its bytes are read back and then read as UTF-8 text.  Fails with
/// the base64 error, the unprotector's error, or the UTF-8 error.
pub fn unprotect_secret<F: Fn(&[u8]) -> Result<Vec<u8>, String>>(
    secret: &str,
    unprotect_bytes: &F,
) -> (r: Result<String, String>)
    requires
        forall|b: &[u8]| call_requires(*unprotect_bytes, (b,)),
    ensures
        read_back_outcome(*unprotect_bytes, secret@, result_text(r)),
{
    let opened = open_sealed(secret);
    match opened {
        Ok(None) => Ok(secret.to_owned()),
        Ok(Some(bytes)) => {
            let slice = bytes.as_slice();
            let res = unprotect_bytes(slice);
            assert(call_ensures(*unprotect_bytes, (slice,), res));
            match res {
                Ok(plain) => utf8_text(plain),
                Err(e) => Err(e),
            }
        },
        Err(e) => Err(e),
    }
}

} // verus!
