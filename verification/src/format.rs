//! The header values that a client sends: the digest of a body and the two
//! forms of `Authorization`.

use crate::error::{Error, ErrorKind, ErrorView, Operation};
use base64::engine::general_purpose;
use base64::Engine;
use md5::Digest;
use vstd::prelude::*;
use vstd::string::StringExecFns;
use vstd::string::StringSliceAdditionalSpecFns;
use vstd::utf8::encode_utf8;

verus! {

/// The MD5 digest of `bytes`.
pub uninterp spec fn md5_digest(bytes: Seq<u8>) -> Seq<u8>;

/// The base64 encoding of `bytes` in the standard alphabet, padded with `=`
/// to a multiple of four characters.
pub uninterp spec fn base64_standard(bytes: Seq<u8>) -> Seq<char>;

/// Whether the base64 encoding of `len` bytes, four characters for every
/// three bytes begun, has a length that fits in `usize`.
pub open spec fn base64_fits(len: nat) -> bool {
    (len + 2) / 3 * 4 <= usize::MAX
}

/// Calls `Md5::digest` of the crate `md-5`, which hashes `bytes` in one go.
///
/// The digest depends on `bytes` alone, so it has the name [`md5_digest`].
/// Its sixteen bytes come back as an array.
#[verifier::external_body]
fn md5_of(bytes: &[u8]) -> (digest: [u8; 16])
    ensures
        digest@ == md5_digest(bytes@),
{
    md5::Md5::digest(bytes).into()
}

/// Calls `Engine::encode` on `base64::engine::general_purpose::STANDARD`.
///
/// The text depends on `bytes` alone, so it has the name
/// [`base64_standard`]. `encode` panics where the length of the text
/// overflows `usize`: such inputs are left out.
#[verifier::external_body]
fn base64_of(bytes: &[u8]) -> (text: String)
    requires
        base64_fits(bytes@.len()),
    ensures
        text@ == base64_standard(bytes@),
{
    general_purpose::STANDARD.encode(bytes)
}

/// The value of a content digest header for a body of `bytes`: the base64
/// text of their MD5 digest.
pub open spec fn content_md5(bytes: Seq<u8>) -> Seq<char> {
    base64_standard(md5_digest(bytes))
}

/// format content md5 header by given input.
///
/// The value is the base64 text of the MD5 digest of `bs`. MD5 is kept for
/// the services that expect it; it protects against accidents, not against
/// attacks.
pub fn format_content_md5(bs: &[u8]) -> (value: String)
    ensures
        value@ == content_md5(bs@),
{
    let digest = md5_of(bs);
    base64_of(digest.as_slice())
}

/// The text that basic authorization encodes: the user name, a colon and
/// the password.
pub open spec fn credentials(username: Seq<char>, password: Seq<char>) -> Seq<char> {
    username + seq![':'] + password
}

/// The scheme that leads a basic authorization, and the space after it.
pub open spec fn basic_scheme() -> Seq<char> {
    seq!['B', 'a', 's', 'i', 'c', ' ']
}

/// The scheme that leads a bearer authorization, and the space after it.
pub open spec fn bearer_scheme() -> Seq<char> {
    seq!['B', 'e', 'a', 'r', 'e', 'r', ' ']
}

/// What is reported of an empty user name or token.
pub open spec fn invalid_credential(operation: Operation) -> ErrorView {
    ErrorView { kind: ErrorKind::InvalidCredential, operation, source: None }
}

/// The UTF-8 encoding of two texts joined is the two encodings joined.
pub proof fn lemma_encode_utf8_concat(head: Seq<char>, tail: Seq<char>)
    ensures
        encode_utf8(head + tail) == encode_utf8(head) + encode_utf8(tail),
    decreases head.len(),
{
    if head.len() > 0 {
        lemma_encode_utf8_concat(head.drop_first(), tail);
        assert((head + tail).drop_first() =~= head.drop_first() + tail);
    }
}

/// Joins a user name and a password with a colon.
pub fn basic_credentials(username: &str, password: &str) -> (text: String)
    ensures
        text@ == credentials(username@, password@),
{
    proof {
        reveal_strlit(":");
    }
    let mut text = String::from_str(username);
    text.append(":");
    text.append(password);
    text
}

/// Puts the scheme `Basic` before encoded credentials.
pub fn basic_authorization(encoded: &str) -> (value: String)
    ensures
        value@ == basic_scheme() + encoded@,
{
    proof {
        reveal_strlit("Basic ");
    }
    let mut value = String::from_str("Basic ");
    value.append(encoded);
    value
}

/// format authorization header by basic auth.
///
/// # Errors
///
/// If input username is empty, function will return an error of the kind
/// [`ErrorKind::InvalidCredential`]. The password may be empty.
///
/// # Limits
///
/// The user name, the colon and the password, in UTF-8, must be few enough
/// bytes for the length of their base64 text to fit in `usize`.
pub fn format_authorization_by_basic(username: &str, password: &str) -> (value: Result<
    String,
    Error,
>)
    requires
        username@.len() > 0 ==> base64_fits(
            encode_utf8(username@).len() + 1 + encode_utf8(password@).len(),
        ),
    ensures
        match value {
            Ok(text) => {
                &&& username@.len() > 0
                &&& text@ == basic_scheme() + base64_standard(
                    encode_utf8(credentials(username@, password@)),
                )
            },
            Err(e) => {
                &&& username@.len() == 0
                &&& e@ == invalid_credential(Operation::FormatAuthorizationByBasic)
            },
        },
{
    if username.is_empty() {
        return Err(
            Error::new(ErrorKind::InvalidCredential, Operation::FormatAuthorizationByBasic),
        );
    }
    let plain = basic_credentials(username, password);
    proof {
        lemma_encode_utf8_concat(username@ + seq![':'], password@);
        lemma_encode_utf8_concat(username@, seq![':']);
        assert(encode_utf8(seq![':']).len() == 1) by {
            reveal_with_fuel(encode_utf8, 2);
        }
    }
    let encoded = base64_of(plain.as_str().as_bytes());
    Ok(basic_authorization(encoded.as_str()))
}

/// format authorization header by bearer token.
///
/// The token follows the scheme as it is, with no escaping.
///
/// # Errors
///
/// If input token is empty, function will return an error of the kind
/// [`ErrorKind::InvalidCredential`].
pub fn format_authorization_by_bearer(token: &str) -> (value: Result<String, Error>)
    ensures
        match value {
            Ok(text) => token@.len() > 0 && text@ == bearer_scheme() + token@,
            Err(e) => {
                &&& token@.len() == 0
                &&& e@ == invalid_credential(Operation::FormatAuthorizationByBearer)
            },
        },
{
    if token.is_empty() {
        return Err(
            Error::new(ErrorKind::InvalidCredential, Operation::FormatAuthorizationByBearer),
        );
    }
    proof {
        reveal_strlit("Bearer ");
    }
    let mut value = String::from_str("Bearer ");
    value.append(token);
    Ok(value)
}

/// The digest header of a body is stable: two values formatted from the
/// same bytes are the same text.
pub proof fn lemma_content_md5_is_stable(bytes: Seq<u8>, first: String, second: String)
    requires
        first@ == content_md5(bytes),
        second@ == content_md5(bytes),
    ensures
        first@ == second@,
{
}

} // verus!
