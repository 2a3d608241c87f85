//! Reading one value out of a header collection and decoding it as text.

use crate::error::{Cause, CauseView, Error, ErrorKind, ErrorView, Operation};
use http::header::HeaderMap;
use http::header::HeaderValue;
use vstd::prelude::*;
use vstd::utf8::{decode_utf8, encode_utf8, valid_utf8};

verus! {

/// `http::HeaderMap`, the header collection that callers hand in. What it
/// holds is spoken of through [`header_values`].
#[verifier::external_type_specification]
#[verifier::external_body]
#[verifier::reject_recursive_types(T)]
pub struct ExHeaderMap<T>(HeaderMap<T>);

/// `http::HeaderValue`, one value of a header collection.
#[verifier::external_type_specification]
#[verifier::external_body]
pub struct ExHeaderValue(HeaderValue);

/// What a header collection holds, as far as this crate reads it: for each
/// header name that has a value, the name in lower case and the bytes of
/// the first value stored under it.
pub uninterp spec fn header_values(headers: HeaderMap<HeaderValue>) -> Map<Seq<char>, Seq<u8>>;

/// The values of a header collection, by header name in lower case.
pub type Values = Map<Seq<char>, Seq<u8>>;

/// Whether `name` is made of one to 64 lower-case letters, digits and
/// hyphens.
pub open spec fn is_field_name(name: Seq<char>) -> bool {
    &&& 0 < name.len() <= 64
    &&& forall|i: int|
        0 <= i < name.len() ==> {
            let c = #[trigger] name[i];
            ('a' <= c && c <= 'z') || ('0' <= c && c <= '9') || c == '-'
        }
}

/// Calls `HeaderMap::get` with a name given as text, and
/// `HeaderValue::as_bytes` on what it finds.
///
/// `get` looks a name up without regard to case and returns the first value
/// stored under it, or `None` if there is none. The names admitted here are
/// in lower case already, so the value is the one that [`header_values`]
/// has under `name`.
#[verifier::external_body]
pub(crate) fn header_value<'a>(headers: &'a HeaderMap<HeaderValue>, name: &str) -> (value: Option<
    &'a [u8],
>)
    requires
        is_field_name(name@),
    ensures
        value is Some <==> header_values(*headers).contains_key(name@),
        value matches Some(bytes) ==> bytes@ == header_values(*headers)[name@],
{
    match headers.get(name) {
        Some(value) => Some(value.as_bytes()),
        None => None,
    }
}

/// `core::str::from_utf8` succeeds on exactly the byte sequences that are
/// valid UTF-8, and the text it returns is made of the bytes it was given.
pub assume_specification<'a>[ core::str::from_utf8 ](bytes: &'a [u8]) -> (text: Result<
    &'a str,
    core::str::Utf8Error,
>)
    ensures
        text is Ok <==> valid_utf8(bytes@),
        text matches Ok(s) ==> encode_utf8(s@) == bytes@,
;

/// What is reported of a header value that is not valid UTF-8.
pub open spec fn invalid_encoding(operation: Operation) -> ErrorView {
    ErrorView {
        kind: ErrorKind::InvalidEncoding,
        operation,
        source: Some(CauseView::Utf8),
    }
}

/// The text of the header `name`: nothing if the header is absent, its value
/// decoded as UTF-8 if it is present, a failure if the value is not valid
/// UTF-8.
pub open spec fn text_field(
    values: Values,
    name: Seq<char>,
    operation: Operation,
) -> Result<Option<Seq<char>>, ErrorView> {
    if !values.contains_key(name) {
        Ok(None)
    } else if valid_utf8(values[name]) {
        Ok(Some(decode_utf8(values[name])))
    } else {
        Err(invalid_encoding(operation))
    }
}

/// A result with each text and each failure replaced by its view.
pub open spec fn text_outcome(found: Result<Option<&str>, Error>) -> Result<
    Option<Seq<char>>,
    ErrorView,
> {
    match found {
        Ok(Some(s)) => Ok(Some(s@)),
        Ok(None) => Ok(None),
        Err(e) => Err(e@),
    }
}

/// A result with the failure replaced by its view.
pub open spec fn outcome<T>(found: Result<T, Error>) -> Result<T, ErrorView> {
    match found {
        Ok(value) => Ok(value),
        Err(e) => Err(e@),
    }
}

/// Reads the header `name` as text, borrowed from the collection.
pub(crate) fn text_header<'a>(
    headers: &'a HeaderMap<HeaderValue>,
    name: &str,
    operation: Operation,
) -> (text: Result<Option<&'a str>, Error>)
    requires
        is_field_name(name@),
    ensures
        text_outcome(text) == text_field(header_values(*headers), name@, operation),
{
    match header_value(headers, name) {
        None => Ok(None),
        Some(bytes) => match core::str::from_utf8(bytes) {
            Ok(s) => {
                proof {
                    vstd::utf8::encode_utf8_decode_utf8(s@);
                }
                Ok(Some(s))
            },
            Err(refusal) => Err(
                Error::new(ErrorKind::InvalidEncoding, operation).with_source(Cause::Utf8(refusal)),
            ),
        },
    }
}

} // verus!
