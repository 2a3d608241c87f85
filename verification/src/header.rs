//! The headers of a response, read one by one and gathered into a
//! [`Metadata`].
//!
//! A header that is absent is no failure: its reader returns `None`. A
//! header that is present must hold valid UTF-8, and a number, a range or a
//! date where one is expected.

use crate::error::{Cause, CauseView, Error, ErrorKind, ErrorView, IntegerFault, Operation};
use crate::lookup::{
    header_values, invalid_encoding, outcome, text_field, text_header, text_outcome, Values,
};
use crate::metadata::{EntryMode, Metadata, MetadataView};
use crate::number::{decimal, parse_decimal};
use crate::range::{malformed_range, range_of, BytesContentRange};
use crate::timestamp::{parse_rfc2822, rfc2822_instant, Timestamp};
use http::header::HeaderMap;
use http::header::HeaderValue;
use vstd::prelude::*;
use vstd::string::StringSliceAdditionalSpecFns;
use vstd::utf8::{decode_utf8, encode_scalar, encode_utf8, has_width_1_encoding, valid_utf8};

verus! {

const SLASH: u8 = 0x2f;

/// The name of the header `Location`, in lower case.
pub open spec fn location_name() -> Seq<char> {
    "location"@
}

/// The name of the header `Content-Length`, in lower case.
pub open spec fn content_length_name() -> Seq<char> {
    "content-length"@
}

/// The name of the header `Content-MD5`, in lower case.
pub open spec fn content_md5_name() -> Seq<char> {
    "content-md5"@
}

/// The name of the header `Content-Type`, in lower case.
pub open spec fn content_type_name() -> Seq<char> {
    "content-type"@
}

/// The name of the header `Content-Range`, in lower case.
pub open spec fn content_range_name() -> Seq<char> {
    "content-range"@
}

/// The name of the header `Last-Modified`, in lower case.
pub open spec fn last_modified_name() -> Seq<char> {
    "last-modified"@
}

/// The name of the header `ETag`, in lower case.
pub open spec fn etag_name() -> Seq<char> {
    "etag"@
}

/// The name of the header `Content-Disposition`, in lower case.
pub open spec fn content_disposition_name() -> Seq<char> {
    "content-disposition"@
}

/// What is reported of a `Content-Length` that is no number.
pub open spec fn invalid_integer(fault: IntegerFault) -> ErrorView {
    ErrorView {
        kind: ErrorKind::InvalidInteger,
        operation: Operation::ParseContentLength,
        source: Some(CauseView::Integer(fault)),
    }
}

/// What is reported of a `Last-Modified` that is no date.
pub open spec fn invalid_timestamp() -> ErrorView {
    ErrorView {
        kind: ErrorKind::InvalidTimestamp,
        operation: Operation::ParseLastModified,
        source: Some(CauseView::Timestamp),
    }
}

/// The text that the bytes under `name` encode.
pub open spec fn decoded(values: Values, name: Seq<char>) -> Seq<char> {
    decode_utf8(values[name])
}

/// Whether the header `name` is present with a value that is not valid
/// UTF-8.
pub open spec fn undecodable(values: Values, name: Seq<char>) -> bool {
    values.contains_key(name) && !valid_utf8(values[name])
}

/// The redirect target that the headers give.
pub open spec fn location_field(values: Values) -> Result<Option<Seq<char>>, ErrorView> {
    text_field(values, location_name(), Operation::ParseLocation)
}

/// The content length that the headers give: the number that the text of
/// `Content-Length` denotes.
pub open spec fn content_length_field(values: Values) -> Result<Option<u64>, ErrorView> {
    match text_field(values, content_length_name(), Operation::ParseContentLength) {
        Err(failure) => Err(failure),
        Ok(None) => Ok(None),
        Ok(Some(text)) => match decimal(text) {
            Ok(length) => Ok(Some(length)),
            Err(fault) => Err(invalid_integer(fault)),
        },
    }
}

/// The content digest that the headers give, as it stands.
pub open spec fn content_md5_field(values: Values) -> Result<Option<Seq<char>>, ErrorView> {
    text_field(values, content_md5_name(), Operation::ParseContentMd5)
}

/// The content type that the headers give.
pub open spec fn content_type_field(values: Values) -> Result<Option<Seq<char>>, ErrorView> {
    text_field(values, content_type_name(), Operation::ParseContentType)
}

/// The byte range that the headers give: the range that the text of
/// `Content-Range` denotes.
pub open spec fn content_range_field(values: Values) -> Result<
    Option<BytesContentRange>,
    ErrorView,
> {
    match text_field(values, content_range_name(), Operation::ParseContentRange) {
        Err(failure) => Err(failure),
        Ok(None) => Ok(None),
        Ok(Some(text)) => match range_of(text) {
            Some(range) => Ok(Some(range)),
            None => Err(malformed_range()),
        },
    }
}

/// What becomes of the text of a `Last-Modified` header, given what the
/// date parser made of it.
pub open spec fn last_modified_of(parsed: Option<Timestamp>) -> Result<
    Option<Timestamp>,
    ErrorView,
> {
    match parsed {
        Some(instant) => Ok(Some(instant)),
        None => Err(invalid_timestamp()),
    }
}

/// The time of the last change that the headers give: the instant that the
/// text of `Last-Modified` denotes.
pub open spec fn last_modified_field(values: Values) -> Result<Option<Timestamp>, ErrorView> {
    match text_field(values, last_modified_name(), Operation::ParseLastModified) {
        Err(failure) => Err(failure),
        Ok(None) => Ok(None),
        Ok(Some(text)) => last_modified_of(rfc2822_instant(text)),
    }
}

/// The entity tag that the headers give, quotes and all.
pub open spec fn etag_field(values: Values) -> Result<Option<Seq<char>>, ErrorView> {
    text_field(values, etag_name(), Operation::ParseEtag)
}

/// The content disposition that the headers give.
pub open spec fn content_disposition_field(values: Values) -> Result<
    Option<Seq<char>>,
    ErrorView,
> {
    text_field(values, content_disposition_name(), Operation::ParseContentDisposition)
}

/// Parse redirect location from header map.
///
/// The returned value may be a relative path, like `/index.html`.
pub fn parse_location(headers: &HeaderMap<HeaderValue>) -> (location: Result<Option<&str>, Error>)
    ensures
        text_outcome(location) == location_field(header_values(*headers)),
{
    proof {
        reveal_strlit("location");
    }
    text_header(headers, "location", Operation::ParseLocation)
}

/// Parse content length from header map.
pub fn parse_content_length(headers: &HeaderMap<HeaderValue>) -> (length: Result<
    Option<u64>,
    Error,
>)
    ensures
        outcome(length) == content_length_field(header_values(*headers)),
{
    proof {
        reveal_strlit("content-length");
    }
    match text_header(headers, "content-length", Operation::ParseContentLength) {
        Err(failure) => Err(failure),
        Ok(None) => Ok(None),
        Ok(Some(text)) => match parse_decimal(text) {
            Ok(length) => Ok(Some(length)),
            Err(fault) => Err(
                Error::new(ErrorKind::InvalidInteger, Operation::ParseContentLength).with_source(
                    Cause::Integer(fault),
                ),
            ),
        },
    }
}

/// Parse content md5 from header map.
pub fn parse_content_md5(headers: &HeaderMap<HeaderValue>) -> (digest: Result<
    Option<&str>,
    Error,
>)
    ensures
        text_outcome(digest) == content_md5_field(header_values(*headers)),
{
    proof {
        reveal_strlit("content-md5");
    }
    text_header(headers, "content-md5", Operation::ParseContentMd5)
}

/// Parse content type from header map.
pub fn parse_content_type(headers: &HeaderMap<HeaderValue>) -> (content_type: Result<
    Option<&str>,
    Error,
>)
    ensures
        text_outcome(content_type) == content_type_field(header_values(*headers)),
{
    proof {
        reveal_strlit("content-type");
    }
    text_header(headers, "content-type", Operation::ParseContentType)
}

/// Parse content range from header map.
///
/// A value outside the grammar is reported as [`BytesContentRange::parse`]
/// reports it.
pub fn parse_content_range(headers: &HeaderMap<HeaderValue>) -> (range: Result<
    Option<BytesContentRange>,
    Error,
>)
    ensures
        outcome(range) == content_range_field(header_values(*headers)),
{
    proof {
        reveal_strlit("content-range");
    }
    match text_header(headers, "content-range", Operation::ParseContentRange) {
        Err(failure) => Err(failure),
        Ok(None) => Ok(None),
        Ok(Some(text)) => match BytesContentRange::parse(text) {
            Ok(range) => Ok(Some(range)),
            Err(failure) => Err(failure),
        },
    }
}

/// Turns what the date parser made of a `Last-Modified` text into the
/// result of reading the header.
pub fn last_modified_from(parsed: Result<Timestamp, time::error::Parse>) -> (instant: Result<
    Option<Timestamp>,
    Error,
>)
    ensures
        outcome(instant) == last_modified_of(
            match parsed {
                Ok(at) => Some(at),
                Err(_) => None,
            },
        ),
{
    match parsed {
        Ok(at) => Ok(Some(at)),
        Err(refusal) => Err(
            Error::new(ErrorKind::InvalidTimestamp, Operation::ParseLastModified).with_source(
                Cause::Timestamp(refusal),
            ),
        ),
    }
}

/// Parse last modified from header map.
pub fn parse_last_modified(headers: &HeaderMap<HeaderValue>) -> (instant: Result<
    Option<Timestamp>,
    Error,
>)
    ensures
        outcome(instant) == last_modified_field(header_values(*headers)),
{
    proof {
        reveal_strlit("last-modified");
    }
    match text_header(headers, "last-modified", Operation::ParseLastModified) {
        Err(failure) => Err(failure),
        Ok(None) => Ok(None),
        Ok(Some(text)) => last_modified_from(parse_rfc2822(text)),
    }
}

/// Parse etag from header map.
pub fn parse_etag(headers: &HeaderMap<HeaderValue>) -> (etag: Result<Option<&str>, Error>)
    ensures
        text_outcome(etag) == etag_field(header_values(*headers)),
{
    proof {
        reveal_strlit("etag");
    }
    text_header(headers, "etag", Operation::ParseEtag)
}

/// Parse Content-Disposition from header map.
pub fn parse_content_disposition(headers: &HeaderMap<HeaderValue>) -> (disposition: Result<
    Option<&str>,
    Error,
>)
    ensures
        text_outcome(disposition) == content_disposition_field(header_values(*headers)),
{
    proof {
        reveal_strlit("content-disposition");
    }
    text_header(headers, "content-disposition", Operation::ParseContentDisposition)
}

/// The mode of the entry at `path`: a directory if the path ends in a
/// slash, a file otherwise. The empty path names a file.
pub open spec fn mode_of(path: Seq<char>) -> EntryMode {
    if path.len() > 0 && path.last() == '/' {
        EntryMode::DIR
    } else {
        EntryMode::FILE
    }
}

/// The failure of the first header that cannot be read, in the order in
/// which the record is filled: content length, content type, content range,
/// entity tag, content digest, last change, content disposition. `None` if
/// every header reads well.
pub open spec fn first_failure(values: Values) -> Option<ErrorView> {
    if content_length_field(values) is Err {
        Some(content_length_field(values)->Err_0)
    } else if content_type_field(values) is Err {
        Some(content_type_field(values)->Err_0)
    } else if content_range_field(values) is Err {
        Some(content_range_field(values)->Err_0)
    } else if etag_field(values) is Err {
        Some(etag_field(values)->Err_0)
    } else if content_md5_field(values) is Err {
        Some(content_md5_field(values)->Err_0)
    } else if last_modified_field(values) is Err {
        Some(last_modified_field(values)->Err_0)
    } else if content_disposition_field(values) is Err {
        Some(content_disposition_field(values)->Err_0)
    } else {
        None
    }
}

/// The record that a path and a header collection give: the first failure
/// among the headers if there is one; else the mode of the path and, field
/// by field, what each header gives.
pub open spec fn assembled(path: Seq<char>, values: Values) -> Result<MetadataView, ErrorView> {
    match first_failure(values) {
        Some(failure) => Err(failure),
        None => Ok(
            MetadataView {
                mode: mode_of(path),
                content_length: content_length_field(values)->Ok_0,
                content_type: content_type_field(values)->Ok_0,
                content_range: content_range_field(values)->Ok_0,
                etag: etag_field(values)->Ok_0,
                content_md5: content_md5_field(values)->Ok_0,
                last_modified: last_modified_field(values)->Ok_0,
                content_disposition: content_disposition_field(values)->Ok_0,
            },
        ),
    }
}

/// A result with the record and the failure replaced by their views.
pub open spec fn metadata_outcome(found: Result<Metadata, Error>) -> Result<
    MetadataView,
    ErrorView,
> {
    match found {
        Ok(metadata) => Ok(metadata@),
        Err(e) => Err(e@),
    }
}

/// The last byte of the UTF-8 encoding of one character is the byte of a
/// slash exactly if the character is a slash.
proof fn lemma_last_byte_of_char(c: char)
    ensures
        encode_scalar(c as u32).len() > 0,
        encode_scalar(c as u32).last() == SLASH <==> c == '/',
{
    let scalar = c as u32;
    if has_width_1_encoding(scalar) {
        assert((scalar & 0x7F) as u8 == scalar) by (bit_vector)
            requires
                scalar <= 0x7F,
        ;
    } else {
        assert(0x80u8 | (scalar & 0x3F) as u8 >= 0x80) by (bit_vector);
    }
}

/// The last byte of the UTF-8 encoding of a text is the byte of a slash
/// exactly if the last character of the text is a slash.
proof fn lemma_last_byte(text: Seq<char>)
    requires
        text.len() > 0,
    ensures
        encode_utf8(text).len() > 0,
        encode_utf8(text).last() == SLASH <==> text.last() == '/',
    decreases text.len(),
{
    let rest = text.drop_first();
    let head = encode_scalar(text[0] as u32);
    lemma_last_byte_of_char(text[0]);
    if rest.len() > 0 {
        lemma_last_byte(rest);
    } else {
        assert(head + encode_utf8(rest) =~= head);
    }
}

/// Tells whether `path` names a directory.
pub fn mode_of_path(path: &str) -> (mode: EntryMode)
    ensures
        mode == mode_of(path@),
{
    let bytes = path.as_bytes();
    let n = bytes.len();
    proof {
        if path@.len() > 0 {
            lemma_last_byte(path@);
        }
    }
    if n > 0 && bytes[n - 1] == SLASH {
        EntryMode::DIR
    } else {
        EntryMode::FILE
    }
}

/// parse_into_metadata will parse standards http headers into Metadata.
///
/// Only the standard headers are read. Headers that a service adds of its
/// own are left to the caller, who may set further fields on the record.
/// Nothing checks one field against another.
pub fn parse_into_metadata(path: &str, headers: &HeaderMap<HeaderValue>) -> (metadata: Result<
    Metadata,
    Error,
>)
    ensures
        metadata_outcome(metadata) == assembled(path@, header_values(*headers)),
{
    let mut m = Metadata::new(mode_of_path(path));
    match parse_content_length(headers) {
        Err(failure) => {
            return Err(failure);
        },
        Ok(Some(length)) => {
            m.set_content_length(length);
        },
        Ok(None) => {},
    }
    match parse_content_type(headers) {
        Err(failure) => {
            return Err(failure);
        },
        Ok(Some(text)) => {
            m.set_content_type(text);
        },
        Ok(None) => {},
    }
    match parse_content_range(headers) {
        Err(failure) => {
            return Err(failure);
        },
        Ok(Some(range)) => {
            m.set_content_range(range);
        },
        Ok(None) => {},
    }
    match parse_etag(headers) {
        Err(failure) => {
            return Err(failure);
        },
        Ok(Some(text)) => {
            m.set_etag(text);
        },
        Ok(None) => {},
    }
    match parse_content_md5(headers) {
        Err(failure) => {
            return Err(failure);
        },
        Ok(Some(text)) => {
            m.set_content_md5(text);
        },
        Ok(None) => {},
    }
    match parse_last_modified(headers) {
        Err(failure) => {
            return Err(failure);
        },
        Ok(Some(instant)) => {
            m.set_last_modified(instant);
        },
        Ok(None) => {},
    }
    match parse_content_disposition(headers) {
        Err(failure) => {
            return Err(failure);
        },
        Ok(Some(text)) => {
            m.set_content_disposition(text);
        },
        Ok(None) => {},
    }
    Ok(m)
}

/// Every field of an assembled record is what its header gives: unset if
/// the header is absent, and if it is present the decoded value, as text,
/// number, range or instant. No field is filled with a default.
pub proof fn lemma_fields_follow_headers(path: Seq<char>, values: Values)
    requires
        assembled(path, values) is Ok,
    ensures
        ({
            let record = assembled(path, values)->Ok_0;
            let text = |name: Seq<char>| decoded(values, name);
            &&& record.mode == mode_of(path)
            &&& record.content_length is Some <==> values.contains_key(content_length_name())
            &&& record.content_length matches Some(length) ==> decimal(text(content_length_name()))
                == Ok::<u64, IntegerFault>(length)
            &&& record.content_type is Some <==> values.contains_key(content_type_name())
            &&& record.content_type matches Some(value) ==> value == text(content_type_name())
            &&& record.content_range is Some <==> values.contains_key(content_range_name())
            &&& record.content_range matches Some(range) ==> range_of(text(content_range_name()))
                == Some(range)
            &&& record.etag is Some <==> values.contains_key(etag_name())
            &&& record.etag matches Some(value) ==> value == text(etag_name())
            &&& record.content_md5 is Some <==> values.contains_key(content_md5_name())
            &&& record.content_md5 matches Some(value) ==> value == text(content_md5_name())
            &&& record.last_modified is Some <==> values.contains_key(last_modified_name())
            &&& record.last_modified matches Some(instant) ==> rfc2822_instant(
                text(last_modified_name()),
            ) == Some(instant)
            &&& record.content_disposition is Some <==> values.contains_key(
                content_disposition_name(),
            )
            &&& record.content_disposition matches Some(value) ==> value == text(
                content_disposition_name(),
            )
        }),
{
}

/// A header value that is not valid UTF-8 fails the reader of its header
/// with the failure for an invalid encoding, whatever the header.
pub proof fn lemma_malformed_utf8_fails_every_reader(values: Values)
    ensures
        undecodable(values, location_name()) ==> location_field(values) == Err::<
            Option<Seq<char>>,
            ErrorView,
        >(invalid_encoding(Operation::ParseLocation)),
        undecodable(values, content_length_name()) ==> content_length_field(values) == Err::<
            Option<u64>,
            ErrorView,
        >(invalid_encoding(Operation::ParseContentLength)),
        undecodable(values, content_md5_name()) ==> content_md5_field(values) == Err::<
            Option<Seq<char>>,
            ErrorView,
        >(invalid_encoding(Operation::ParseContentMd5)),
        undecodable(values, content_type_name()) ==> content_type_field(values) == Err::<
            Option<Seq<char>>,
            ErrorView,
        >(invalid_encoding(Operation::ParseContentType)),
        undecodable(values, content_range_name()) ==> content_range_field(values) == Err::<
            Option<BytesContentRange>,
            ErrorView,
        >(invalid_encoding(Operation::ParseContentRange)),
        undecodable(values, last_modified_name()) ==> last_modified_field(values) == Err::<
            Option<Timestamp>,
            ErrorView,
        >(invalid_encoding(Operation::ParseLastModified)),
        undecodable(values, etag_name()) ==> etag_field(values) == Err::<
            Option<Seq<char>>,
            ErrorView,
        >(invalid_encoding(Operation::ParseEtag)),
        undecodable(values, content_disposition_name()) ==> content_disposition_field(values)
            == Err::<Option<Seq<char>>, ErrorView>(
            invalid_encoding(Operation::ParseContentDisposition),
        ),
{
}

/// Assembling twice from the same path and the same headers gives the same
/// outcome: the same record, field for field, or the same failure.
pub proof fn lemma_assembly_is_idempotent(
    path: Seq<char>,
    headers: HeaderMap<HeaderValue>,
    first: Result<Metadata, Error>,
    second: Result<Metadata, Error>,
)
    requires
        metadata_outcome(first) == assembled(path, header_values(headers)),
        metadata_outcome(second) == assembled(path, header_values(headers)),
    ensures
        metadata_outcome(first) == metadata_outcome(second),
        first matches Ok(record) ==> second is Ok && second->Ok_0@ == record@,
        first matches Err(failure) ==> second is Err && second->Err_0@ == failure@,
{
}

} // verus!
