//! The failure that every operation of this crate reports.

use vstd::prelude::*;

verus! {

/// `core::str::Utf8Error`, the report of the standard UTF-8 decoder. Nothing
/// is claimed of what it holds.
#[verifier::external_type_specification]
#[verifier::external_body]
pub struct ExUtf8Error(core::str::Utf8Error);

/// `time::error::Parse`, the report of the date parser. Nothing is claimed
/// of what it holds.
#[verifier::external_type_specification]
#[verifier::external_body]
pub struct ExTimeParseError(time::error::Parse);

/// What went wrong, as far as a caller needs to tell failures apart.
#[derive(Clone, Copy, Debug, PartialEq, Eq, Structural)]
pub enum ErrorKind {
    /// A header value is not valid UTF-8.
    InvalidEncoding,
    /// A numeric header value is not a base-10 unsigned 64-bit integer.
    InvalidInteger,
    /// A timestamp header value does not follow the wire date format.
    InvalidTimestamp,
    /// A `Content-Range` value does not follow the byte-range grammar.
    MalformedRange,
    /// An empty user name or token was handed to an authorization formatter.
    InvalidCredential,
}

/// The operation in which a failure arose.
#[derive(Clone, Copy, Debug, PartialEq, Eq, Structural)]
pub enum Operation {
    ParseLocation,
    ParseContentLength,
    ParseContentMd5,
    ParseContentType,
    ParseContentRange,
    ParseLastModified,
    ParseEtag,
    ParseContentDisposition,
    ParseBytesContentRange,
    FormatAuthorizationByBasic,
    FormatAuthorizationByBearer,
}

/// Why a text is not an unsigned decimal number of 64 bits.
#[derive(Clone, Copy, Debug, PartialEq, Eq, Structural)]
pub enum IntegerFault {
    /// The text is empty.
    Empty,
    /// The text holds no digit, or a character that is not a digit.
    InvalidDigit,
    /// The digits denote a number above `u64::MAX`.
    Overflow,
}

/// The lower-level reason behind a failure.
#[derive(Clone, Copy, Debug, PartialEq, Eq)]
pub enum Cause {
    /// The decoder's own report on bytes that are not UTF-8.
    Utf8(core::str::Utf8Error),
    /// The fault found in a numeric text.
    Integer(IntegerFault),
    /// The date parser's own report on a text that is no date.
    Timestamp(time::error::Parse),
}

/// A [`Cause`] without the reports of other libraries.
pub enum CauseView {
    Utf8,
    Integer(IntegerFault),
    Timestamp,
}

impl View for Cause {
    type V = CauseView;

    open spec fn view(&self) -> CauseView {
        match *self {
            Cause::Utf8(_) => CauseView::Utf8,
            Cause::Integer(fault) => CauseView::Integer(fault),
            Cause::Timestamp(_) => CauseView::Timestamp,
        }
    }
}

/// An [`Error`] as contracts see it: its kind, its operation and the kind
/// of its cause.
pub struct ErrorView {
    pub kind: ErrorKind,
    pub operation: Operation,
    pub source: Option<CauseView>,
}

/// A failure: its kind, the operation it arose in and, where there is one,
/// the lower-level cause.
#[derive(Clone, Copy, Debug, PartialEq, Eq)]
pub struct Error {
    kind: ErrorKind,
    operation: Operation,
    source: Option<Cause>,
}

impl View for Error {
    type V = ErrorView;

    closed spec fn view(&self) -> ErrorView {
        ErrorView {
            kind: self.kind,
            operation: self.operation,
            source: match self.source {
                Some(cause) => Some(cause@),
                None => None,
            },
        }
    }
}

impl Error {
    /// A failure of the given kind in the given operation, with no cause.
    pub fn new(kind: ErrorKind, operation: Operation) -> (e: Error)
        ensures
            e@ == (ErrorView { kind, operation, source: None }),
    {
        Error { kind, operation, source: None }
    }

    /// The same failure with `cause` as its cause.
    pub fn with_source(self, cause: Cause) -> (e: Error)
        ensures
            e@ == (ErrorView {
                kind: self@.kind,
                operation: self@.operation,
                source: Some(cause@),
            }),
    {
        Error { kind: self.kind, operation: self.operation, source: Some(cause) }
    }

    /// The kind of the failure.
    pub fn kind(&self) -> (kind: ErrorKind)
        ensures
            kind == self@.kind,
    {
        self.kind
    }

    /// The operation in which the failure arose.
    pub fn operation(&self) -> (operation: Operation)
        ensures
            operation == self@.operation,
    {
        self.operation
    }

    /// The lower-level cause, if the failure has one.
    pub fn source(&self) -> (source: Option<Cause>)
        ensures
            source is Some <==> self@.source is Some,
            source matches Some(cause) ==> self@.source == Some(cause@),
    {
        self.source
    }
}

impl Operation {
    /// The name of the operation, as it is written in reports.
    pub open spec fn spec_name(self) -> Seq<char> {
        match self {
            Operation::ParseLocation => "http_util::parse_location"@,
            Operation::ParseContentLength => "http_util::parse_content_length"@,
            Operation::ParseContentMd5 => "http_util::parse_content_md5"@,
            Operation::ParseContentType => "http_util::parse_content_type"@,
            Operation::ParseContentRange => "http_util::parse_content_range"@,
            Operation::ParseLastModified => "http_util::parse_last_modified"@,
            Operation::ParseEtag => "http_util::parse_etag"@,
            Operation::ParseContentDisposition => "http_util::parse_content_disposition"@,
            Operation::ParseBytesContentRange => "BytesContentRange::parse"@,
            Operation::FormatAuthorizationByBasic => "http_util::format_authorization_by_basic"@,
            Operation::FormatAuthorizationByBearer => "http_util::format_authorization_by_bearer"@,
        }
    }

    /// The name of the operation, as it is written in reports.
    pub fn name(self) -> (name: &'static str)
        ensures
            name@ == self.spec_name(),
    {
        match self {
            Operation::ParseLocation => "http_util::parse_location",
            Operation::ParseContentLength => "http_util::parse_content_length",
            Operation::ParseContentMd5 => "http_util::parse_content_md5",
            Operation::ParseContentType => "http_util::parse_content_type",
            Operation::ParseContentRange => "http_util::parse_content_range",
            Operation::ParseLastModified => "http_util::parse_last_modified",
            Operation::ParseEtag => "http_util::parse_etag",
            Operation::ParseContentDisposition => "http_util::parse_content_disposition",
            Operation::ParseBytesContentRange => "BytesContentRange::parse",
            Operation::FormatAuthorizationByBasic => "http_util::format_authorization_by_basic",
            Operation::FormatAuthorizationByBearer => "http_util::format_authorization_by_bearer",
        }
    }
}

} // verus!
