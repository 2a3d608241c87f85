use http_util::{BytesContentRange, EntryMode, Error, ErrorKind, Metadata, Operation, Timestamp};

#[test]
fn new_metadata_has_only_its_mode() {
    let m = Metadata::new(EntryMode::DIR);
    assert_eq!(m.mode(), EntryMode::DIR);
    assert_eq!(m.content_length(), None);
    assert_eq!(m.content_type(), None);
    assert_eq!(m.content_range(), None);
    assert_eq!(m.etag(), None);
    assert_eq!(m.content_md5(), None);
    assert_eq!(m.last_modified(), None);
    assert_eq!(m.content_disposition(), None);
}

#[test]
fn setters_set_their_own_field_only() {
    let mut m = Metadata::new(EntryMode::FILE);
    m.set_content_length(9);
    assert_eq!(m.content_length(), Some(9));
    assert_eq!(m.content_type(), None);
    m.set_content_type("text/plain");
    m.set_etag("\"e\"");
    m.set_content_md5("md5");
    m.set_content_disposition("inline");
    let range = BytesContentRange::Unsatisfied { total: Some(3) };
    m.set_content_range(range);
    let at = Timestamp { seconds: 1, nanoseconds: 2, offset_seconds: 3 };
    m.set_last_modified(at);
    assert_eq!(m.mode(), EntryMode::FILE);
    assert_eq!(m.content_length(), Some(9));
    assert_eq!(m.content_type(), Some("text/plain"));
    assert_eq!(m.etag(), Some("\"e\""));
    assert_eq!(m.content_md5(), Some("md5"));
    assert_eq!(m.content_disposition(), Some("inline"));
    assert_eq!(m.content_range(), Some(range));
    assert_eq!(m.last_modified(), Some(at));
    m.set_content_length(10);
    assert_eq!(m.content_length(), Some(10));
    assert_eq!(m.etag(), Some("\"e\""));
}

#[test]
fn error_carries_kind_operation_and_cause() {
    let e = Error::new(ErrorKind::MalformedRange, Operation::ParseBytesContentRange);
    assert_eq!(e.kind(), ErrorKind::MalformedRange);
    assert_eq!(e.operation(), Operation::ParseBytesContentRange);
    assert_eq!(e.source(), None);
    let cause = http_util::Cause::Integer(http_util::IntegerFault::Overflow);
    let e = e.with_source(cause);
    assert_eq!(e.kind(), ErrorKind::MalformedRange);
    assert_eq!(e.operation(), Operation::ParseBytesContentRange);
    assert_eq!(e.source(), Some(cause));
}

#[test]
fn operations_have_their_names() {
    assert_eq!(Operation::ParseLocation.name(), "http_util::parse_location");
    assert_eq!(Operation::ParseContentLength.name(), "http_util::parse_content_length");
    assert_eq!(Operation::ParseContentMd5.name(), "http_util::parse_content_md5");
    assert_eq!(Operation::ParseContentType.name(), "http_util::parse_content_type");
    assert_eq!(Operation::ParseContentRange.name(), "http_util::parse_content_range");
    assert_eq!(Operation::ParseLastModified.name(), "http_util::parse_last_modified");
    assert_eq!(Operation::ParseEtag.name(), "http_util::parse_etag");
    assert_eq!(
        Operation::ParseContentDisposition.name(),
        "http_util::parse_content_disposition"
    );
    assert_eq!(Operation::ParseBytesContentRange.name(), "BytesContentRange::parse");
    assert_eq!(
        Operation::FormatAuthorizationByBasic.name(),
        "http_util::format_authorization_by_basic"
    );
    assert_eq!(
        Operation::FormatAuthorizationByBearer.name(),
        "http_util::format_authorization_by_bearer"
    );
}
