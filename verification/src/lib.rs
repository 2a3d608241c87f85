//! Typed reading of HTTP response headers and formatting of the few header
//! values a storage client sends.
//!
//! Every function here is pure: the caller owns the header collection, the
//! byte buffers and the strings, and gets freshly built values back.

pub mod error;
pub mod format;
pub mod header;
pub mod lookup;
pub mod metadata;
pub mod number;
pub mod range;
pub mod timestamp;

pub use error::{Cause, Error, ErrorKind, IntegerFault, Operation};
pub use format::{
    basic_authorization, basic_credentials, format_authorization_by_basic,
    format_authorization_by_bearer, format_content_md5,
};
pub use header::{
    last_modified_from, mode_of_path, parse_content_disposition, parse_content_length,
    parse_content_md5, parse_content_range, parse_content_type, parse_etag, parse_into_metadata,
    parse_last_modified, parse_location,
};
pub use metadata::{EntryMode, Metadata};
pub use number::parse_decimal;
pub use range::BytesContentRange;
pub use timestamp::Timestamp;
