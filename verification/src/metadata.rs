//! The record that the headers of one response are gathered into.

use crate::range::BytesContentRange;
use crate::timestamp::Timestamp;
use vstd::prelude::*;

verus! {

/// Whether a path names a file or a directory.
#[derive(Clone, Copy, Debug, PartialEq, Eq, Structural)]
pub enum EntryMode {
    FILE,
    DIR,
}

/// What a [`Metadata`] holds, texts as sequences of characters. A field
/// that is `None` was never set.
pub struct MetadataView {
    pub mode: EntryMode,
    pub content_length: Option<u64>,
    pub content_type: Option<Seq<char>>,
    pub content_range: Option<BytesContentRange>,
    pub etag: Option<Seq<char>>,
    pub content_md5: Option<Seq<char>>,
    pub last_modified: Option<Timestamp>,
    pub content_disposition: Option<Seq<char>>,
}

impl MetadataView {
    /// The record of an entry of which only the mode is known.
    pub open spec fn new(mode: EntryMode) -> MetadataView {
        MetadataView {
            mode,
            content_length: None,
            content_type: None,
            content_range: None,
            etag: None,
            content_md5: None,
            last_modified: None,
            content_disposition: None,
        }
    }
}

/// The view of a text that may be missing.
pub open spec fn text_view(text: Option<String>) -> Option<Seq<char>> {
    match text {
        Some(s) => Some(s@),
        None => None,
    }
}

/// What is known of one entry of a storage service.
#[derive(Clone, Debug, PartialEq, Eq)]
pub struct Metadata {
    mode: EntryMode,
    content_length: Option<u64>,
    content_type: Option<String>,
    content_range: Option<BytesContentRange>,
    etag: Option<String>,
    content_md5: Option<String>,
    last_modified: Option<Timestamp>,
    content_disposition: Option<String>,
}

impl View for Metadata {
    type V = MetadataView;

    closed spec fn view(&self) -> MetadataView {
        MetadataView {
            mode: self.mode,
            content_length: self.content_length,
            content_type: text_view(self.content_type),
            content_range: self.content_range,
            etag: text_view(self.etag),
            content_md5: text_view(self.content_md5),
            last_modified: self.last_modified,
            content_disposition: text_view(self.content_disposition),
        }
    }
}

/// Borrows the text of an optional field.
fn borrowed(text: &Option<String>) -> (view: Option<&str>)
    ensures
        view is Some <==> text is Some,
        view matches Some(s) ==> text_view(*text) == Some(s@),
{
    match text {
        Some(s) => Some(s.as_str()),
        None => None,
    }
}

impl Metadata {
    /// A record with the given mode and every other field unset.
    pub fn new(mode: EntryMode) -> (metadata: Metadata)
        ensures
            metadata@ == MetadataView::new(mode),
    {
        Metadata {
            mode,
            content_length: None,
            content_type: None,
            content_range: None,
            etag: None,
            content_md5: None,
            last_modified: None,
            content_disposition: None,
        }
    }

    pub fn mode(&self) -> (mode: EntryMode)
        ensures
            mode == self@.mode,
    {
        self.mode
    }

    pub fn content_length(&self) -> (length: Option<u64>)
        ensures
            length == self@.content_length,
    {
        self.content_length
    }

    pub fn set_content_length(&mut self, length: u64)
        ensures
            final(self)@ == (MetadataView { content_length: Some(length), ..old(self)@ }),
    {
        self.content_length = Some(length);
    }

    pub fn content_type(&self) -> (text: Option<&str>)
        ensures
            text is Some <==> self@.content_type is Some,
            text matches Some(s) ==> self@.content_type == Some(s@),
    {
        borrowed(&self.content_type)
    }

    pub fn set_content_type(&mut self, text: &str)
        ensures
            final(self)@ == (MetadataView { content_type: Some(text@), ..old(self)@ }),
    {
        self.content_type = Some(text.to_owned());
    }

    pub fn content_range(&self) -> (range: Option<BytesContentRange>)
        ensures
            range == self@.content_range,
    {
        self.content_range
    }

    pub fn set_content_range(&mut self, range: BytesContentRange)
        ensures
            final(self)@ == (MetadataView { content_range: Some(range), ..old(self)@ }),
    {
        self.content_range = Some(range);
    }

    pub fn etag(&self) -> (text: Option<&str>)
        ensures
            text is Some <==> self@.etag is Some,
            text matches Some(s) ==> self@.etag == Some(s@),
    {
        borrowed(&self.etag)
    }

    pub fn set_etag(&mut self, text: &str)
        ensures
            final(self)@ == (MetadataView { etag: Some(text@), ..old(self)@ }),
    {
        self.etag = Some(text.to_owned());
    }

    pub fn content_md5(&self) -> (text: Option<&str>)
        ensures
            text is Some <==> self@.content_md5 is Some,
            text matches Some(s) ==> self@.content_md5 == Some(s@),
    {
        borrowed(&self.content_md5)
    }

    pub fn set_content_md5(&mut self, text: &str)
        ensures
            final(self)@ == (MetadataView { content_md5: Some(text@), ..old(self)@ }),
    {
        self.content_md5 = Some(text.to_owned());
    }

    pub fn last_modified(&self) -> (instant: Option<Timestamp>)
        ensures
            instant == self@.last_modified,
    {
        self.last_modified
    }

    pub fn set_last_modified(&mut self, instant: Timestamp)
        ensures
            final(self)@ == (MetadataView { last_modified: Some(instant), ..old(self)@ }),
    {
        self.last_modified = Some(instant);
    }

    pub fn content_disposition(&self) -> (text: Option<&str>)
        ensures
            text is Some <==> self@.content_disposition is Some,
            text matches Some(s) ==> self@.content_disposition == Some(s@),
    {
        borrowed(&self.content_disposition)
    }

    pub fn set_content_disposition(&mut self, text: &str)
        ensures
            final(self)@ == (MetadataView { content_disposition: Some(text@), ..old(self)@ }),
    {
        self.content_disposition = Some(text.to_owned());
    }
}

} // verus!
