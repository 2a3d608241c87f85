//! The value of a `Content-Range` header: which bytes of a resource a
//! response carries.
//!
//! ```text
//! content-range = "bytes" SP range-resp
//! range-resp    = (byte-range / "*") "/" (complete-length / "*")
//! byte-range    = first-byte "-" last-byte
//! ```

use crate::error::{Error, ErrorKind, ErrorView, IntegerFault, Operation};
use crate::number::{decimal, decimal_between, is_digit, unsigned_part};
use vstd::prelude::*;
use vstd::string::is_ascii_spec_bytes;
use vstd::string::StringSliceAdditionalSpecFns;

verus! {

/// A parsed `Content-Range` value.
#[derive(Clone, Copy, Debug, PartialEq, Eq)]
pub enum BytesContentRange {
    /// The bytes from `start` to `end`, both included, of a resource of
    /// `total` bytes, or of unknown size.
    Exact { start: u64, end: u64, total: Option<u64> },
    /// No range could be served from a resource of `total` bytes, or of
    /// unknown size.
    Unsatisfied { total: Option<u64> },
}

impl BytesContentRange {
    /// `start <= end`, and `end < total` where the total is known.
    pub open spec fn wf(self) -> bool {
        match self {
            BytesContentRange::Exact { start, end, total } => {
                &&& start <= end
                &&& total matches Some(size) ==> end < size
            },
            BytesContentRange::Unsatisfied { total } => true,
        }
    }
}

const SPACE: u8 = 0x20;

const STAR: u8 = 0x2a;

const DASH: u8 = 0x2d;

const SLASH: u8 = 0x2f;

const LOWER_B: u8 = 0x62;

const LOWER_E: u8 = 0x65;

const LOWER_S: u8 = 0x73;

const LOWER_T: u8 = 0x74;

const LOWER_Y: u8 = 0x79;

/// The unit that every value starts with, and the space after it.
pub open spec fn unit() -> Seq<char> {
    seq!['b', 'y', 't', 'e', 's', ' ']
}

/// The wildcard that stands for an unknown span or size.
pub open spec fn wildcard() -> Seq<char> {
    seq!['*']
}

/// The place of the first `mark` in `text`; the length of `text` if it holds
/// none.
pub open spec fn first_index(text: Seq<char>, mark: char) -> int
    decreases text.len(),
{
    if text.len() == 0 || text[0] == mark {
        0
    } else {
        1 + first_index(text.drop_first(), mark)
    }
}

/// The size that `text` denotes: unknown for the wildcard, else a number.
/// `None` if `text` is neither.
pub open spec fn size_of(text: Seq<char>) -> Option<Option<u64>> {
    if text == wildcard() {
        Some(None)
    } else {
        match decimal(text) {
            Ok(size) => Some(Some(size)),
            Err(_) => None,
        }
    }
}

/// The range that the span `text` denotes within a resource of size `total`:
/// none for the wildcard, else the two numbers around the first hyphen.
/// `None` if `text` is neither, or if the numbers break the order
/// `start <= end < total`.
pub open spec fn span_of(text: Seq<char>, total: Option<u64>) -> Option<BytesContentRange> {
    let dash = first_index(text, '-');
    if text == wildcard() {
        Some(BytesContentRange::Unsatisfied { total })
    } else if dash >= text.len() {
        None
    } else {
        match (decimal(text.take(dash)), decimal(text.skip(dash + 1))) {
            (Ok(start), Ok(end)) => {
                let range = BytesContentRange::Exact { start, end, total };
                if range.wf() {
                    Some(range)
                } else {
                    None
                }
            },
            _ => None,
        }
    }
}

/// The range that `text` denotes: after the unit, the span up to the first
/// slash and the size after it. `None` if `text` does not follow the
/// grammar.
pub open spec fn range_of(text: Seq<char>) -> Option<BytesContentRange> {
    let body = text.skip(unit().len() as int);
    let slash = first_index(body, '/');
    if !unit().is_prefix_of(text) || slash >= body.len() {
        None
    } else {
        match size_of(body.skip(slash + 1)) {
            Some(total) => span_of(body.take(slash), total),
            None => None,
        }
    }
}

/// Whether `text` is the unit, the number `first`, a hyphen, the number
/// `last`, a slash and the size `size`.
pub open spec fn is_exact_text(
    text: Seq<char>,
    first: Seq<char>,
    last: Seq<char>,
    size: Seq<char>,
) -> bool {
    text == unit() + first + seq!['-'] + last + seq!['/'] + size
}

/// Whether `text` is the unit, the wildcard, a slash and the size `size`.
pub open spec fn is_unsatisfied_text(text: Seq<char>, size: Seq<char>) -> bool {
    text == unit() + wildcard() + seq!['/'] + size
}

/// Whether `text` spells `range` by the grammar of the header: the parts of
/// `text` denote the fields of `range`, and `range` is well formed.
pub open spec fn spells(text: Seq<char>, range: BytesContentRange) -> bool {
    match range {
        BytesContentRange::Exact { start, end, total } => {
            &&& range.wf()
            &&& exists|first: Seq<char>, last: Seq<char>, size: Seq<char>|
                {
                    &&& #[trigger] is_exact_text(text, first, last, size)
                    &&& decimal(first) == Ok::<u64, IntegerFault>(start)
                    &&& decimal(last) == Ok::<u64, IntegerFault>(end)
                    &&& size_of(size) == Some(total)
                }
        },
        BytesContentRange::Unsatisfied { total } => {
            exists|size: Seq<char>|
                #[trigger] is_unsatisfied_text(text, size) && size_of(size) == Some(total)
        },
    }
}

/// What the parser reports of a text outside the grammar.
pub open spec fn malformed_range() -> ErrorView {
    ErrorView {
        kind: ErrorKind::MalformedRange,
        operation: Operation::ParseBytesContentRange,
        source: None,
    }
}

/// `first_index` is within the text, no `mark` stands before it, and one
/// stands at it unless it is the end.
pub proof fn lemma_first_index(text: Seq<char>, mark: char)
    ensures
        0 <= first_index(text, mark) <= text.len(),
        forall|j: int| 0 <= j < first_index(text, mark) ==> text[j] != mark,
        first_index(text, mark) < text.len() ==> text[first_index(text, mark)] == mark,
    decreases text.len(),
{
    if text.len() == 0 || text[0] == mark {
    } else {
        let rest = text.drop_first();
        lemma_first_index(rest, mark);
        assert forall|j: int| 0 <= j < first_index(text, mark) implies text[j] != mark by {
            if j > 0 {
                assert(text[j] == rest[j - 1]);
            }
        }
    }
}

/// The one place that no `mark` stands before, and where one stands unless
/// it is the end, is `first_index`.
pub proof fn lemma_first_index_is(text: Seq<char>, mark: char, at: int)
    requires
        0 <= at <= text.len(),
        forall|j: int| 0 <= j < at ==> text[j] != mark,
        at < text.len() ==> text[at] == mark,
    ensures
        first_index(text, mark) == at,
{
    lemma_first_index(text, mark);
}

/// A text that denotes a number is made of digits and at most a leading
/// plus sign.
proof fn lemma_decimal_chars(text: Seq<char>)
    requires
        decimal(text) is Ok,
    ensures
        forall|j: int| 0 <= j < text.len() ==> is_digit(#[trigger] text[j]) || text[j] == '+',
{
    let digits = unsigned_part(text);
    assert forall|j: int| 0 <= j < text.len() implies is_digit(#[trigger] text[j]) || text[j]
        == '+' by {
        if text[0] == '+' && j > 0 {
            assert(text[j] == digits[j - 1]);
        }
    }
}

/// A text that denotes a number or a size holds no hyphen and no slash.
proof fn lemma_number_has_no_mark(text: Seq<char>)
    requires
        decimal(text) is Ok || text == wildcard(),
    ensures
        forall|j: int| 0 <= j < text.len() ==> #[trigger] text[j] != '-' && text[j] != '/',
{
    if decimal(text) is Ok {
        lemma_decimal_chars(text);
    }
}

/// Splitting `head`, `mark`, `tail` at the first `mark` gives `head` and
/// `tail` back, if `head` holds no `mark`.
proof fn lemma_split(head: Seq<char>, mark: char, tail: Seq<char>)
    requires
        forall|j: int| 0 <= j < head.len() ==> head[j] != mark,
    ensures
        first_index(head + seq![mark] + tail, mark) == head.len(),
        (head + seq![mark] + tail).take(head.len() as int) == head,
        (head + seq![mark] + tail).skip(head.len() as int + 1) == tail,
{
    lemma_first_index_is(head + seq![mark] + tail, mark, head.len() as int);
}

/// A text splits at its first `mark` into the part before it and the part
/// after it.
proof fn lemma_join(text: Seq<char>, mark: char)
    requires
        first_index(text, mark) < text.len(),
    ensures
        text == text.take(first_index(text, mark)) + seq![mark] + text.skip(
            first_index(text, mark) + 1,
        ),
{
    lemma_first_index(text, mark);
}

/// What `range_of` gives for the unit followed by `body`.
proof fn lemma_range_of_body(body: Seq<char>)
    ensures
        unit().is_prefix_of(unit() + body),
        (unit() + body).skip(6) == body,
{
}

/// The text made of the numbers `first` and `last` and the size `size`
/// denotes the range of those numbers, if that range is well formed.
proof fn lemma_exact_text(text: Seq<char>, first: Seq<char>, last: Seq<char>, size: Seq<char>)
    requires
        is_exact_text(text, first, last, size),
        decimal(first) is Ok,
        decimal(last) is Ok,
        size_of(size) is Some,
    ensures
        range_of(text) == span_of(first + seq!['-'] + last, size_of(size)->0),
        span_of(first + seq!['-'] + last, size_of(size)->0) == ({
            let range = BytesContentRange::Exact {
                start: decimal(first)->Ok_0,
                end: decimal(last)->Ok_0,
                total: size_of(size)->0,
            };
            if range.wf() {
                Some(range)
            } else {
                None
            }
        }),
{
    let span = first + seq!['-'] + last;
    let body = span + seq!['/'] + size;
    assert(text =~= unit() + body);
    lemma_range_of_body(body);
    lemma_number_has_no_mark(first);
    lemma_number_has_no_mark(last);
    assert forall|j: int| 0 <= j < span.len() implies span[j] != '/' by {}
    lemma_split(span, '/', size);
    lemma_split(first, '-', last);
}

/// The text made of the wildcard and the size `size` denotes an unsatisfied
/// range.
proof fn lemma_unsatisfied_text(text: Seq<char>, size: Seq<char>)
    requires
        is_unsatisfied_text(text, size),
        size_of(size) is Some,
    ensures
        range_of(text) == Some(BytesContentRange::Unsatisfied { total: size_of(size)->0 }),
{
    let body = wildcard() + seq!['/'] + size;
    assert(text =~= unit() + body);
    lemma_range_of_body(body);
    lemma_split(wildcard(), '/', size);
}

/// The parts that a text of the grammar is made of.
proof fn lemma_range_text(text: Seq<char>)
    requires
        range_of(text) is Some,
    ensures
        spells(text, range_of(text)->0),
{
    let body = text.skip(6);
    let slash = first_index(body, '/');
    let span = body.take(slash);
    let size = body.skip(slash + 1);
    let dash = first_index(span, '-');
    assert(text =~= unit() + body);
    lemma_join(body, '/');
    if span == wildcard() {
        assert(text =~= unit() + wildcard() + seq!['/'] + size);
        assert(is_unsatisfied_text(text, size));
    } else {
        lemma_join(span, '-');
        let first = span.take(dash);
        let last = span.skip(dash + 1);
        assert(text =~= unit() + first + seq!['-'] + last + seq!['/'] + size);
        assert(is_exact_text(text, first, last, size));
    }
}

/// `range_of` is the grammar: it gives `range` for exactly the texts that
/// spell `range`. So no text spells two ranges.
pub proof fn lemma_range_of_is_the_grammar(text: Seq<char>, range: BytesContentRange)
    ensures
        range_of(text) == Some(range) <==> spells(text, range),
{
    if range_of(text) == Some(range) {
        lemma_range_text(text);
    }
    if spells(text, range) {
        match range {
            BytesContentRange::Exact { start, end, total } => {
                let (first, last, size) = choose|first: Seq<char>, last: Seq<char>, size: Seq<char>|
                    {
                        &&& #[trigger] is_exact_text(text, first, last, size)
                        &&& decimal(first) == Ok::<u64, IntegerFault>(start)
                        &&& decimal(last) == Ok::<u64, IntegerFault>(end)
                        &&& size_of(size) == Some(total)
                    };
                lemma_exact_text(text, first, last, size);
            },
            BytesContentRange::Unsatisfied { total } => {
                let size = choose|size: Seq<char>|
                    #[trigger] is_unsatisfied_text(text, size) && size_of(size) == Some(total);
                lemma_unsatisfied_text(text, size);
            },
        }
    }
}

/// A text that follows the grammar is made of ASCII characters alone.
proof fn lemma_range_is_ascii(text: Seq<char>)
    requires
        range_of(text) is Some,
    ensures
        vstd::utf8::is_ascii_chars(text),
{
    let body = text.skip(unit().len() as int);
    let slash = first_index(body, '/');
    let span = body.take(slash);
    let size = body.skip(slash + 1);
    let total = size_of(size)->0;
    let dash = first_index(span, '-');
    lemma_first_index(body, '/');
    lemma_first_index(span, '-');
    if size != wildcard() {
        lemma_decimal_chars(size);
    }
    if span != wildcard() {
        lemma_decimal_chars(span.take(dash));
        lemma_decimal_chars(span.skip(dash + 1));
    }
    assert forall|i: int| 0 <= i < text.len() implies '\0' <= #[trigger] text[i] <= '\u{7f}' by {
        let k = i - 6;
        if 0 <= k < slash && span != wildcard() {
            if k < dash {
                assert(span[k] == span.take(dash)[k]);
            } else if k > dash {
                assert(span[k] == span.skip(dash + 1)[k - dash - 1]);
            }
        } else if k > slash {
            assert(body[k] == size[k - slash - 1]);
        }
    }
}

/// Finds the first byte `mark` of `text` between `from` and `to`; `to` if
/// there is none.
fn find_first(text: &str, mark: u8, from: usize, to: usize) -> (at: usize)
    requires
        text.is_ascii(),
        from <= to <= text@.len(),
        mark <= 127,
    ensures
        from <= at <= to,
        at - from == first_index(text@.subrange(from as int, to as int), mark as char),
{
    broadcast use is_ascii_spec_bytes;

    let bytes = text.as_bytes();
    let ghost part = text@.subrange(from as int, to as int);
    let mut at: usize = from;
    while at < to && bytes[at] != mark
        invariant
            text.is_ascii(),
            bytes@ == text.spec_bytes(),
            mark <= 127,
            from <= at <= to <= text@.len(),
            part == text@.subrange(from as int, to as int),
            forall|j: int| 0 <= j < at - from ==> part[j] != mark as char,
        decreases to - at,
    {
        at = at + 1;
    }
    proof {
        lemma_first_index_is(part, mark as char, at - from);
    }
    at
}

/// Tells whether `text` starts with the unit and the space after it.
fn starts_with_unit(text: &str) -> (starts: bool)
    requires
        text.is_ascii(),
    ensures
        starts == unit().is_prefix_of(text@),
{
    broadcast use is_ascii_spec_bytes;

    let bytes = text.as_bytes();
    bytes.len() >= 6 && bytes[0] == LOWER_B && bytes[1] == LOWER_Y && bytes[2] == LOWER_T
        && bytes[3] == LOWER_E && bytes[4] == LOWER_S && bytes[5] == SPACE
}

/// The failure for a text outside the grammar.
fn malformed<T>() -> (failure: Result<T, Error>)
    ensures
        failure matches Err(e) && e@ == malformed_range(),
{
    Err(Error::new(ErrorKind::MalformedRange, Operation::ParseBytesContentRange))
}

/// Reads the size between `from` and the end of `text`.
fn read_size(text: &str, from: usize) -> (size: Option<Option<u64>>)
    requires
        text.is_ascii(),
        from <= text@.len(),
    ensures
        size == size_of(text@.skip(from as int)),
{
    broadcast use is_ascii_spec_bytes;

    let bytes = text.as_bytes();
    let n = bytes.len();
    let ghost part = text@.skip(from as int);
    if n - from == 1 && bytes[from] == STAR {
        assert(part =~= wildcard());
        Some(None)
    } else {
        assert(part != wildcard());
        match decimal_between(text, from, n) {
            Ok(size) => Some(Some(size)),
            Err(_) => None,
        }
    }
}

/// Reads the span between `from` and `to` of `text`.
fn read_span(text: &str, from: usize, to: usize, total: Option<u64>) -> (range: Option<
    BytesContentRange,
>)
    requires
        text.is_ascii(),
        from <= to <= text@.len(),
    ensures
        range == span_of(text@.subrange(from as int, to as int), total),
{
    broadcast use is_ascii_spec_bytes;

    let bytes = text.as_bytes();
    let ghost span = text@.subrange(from as int, to as int);
    if to - from == 1 && bytes[from] == STAR {
        assert(span =~= wildcard());
        return Some(BytesContentRange::Unsatisfied { total });
    }
    assert(span != wildcard());
    let dash = find_first(text, DASH, from, to);
    if dash == to {
        return None;
    }
    assert(span.take(dash - from) == text@.subrange(from as int, dash as int));
    assert(span.skip(dash - from + 1) == text@.subrange(dash + 1, to as int));
    let start = match decimal_between(text, from, dash) {
        Ok(number) => number,
        Err(_) => {
            return None;
        },
    };
    let end = match decimal_between(text, dash + 1, to) {
        Ok(number) => number,
        Err(_) => {
            return None;
        },
    };
    let below_total = match total {
        Some(size) => end < size,
        None => true,
    };
    if start <= end && below_total {
        Some(BytesContentRange::Exact { start, end, total })
    } else {
        None
    }
}

/// Reads `text` as the grammar says, splitting it at the first slash.
fn read_range(text: &str) -> (range: Option<BytesContentRange>)
    ensures
        range == range_of(text@),
{
    broadcast use is_ascii_spec_bytes;

    if !text.is_ascii() {
        proof {
            if range_of(text@) is Some {
                lemma_range_is_ascii(text@);
            }
        }
        return None;
    }
    if !starts_with_unit(text) {
        return None;
    }
    let n = text.as_bytes().len();
    let slash = find_first(text, SLASH, 6, n);
    let ghost body = text@.skip(6);
    if slash == n {
        return None;
    }
    assert(body.take(slash - 6) == text@.subrange(6, slash as int));
    assert(body.skip(slash - 6 + 1) == text@.skip(slash + 1));
    match read_size(text, slash + 1) {
        Some(total) => read_span(text, 6, slash, total),
        None => None,
    }
}

impl BytesContentRange {
    /// Reads the value of a `Content-Range` header.
    ///
    /// The text must be the unit `bytes` and a space, a span, a slash and a
    /// size. The span is `first-last` or `*`, the size a number or `*`. A
    /// number is what [`decimal`] accepts. A span with `first > last`, or
    /// with `last` not below a known size, is refused like any other text
    /// outside the grammar.
    pub fn parse(value: &str) -> (range: Result<BytesContentRange, Error>)
        ensures
            match range_of(value@) {
                Some(expected) => range == Ok::<BytesContentRange, Error>(expected),
                None => range matches Err(e) && e@ == malformed_range(),
            },
            range matches Ok(found) ==> found.wf() && spells(value@, found),
            range is Err ==> forall|any: BytesContentRange| !spells(value@, any),
    {
        proof {
            assert forall|any: BytesContentRange|
                range_of(value@) == Some(any) <==> #[trigger] spells(value@, any) by {
                lemma_range_of_is_the_grammar(value@, any);
            }
        }
        match read_range(value) {
            Some(found) => Ok(found),
            None => malformed(),
        }
    }
}

} // verus!
