//! Range requests: what is asked, and whether the reply answers it.
use crate::client::headers;
use crate::client::{ClientError, ClientFault, HttpStatus};
use crate::text;
use crate::text::CharClass;
use reqwest::header::{HeaderMap, HeaderValue};
use vstd::prelude::*;
use vstd::slice::slice_subrange;

verus! {

/// A parsed `Content-Range` value.
#[derive(Debug, Clone, Copy, PartialEq, Eq, Structural)]
pub struct ContentRange {
    pub start: u64,
    pub end: u64,
    pub total: Option<u64>,
}

/// A character of the opaque part of an entity tag.
pub open spec fn is_tag_char(c: char) -> bool {
    let n = c as u32;
    n == 33 || 35 <= n <= 126 || n >= 128
}

/// An entity tag in quotation marks, without the weakness prefix.
pub open spec fn strong_etag(etag: Seq<char>) -> bool {
    &&& etag.len() >= 2
    &&& etag[0] == '"'
    &&& etag.last() == '"'
    &&& forall|i: int| 1 <= i < etag.len() - 1 ==> is_tag_char(#[trigger] etag[i])
}

pub fn is_strong_etag(etag: &str) -> (r: bool)
    ensures
        r == strong_etag(etag@),
{
    let chars = text::chars_of(etag);
    if chars.len() < 2 || chars[0] != '"' || chars[chars.len() - 1] != '"' {
        return false;
    }
    let mut i: usize = 1;
    while i < chars.len() - 1
        invariant
            chars@ == etag@,
            chars@.len() >= 2,
            1 <= i <= chars@.len() - 1,
            forall|j: int| 1 <= j < i ==> is_tag_char(#[trigger] etag@[j]),
        decreases chars.len() - i,
    {
        let n: u32 = chars[i] as u32;
        if !(n == 33 || (35 <= n && n <= 126) || n >= 128) {
            assert(!is_tag_char(etag@[i as int]));
            return false;
        }
        i += 1;
    }
    true
}

/// Whether an optional validator is a strong entity tag.
pub open spec fn strong_validator(validator: Option<Seq<char>>) -> bool {
    validator matches Some(tag) && strong_etag(tag)
}

pub fn has_strong_validator(validator: Option<&str>) -> (r: bool)
    ensures
        r == strong_validator(text::str_text(validator)),
{
    match validator {
        Some(tag) => is_strong_etag(tag),
        None => false,
    }
}

/// Whether the text is `bytes` in any case.
pub open spec fn is_bytes_unit(s: Seq<char>) -> bool {
    text::ascii_lower(s) == "bytes"@
}

/// The range that a `Content-Range` value states.
pub open spec fn parsed_content_range(s: Seq<char>) -> Option<ContentRange> {
    let words = text::words(s);
    if words.len() != 2 || !is_bytes_unit(words[0]) {
        None
    } else {
        let range = text::before(words[1], CharClass::Only('/'));
        match (
            text::parsed_u64(text::before(range, CharClass::Only('-'))),
            text::after(range, CharClass::Only('-')),
            text::after(words[1], CharClass::Only('/')),
        ) {
            (Some(start), Some(end_text), Some(total_text)) => match text::parsed_u64(end_text) {
                Some(end) => if start > end {
                    None
                } else if total_text == "*"@ {
                    Some(ContentRange { start, end, total: None })
                } else {
                    match text::parsed_u64(total_text) {
                        Some(total) => if total <= end {
                            None
                        } else {
                            Some(ContentRange { start, end, total: Some(total) })
                        },
                        None => None,
                    }
                },
                None => None,
            },
            _ => None,
        }
    }
}

fn is_bytes_word(word: &[char]) -> (r: bool)
    ensures
        r == is_bytes_unit(word@),
{
    let lower = text::to_ascii_lower(word);
    let unit = text::chars_of("bytes");
    text::same_chars(lower.as_slice(), unit.as_slice())
}

fn split_once(s: &[char], separator: char) -> (r: Option<(&[char], &[char])>)
    ensures
        r is Some <==> text::after(s@, CharClass::Only(separator)) is Some,
        r matches Some((head, tail)) ==> {
            &&& head@ == text::before(s@, CharClass::Only(separator))
            &&& text::after(s@, CharClass::Only(separator)) == Some(tail@)
        },
{
    let k: usize = text::find_class(s, CharClass::Only(separator));
    if k == s.len() {
        return None;
    }
    let head = slice_subrange(s, 0, k);
    let tail = slice_subrange(s, k + 1, s.len());
    assert(head@ =~= s@.take(k as int));
    assert(tail@ =~= s@.skip(k + 1));
    Some((head, tail))
}

/// Parses a `Content-Range` value.
pub fn parse_content_range(content_range: &str) -> (r: Option<ContentRange>)
    ensures
        r == parsed_content_range(content_range@),
{
    let chars = text::chars_of(content_range);
    let words = text::split_words(chars.as_slice());
    assert(text::views(words@).len() == words@.len());
    if words.len() != 2 {
        return None;
    }
    assert(text::views(words@)[0] == words@[0]@);
    assert(text::views(words@)[1] == words@[1]@);
    if !is_bytes_word(words[0].as_slice()) {
        return None;
    }
    let (range, total_text) = match split_once(words[1].as_slice(), '/') {
        Some(parts) => parts,
        None => {
            return None;
        },
    };
    let (start_text, end_text) = match split_once(range, '-') {
        Some(parts) => parts,
        None => {
            return None;
        },
    };
    let start: u64 = match text::parse_u64(start_text) {
        Some(start) => start,
        None => {
            return None;
        },
    };
    let end: u64 = match text::parse_u64(end_text) {
        Some(end) => end,
        None => {
            return None;
        },
    };
    if start > end {
        return None;
    }
    let star = text::chars_of("*");
    if text::same_chars(total_text, star.as_slice()) {
        return Some(ContentRange { start, end, total: None });
    }
    match text::parse_u64(total_text) {
        Some(total) => if total <= end {
            None
        } else {
            Some(ContentRange { start, end, total: Some(total) })
        },
        None => None,
    }
}

/// The total of an optional `Content-Range` value.
pub open spec fn content_range_total(content_range: Option<Seq<char>>) -> Option<u64> {
    match content_range {
        Some(value) => match parsed_content_range(value) {
            Some(range) => range.total,
            None => None,
        },
        None => None,
    }
}

/// Parses the total length from a `Content-Range` value: `bytes 0-0/12345` gives 12345.
pub fn parse_content_range_total(content_range: Option<&str>) -> (r: Option<u64>)
    ensures
        r == content_range_total(text::str_text(content_range)),
{
    match content_range {
        Some(value) => match parse_content_range(value) {
            Some(range) => range.total,
            None => None,
        },
        None => None,
    }
}

/// The length that an unsatisfied range reports: `bytes */12345`.
pub open spec fn unsatisfied_total(s: Seq<char>) -> Option<u64> {
    let words = text::words(s);
    if words.len() == 2 && is_bytes_unit(words[0]) && text::starts_with(words[1], "*/"@) {
        text::parsed_u64(words[1].skip(2))
    } else {
        None
    }
}

pub fn parse_unsatisfied_total(value: &str) -> (r: Option<u64>)
    ensures
        r == unsatisfied_total(value@),
{
    proof {
        reveal_strlit("*/");
    }
    let chars = text::chars_of(value);
    let words = text::split_words(chars.as_slice());
    assert(text::views(words@).len() == words@.len());
    if words.len() != 2 {
        return None;
    }
    assert(text::views(words@)[0] == words@[0]@);
    assert(text::views(words@)[1] == words@[1]@);
    let prefix = text::chars_of("*/");
    if !is_bytes_word(words[0].as_slice()) || !text::has_prefix(
        words[1].as_slice(),
        prefix.as_slice(),
    ) {
        return None;
    }
    let rest = slice_subrange(words[1].as_slice(), 2, words[1].len());
    assert(rest@ =~= words@[1]@.skip(2));
    text::parse_u64(rest)
}

/// The header fields of a range request.
#[derive(Debug, Clone, PartialEq, Eq)]
pub struct RangeRequest {
    pub range: Option<String>,
    pub if_range: Option<String>,
}

/// The `Range` value for bytes from `start` to `end`; a request for the whole file has none.
pub open spec fn range_value(start: u64, end: Option<u64>) -> Option<Seq<char>> {
    match end {
        Some(end) => Some(
            "bytes="@ + text::decimal(start as nat) + "-"@ + text::decimal(end as nat),
        ),
        None => if start > 0 {
            Some("bytes="@ + text::decimal(start as nat) + "-"@)
        } else {
            None
        },
    }
}

/// A request names a range unless it asks for everything from the first byte.
pub open spec fn names_range(start: u64, end: Option<u64>) -> bool {
    start > 0 || end is Some
}

/// The header fields that ask for a byte range. Only a strong entity tag is sent along as the
/// condition: dates are advisory.
pub fn range_request(start: u64, end: Option<u64>, if_range: Option<&str>) -> (r: RangeRequest)
    ensures
        text::string_text(r.range) == range_value(start, end),
        text::string_text(r.if_range) == (if names_range(start, end) && strong_validator(
            text::str_text(if_range),
        ) {
            text::str_text(if_range)
        } else {
            None
        }),
{
    let first = text::decimal_string(start);
    let range = match end {
        Some(end) => {
            let last = text::decimal_string(end);
            Some(text::join4("bytes=", first.as_str(), "-", last.as_str()))
        },
        None => if start > 0 {
            Some(text::join3("bytes=", first.as_str(), "-"))
        } else {
            None
        },
    };
    let condition = match if_range {
        Some(tag) => if (start > 0 || end.is_some()) && is_strong_etag(tag) {
            Some(tag.to_owned())
        } else {
            None
        },
        None => None,
    };
    RangeRequest { range, if_range: condition }
}

/// What a check found.
pub open spec fn check_view(r: Result<(), ClientError>) -> Result<(), ClientFault> {
    match r {
        Ok(()) => Ok(()),
        Err(error) => Err(error@),
    }
}

pub open spec fn invalid_range(reason: Seq<char>) -> Result<(), ClientFault> {
    Err(ClientFault::InvalidRangeResponse(reason))
}

/// The number that a `Content-Length` field states.
pub open spec fn length_field(fields: Map<Seq<char>, Seq<u8>>) -> Option<u64> {
    match headers::field_text(fields, "content-length"@) {
        Some(value) => text::parsed_u64(value),
        None => None,
    }
}

/// Whether the reply names another version of the file than the validator does.
pub open spec fn other_version(
    fields: Map<Seq<char>, Seq<u8>>,
    validator: Option<Seq<char>>,
) -> bool {
    match validator {
        Some(expected) => {
            let field = if strong_etag(expected) {
                "etag"@
            } else {
                "last-modified"@
            };
            headers::field_text(fields, field) matches Some(actual) && actual != expected
        },
        None => false,
    }
}

/// What the header fields of a partial reply say about the requested bytes.
pub open spec fn range_verdict(
    fields: Map<Seq<char>, Seq<u8>>,
    start: u64,
    end: Option<u64>,
    total: Option<u64>,
    validator: Option<Seq<char>>,
) -> Result<(), ClientFault> {
    let stated = match headers::field_text(fields, "content-range"@) {
        Some(value) => parsed_content_range(value),
        None => None,
    };
    match stated {
        None => invalid_range("missing or malformed Content-Range header"@),
        Some(range) => if total is Some && range.total is Some && range.total != total {
            Err(ClientFault::ContentChanged)
        } else if total is Some && range.total is None {
            invalid_range("range total is None, expected "@ + text::decimal(total->0 as nat))
        } else if range.start != start {
            invalid_range(
                "range starts at "@ + text::decimal(range.start as nat) + ", expected "@
                    + text::decimal(start as nat),
            )
        } else if end is Some && Some(range.end) != end {
            invalid_range(
                "range ends at "@ + text::decimal(range.end as nat) + ", expected "@
                    + text::decimal(end->0 as nat),
            )
        } else if fields.contains_key("content-length"@) && length_field(fields) is None {
            invalid_range("invalid Content-Length header"@)
        } else if fields.contains_key("content-length"@) && range.end - range.start + 1
            > u64::MAX {
            invalid_range("range length overflowed"@)
        } else if fields.contains_key("content-length"@) && length_field(fields) != Some(
            (range.end - range.start + 1) as u64,
        ) {
            invalid_range(
                "Content-Length is "@ + text::decimal(length_field(fields)->0 as nat)
                    + ", expected "@ + text::decimal((range.end - range.start + 1) as nat),
            )
        } else if other_version(fields, validator) {
            Err(ClientFault::ContentChanged)
        } else {
            Ok(())
        },
    }
}

proof fn lemma_field_names()
    ensures
        headers::is_field_name("content-range"@),
        headers::is_field_name("content-length"@),
        headers::is_field_name("etag"@),
        headers::is_field_name("last-modified"@),
{
    reveal_strlit("content-range");
    reveal_strlit("content-length");
    reveal_strlit("etag");
    reveal_strlit("last-modified");
}

fn mismatch(what: &str, actual: u64, expected: u64) -> (r: String)
    ensures
        r@ == what@ + text::decimal(actual as nat) + ", expected "@ + text::decimal(
            expected as nat,
        ),
{
    let shown = text::decimal_string(actual);
    let wanted = text::decimal_string(expected);
    text::join4(what, shown.as_str(), ", expected ", wanted.as_str())
}

fn names_other_version(headers: &HeaderMap<HeaderValue>, validator: Option<&str>) -> (r: bool)
    ensures
        r == other_version(headers::header_fields(*headers), text::str_text(validator)),
{
    proof {
        lemma_field_names();
    }
    match validator {
        Some(expected) => {
            let field = if is_strong_etag(expected) {
                "etag"
            } else {
                "last-modified"
            };
            match headers::header_field(headers, field) {
                Some(actual) => !text::same_text(actual.as_str(), expected),
                None => false,
            }
        },
        None => false,
    }
}

/// Checks the header fields of a partial reply against the requested bytes.
pub fn validate_range_response(
    headers: &HeaderMap<HeaderValue>,
    expected_start: u64,
    expected_end: Option<u64>,
    expected_total: Option<u64>,
    if_range: Option<&str>,
) -> (r: Result<(), ClientError>)
    ensures
        check_view(r) == range_verdict(
            headers::header_fields(*headers),
            expected_start,
            expected_end,
            expected_total,
            text::str_text(if_range),
        ),
{
    proof {
        lemma_field_names();
    }
    let stated = match headers::header_field(headers, "content-range") {
        Some(value) => parse_content_range(value.as_str()),
        None => None,
    };
    let range = match stated {
        Some(range) => range,
        None => {
            return Err(
                ClientError::InvalidRangeResponse(
                    "missing or malformed Content-Range header".to_string(),
                ),
            );
        },
    };
    match (expected_total, range.total) {
        (Some(expected), Some(actual)) => {
            if actual != expected {
                return Err(ClientError::ContentChanged);
            }
        },
        (Some(expected), None) => {
            let wanted = text::decimal_string(expected);
            return Err(
                ClientError::InvalidRangeResponse(
                    text::join2("range total is None, expected ", wanted.as_str()),
                ),
            );
        },
        _ => {},
    }
    if range.start != expected_start {
        return Err(
            ClientError::InvalidRangeResponse(
                mismatch("range starts at ", range.start, expected_start),
            ),
        );
    }
    match expected_end {
        Some(expected) => {
            if range.end != expected {
                return Err(
                    ClientError::InvalidRangeResponse(
                        mismatch("range ends at ", range.end, expected),
                    ),
                );
            }
        },
        None => {},
    }
    if headers::has_field(headers, "content-length") {
        let parsed = match headers::header_field(headers, "content-length") {
            Some(value) => {
                let chars = text::chars_of(value.as_str());
                text::parse_u64(chars.as_slice())
            },
            None => None,
        };
        let actual_length: u64 = match parsed {
            Some(length) => length,
            None => {
                return Err(
                    ClientError::InvalidRangeResponse("invalid Content-Length header".to_string()),
                );
            },
        };
        let span: u64 = range.end - range.start;
        if span == u64::MAX {
            return Err(
                ClientError::InvalidRangeResponse("range length overflowed".to_string()),
            );
        }
        let expected_length: u64 = span + 1;
        if actual_length != expected_length {
            return Err(
                ClientError::InvalidRangeResponse(
                    mismatch("Content-Length is ", actual_length, expected_length),
                ),
            );
        }
    }
    if names_other_version(headers, if_range) {
        return Err(ClientError::ContentChanged);
    }
    Ok(())
}

/// Whether a refused range reports a length other than the expected one.
pub open spec fn reports_other_total(
    status: int,
    fields: Map<Seq<char>, Seq<u8>>,
    total: Option<u64>,
) -> bool {
    status == 416 && total is Some && match headers::field_text(fields, "content-range"@) {
        Some(value) => unsatisfied_total(value) is Some && unsatisfied_total(value) != total,
        None => false,
    }
}

/// Whether a full reply to a conditional range request carries another entity tag.
pub open spec fn replaced_file(
    status: int,
    fields: Map<Seq<char>, Seq<u8>>,
    validator: Option<Seq<char>>,
) -> bool {
    status == 200 && strong_validator(validator) && headers::field_text(fields, "etag"@)
        != validator
}

/// What a reply to a range request means for its requester.
pub open spec fn reply_verdict(
    status: int,
    fields: Map<Seq<char>, Seq<u8>>,
    start: u64,
    end: Option<u64>,
    total: Option<u64>,
    validator: Option<Seq<char>>,
) -> Result<(), ClientFault> {
    if reports_other_total(status, fields, total) {
        Err(ClientFault::ContentChanged)
    } else if !(200 <= status < 300) {
        Err(
            ClientFault::BadStatus(
                status,
                "HTTP error downloading range: "@ + crate::client::status_display(status),
            ),
        )
    } else if !names_range(start, end) {
        Ok(())
    } else if status == 206 {
        range_verdict(fields, start, end, total, validator)
    } else if replaced_file(status, fields, validator) {
        Err(ClientFault::ContentChanged)
    } else {
        Err(
            ClientFault::BadStatus(
                status,
                "Server returned "@ + crate::client::status_display(status)
                    + " instead of 206 Partial Content for range request"@,
            ),
        )
    }
}

/// Checks the status and header fields of a reply before any of its bytes are written. A request
/// for part of a file must be answered with that part: a full reply starts at the first byte.
pub fn check_range_reply(
    status: HttpStatus,
    headers: &HeaderMap<HeaderValue>,
    start: u64,
    end: Option<u64>,
    expected_total: Option<u64>,
    if_range: Option<&str>,
) -> (r: Result<(), ClientError>)
    ensures
        check_view(r) == reply_verdict(
            status.spec_code(),
            headers::header_fields(*headers),
            start,
            end,
            expected_total,
            text::str_text(if_range),
        ),
{
    proof {
        lemma_field_names();
    }
    let code: u16 = status.code();
    if code == 416 {
        match (expected_total, headers::header_field(headers, "content-range")) {
            (Some(expected), Some(value)) => {
                match parse_unsatisfied_total(value.as_str()) {
                    Some(actual) => {
                        if actual != expected {
                            return Err(ClientError::ContentChanged);
                        }
                    },
                    None => {},
                }
            },
            _ => {},
        }
    }
    if !status.is_success() {
        let shown = status.text();
        return Err(
            ClientError::BadStatus(
                status,
                text::join2("HTTP error downloading range: ", shown.as_str()),
            ),
        );
    }
    if start == 0 && end.is_none() {
        return Ok(());
    }
    if code != 206 {
        if code == 200 && has_strong_validator(if_range) {
            let same = match (headers::header_field(headers, "etag"), if_range) {
                (Some(actual), Some(expected)) => text::same_text(actual.as_str(), expected),
                _ => false,
            };
            if !same {
                return Err(ClientError::ContentChanged);
            }
        }
        let shown = status.text();
        return Err(
            ClientError::BadStatus(
                status,
                text::join3(
                    "Server returned ",
                    shown.as_str(),
                    " instead of 206 Partial Content for range request",
                ),
            ),
        );
    }
    validate_range_response(headers, start, end, expected_total, if_range)
}

/// The last byte of a saved sample that starts at `start`, if it can be requested at all.
pub fn verification_end(start: u64, length: usize) -> (r: Result<u64, ClientError>)
    ensures
        r is Ok <==> length > 0 && start + length - 1 <= u64::MAX,
        r matches Ok(end) ==> end == start + length - 1,
        r matches Err(error) ==> error@ == ClientFault::InvalidRangeResponse(
            "invalid verification range"@,
        ),
{
    if length == 0 || (length - 1) as u64 > u64::MAX - start {
        return Err(
            ClientError::InvalidRangeResponse("invalid verification range".to_string()),
        );
    }
    Ok(start + (length - 1) as u64)
}

/// A saved sample compared with the pieces of a reply as they arrive.
pub struct SampleCheck {
    pub expected: Vec<u8>,
    pub matched: usize,
}

impl SampleCheck {
    pub open spec fn wf(&self) -> bool {
        self.matched <= self.expected@.len()
    }

    /// The saved bytes that no piece has confirmed yet.
    pub open spec fn rest(&self) -> Seq<u8> {
        self.expected@.skip(self.matched as int)
    }

    pub fn new(expected: Vec<u8>) -> (r: SampleCheck)
        ensures
            r.wf(),
            r.expected == expected,
            r.matched == 0,
            r.rest() == expected@,
    {
        let r = SampleCheck { expected, matched: 0 };
        assert(r.rest() =~= expected@);
        r
    }

    /// Compares the next piece of the reply.
    pub fn accept(&mut self, bytes: &[u8]) -> (r: Result<(), ClientError>)
        requires
            old(self).wf(),
        ensures
            final(self).wf(),
            final(self).expected == old(self).expected,
            check_view(r) == piece_verdict(old(self).rest(), bytes@),
            r is Ok ==> final(self).rest() == old(self).rest().skip(bytes@.len() as int),
            r is Err ==> *final(self) == *old(self),
    {
        let length: usize = self.expected.len();
        let remaining: usize = length - self.matched;
        if bytes.len() > remaining {
            return Err(
                ClientError::InvalidRangeResponse(
                    "verification response exceeded its expected length".to_string(),
                ),
            );
        }
        let mut i: usize = 0;
        while i < bytes.len()
            invariant
                i <= bytes.len(),
                self.matched + bytes@.len() <= self.expected@.len(),
                length == self.expected@.len(),
                *self == *old(self),
                forall|j: int| 0 <= j < i ==> bytes@[j] == self.expected@[self.matched + j],
            decreases bytes.len() - i,
        {
            if bytes[i] != self.expected[self.matched + i] {
                assert(self.rest().take(bytes@.len() as int)[i as int] != bytes@[i as int]);
                return Err(ClientError::ContentChanged);
            }
            i += 1;
        }
        assert(self.rest().take(bytes@.len() as int) =~= bytes@);
        let ghost before = self.rest();
        self.matched = self.matched + bytes.len();
        assert(self.rest() =~= before.skip(bytes@.len() as int));
        Ok(())
    }

    /// The verdict at the end of the reply.
    pub fn finish(&self) -> (r: Result<(), ClientError>)
        requires
            self.wf(),
        ensures
            check_view(r) == end_verdict(self.rest()),
    {
        if self.matched < self.expected.len() {
            return Err(
                ClientError::InvalidRangeResponse(
                    "verification response ended before its expected length".to_string(),
                ),
            );
        }
        Ok(())
    }
}

/// What one piece of a reply says about the saved bytes still expected.
pub open spec fn piece_verdict(rest: Seq<u8>, piece: Seq<u8>) -> Result<(), ClientFault> {
    if piece.len() > rest.len() {
        invalid_range("verification response exceeded its expected length"@)
    } else if rest.take(piece.len() as int) != piece {
        Err(ClientFault::ContentChanged)
    } else {
        Ok(())
    }
}

/// What the end of a reply says about the saved bytes still expected.
pub open spec fn end_verdict(rest: Seq<u8>) -> Result<(), ClientFault> {
    if rest.len() > 0 {
        invalid_range("verification response ended before its expected length"@)
    } else {
        Ok(())
    }
}

/// What a whole reply, in pieces, says about a saved sample.
pub open spec fn sample_verdict(rest: Seq<u8>, pieces: Seq<Seq<u8>>) -> Result<(), ClientFault>
    decreases pieces.len(),
{
    if pieces.len() == 0 {
        end_verdict(rest)
    } else {
        match piece_verdict(rest, pieces[0]) {
            Ok(()) => sample_verdict(rest.skip(pieces[0].len() as int), pieces.drop_first()),
            Err(fault) => Err(fault),
        }
    }
}

/// Law: a sample is confirmed exactly when the pieces of the reply, put together, are the saved
/// bytes, however the reply was cut.
pub proof fn law_samples_match_whole_bodies(saved: Seq<u8>, pieces: Seq<Seq<u8>>)
    ensures
        sample_verdict(saved, pieces) is Ok <==> pieces.flatten() == saved,
    decreases pieces.len(),
{
    if pieces.len() == 0 {
        assert(pieces.flatten() =~= Seq::<u8>::empty());
        if saved.len() == 0 {
            assert(saved =~= Seq::<u8>::empty());
        }
    } else {
        let piece = pieces[0];
        let later = pieces.drop_first();
        let n = piece.len() as int;
        assert(pieces.flatten() == piece + later.flatten());
        if piece.len() <= saved.len() && saved.take(n) == piece {
            law_samples_match_whole_bodies(saved.skip(n), later);
            assert(saved =~= piece + saved.skip(n));
            if pieces.flatten() == saved {
                assert((piece + later.flatten()).skip(n) =~= later.flatten());
            }
        } else if pieces.flatten() == saved {
            assert((piece + later.flatten()).take(n) =~= piece);
        }
    }
}

/// Law: a reply is accepted only with a status of success, and a reply to a request for part of a
/// file only where it is that part: a partial reply whose stated range starts where it was asked to,
/// ends where it was asked to, belongs to a file of the expected size, is as long as its stated
/// length, and does not name another version of the file.
pub proof fn law_accepted_replies_hold_the_requested_bytes(
    status: int,
    fields: Map<Seq<char>, Seq<u8>>,
    start: u64,
    end: Option<u64>,
    total: Option<u64>,
    validator: Option<Seq<char>>,
)
    requires
        reply_verdict(status, fields, start, end, total, validator) is Ok,
    ensures
        200 <= status < 300,
        start > 0 || end is Some ==> {
            &&& status == 206
            &&& headers::field_text(fields, "content-range"@) matches Some(value)
                && parsed_content_range(value) matches Some(stated) && {
                &&& stated.start == start
                &&& end matches Some(last) ==> stated.end == last
                &&& total matches Some(size) ==> stated.total == Some(size)
                &&& fields.contains_key("content-length"@) ==> (length_field(fields) matches Some(
                    length,
                ) && length == stated.end - stated.start + 1)
            }
            &&& validator matches Some(tag) ==> {
                &&& strong_etag(tag) ==> (headers::field_text(fields, "etag"@) matches Some(named)
                    ==> named == tag)
                &&& !strong_etag(tag) ==> (headers::field_text(
                    fields,
                    "last-modified"@,
                ) matches Some(named) ==> named == tag)
            }
        },
{
}

/// Law: a partial reply that states the requested bytes of the expected file is accepted.
pub proof fn law_fitting_replies_are_accepted(
    fields: Map<Seq<char>, Seq<u8>>,
    stated: ContentRange,
    value: Seq<char>,
    total: Option<u64>,
    validator: Option<Seq<char>>,
)
    requires
        headers::field_text(fields, "content-range"@) == Some(value),
        parsed_content_range(value) == Some(stated),
        total is Some ==> stated.total == total,
        fields.contains_key("content-length"@) ==> (length_field(fields) matches Some(length)
            && length == stated.end - stated.start + 1),
        headers::field_text(fields, "etag"@) matches Some(named) ==> validator == Some(named),
        headers::field_text(fields, "last-modified"@) matches Some(named) ==> validator == Some(
            named,
        ),
    ensures
        reply_verdict(206, fields, stated.start, Some(stated.end), total, validator) is Ok,
        reply_verdict(206, fields, stated.start, None, total, validator) is Ok,
{
}

/// Law: a reply that shows another version of the file is reported as changed content: another
/// total, another entity tag, or a full reply with another tag to a request for part of a file.
pub proof fn law_other_versions_are_reported_as_changed(
    fields: Map<Seq<char>, Seq<u8>>,
    value: Seq<char>,
    start: u64,
    end: Option<u64>,
    total: u64,
    tag: Seq<char>,
)
    requires
        start > 0 || end is Some,
        headers::field_text(fields, "content-range"@) == Some(value),
    ensures
        content_range_total(Some(value)) is Some && content_range_total(Some(value)) != Some(total)
            ==> reply_verdict(206, fields, start, end, Some(total), Some(tag)) == Err::<
            (),
            ClientFault,
        >(ClientFault::ContentChanged),
        unsatisfied_total(value) is Some && unsatisfied_total(value) != Some(total)
            ==> reply_verdict(416, fields, start, end, Some(total), Some(tag)) == Err::<
            (),
            ClientFault,
        >(ClientFault::ContentChanged),
        strong_etag(tag) && headers::field_text(fields, "etag"@) != Some(tag) ==> reply_verdict(
            200,
            fields,
            start,
            end,
            None,
            Some(tag),
        ) == Err::<(), ClientFault>(ClientFault::ContentChanged),
        strong_etag(tag) && headers::field_text(fields, "etag"@) is Some && headers::field_text(
            fields,
            "etag"@,
        ) != Some(tag) ==> !(reply_verdict(206, fields, start, end, None, Some(tag)) is Ok),
{
}

/// Law: a stated range is never empty and lies inside the file that it states.
pub proof fn law_stated_ranges_lie_in_their_file(value: Seq<char>)
    ensures
        parsed_content_range(value) matches Some(stated) ==> stated.start <= stated.end && (
        stated.total matches Some(total) ==> stated.end < total),
{
}

proof fn lemma_range_text(start: u64, end: u64, total: Seq<char>)
    requires
        total.len() > 0,
        forall|i: int|
            0 <= i < total.len() ==> !text::is_white(#[trigger] total[i]) && total[i] != '/',
    ensures
        ({
            let a = text::decimal(start as nat);
            let b = text::decimal(end as nat);
            let spec = a.push('-') + b;
            let value = "bytes"@.push(' ') + (spec.push('/') + total);
            &&& text::words(value) == seq!["bytes"@, spec.push('/') + total]
            &&& is_bytes_unit("bytes"@)
            &&& text::before(spec.push('/') + total, CharClass::Only('/')) == spec
            &&& text::after(spec.push('/') + total, CharClass::Only('/')) == Some(total)
            &&& text::before(spec, CharClass::Only('-')) == a
            &&& text::after(spec, CharClass::Only('-')) == Some(b)
            &&& text::parsed_u64(a) == Some(start)
            &&& text::parsed_u64(b) == Some(end)
        }),
{
    reveal_strlit("bytes");
    let a = text::decimal(start as nat);
    let b = text::decimal(end as nat);
    let spec = a.push('-') + b;
    let range = spec.push('/') + total;
    text::law_decimal_digits_read_back(start);
    text::law_decimal_digits_read_back(end);
    text::lemma_decimal_value(start as nat);
    text::lemma_decimal_value(end as nat);
    assert forall|i: int| 0 <= i < a.len() implies text::is_digit(#[trigger] a[i]) by {}
    assert forall|i: int| 0 <= i < b.len() implies text::is_digit(#[trigger] b[i]) by {}
    assert forall|i: int| 0 <= i < a.len() implies !CharClass::Only('-').holds(#[trigger] a[i]) by {
        assert(text::is_digit(a[i]));
    }
    text::lemma_parted(a, '-', b, CharClass::Only('-'));
    assert forall|i: int| 0 <= i < spec.len() implies !CharClass::Only('/').holds(
        #[trigger] spec[i],
    ) && !text::is_white(spec[i]) by {
        if i < a.len() {
            assert(spec[i] == a[i] && text::is_digit(a[i]));
        } else if i > a.len() {
            assert(spec[i] == b[i - a.len() - 1] && text::is_digit(b[i - a.len() - 1]));
        }
    }
    text::lemma_parted(spec, '/', total, CharClass::Only('/'));
    assert forall|i: int| 0 <= i < range.len() implies !text::is_white(#[trigger] range[i]) by {
        if i < spec.len() {
            assert(range[i] == spec[i]);
        } else if i > spec.len() {
            assert(range[i] == total[i - spec.len() - 1]);
        }
    }
    let unit = "bytes"@;
    assert forall|i: int| 0 <= i < unit.len() implies !text::is_white(#[trigger] unit[i]) by {}
    text::lemma_two_words(unit, range);
    assert(text::ascii_lower(unit) =~= unit);
}

/// Law: a stated range is read as it is written: its first byte, its last byte, and the size of the
/// file or that it is unknown.
pub proof fn law_stated_ranges_read_back(start: u64, end: u64, total: u64)
    requires
        start <= end,
    ensures
        ({
            let spec = text::decimal(start as nat).push('-') + text::decimal(end as nat);
            let known = "bytes"@.push(' ') + (spec.push('/') + text::decimal(total as nat));
            let unknown = "bytes"@.push(' ') + (spec.push('/') + "*"@);
            &&& end < total ==> parsed_content_range(known) == Some(
                ContentRange { start, end, total: Some(total) },
            )
            &&& end >= total ==> parsed_content_range(known) is None
            &&& parsed_content_range(unknown) == Some(ContentRange { start, end, total: None })
        }),
{
    reveal_strlit("*");
    let size = text::decimal(total as nat);
    text::law_decimal_digits_read_back(total);
    text::lemma_decimal_value(total as nat);
    assert forall|i: int| 0 <= i < size.len() implies !text::is_white(#[trigger] size[i]) && size[i]
        != '/' by {
        assert(text::is_digit(size[i]));
    }
    assert(size != "*"@) by {
        assert(text::is_digit(size[0]));
        assert("*"@[0] == '*');
    }
    lemma_range_text(start, end, size);
    lemma_range_text(start, end, "*"@);
}

/// Law: a request for part of a file names exactly its first and its last byte, or only its first
/// one where everything from there on is wanted; a request for the whole file names nothing.
pub proof fn law_requests_name_their_bytes(start: u64, end: u64)
    ensures
        range_value(start, Some(end)) matches Some(value) && {
            let bytes = text::after(value, CharClass::Only('='));
            &&& text::before(value, CharClass::Only('=')) == "bytes"@
            &&& bytes matches Some(spec) && text::parsed_u64(
                text::before(spec, CharClass::Only('-')),
            ) == Some(start) && (text::after(spec, CharClass::Only('-')) matches Some(last)
                && text::parsed_u64(last) == Some(end))
        },
        start > 0 ==> (range_value(start, None) matches Some(value) && (text::after(
            value,
            CharClass::Only('='),
        ) matches Some(spec) && text::parsed_u64(text::before(spec, CharClass::Only('-'))) == Some(
            start,
        ) && text::after(spec, CharClass::Only('-')) == Some(Seq::<char>::empty()))),
        range_value(0, None) is None,
{
    reveal_strlit("bytes");
    reveal_strlit("bytes=");
    reveal_strlit("-");
    let a = text::decimal(start as nat);
    let b = text::decimal(end as nat);
    text::law_decimal_digits_read_back(start);
    text::law_decimal_digits_read_back(end);
    text::lemma_decimal_value(start as nat);
    assert forall|i: int| 0 <= i < a.len() implies !CharClass::Only('-').holds(#[trigger] a[i]) by {
        assert(text::is_digit(a[i]));
    }
    let unit = "bytes"@;
    assert forall|i: int| 0 <= i < unit.len() implies !CharClass::Only('=').holds(
        #[trigger] unit[i],
    ) by {}
    let both = a.push('-') + b;
    text::lemma_parted(a, '-', b, CharClass::Only('-'));
    text::lemma_parted(unit, '=', both, CharClass::Only('='));
    assert("bytes="@ + a + "-"@ + b =~= unit.push('=') + both);
    let none = Seq::<char>::empty();
    let open = a.push('-') + none;
    text::lemma_parted(a, '-', none, CharClass::Only('-'));
    text::lemma_parted(unit, '=', open, CharClass::Only('='));
    assert("bytes="@ + a + "-"@ =~= unit.push('=') + open);
}

/// Law: the size that an unsatisfied range reports is read as it is written.
pub proof fn law_unsatisfied_totals_read_back(total: u64)
    ensures
        unsatisfied_total("bytes"@.push(' ') + ("*/"@ + text::decimal(total as nat))) == Some(total),
{
    reveal_strlit("bytes");
    reveal_strlit("*/");
    let size = text::decimal(total as nat);
    let word = "*/"@ + size;
    text::law_decimal_digits_read_back(total);
    text::lemma_decimal_value(total as nat);
    let unit = "bytes"@;
    assert forall|i: int| 0 <= i < unit.len() implies !text::is_white(#[trigger] unit[i]) by {}
    assert forall|i: int| 0 <= i < word.len() implies !text::is_white(#[trigger] word[i]) by {
        if i >= 2 {
            assert(word[i] == size[i - 2] && text::is_digit(size[i - 2]));
        }
    }
    text::lemma_two_words(unit, word);
    assert(text::ascii_lower(unit) =~= unit);
    assert(word.take(2) =~= "*/"@);
    assert(word.skip(2) =~= size);
}

/// Law: an entity tag is strong exactly where it stands in quotation marks without a prefix: a weak
/// one, an unquoted one and one with white space in it are not.
pub proof fn law_strong_tags_are_quoted(tag: Seq<char>)
    ensures
        strong_etag(tag) ==> tag.len() >= 2 && tag[0] == '"' && tag[tag.len() - 1] == '"'
            && tag[0] != 'W' && !(exists|i: int|
            0 < i < tag.len() - 1 && (#[trigger] tag[i] == '"' || tag[i] == ' ')),
        tag.len() > 0 && tag[0] != '"' ==> !strong_etag(tag),
        tag.len() < 2 ==> !strong_etag(tag),
        (tag.len() >= 2 && tag[0] == '"' && tag.last() == '"' && forall|i: int|
            0 < i < tag.len() - 1 ==> 35 <= (#[trigger] tag[i]) as u32 <= 126) ==> strong_etag(tag),
{
    if tag.len() >= 2 && tag[0] == '"' && tag.last() == '"' && forall|i: int|
        0 < i < tag.len() - 1 ==> 35 <= (#[trigger] tag[i]) as u32 <= 126 {
        assert forall|i: int| 1 <= i < tag.len() - 1 implies is_tag_char(#[trigger] tag[i]) by {
            assert(35 <= tag[i] as u32 <= 126);
        }
    }
}

} // verus!
