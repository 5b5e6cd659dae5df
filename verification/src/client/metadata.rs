//! What a server says about a file.
use crate::client::filename;
use crate::client::headers;
use crate::client::range;
use crate::client::{ClientError, ClientFault, HttpStatus};
use crate::text;
use reqwest::header::{HeaderMap, HeaderValue};
use vstd::prelude::*;

verus! {

/// A remote file as its server describes it.
#[derive(Debug, Clone, PartialEq, Eq)]
pub struct RemoteFileInfo {
    pub content_length: Option<u64>,
    pub accepts_ranges: bool,
    pub filename: String,
    pub etag: Option<String>,
    pub last_modified: Option<String>,
}

/// A remote file's description as values.
pub struct InfoView {
    pub content_length: Option<u64>,
    pub accepts_ranges: bool,
    pub filename: Seq<char>,
    pub etag: Option<Seq<char>>,
    pub last_modified: Option<Seq<char>>,
}

impl View for RemoteFileInfo {
    type V = InfoView;

    open spec fn view(&self) -> InfoView {
        InfoView {
            content_length: self.content_length,
            accepts_ranges: self.accepts_ranges,
            filename: self.filename@,
            etag: text::string_text(self.etag),
            last_modified: text::string_text(self.last_modified),
        }
    }
}

impl InfoView {
    /// The strong entity tag, else the modification date, that a resumed download is held to.
    pub open spec fn resume_validator(self) -> Option<Seq<char>> {
        if range::strong_validator(self.etag) {
            self.etag
        } else {
            match self.last_modified {
                Some(date) => if date.len() > 0 {
                    Some(date)
                } else {
                    None
                },
                None => None,
            }
        }
    }

    /// Whether the metadata of two descriptions agree as far as a resume needs.
    pub open spec fn metadata_matches(self, latest: InfoView) -> bool {
        &&& self.content_length == latest.content_length
        &&& self.etag == latest.etag
        &&& range::strong_validator(latest.etag) || self.last_modified == latest.last_modified
    }

    /// Whether the file is fetched in byte ranges.
    pub open spec fn uses_ranges(self) -> bool {
        self.accepts_ranges && self.content_length is Some && self.content_length->0 > 0
    }
}

/// The description that header fields give of the file at a URL.
pub open spec fn info_from(url: Seq<char>, fields: Map<Seq<char>, Seq<u8>>) -> InfoView {
    InfoView {
        content_length: range::length_field(fields),
        accepts_ranges: match headers::field_text(fields, "accept-ranges"@) {
            Some(value) => text::first_at(text::ascii_lower(value), "bytes"@) >= 0,
            None => false,
        },
        filename: filename::filename_for(
            filename::url_path(url),
            headers::field_text(fields, "content-disposition"@),
        ),
        etag: headers::field_text(fields, "etag"@),
        last_modified: headers::field_text(fields, "last-modified"@),
    }
}

proof fn lemma_metadata_names()
    ensures
        headers::is_field_name("content-length"@),
        headers::is_field_name("accept-ranges"@),
        headers::is_field_name("content-disposition"@),
        headers::is_field_name("content-range"@),
        headers::is_field_name("etag"@),
        headers::is_field_name("last-modified"@),
{
    reveal_strlit("content-length");
    reveal_strlit("accept-ranges");
    reveal_strlit("content-disposition");
    reveal_strlit("content-range");
    reveal_strlit("etag");
    reveal_strlit("last-modified");
}

/// The file name that header fields give, where the suggestion escapes well-formed UTF-8.
pub open spec fn plain_filename_from(url: Seq<char>, fields: Map<Seq<char>, Seq<u8>>) -> Option<
    Seq<char>,
> {
    filename::plain_filename_for(
        filename::url_path(url),
        headers::field_text(fields, "content-disposition"@),
    )
}

impl RemoteFileInfo {
    /// Reads a file's description from the header fields of a reply.
    pub fn from_headers(url: &str, headers: &HeaderMap<HeaderValue>) -> (r: RemoteFileInfo)
        ensures
            r@ == info_from(url@, headers::header_fields(*headers)),
            plain_filename_from(url@, headers::header_fields(*headers)) matches Some(name)
                ==> r.filename@ == name,
    {
        proof {
            lemma_metadata_names();
        }
        let content_length = match headers::header_field(headers, "content-length") {
            Some(value) => {
                let chars = text::chars_of(value.as_str());
                text::parse_u64(chars.as_slice())
            },
            None => None,
        };
        let accepts_ranges = match headers::header_field(headers, "accept-ranges") {
            Some(value) => {
                let chars = text::chars_of(value.as_str());
                let lower = text::to_ascii_lower(chars.as_slice());
                let unit = text::chars_of("bytes");
                text::find_text(lower.as_slice(), unit.as_slice()).is_some()
            },
            None => false,
        };
        let disposition = headers::header_field(headers, "content-disposition");
        let filename = filename::extract_filename(url, text::option_str(&disposition));
        RemoteFileInfo {
            content_length,
            accepts_ranges,
            filename,
            etag: headers::header_field(headers, "etag"),
            last_modified: headers::header_field(headers, "last-modified"),
        }
    }

    /// The strong entity tag, else the modification date, that a resumed download is held to.
    pub fn resume_validator(&self) -> (r: Option<&str>)
        ensures
            text::str_text(r) == self@.resume_validator(),
    {
        match &self.etag {
            Some(etag) => {
                if range::is_strong_etag(etag.as_str()) {
                    return Some(etag.as_str());
                }
            },
            None => {},
        }
        match &self.last_modified {
            Some(date) => if date.as_str().is_empty() {
                None
            } else {
                Some(date.as_str())
            },
            None => None,
        }
    }

    /// Metadata agreement permits byte verification; dates alone do not prove identity.
    pub fn resume_metadata_matches(&self, latest: &RemoteFileInfo) -> (r: bool)
        ensures
            r == self@.metadata_matches(latest@),
    {
        self.content_length == latest.content_length && text::same_option(&self.etag, &latest.etag)
            && (range::has_strong_validator(text::option_str(&latest.etag)) || text::same_option(
            &self.last_modified,
            &latest.last_modified,
        ))
    }

    /// Whether the file is fetched in byte ranges.
    pub fn uses_range_workers(&self) -> (r: bool)
        ensures
            r == self@.uses_ranges(),
    {
        match self.content_length {
            Some(total) => self.accepts_ranges && total > 0,
            None => false,
        }
    }

    pub fn copy(&self) -> (r: RemoteFileInfo)
        ensures
            r == *self,
    {
        RemoteFileInfo {
            content_length: self.content_length,
            accepts_ranges: self.accepts_ranges,
            filename: self.filename.clone(),
            etag: text::copy_option(&self.etag),
            last_modified: text::copy_option(&self.last_modified),
        }
    }
}

/// Law: a description agrees with itself, and agreement with a strong entity tag carries the
/// validator over: the resumed download is held to the same tag.
pub proof fn law_matching_metadata_keeps_a_strong_validator(saved: InfoView, latest: InfoView)
    ensures
        saved.metadata_matches(saved),
        saved.metadata_matches(latest) && range::strong_validator(saved.etag)
            ==> latest.resume_validator() == saved.resume_validator(),
{
}

/// What follows the first metadata request.
pub enum HeadOutcome {
    /// The description is complete.
    Done(RemoteFileInfo),
    /// Range support is unstated: ask for the first byte to find out.
    ProbeRanges(RemoteFileInfo),
    /// The request was no help: ask for the first byte and read its reply instead.
    Fallback,
}

/// Checks a URL before anything is sent to it.
pub fn check_url(url: &str) -> (r: Result<(), ClientError>)
    ensures
        range::check_view(r) == (match filename::parsed_url(url@) {
            Ok(_) => Ok(()),
            Err(message) => Err(ClientFault::InvalidUrl(message)),
        }),
{
    match filename::parse_url(url) {
        Ok(_) => Ok(()),
        Err(message) => Err(ClientError::InvalidUrl(message)),
    }
}

/// Reads the reply to the metadata request, or decides how to go on without one.
pub fn head_outcome(
    url: &str,
    status: Option<HttpStatus>,
    headers: &HeaderMap<HeaderValue>,
) -> (r: HeadOutcome)
    ensures
        r is Fallback <==> !(status is Some && 200 <= status->0.spec_code() < 300),
        r matches HeadOutcome::Done(info) ==> info@ == info_from(
            url@,
            headers::header_fields(*headers),
        ) && (info.accepts_ranges || info.content_length is None),
        r matches HeadOutcome::ProbeRanges(info) ==> info@ == info_from(
            url@,
            headers::header_fields(*headers),
        ) && !info.accepts_ranges && info.content_length is Some,
        plain_filename_from(url@, headers::header_fields(*headers)) matches Some(name) ==> (match r {
            HeadOutcome::Done(info) => info.filename@ == name,
            HeadOutcome::ProbeRanges(info) => info.filename@ == name,
            HeadOutcome::Fallback => true,
        }),
{
    match status {
        Some(status) => {
            if !status.is_success() {
                return HeadOutcome::Fallback;
            }
        },
        None => {
            return HeadOutcome::Fallback;
        },
    }
    let info = RemoteFileInfo::from_headers(url, headers);
    if !info.accepts_ranges && info.content_length.is_some() {
        HeadOutcome::ProbeRanges(info)
    } else {
        HeadOutcome::Done(info)
    }
}

/// Adds range support to a description when the first byte came back on its own.
pub fn after_range_probe(info: RemoteFileInfo, status: Option<HttpStatus>) -> (r: RemoteFileInfo)
    ensures
        r == (RemoteFileInfo {
            accepts_ranges: info.accepts_ranges || (status is Some && status->0.spec_code()
                == 206),
            ..info
        }),
{
    let partial = match status {
        Some(status) => status.code() == 206,
        None => false,
    };
    let mut r = info;
    if partial {
        r.accepts_ranges = true;
    }
    r
}

/// The description that a reply for the first byte gives.
pub open spec fn probed_info(url: Seq<char>, status: int, fields: Map<Seq<char>, Seq<u8>>) -> Result<
    InfoView,
    ClientFault,
> {
    let info = info_from(url, fields);
    let total = range::content_range_total(headers::field_text(fields, "content-range"@));
    if !(200 <= status < 300) {
        Err(
            ClientFault::BadStatus(
                status,
                "HTTP probe failed with status: "@ + crate::client::status_display(status),
            ),
        )
    } else {
        Ok(
            InfoView {
                accepts_ranges: status == 206,
                content_length: if status == 206 && total is Some {
                    total
                } else {
                    info.content_length
                },
                ..info
            },
        )
    }
}

/// The view of a description or of why there is none.
pub open spec fn info_view(r: Result<RemoteFileInfo, ClientError>) -> Result<
    InfoView,
    ClientFault,
> {
    match r {
        Ok(info) => Ok(info@),
        Err(error) => Err(error@),
    }
}

/// Reads the description from a reply for the first byte.
pub fn probe_outcome(url: &str, status: HttpStatus, headers: &HeaderMap<HeaderValue>) -> (r: Result<
    RemoteFileInfo,
    ClientError,
>)
    ensures
        info_view(r) == probed_info(
            url@,
            status.spec_code(),
            headers::header_fields(*headers),
        ),
        r matches Ok(info) ==> (plain_filename_from(
            url@,
            headers::header_fields(*headers),
        ) matches Some(name) ==> info.filename@ == name),
{
    proof {
        lemma_metadata_names();
    }
    if !status.is_success() {
        let shown = status.text();
        return Err(
            ClientError::BadStatus(
                status,
                text::join2("HTTP probe failed with status: ", shown.as_str()),
            ),
        );
    }
    let mut info = RemoteFileInfo::from_headers(url, headers);
    info.accepts_ranges = status.code() == 206;
    if info.accepts_ranges {
        let stated = headers::header_field(headers, "content-range");
        match range::parse_content_range_total(text::option_str(&stated)) {
            Some(total) => {
                info.content_length = Some(total);
            },
            None => {},
        }
    }
    Ok(info)
}

/// Law: a resumed download is held to its strong entity tag, else to its date, else to nothing.
pub proof fn law_validators_prefer_strong_tags(info: InfoView)
    ensures
        info.etag matches Some(tag) ==> (range::strong_etag(tag) ==> info.resume_validator() == Some(
            tag,
        )),
        !(info.etag is Some && range::strong_etag(info.etag->0)) ==> {
            &&& info.last_modified matches Some(date) ==> (date.len() > 0
                ==> info.resume_validator() == Some(date))
            &&& info.last_modified is None || info.last_modified->0.len() == 0
                ==> info.resume_validator() is None
        },
{
}

/// Law: two descriptions agree only where size and entity tag are the same and, without a strong
/// tag, the date as well; agreement holds both ways and carries over.
pub proof fn law_agreement_needs_the_same_size_and_version(a: InfoView, b: InfoView, c: InfoView)
    ensures
        a.metadata_matches(b) ==> a.content_length == b.content_length && a.etag == b.etag,
        a.metadata_matches(b) && !(b.etag is Some && range::strong_etag(b.etag->0))
            ==> a.last_modified == b.last_modified,
        a.content_length == b.content_length && a.etag == b.etag && a.last_modified
            == b.last_modified ==> a.metadata_matches(b),
        a.content_length == b.content_length && a.etag == b.etag && (b.etag is Some
            && range::strong_etag(b.etag->0)) ==> a.metadata_matches(b),
        a.metadata_matches(b) <==> b.metadata_matches(a),
        a.metadata_matches(b) && b.metadata_matches(c) ==> a.metadata_matches(c),
{
}

/// Law: a file is fetched in ranges exactly where the server serves them and states a size that is
/// not zero.
pub proof fn law_ranges_need_a_known_size(info: InfoView)
    ensures
        info.uses_ranges() <==> info.accepts_ranges && (info.content_length matches Some(size) && size
            > 0),
{
}

/// Law: a reply for the first byte shows that ranges are served exactly where it is partial, and
/// then the total that it states is the size of the file, not the length of the reply.
pub proof fn law_probes_tell_the_size_of_the_file(
    url: Seq<char>,
    status: int,
    fields: Map<Seq<char>, Seq<u8>>,
)
    ensures
        probed_info(url, status, fields) is Ok <==> 200 <= status < 300,
        probed_info(url, status, fields) matches Ok(info) ==> {
            &&& info.accepts_ranges == (status == 206)
            &&& info.etag == headers::field_text(fields, "etag"@)
            &&& info.last_modified == headers::field_text(fields, "last-modified"@)
            &&& headers::field_text(fields, "content-range"@) matches Some(value) ==> (
            range::parsed_content_range(value) matches Some(stated) ==> (status == 206
                && stated.total is Some ==> info.content_length == stated.total))
        },
{
}

/// Law: a stated length is read as the number that it is written as.
pub proof fn law_stated_lengths_are_read(
    url: Seq<char>,
    fields: Map<Seq<char>, Seq<u8>>,
    size: u64,
)
    ensures
        headers::field_text(fields, "content-length"@) == Some(text::decimal(size as nat))
            ==> info_from(url, fields).content_length == Some(size),
        headers::field_text(fields, "content-length"@) is None ==> info_from(
            url,
            fields,
        ).content_length is None,
        headers::field_text(fields, "accept-ranges"@) is None ==> !info_from(
            url,
            fields,
        ).accepts_ranges,
        info_from(url, fields).etag == headers::field_text(fields, "etag"@),
        info_from(url, fields).last_modified == headers::field_text(fields, "last-modified"@),
{
    text::law_decimal_digits_read_back(size);
}

/// Law: ranges are served where the server lists bytes among the units that it accepts, in any case,
/// and not where it lists none.
pub proof fn law_accepted_units_are_noticed(
    url: Seq<char>,
    fields: Map<Seq<char>, Seq<u8>>,
    units: Seq<char>,
)
    requires
        headers::field_text(fields, "accept-ranges"@) == Some(units),
    ensures
        text::ascii_lower(units) == "bytes"@ ==> info_from(url, fields).accepts_ranges,
        units.len() < 5 ==> !info_from(url, fields).accepts_ranges,
{
    reveal_strlit("bytes");
    let lower = text::ascii_lower(units);
    let unit = "bytes"@;
    if lower == unit {
        assert(lower.subrange(0, 5) =~= unit);
        assert(text::occurs_at(lower, unit, 0));
        text::lemma_found(lower, unit, 0);
    }
    if units.len() < 5 {
        text::lemma_not_found(lower, unit);
    }
}

/// Law: a description is asked for in another way exactly where the first request got no reply of
/// success, and range support is probed for exactly where a size but no range support is stated.
pub proof fn law_descriptions_are_completed(
    url: &str,
    status: Option<HttpStatus>,
    headers: &HeaderMap<HeaderValue>,
    r: HeadOutcome,
)
    requires
        call_ensures(head_outcome, (url, status, headers), r),
    ensures
        r is Fallback <==> status is None || status->0.spec_code() < 200 || status->0.spec_code()
            >= 300,
        r matches HeadOutcome::Done(info) ==> info.accepts_ranges || info.content_length is None,
        r matches HeadOutcome::ProbeRanges(info) ==> !info.accepts_ranges
            && info.content_length is Some,
        r matches HeadOutcome::Done(info) ==> info@ == info_from(
            url@,
            headers::header_fields(*headers),
        ),
{
}

/// Law: a probe adds range support only where its reply is partial, and changes nothing else.
pub proof fn law_probes_add_range_support_only(
    info: RemoteFileInfo,
    status: Option<HttpStatus>,
    r: RemoteFileInfo,
)
    requires
        call_ensures(after_range_probe, (info, status), r),
    ensures
        r.accepts_ranges <==> info.accepts_ranges || (status matches Some(code) && code.spec_code()
            == 206),
        r.content_length == info.content_length && r.etag == info.etag && r.last_modified
            == info.last_modified && r.filename == info.filename,
{
}

/// Law: where the whole file was sent in place of its first byte, its size is the stated length,
/// whatever range the reply names.
pub proof fn law_whole_replies_state_the_size_as_their_length(
    url: Seq<char>,
    status: int,
    fields: Map<Seq<char>, Seq<u8>>,
    size: u64,
)
    requires
        200 <= status < 300,
        status != 206,
    ensures
        headers::field_text(fields, "content-length"@) == Some(text::decimal(size as nat)) ==> (
        probed_info(url, status, fields) matches Ok(info) && info.content_length == Some(size)),
        headers::field_text(fields, "content-length"@) is None ==> (probed_info(
            url,
            status,
            fields,
        ) matches Ok(info) && info.content_length is None),
{
    law_stated_lengths_are_read(url, fields, size);
}

} // verus!
