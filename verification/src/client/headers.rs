//! Reading the header fields of a reply.
use crate::text;
use reqwest::header::{HeaderMap, HeaderValue};
use vstd::prelude::*;

verus! {

/// `reqwest::header::HeaderValue`, an opaque header value.
#[verifier::external_type_specification]
#[verifier::external_body]
pub struct ExHeaderValue(reqwest::header::HeaderValue);

/// `reqwest::header::HeaderMap`, an opaque collection of header fields.
#[verifier::external_type_specification]
#[verifier::external_body]
#[verifier::reject_recursive_types(T)]
pub struct ExHeaderMap<T>(reqwest::header::HeaderMap<T>);

/// The first value of each field of a header map, by lower-case field name.
pub uninterp spec fn header_fields(headers: HeaderMap<HeaderValue>) -> Map<Seq<char>, Seq<u8>>;

/// A field name in lower case.
pub open spec fn is_field_name(name: Seq<char>) -> bool {
    name.len() > 0 && forall|i: int|
        0 <= i < name.len() ==> 97 <= (#[trigger] name[i]) as u32 <= 122 || name[i] == '-'
}

/// `HeaderMap::get` and `HeaderValue::as_bytes`: the bytes of the first value of a field, if the
/// field is there.
#[verifier::external_body]
fn header_bytes(headers: &HeaderMap<HeaderValue>, name: &str) -> (r: Option<Vec<u8>>)
    requires
        is_field_name(name@),
    ensures
        r is Some <==> header_fields(*headers).contains_key(name@),
        r matches Some(bytes) ==> bytes@ == header_fields(*headers)[name@],
{
    headers.get(name).map(|value| value.as_bytes().to_vec())
}

/// A byte that a header value may hold as text.
pub open spec fn is_visible(b: u8) -> bool {
    32 <= b < 127 || b == 9
}

/// The text of a header value, if all of its bytes are visible ASCII, spaces or tabs.
pub open spec fn visible_text(bytes: Seq<u8>) -> Option<Seq<char>> {
    if forall|i: int| 0 <= i < bytes.len() ==> is_visible(#[trigger] bytes[i]) {
        Some(Seq::new(bytes.len(), |i: int| bytes[i] as char))
    } else {
        None
    }
}

/// The text of a header field, if it is there and readable.
pub open spec fn field_text(fields: Map<Seq<char>, Seq<u8>>, name: Seq<char>) -> Option<Seq<char>> {
    if fields.contains_key(name) {
        visible_text(fields[name])
    } else {
        None
    }
}

pub fn header_text(bytes: &[u8]) -> (r: Option<String>)
    ensures
        text::string_text(r) == visible_text(bytes@),
{
    let mut chars: Vec<char> = Vec::new();
    let mut i: usize = 0;
    while i < bytes.len()
        invariant
            i <= bytes.len(),
            chars@.len() == i,
            forall|j: int| 0 <= j < i ==> is_visible(#[trigger] bytes@[j]),
            forall|j: int| 0 <= j < i ==> chars@[j] == bytes@[j] as char,
        decreases bytes.len() - i,
    {
        let b: u8 = bytes[i];
        if !((32 <= b && b < 127) || b == 9) {
            assert(!is_visible(bytes@[i as int]));
            return None;
        }
        chars.push(b as char);
        i += 1;
    }
    assert(chars@ =~= Seq::new(bytes@.len(), |i: int| bytes@[i] as char));
    Some(text::string_of(chars.as_slice()))
}

/// Whether a header field is there.
pub fn has_field(headers: &HeaderMap<HeaderValue>, name: &str) -> (r: bool)
    requires
        is_field_name(name@),
    ensures
        r == header_fields(*headers).contains_key(name@),
{
    match header_bytes(headers, name) {
        Some(_) => true,
        None => false,
    }
}

/// The text of a header field, if it is there and readable.
pub fn header_field(headers: &HeaderMap<HeaderValue>, name: &str) -> (r: Option<String>)
    requires
        is_field_name(name@),
    ensures
        text::string_text(r) == field_text(header_fields(*headers), name@),
{
    match header_bytes(headers, name) {
        Some(bytes) => header_text(bytes.as_slice()),
        None => None,
    }
}

} // verus!
