//! File names suggested by a server, made safe for a file system.
use crate::text;
use vstd::prelude::*;
use vstd::slice::slice_subrange;
use vstd::utf8::*;

verus! {

/// The text that a byte string decodes to when malformed parts become replacement characters.
pub uninterp spec fn lossy_decoded(bytes: Seq<u8>) -> Seq<char>;

/// `String::from_utf8_lossy`: the decoded text is a function of the bytes, and well-formed UTF-8
/// decodes to the text that it encodes. What replaces malformed bytes is left unsaid.
#[verifier::external_body]
fn lossy_text(bytes: &[u8]) -> (r: String)
    ensures
        r@ == lossy_decoded(bytes@),
        valid_utf8(bytes@) ==> r@ == decode_utf8(bytes@),
{
    String::from_utf8_lossy(bytes).into_owned()
}

/// A URL taken apart: its path, or the message that says why it is none.
pub uninterp spec fn parsed_url(url: Seq<char>) -> Result<Seq<char>, Seq<char>>;

/// The views of a parsed URL's path or error message.
pub open spec fn url_view(r: Result<String, String>) -> Result<Seq<char>, Seq<char>> {
    match r {
        Ok(path) => Ok(path@),
        Err(message) => Err(message@),
    }
}

/// `reqwest::Url::parse`, then `Url::path` of the URL or the text of the parse error: a function
/// of the URL's text alone.
#[verifier::external_body]
pub(crate) fn parse_url(url: &str) -> (r: Result<String, String>)
    ensures
        url_view(r) == parsed_url(url@),
{
    match reqwest::Url::parse(url) {
        Ok(parsed) => Ok(parsed.path().to_string()),
        Err(error) => Err(error.to_string()),
    }
}

/// The value of a hexadecimal digit.
pub open spec fn hex_value(b: u8) -> Option<u8> {
    if 48 <= b <= 57 {
        Some((b - 48) as u8)
    } else if 97 <= b <= 102 {
        Some((b - 87) as u8)
    } else if 65 <= b <= 70 {
        Some((b - 55) as u8)
    } else {
        None
    }
}

/// The byte that follows a percent sign: two hexadecimal digits, or a plus sign and one.
pub open spec fn hex_pair(c1: u8, c2: u8) -> Option<u8> {
    match (hex_value(c1), hex_value(c2)) {
        (Some(high), Some(low)) => Some((high * 16 + low) as u8),
        (None, Some(low)) => if c1 == 43 {
            Some(low)
        } else {
            None
        },
        _ => None,
    }
}

/// The bytes with each percent escape replaced; a malformed escape stays as it is.
pub open spec fn percent_decoded(b: Seq<u8>) -> Seq<u8>
    decreases b.len(),
{
    if b.len() == 0 {
        b
    } else if b[0] != 37 {
        seq![b[0]] + percent_decoded(b.skip(1))
    } else if b.len() < 3 {
        b
    } else {
        (match hex_pair(b[1], b[2]) {
            Some(byte) => seq![byte],
            None => b.take(3),
        }) + percent_decoded(b.skip(3))
    }
}

fn hex_digit(b: u8) -> (r: Option<u8>)
    ensures
        r == hex_value(b),
        r matches Some(v) ==> v < 16,
{
    if 48 <= b && b <= 57 {
        Some(b - 48)
    } else if 97 <= b && b <= 102 {
        Some(b - 87)
    } else if 65 <= b && b <= 70 {
        Some(b - 55)
    } else {
        None
    }
}

fn hex_byte(c1: u8, c2: u8) -> (r: Option<u8>)
    ensures
        r == hex_pair(c1, c2),
{
    match (hex_digit(c1), hex_digit(c2)) {
        (Some(high), Some(low)) => Some(high * 16 + low),
        (None, Some(low)) => if c1 == 43 {
            Some(low)
        } else {
            None
        },
        _ => None,
    }
}

/// Replaces the percent escapes of a byte string.
pub fn percent_bytes(b: &[u8]) -> (r: Vec<u8>)
    ensures
        r@ == percent_decoded(b@),
{
    let mut r: Vec<u8> = Vec::new();
    let mut i: usize = 0;
    assert(b@.skip(0) =~= b@);
    while i < b.len()
        invariant
            i <= b.len(),
            r@ + percent_decoded(b@.skip(i as int)) == percent_decoded(b@),
        decreases b.len() - i,
    {
        let ghost rest = b@.skip(i as int);
        let ghost done = r@;
        if b[i] != 37 {
            r.push(b[i]);
            assert(rest.skip(1) =~= b@.skip(i + 1));
            assert(r@ + percent_decoded(rest.skip(1)) =~= done + percent_decoded(rest));
            i += 1;
        } else if b.len() - i < 3 {
            r.push(b[i]);
            if b.len() - i == 2 {
                r.push(b[i + 1]);
            }
            assert(r@ =~= done + rest);
            assert(b@.skip(b@.len() as int) =~= Seq::<u8>::empty());
            assert(r@ + Seq::<u8>::empty() =~= r@);
            i = b.len();
        } else {
            match hex_byte(b[i + 1], b[i + 2]) {
                Some(byte) => {
                    r.push(byte);
                    assert(r@ =~= done + seq![byte]);
                },
                None => {
                    r.push(b[i]);
                    r.push(b[i + 1]);
                    r.push(b[i + 2]);
                    assert(r@ =~= done + rest.take(3));
                },
            }
            assert(rest.skip(3) =~= b@.skip(i + 3));
            assert(r@ + percent_decoded(rest.skip(3)) =~= done + percent_decoded(rest));
            i += 3;
        }
    }
    assert(b@.skip(b@.len() as int) =~= Seq::<u8>::empty());
    assert(r@ + Seq::<u8>::empty() =~= r@);
    r
}

/// Whether a byte is escaped at an offset: a percent sign and two hexadecimal digits, in either
/// case.
pub open spec fn escapes(escaped: Seq<u8>, offset: int, byte: u8) -> bool {
    &&& escaped[offset] == 37
    &&& hex_value(escaped[offset + 1]) == Some((byte / 16) as u8)
    &&& hex_value(escaped[offset + 2]) == Some((byte % 16) as u8)
}

/// Whether bytes are some others with each of them escaped.
pub open spec fn is_escaping(escaped: Seq<u8>, plain: Seq<u8>) -> bool {
    &&& escaped.len() == 3 * plain.len()
    &&& forall|i: int| 0 <= i < plain.len() ==> escapes(escaped, 3 * i, #[trigger] plain[i])
}

/// Law: bytes that were all escaped decode to what they were.
pub proof fn law_escapes_decode_back(escaped: Seq<u8>, plain: Seq<u8>)
    requires
        is_escaping(escaped, plain),
    ensures
        percent_decoded(escaped) == plain,
    decreases plain.len(),
{
    if plain.len() > 0 {
        let first = plain[0];
        assert(escapes(escaped, 0, first));
        assert(hex_pair(escaped[1], escaped[2]) == Some(first));
        let rest = escaped.skip(3);
        let others = plain.skip(1);
        assert forall|i: int| 0 <= i < others.len() implies escapes(
            rest,
            3 * i,
            #[trigger] others[i],
        ) by {
            assert(others[i] == plain[i + 1]);
            assert(escapes(escaped, 3 * (i + 1), plain[i + 1]));
        }
        law_escapes_decode_back(rest, others);
        assert(seq![first] + others =~= plain);
    } else {
        assert(escaped =~= plain);
    }
}

/// A text with its percent escapes decoded.
pub open spec fn url_decoded(s: Seq<char>) -> Seq<char> {
    lossy_decoded(percent_decoded(encode_utf8(s)))
}

/// Decodes the percent escapes of a text.
pub fn urlencoding_decode(s: &str) -> (r: String)
    ensures
        r@ == url_decoded(s@),
        valid_utf8(percent_decoded(encode_utf8(s@))) ==> r@ == decode_utf8(
            percent_decoded(encode_utf8(s@)),
        ),
        !encode_utf8(s@).contains(37u8) ==> r@ == s@,
        forall|plain: Seq<char>|
            is_escaping(encode_utf8(s@), #[trigger] encode_utf8(plain)) ==> r@ == plain,
{
    let bytes = s.as_bytes();
    let decoded = percent_bytes(bytes);
    let r = lossy_text(decoded.as_slice());
    proof {
        assert forall|plain: Seq<char>|
            is_escaping(encode_utf8(s@), #[trigger] encode_utf8(plain)) implies r@ == plain by {
            law_escapes_decode_back(encode_utf8(s@), encode_utf8(plain));
            encode_utf8_valid_utf8(plain);
            encode_utf8_decode_utf8(plain);
        }
        if !encode_utf8(s@).contains(37u8) {
            lemma_no_escape(encode_utf8(s@));
            encode_utf8_valid_utf8(s@);
            encode_utf8_decode_utf8(s@);
        }
    }
    r
}

proof fn lemma_no_escape(b: Seq<u8>)
    requires
        !b.contains(37u8),
    ensures
        percent_decoded(b) == b,
    decreases b.len(),
{
    if b.len() > 0 {
        let rest = b.skip(1);
        assert forall|i: int| 0 <= i < rest.len() implies rest[i] != 37 by {
            assert(b.contains(b[i + 1]));
        }
        assert(b.contains(b[0]));
        lemma_no_escape(rest);
        assert(seq![b[0]] + rest =~= b);
    }
}

/// A character that a file name may not hold.
pub open spec fn is_forbidden(c: char) -> bool {
    c == '<' || c == '>' || c == ':' || c == '"' || c == '/' || c == '\\' || c == '|' || c == '?'
        || c == '*' || text::is_control(c)
}

/// The text with forbidden characters replaced by underscores.
pub open spec fn replaced(s: Seq<char>) -> Seq<char> {
    s.map_values(
        |c: char|
            if is_forbidden(c) {
                '_'
            } else {
                c
            },
    )
}

/// The replaced text without surrounding white space and dots.
pub open spec fn settled(s: Seq<char>) -> Seq<char> {
    text::trimmed(text::trim_both(text::trimmed(replaced(s)), text::CharClass::Only('.')))
}

/// An upper-case device name that Windows reserves.
pub open spec fn is_device_name(s: Seq<char>) -> bool {
    ||| s == "CON"@
    ||| s == "PRN"@
    ||| s == "AUX"@
    ||| s == "NUL"@
    ||| s.len() == 4 && (s.take(3) == "COM"@ || s.take(3) == "LPT"@) && 49 <= s[3] as u32 <= 57
}

/// A file name whose part before the first dot is a device name in any case.
pub open spec fn is_reserved(name: Seq<char>) -> bool {
    is_device_name(text::before(text::ascii_upper(name), text::CharClass::Only('.')))
}

/// The file name made of a decoded suggestion.
pub open spec fn clean_name(s: Seq<char>) -> Seq<char> {
    let name = settled(s);
    if name.len() == 0 {
        "download.bin"@
    } else if is_reserved(name) {
        seq!['_'] + name
    } else {
        name
    }
}

fn replace_forbidden(s: &[char]) -> (r: Vec<char>)
    ensures
        r@ == replaced(s@),
{
    let mut r: Vec<char> = Vec::new();
    let mut i: usize = 0;
    while i < s.len()
        invariant
            i <= s.len(),
            r@.len() == i,
            forall|j: int|
                0 <= j < i ==> r@[j] == (if is_forbidden(s@[j]) {
                    '_'
                } else {
                    s@[j]
                }),
        decreases s.len() - i,
    {
        let c = s[i];
        if c == '<' || c == '>' || c == ':' || c == '"' || c == '/' || c == '\\' || c == '|' || c
            == '?' || c == '*' || text::control(c) {
            r.push('_');
        } else {
            r.push(c);
        }
        i += 1;
    }
    assert(r@ =~= replaced(s@));
    r
}

fn device_name(s: &[char]) -> (r: bool)
    ensures
        r == is_device_name(s@),
{
    let text = text::string_of(s);
    if text::same_text(text.as_str(), "CON") || text::same_text(text.as_str(), "PRN") || text::same_text(
        text.as_str(),
        "AUX",
    ) || text::same_text(text.as_str(), "NUL") {
        return true;
    }
    if s.len() != 4 {
        return false;
    }
    let head = slice_subrange(s, 0, 3);
    assert(head@ =~= s@.take(3));
    let com = text::chars_of("COM");
    let lpt = text::chars_of("LPT");
    let n: u32 = s[3] as u32;
    (text::same_chars(head, com.as_slice()) || text::same_chars(head, lpt.as_slice())) && 49 <= n && n <= 57
}

/// Makes a decoded suggestion a file name: characters that are illegal in file systems become
/// underscores, and a reserved device name gets an underscore in front.
pub fn clean_decoded(decoded: &str) -> (r: String)
    ensures
        r@ == clean_name(decoded@),
{
    let chars = text::chars_of(decoded);
    let sanitized = replace_forbidden(chars.as_slice());
    let name = text::trim_chars(
        text::trim_chars(
            text::trim_chars(sanitized.as_slice(), text::CharClass::White),
            text::CharClass::Only('.'),
        ),
        text::CharClass::White,
    );
    if name.len() == 0 {
        return "download.bin".to_string();
    }
    let upper = text::to_ascii_upper(name);
    let k: usize = text::find_class(upper.as_slice(), text::CharClass::Only('.'));
    let stem = slice_subrange(upper.as_slice(), 0, k);
    assert(stem@ =~= text::before(text::ascii_upper(name@), text::CharClass::Only('.')));
    if device_name(stem) {
        let mut prefixed: Vec<char> = Vec::new();
        prefixed.push('_');
        let mut i: usize = 0;
        while i < name.len()
            invariant
                i <= name.len(),
                prefixed@ == seq!['_'] + name@.take(i as int),
            decreases name.len() - i,
        {
            prefixed.push(name[i]);
            assert(name@.take(i + 1) =~= name@.take(i as int).push(name@[i as int]));
            i += 1;
        }
        assert(name@.take(name@.len() as int) =~= name@);
        text::string_of(prefixed.as_slice())
    } else {
        text::string_of(name)
    }
}

/// Makes a suggestion a file name after decoding its percent escapes.
pub fn sanitize_filename(name: &str) -> (r: String)
    ensures
        r@ == clean_name(url_decoded(name@)),
        valid_utf8(percent_decoded(encode_utf8(name@))) ==> r@ == clean_name(
            decode_utf8(percent_decoded(encode_utf8(name@))),
        ),
{
    let decoded = urlencoding_decode(name);
    clean_decoded(decoded.as_str())
}

/// Law: a sanitized name is never empty, never reserved, holds no forbidden character, and has no
/// white space around it.
pub proof fn law_sanitized_names_are_usable(s: Seq<char>)
    ensures
        clean_name(s).len() > 0,
        !is_reserved(clean_name(s)),
        text::trimmed(clean_name(s)) == clean_name(s),
        forall|i: int|
            0 <= i < clean_name(s).len() ==> !is_forbidden(#[trigger] clean_name(s)[i]),
{
    let name = settled(s);
    reveal_strlit("download.bin");
    reveal_strlit("CON");
    reveal_strlit("PRN");
    reveal_strlit("AUX");
    reveal_strlit("NUL");
    reveal_strlit("COM");
    reveal_strlit("LPT");
    let dot = text::CharClass::Only('.');
    text::lemma_trim_ends(
        text::trim_both(text::trimmed(replaced(s)), dot),
        text::CharClass::White,
    );
    if name.len() > 0 {
        assert(clean_name(s).last() == name.last());
    }
    if name.len() == 0 {
        let upper = text::ascii_upper(clean_name(s));
        text::lemma_first_in(upper, dot);
        assert(upper[0] == 'D');
        assert(upper[8] == '.');
        let stem = text::before(upper, dot);
        if stem.len() == 0 {
            assert(dot.holds(upper[0]));
        } else {
            assert(stem[0] == 'D');
            assert(is_device_name(stem) ==> stem.len() == 4 || stem.len() == 3);
            assert(stem.len() == 4 ==> stem.take(3)[0] == 'D');
        }
    } else {
        let clean = replaced(s);
        assert forall|i: int| 0 <= i < clean.len() implies !is_forbidden(#[trigger] clean[i]) by {}
        let first = text::trimmed(clean);
        text::lemma_trim_part(clean, text::CharClass::White);
        assert forall|i: int| 0 <= i < first.len() implies !is_forbidden(#[trigger] first[i]) by {
            let (lo, hi) = choose|lo: int, hi: int|
                0 <= lo <= hi <= clean.len() && first == #[trigger] clean.subrange(lo, hi);
            assert(first[i] == clean[lo + i]);
        }
        let second = text::trim_both(first, dot);
        text::lemma_trim_part(first, dot);
        assert forall|i: int| 0 <= i < second.len() implies !is_forbidden(
            #[trigger] second[i],
        ) by {
            let (lo, hi) = choose|lo: int, hi: int|
                0 <= lo <= hi <= first.len() && second == #[trigger] first.subrange(lo, hi);
            assert(second[i] == first[lo + i]);
        }
        text::lemma_trim_part(second, text::CharClass::White);
        assert forall|i: int| 0 <= i < name.len() implies !is_forbidden(#[trigger] name[i]) by {
            let (lo, hi) = choose|lo: int, hi: int|
                0 <= lo <= hi <= second.len() && name == #[trigger] second.subrange(lo, hi);
            assert(name[i] == second[lo + i]);
        }
        if is_reserved(name) {
            let upper = text::ascii_upper(clean_name(s));
            text::lemma_first_in(upper, dot);
            assert(upper[0] == '_');
            let stem = text::before(upper, dot);
            if stem.len() == 0 {
                assert(dot.holds(upper[0]));
            } else {
                assert(stem[0] == '_');
                assert(stem.len() == 4 ==> stem.take(3)[0] == '_');
            }
        }
    }
}

/// The text after `key` in a disposition, up to the next semicolon.
pub open spec fn disposition_value(disposition: Seq<char>, key: Seq<char>) -> Option<Seq<char>> {
    let at = text::first_at(text::ascii_lower(disposition), key);
    if at < 0 {
        None
    } else {
        Some(
            text::trimmed(text::before(text::trimmed(disposition.skip(at + key.len())), text::CharClass::Only(';'))),
        )
    }
}

/// The text without quotation marks and white space around it.
pub open spec fn unquoted(s: Seq<char>) -> Seq<char> {
    text::trimmed(text::trim_both(s, text::CharClass::Only('"')))
}

/// The text after the last pair of apostrophes, which ends a character set and language.
pub open spec fn after_charset(s: Seq<char>) -> Seq<char> {
    let at = text::last_at(s, "''"@);
    if at >= 0 {
        s.skip(at + 2)
    } else {
        s
    }
}

/// The name that a disposition suggests: the extended parameter, then the plain one.
pub open spec fn disposition_name(disposition: Seq<char>) -> Option<Seq<char>> {
    let extended = match disposition_value(disposition, "filename*="@) {
        Some(value) => unquoted(after_charset(value)),
        None => Seq::empty(),
    };
    let plain = match disposition_value(disposition, "filename="@) {
        Some(value) => unquoted(value),
        None => Seq::empty(),
    };
    if extended.len() > 0 {
        Some(extended)
    } else if plain.len() > 0 {
        Some(plain)
    } else {
        None
    }
}

/// The last piece that is not empty.
pub open spec fn last_piece(pieces: Seq<Seq<char>>) -> Seq<char>
    decreases pieces.len(),
{
    if pieces.len() == 0 {
        Seq::empty()
    } else if pieces.last().len() > 0 {
        pieces.last()
    } else {
        last_piece(pieces.drop_last())
    }
}

/// The last segment of a URL path that is not empty, trimmed.
pub open spec fn path_segment(path: Seq<char>) -> Seq<char> {
    text::trimmed(last_piece(text::split(path, text::CharClass::Only('/'))))
}

/// The name suggested for a download, if there is one.
pub open spec fn suggestion(path: Option<Seq<char>>, disposition: Option<Seq<char>>) -> Option<
    Seq<char>,
> {
    let named = match disposition {
        Some(text) => disposition_name(text),
        None => None,
    };
    match (named, path) {
        (Some(name), _) => Some(name),
        (None, Some(path)) => if path_segment(path).len() > 0 {
            Some(path_segment(path))
        } else {
            None
        },
        (None, None) => None,
    }
}

/// The file name of a download.
pub open spec fn filename_for(path: Option<Seq<char>>, disposition: Option<Seq<char>>) -> Seq<
    char,
> {
    match suggestion(path, disposition) {
        Some(name) => clean_name(url_decoded(name)),
        None => "download.bin"@,
    }
}

/// The file name of a download whose suggestion escapes well-formed UTF-8, or has none.
pub open spec fn plain_filename_for(
    path: Option<Seq<char>>,
    disposition: Option<Seq<char>>,
) -> Option<Seq<char>> {
    match suggestion(path, disposition) {
        Some(name) => {
            let bytes = percent_decoded(encode_utf8(name));
            if valid_utf8(bytes) {
                Some(clean_name(decode_utf8(bytes)))
            } else {
                None
            }
        },
        None => Some("download.bin"@),
    }
}

/// Law: whatever the URL and the header say, the file name of a download is never empty, never
/// reserved, holds no forbidden character and has no white space around it.
pub proof fn law_download_names_are_usable(
    path: Option<Seq<char>>,
    disposition: Option<Seq<char>>,
)
    ensures
        filename_for(path, disposition).len() > 0,
        !is_reserved(filename_for(path, disposition)),
        text::trimmed(filename_for(path, disposition)) == filename_for(path, disposition),
        forall|i: int|
            0 <= i < filename_for(path, disposition).len() ==> !is_forbidden(
                #[trigger] filename_for(path, disposition)[i],
            ),
{
    match suggestion(path, disposition) {
        Some(name) => {
            law_sanitized_names_are_usable(url_decoded(name));
        },
        None => {
            let none = Seq::<char>::empty();
            law_sanitized_names_are_usable(none);
            assert(replaced(none) =~= none);
            assert(settled(none).len() == 0);
        },
    }
}

fn raw_value(disposition: &[char], key: &str) -> (r: Option<Vec<char>>)
    ensures
        (match r {
            Some(v) => Some(v@),
            None => None,
        }) == disposition_value(disposition@, key@),
{
    let lower = text::to_ascii_lower(disposition);
    let key_chars = text::chars_of(key);
    match text::find_text(lower.as_slice(), key_chars.as_slice()) {
        None => None,
        Some(at) => {
            let from: usize = at + key_chars.len();
            let rest = slice_subrange(disposition, from, disposition.len());
            assert(rest@ =~= disposition@.skip(at + key@.len()));
            let value = text::trim_chars(rest, text::CharClass::White);
            let k: usize = text::find_class(value, text::CharClass::Only(';'));
            let head = slice_subrange(value, 0, k);
            assert(head@ =~= text::before(value@, text::CharClass::Only(';')));
            Some(text::slice_to_chars(text::trim_chars(head, text::CharClass::White)))
        },
    }
}

fn unquote(s: &[char]) -> (r: &[char])
    ensures
        r@ == unquoted(s@),
{
    text::trim_chars(text::trim_chars(s, text::CharClass::Only('"')), text::CharClass::White)
}

fn name_in_disposition(disposition: &str) -> (r: Option<String>)
    ensures
        text::string_text(r) == disposition_name(disposition@),
{
    let chars = text::chars_of(disposition);
    match raw_value(chars.as_slice(), "filename*=") {
        Some(raw) => {
            let quotes = text::chars_of("''");
            let name = match text::rfind_text(raw.as_slice(), quotes.as_slice()) {
                Some(at) => {
                    proof {
                        reveal_strlit("''");
                    }
                    let part = slice_subrange(raw.as_slice(), at + 2, raw.len());
                    assert(part@ =~= raw@.skip(at + 2));
                    unquote(part)
                },
                None => unquote(raw.as_slice()),
            };
            assert(name@ == unquoted(after_charset(raw@)));
            if name.len() > 0 {
                return Some(text::string_of(name));
            }
        },
        None => {},
    }
    match raw_value(chars.as_slice(), "filename=") {
        Some(raw) => {
            let name = unquote(raw.as_slice());
            if name.len() > 0 {
                return Some(text::string_of(name));
            }
        },
        None => {},
    }
    None
}

fn segment_of(path: &str) -> (r: String)
    ensures
        r@ == path_segment(path@),
{
    let chars = text::chars_of(path);
    let pieces = text::split_chars(chars.as_slice(), text::CharClass::Only('/'));
    let mut n: usize = pieces.len();
    assert(text::views(pieces@).take(n as int) =~= text::views(pieces@));
    while n > 0 && pieces[n - 1].len() == 0
        invariant
            n <= pieces.len(),
            last_piece(text::views(pieces@).take(n as int)) == last_piece(text::views(pieces@)),
        decreases n,
    {
        assert(text::views(pieces@).take(n as int).drop_last() =~= text::views(pieces@).take(n - 1));
        n -= 1;
    }
    let segment = if n == 0 {
        Vec::new()
    } else {
        text::slice_to_chars(pieces[n - 1].as_slice())
    };
    assert(segment@ =~= last_piece(text::views(pieces@)));
    text::string_of(text::trim_chars(segment.as_slice(), text::CharClass::White))
}

/// The name suggested by a disposition, or by the last segment of a URL path.
pub fn suggested_name(url_path: Option<&str>, content_disposition: Option<&str>) -> (r: Option<
    String,
>)
    ensures
        text::string_text(r) == suggestion(text::str_text(url_path), text::str_text(content_disposition)),
{
    match content_disposition {
        Some(disposition) => {
            match name_in_disposition(disposition) {
                Some(name) => {
                    return Some(name);
                },
                None => {},
            }
        },
        None => {},
    }
    match url_path {
        Some(path) => {
            let segment = segment_of(path);
            if !segment.as_str().is_empty() {
                return Some(segment);
            }
        },
        None => {},
    }
    None
}

/// The path of a URL, if it is one.
pub open spec fn url_path(url: Seq<char>) -> Option<Seq<char>> {
    match parsed_url(url) {
        Ok(path) => Some(path),
        Err(_) => None,
    }
}

/// The suggested file name from the content disposition or the URL path, made safe.
pub fn extract_filename(url_str: &str, content_disposition: Option<&str>) -> (r: String)
    ensures
        r@ == filename_for(url_path(url_str@), text::str_text(content_disposition)),
        plain_filename_for(url_path(url_str@), text::str_text(content_disposition)) matches Some(name)
            ==> r@ == name,
{
    let parsed = parse_url(url_str);
    let path = match &parsed {
        Ok(path) => Some(path.as_str()),
        Err(_) => None,
    };
    match suggested_name(path, content_disposition) {
        Some(name) => sanitize_filename(name.as_str()),
        None => "download.bin".to_string(),
    }
}

/// Law: a suggestion that is a good file name already is kept as it is.
pub proof fn law_good_names_are_kept(name: Seq<char>)
    requires
        name.len() > 0,
        forall|i: int|
            0 <= i < name.len() ==> 32 <= (#[trigger] name[i]) as u32 && !(127 <= name[i] as u32
                <= 159) && name[i] != '<' && name[i] != '>' && name[i] != ':' && name[i] != '"'
                && name[i] != '/' && name[i] != '\\' && name[i] != '|' && name[i] != '?' && name[i]
                != '*',
        !text::is_white(name[0]) && !text::is_white(name.last()),
        name[0] != '.' && name.last() != '.',
        !is_reserved(name),
    ensures
        clean_name(name) == name,
{
    assert(replaced(name) =~= name);
}

/// Law: no file name of a download holds a path separator, a character that file systems refuse, or
/// a control character, whatever was suggested.
pub proof fn law_names_hold_no_separator(suggested: Seq<char>, i: int)
    requires
        0 <= i < clean_name(suggested).len(),
    ensures
        clean_name(suggested)[i] != '/' && clean_name(suggested)[i] != '\\',
        clean_name(suggested)[i] != ':' && clean_name(suggested)[i] != '*'
            && clean_name(suggested)[i] != '?' && clean_name(suggested)[i] != '"'
            && clean_name(suggested)[i] != '<' && clean_name(suggested)[i] != '>'
            && clean_name(suggested)[i] != '|',
        clean_name(suggested)[i] as u32 >= 32,
{
    law_sanitized_names_are_usable(suggested);
    assert(!is_forbidden(clean_name(suggested)[i]));
}

/// Law: device names are reserved in any case and with any extension, and nothing else is.
pub proof fn law_device_names_are_reserved(name: Seq<char>)
    ensures
        is_reserved(name) <==> ({
            let stem = text::before(text::ascii_upper(name), text::CharClass::Only('.'));
            ||| stem == seq!['C', 'O', 'N']
            ||| stem == seq!['P', 'R', 'N']
            ||| stem == seq!['A', 'U', 'X']
            ||| stem == seq!['N', 'U', 'L']
            ||| stem.len() == 4 && (stem.take(3) == seq!['C', 'O', 'M'] || stem.take(3)
                == seq!['L', 'P', 'T']) && 49 <= stem[3] as u32 <= 57
        }),
{
    reveal_strlit("CON");
    reveal_strlit("PRN");
    reveal_strlit("AUX");
    reveal_strlit("NUL");
    reveal_strlit("COM");
    reveal_strlit("LPT");
    assert("CON"@ =~= seq!['C', 'O', 'N']);
    assert("PRN"@ =~= seq!['P', 'R', 'N']);
    assert("AUX"@ =~= seq!['A', 'U', 'X']);
    assert("NUL"@ =~= seq!['N', 'U', 'L']);
    assert("COM"@ =~= seq!['C', 'O', 'M']);
    assert("LPT"@ =~= seq!['L', 'P', 'T']);
}

/// Law: a name that the server states in its header comes before the one in the link, which is the
/// last part of its path that is not empty; without either there is none.
pub proof fn law_stated_names_come_first(
    path: Option<Seq<char>>,
    disposition: Seq<char>,
    head: Seq<char>,
    segment: Seq<char>,
)
    requires
        segment.len() > 0,
        !text::is_white(segment[0]) && !text::is_white(segment.last()),
        forall|i: int| 0 <= i < segment.len() ==> (#[trigger] segment[i]) != '/',
    ensures
        disposition_name(disposition) is Some ==> suggestion(path, Some(disposition))
            == disposition_name(disposition),
        disposition_name(disposition) is None ==> suggestion(
            Some(head.push('/') + segment),
            Some(disposition),
        ) == Some(segment),
        suggestion(Some(head.push('/') + segment), None) == Some(segment),
        suggestion(Some((head.push('/') + segment).push('/')), None) == Some(segment),
        suggestion(None, None) is None,
{
    let class = text::CharClass::Only('/');
    assert forall|i: int| 0 <= i < segment.len() implies !class.holds(#[trigger] segment[i]) by {
        assert(segment[i] != '/');
    }
    let full = head.push('/') + segment;
    text::lemma_last_piece(head, '/', segment, class);
    let none = Seq::<char>::empty();
    text::lemma_last_piece(full, '/', none, class);
    assert(full.push('/') + none =~= full.push('/'));
    let pieces = text::split(full, class);
    assert(pieces.last() == segment);
    assert(pieces.push(none).drop_last() =~= pieces);
    assert(last_piece(pieces) == segment);
    assert(last_piece(pieces.push(none)) == segment);
    assert(text::trimmed(segment) == segment);
}

/// Law: a name that a header states in quotation marks is read as it is.
pub proof fn law_quoted_names_read_back(name: Seq<char>)
    requires
        name.len() > 0,
        forall|i: int|
            0 <= i < name.len() ==> (#[trigger] name[i]) != '=' && name[i] != '"' && name[i] != ';',
        !text::is_white(name[0]) && !text::is_white(name.last()),
    ensures
        disposition_name("attachment; filename="@ + seq!['"'] + name + seq!['"']) == Some(name),
{
    reveal_strlit("attachment; filename=");
    reveal_strlit("filename=");
    reveal_strlit("filename*=");
    let lead = "attachment; filename="@;
    let quoted = seq!['"'] + name + seq!['"'];
    let s = lead + seq!['"'] + name + seq!['"'];
    assert(s =~= lead + quoted);
    let lower = text::ascii_lower(s);
    assert forall|i: int| 0 <= i < lower.len() && (#[trigger] lower[i]) == '=' implies i == 20 by {
        if i >= 21 {
            assert(s[i] == quoted[i - 21]);
            if 22 <= i < s.len() - 1 {
                assert(s[i] == name[i - 22]);
            }
        }
    }
    let plain = "filename="@;
    let extended = "filename*="@;
    assert forall|j: int| #[trigger] text::occurs_at(lower, extended, j) implies false by {
        let part = lower.subrange(j, j + extended.len());
        assert(part[9] == '=' && part[8] == '*');
        assert(lower[j + 9] == '=');
        assert(lower[j + 8] == '*');
        assert(lower[19] == 'e');
    }
    assert(text::is_first_at(lower, extended, -1));
    text::lemma_first_at(lower, extended, -1);
    assert(text::occurs_at(lower, plain, 12)) by {
        assert(lower.subrange(12, 21) =~= plain);
    }
    assert forall|j: int| #[trigger] text::occurs_at(lower, plain, j) implies 12 <= j by {
        let part = lower.subrange(j, j + plain.len());
        assert(part[8] == '=');
        assert(lower[j + 8] == '=');
    }
    assert(text::is_first_at(lower, plain, 12));
    text::lemma_first_at(lower, plain, 12);
    assert(s.skip(21) =~= quoted);
    assert(quoted.last() == '"' && quoted[0] == '"');
    assert(text::trimmed(quoted) == quoted);
    let semi = text::CharClass::Only(';');
    assert forall|i: int| 0 <= i < quoted.len() implies !semi.holds(#[trigger] quoted[i]) by {
        if 0 < i < quoted.len() - 1 {
            assert(quoted[i] == name[i - 1]);
        }
    }
    text::lemma_unparted(quoted, semi);
    assert(disposition_value(s, plain) == Some(quoted));
    let mark = text::CharClass::Only('"');
    let tail = name.push('"');
    assert(quoted.drop_first() =~= tail);
    assert(text::trim_start(quoted, mark) == text::trim_start(tail, mark));
    assert(tail[0] == name[0]);
    assert(text::trim_start(tail, mark) == tail);
    assert(tail.drop_last() =~= name);
    assert(text::trim_end(tail, mark) == text::trim_end(name, mark));
    assert(name.last() == name[name.len() - 1]);
    assert(text::trim_end(name, mark) == name);
    assert(text::trimmed(name) == name);
}

/// Law: escapes are replaced by the bytes that they name, everything else stays, and a broken escape
/// stays as it is.
pub proof fn law_escapes_are_replaced_in_place(
    head: Seq<u8>,
    high: u8,
    low: u8,
    byte: u8,
    tail: Seq<u8>,
)
    requires
        !head.contains(37u8),
        hex_value(high) == Some((byte / 16) as u8),
        hex_value(low) == Some((byte % 16) as u8),
    ensures
        percent_decoded(head + seq![37u8, high, low] + tail) == head.push(byte) + percent_decoded(
            tail,
        ),
        percent_decoded(head) == head,
    decreases head.len(),
{
    lemma_no_escape(head);
    let b = head + seq![37u8, high, low] + tail;
    if head.len() > 0 {
        let rest = head.skip(1);
        assert forall|i: int| 0 <= i < rest.len() implies rest[i] != 37 by {
            assert(head.contains(head[i + 1]));
        }
        assert(head.contains(head[0]));
        law_escapes_are_replaced_in_place(rest, high, low, byte, tail);
        assert(b.skip(1) =~= rest + seq![37u8, high, low] + tail);
        assert(b[0] == head[0]);
        assert(seq![head[0]] + (rest.push(byte) + percent_decoded(tail)) =~= head.push(byte)
            + percent_decoded(tail));
    } else {
        assert(b[0] == 37 && b[1] == high && b[2] == low);
        assert(hex_pair(high, low) == Some(byte));
        assert(b.skip(3) =~= tail);
        assert(seq![byte] + percent_decoded(tail) =~= head.push(byte) + percent_decoded(tail));
    }
}

/// Law: a name that a header states in the extended form is read without its character set.
pub proof fn law_extended_names_read_back(name: Seq<char>)
    requires
        name.len() > 0,
        forall|i: int|
            0 <= i < name.len() ==> (#[trigger] name[i]) != '\'' && name[i] != '"' && name[i] != ';',
        !text::is_white(name[0]) && !text::is_white(name.last()),
    ensures
        disposition_name("filename*=UTF-8\'\'"@ + name) == Some(name),
{
    reveal_strlit("filename*=UTF-8\'\'");
    reveal_strlit("filename*=");
    reveal_strlit("\'\'");
    let lead = "filename*=UTF-8\'\'"@;
    let s = lead + name;
    let lower = text::ascii_lower(s);
    let extended = "filename*="@;
    assert(lower.subrange(0, 10) =~= extended);
    assert(text::occurs_at(lower, extended, 0));
    text::lemma_found(lower, extended, 0);
    let value = s.skip(10);
    assert(value[0] == 'U');
    assert(value.last() == name.last());
    assert(text::trimmed(value) == value);
    let semi = text::CharClass::Only(';');
    assert forall|i: int| 0 <= i < value.len() implies !semi.holds(#[trigger] value[i]) by {
        if i >= 7 {
            assert(value[i] == name[i - 7]);
        }
    }
    text::lemma_unparted(value, semi);
    assert(disposition_value(s, extended) == Some(value));
    let marks = "\'\'"@;
    assert(value.subrange(5, 7) =~= marks);
    assert(text::occurs_at(value, marks, 5));
    assert forall|j: int| #[trigger] text::occurs_at(value, marks, j) implies j <= 5 by {
        if j > 5 {
            let part = value.subrange(j, j + 2);
            assert(part[1] == '\'');
            assert(value[j + 1] == '\'');
            assert(value[j + 1] == name[j + 1 - 7]);
        }
    }
    assert(text::is_last_at(value, marks, 5));
    text::lemma_last_at(value, marks, 5);
    assert(value.skip(7) =~= name);
    let mark = text::CharClass::Only('"');
    assert(name[0] != '"');
    assert(name[name.len() - 1] != '"');
    assert(text::trim_both(name, mark) == name);
    assert(text::trimmed(name) == name);
}

/// Law: a percent sign that no two hexadecimal digits, nor a plus sign and one, follow stays as it
/// is.
pub proof fn law_other_escapes_stay(escaped: Seq<u8>)
    requires
        escaped.len() >= 3,
        escaped[0] == 37,
        hex_value(escaped[2]) is None || (hex_value(escaped[1]) is None && escaped[1] != 43),
    ensures
        percent_decoded(escaped).len() >= 3,
        percent_decoded(escaped).take(3) == escaped.take(3),
{
    assert(percent_decoded(escaped) == escaped.take(3) + percent_decoded(escaped.skip(3)));
    assert(percent_decoded(escaped).take(3) =~= escaped.take(3));
}

/// Law: a header that states a name states one that is not empty.
pub proof fn law_stated_names_are_not_empty(disposition: Seq<char>)
    ensures
        disposition_name(disposition) matches Some(name) ==> name.len() > 0,
{
}

} // verus!
