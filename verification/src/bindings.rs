//! Calls into std and outside crates, each with the contract that the
//! library relies on. Their bodies are not verified; their documentation and
//! source are what the contracts restate.
use vstd::prelude::*;
use crate::json::JsonValue;
use base64::Engine;
use vstd::utf8::*;
use vstd::string::StringSliceAdditionalSpecFns;
use crate::numfmt::percent_byte;
use crate::text::is_ascii_alnum_u32;

verus! {

/// The text of the error `std::str::from_utf8` reports for bytes that are
/// not UTF-8 (its `Display`, which names where decoding stopped).
pub uninterp spec fn utf8_error_text(data: Seq<u8>) -> Seq<char>;

/// `std::str::from_utf8(data)`, owned. std documents that it fails exactly
/// when the slice is not well-formed UTF-8 (vstd's `valid_utf8`), and that
/// on success the `str` holds the decoded characters. The error's message
/// is named, not restated.
#[verifier::external_body]
pub(crate) fn str_from_utf8(data: &[u8]) -> (r: Result<String, String>)
    ensures
        r is Ok <==> valid_utf8(data@),
        r matches Ok(s) ==> s@ == decode_utf8(data@),
        r matches Err(e) ==> e@ == utf8_error_text(data@),
{
    match std::str::from_utf8(data) {
        Ok(text) => Ok(text.to_string()),
        Err(error) => Err(error.to_string()),
    }
}

/// What `base64::engine::general_purpose::STANDARD.decode` returns for the
/// input bytes: the decoded bytes, or `None` when the input is not valid
/// padded standard-alphabet base64.
pub uninterp spec fn base64_standard_decode(input: Seq<u8>) -> Option<Seq<u8>>;

/// `STANDARD.decode(data.as_bytes()).ok()` from the `base64` crate. Its
/// result depends on the input bytes alone; the decoding rules themselves
/// are not restated here.
#[verifier::external_body]
pub(crate) fn base64_decode_standard(data: &str) -> (r: Option<Vec<u8>>)
    ensures
        match r {
            Some(v) => base64_standard_decode(data.spec_bytes()) == Some(v@),
            None => base64_standard_decode(data.spec_bytes()) is None,
        },
{
    base64::engine::general_purpose::STANDARD.decode(data.as_bytes()).ok()
}

/// What `base64::engine::general_purpose::STANDARD.encode` returns for the
/// input bytes: padded standard-alphabet base64.
pub uninterp spec fn base64_standard_encode(input: Seq<u8>) -> Seq<char>;

/// `STANDARD.encode(data)` from the `base64` crate; its result depends on
/// the bytes alone.
#[verifier::external_body]
pub(crate) fn base64_encode_standard(data: &[u8]) -> (r: String)
    ensures
        r@ == base64_standard_encode(data@),
{
    base64::engine::general_purpose::STANDARD.encode(data)
}

/// A JSON document as `serde_json` holds it; the library only converts it
/// into its own `JsonValue`.
#[verifier::external_type_specification]
#[verifier::external_body]
pub struct ExJsonValue(serde_json::Value);

/// The text of the error `serde_json::from_slice::<serde_json::Value>`
/// reports for the bytes, `None` when they are one JSON document.
pub uninterp spec fn json_parse_error(input: Seq<u8>) -> Option<Seq<char>>;

/// The document `serde_json::from_slice::<serde_json::Value>` reads from
/// the bytes, as a `JsonValue` (numbers as their JSON text, members in the
/// order `serde_json` keeps them).
pub uninterp spec fn json_document(input: Seq<u8>) -> JsonValue;

/// `serde_json::from_slice::<serde_json::Value>(data)`: the document read
/// from the bytes, converted into a `JsonValue`, or the error's message.
/// Whether it succeeds, the document and the message depend on the bytes
/// alone; the JSON grammar is not restated.
#[verifier::external_body]
pub(crate) fn json_document_from_slice(data: &[u8]) -> (r: Result<JsonValue, String>)
    ensures
        r is Ok <==> json_parse_error(data@) is None,
        r matches Ok(v) ==> v == json_document(data@),
        r matches Err(e) ==> json_parse_error(data@) == Some(e@),
{
    match serde_json::from_slice::<serde_json::Value>(data) {
        Ok(value) => Ok(json_from_serde(value)),
        Err(error) => Err(error.to_string()),
    }
}

/// Converts a `serde_json::Value` into a `JsonValue`, node for node: a
/// number becomes its JSON text, arrays and objects keep their order.
#[verifier::external_body]
fn json_from_serde(value: serde_json::Value) -> JsonValue {
    match value {
        serde_json::Value::Null => JsonValue::Null,
        serde_json::Value::Bool(b) => JsonValue::Bool(b),
        serde_json::Value::Number(n) => JsonValue::Number(n.to_string()),
        serde_json::Value::String(s) => JsonValue::Text(s),
        serde_json::Value::Array(items) => JsonValue::Array(items.into_iter().map(json_from_serde).collect()),
        serde_json::Value::Object(members) => JsonValue::Object(
            members.into_iter().map(|(k, v)| (k, json_from_serde(v))).collect(),
        ),
    }
}

/// The first MIME type `mime_guess` lists for a file extension (looked up
/// without regard to case), `None` when it knows none.
pub uninterp spec fn mime_guess_first(ext: Seq<char>) -> Option<Seq<char>>;

/// `mime_guess::from_ext(ext).first_raw()`: the crate's static table,
/// searched case-insensitively; an empty extension has no entry.
#[verifier::external_body]
pub(crate) fn mime_guess_from_ext(ext: &str) -> (r: Option<String>)
    ensures
        opt_chars_of(r) == mime_guess_first(ext@),
        ext@.len() == 0 ==> r is None,
{
    match mime_guess::from_ext(ext).first_raw() {
        Some(mime) => Some(mime.to_string()),
        None => None,
    }
}

pub open spec fn opt_chars_of(o: Option<String>) -> Option<Seq<char>> {
    match o {
        Some(s) => Some(s@),
        None => None,
    }
}

/// Percent-encoding with `NON_ALPHANUMERIC`: ASCII letters and digits stay,
/// every other byte becomes `%XX` with uppercase hex.
pub open spec fn percent_encode_non_alnum(bytes: Seq<u8>) -> Seq<char>
    decreases bytes.len(),
{
    if bytes.len() == 0 {
        Seq::empty()
    } else {
        percent_encode_non_alnum(bytes.drop_last()) + if is_ascii_alnum_u32(bytes.last() as u32) {
            seq![(bytes.last() as u32) as char]
        } else {
            percent_byte(bytes.last())
        }
    }
}

/// `percent_encoding::utf8_percent_encode(segment, NON_ALPHANUMERIC).to_string()`:
/// the crate encodes each UTF-8 byte that is non-ASCII or in the set, and
/// `NON_ALPHANUMERIC` holds every ASCII byte but letters and digits.
#[verifier::external_body]
pub(crate) fn percent_encode_path_segment(segment: &str) -> (r: String)
    ensures
        r@ == percent_encode_non_alnum(segment.spec_bytes()),
{
    percent_encoding::utf8_percent_encode(segment, percent_encoding::NON_ALPHANUMERIC).to_string()
}

/// The value of an ASCII hex digit (`char::to_digit(16)`), if it is one.
pub open spec fn hex_value(b: u8) -> Option<u8> {
    if 0x30 <= b && b <= 0x39 {
        Some((b - 0x30) as u8)
    } else if 0x41 <= b && b <= 0x46 {
        Some((b - 0x41 + 10) as u8)
    } else if 0x61 <= b && b <= 0x66 {
        Some((b - 0x61 + 10) as u8)
    } else {
        None
    }
}

/// Percent-decoding: `%` followed by two hex digits becomes that byte;
/// every other byte, a lone `%` included, is kept.
pub open spec fn percent_decode_bytes(bytes: Seq<u8>) -> Seq<u8>
    decreases bytes.len(),
{
    if bytes.len() == 0 {
        Seq::empty()
    } else if bytes[0] == 0x25 && bytes.len() >= 3 && hex_value(bytes[1]) is Some && hex_value(
        bytes[2],
    ) is Some {
        seq![(hex_value(bytes[1]).unwrap() * 16 + hex_value(bytes[2]).unwrap()) as u8]
            + percent_decode_bytes(bytes.skip(3))
    } else {
        seq![bytes[0]] + percent_decode_bytes(bytes.skip(1))
    }
}

/// `percent_encoding::percent_decode_str(input).decode_utf8().ok()`: the
/// crate decodes `%XX` sequences of two hex digits and keeps every other
/// byte, then accepts the result only when it is well-formed UTF-8.
#[verifier::external_body]
pub(crate) fn percent_decode_utf8(input: &str) -> (r: Option<String>)
    ensures
        valid_utf8(percent_decode_bytes(input.spec_bytes())) <==> r is Some,
        r matches Some(s) ==> s@ == decode_utf8(percent_decode_bytes(input.spec_bytes())),
{
    match percent_encoding::percent_decode_str(input).decode_utf8() {
        Ok(decoded) => Some(decoded.into_owned()),
        Err(_) => None,
    }
}

/// The parts of a parsed URL that the library reads.
#[derive(Debug, Clone)]
pub struct ParsedUrl {
    pub scheme: String,
    pub username: String,
    pub password: Option<String>,
    pub authority: String,
    /// `host_str()`: the host as the URL serializes it.
    pub host: Option<String>,
    pub path: String,
    pub query: Option<String>,
    pub fragment: Option<String>,
    /// `origin().ascii_serialization()`.
    pub origin: String,
}

pub struct UrlParts {
    pub scheme: Seq<char>,
    pub username: Seq<char>,
    pub password: Option<Seq<char>>,
    pub authority: Seq<char>,
    pub host: Option<Seq<char>>,
    pub path: Seq<char>,
    pub query: Option<Seq<char>>,
    pub fragment: Option<Seq<char>>,
    pub origin: Seq<char>,
}

impl View for ParsedUrl {
    type V = UrlParts;

    open spec fn view(&self) -> UrlParts {
        UrlParts {
            scheme: self.scheme@,
            username: self.username@,
            password: opt_chars_of(self.password),
            authority: self.authority@,
            host: opt_chars_of(self.host),
            path: self.path@,
            query: opt_chars_of(self.query),
            fragment: opt_chars_of(self.fragment),
            origin: self.origin@,
        }
    }
}

/// What `url::Url::parse` makes of a string (WHATWG URL parsing), read
/// through the accessors the library uses; `None` when parsing fails.
pub uninterp spec fn url_parse(input: Seq<char>) -> Option<UrlParts>;

/// `url::Url::parse(input)`, with the parsed URL read out through its
/// accessors `scheme`, `username`, `password`, `authority`, `host_str`,
/// `path`, `query`, `fragment` and `origin().ascii_serialization()`. The
/// result depends on the input alone; the parsing rules are not restated.
#[verifier::external_body]
pub(crate) fn parse_url(input: &str) -> (r: Option<ParsedUrl>)
    ensures
        match r {
            Some(u) => url_parse(input@) == Some(u@),
            None => url_parse(input@) is None,
        },
{
    let u = url::Url::parse(input).ok()?;
    Some(ParsedUrl {
        scheme: u.scheme().into(),
        username: u.username().into(),
        password: u.password().map(String::from),
        authority: u.authority().into(),
        host: u.host_str().map(String::from),
        path: u.path().into(),
        query: u.query().map(String::from),
        fragment: u.fragment().map(String::from),
        origin: u.origin().ascii_serialization(),
    })
}

// ------------------------------------------------------------ std paths

/// Whether a path is rooted (starts with `/`).
pub open spec fn path_rooted(s: Seq<char>) -> bool {
    s.len() > 0 && s[0] == '/'
}

/// The pieces of a path that `Path::components` keeps as normal components:
/// not empty (repeated or trailing separators) and not `.`.
pub open spec fn normal_piece() -> spec_fn(Seq<char>) -> bool {
    |p: Seq<char>| p.len() > 0 && p != "."@
}

/// `Path::components` on Unix, each component as text: the root `/` when
/// the path is rooted, a leading `.` when a relative path starts with one,
/// then the `/`-separated pieces with empty pieces and `.` dropped.
pub open spec fn path_components(s: Seq<char>) -> Seq<Seq<char>> {
    let pieces = crate::files::split_pieces(s, '/');
    let root: Seq<Seq<char>> = if path_rooted(s) {
        seq!["/"@]
    } else {
        Seq::empty()
    };
    let lead: Seq<Seq<char>> = if !path_rooted(s) && pieces[0] == "."@ {
        seq!["."@]
    } else {
        Seq::empty()
    };
    root + lead + pieces.filter(normal_piece())
}

/// `std::path::Path::new(path).starts_with(base)`: whether the components
/// of `base` are the first components of `path` (whole components only).
#[verifier::external_body]
pub(crate) fn path_starts_with(path: &str, base: &str) -> (b: bool)
    ensures
        b == path_components(base@).is_prefix_of(path_components(path@)),
{
    std::path::Path::new(path).starts_with(base)
}

// ------------------------------------------------------------ HTTP dates

/// The text `chrono` formats with `"%a, %d %b %Y %H:%M:%S GMT"` for the UTC
/// instant `secs` seconds and `nanos` nanoseconds after the Unix epoch;
/// `None` when `DateTime::<Utc>::from_timestamp` refuses the instant.
pub uninterp spec fn http_date(secs: i64, nanos: u32) -> Option<Seq<char>>;

/// `chrono::DateTime::<Utc>::from_timestamp(secs, nanos)` formatted as an
/// HTTP date (`%a, %d %b %Y %H:%M:%S GMT`). The text depends on the instant
/// alone; the calendar arithmetic is not restated.
#[verifier::external_body]
pub(crate) fn http_date_text(secs: i64, nanos: u32) -> (r: Option<String>)
    ensures
        opt_chars_of(r) == http_date(secs, nanos),
{
    match chrono::DateTime::<chrono::Utc>::from_timestamp(secs, nanos) {
        Some(t) => Some(t.format("%a, %d %b %Y %H:%M:%S GMT").to_string()),
        None => None,
    }
}

} // verus!
