//! Workspace file serving: content sniffing, MIME decisions, `Range`
//! parsing, entity tags and the response plan for raw file bytes.
use vstd::prelude::*;
use vstd::utf8::*;
use vstd::string::StringSliceAdditionalSpecFns;
use crate::numfmt::{decimal, push_decimal, hex_lower, parse_u64, parse_u64_chars, percent_byte, push_hex_lower, push_percent_byte};
use crate::bindings::{http_date, http_date_text, mime_guess_first, mime_guess_from_ext};
use crate::control::dot_pred;
use crate::text::{
    ascii_lower_chars, ascii_lower_seq, rfind_before, chars_eq, chars_eq_str, chars_of, contains_char, find_char, find_from, has_prefix_str,
    has_suffix_str, is_ascii_alnum_u32, lemma_find_from_bounds, push_str, slice_chars,
    split_once, string_from_chars, trim, trim_chars,
};

verus! {

/// Maximum bytes to read for text file content before truncating.
pub const READ_LIMIT_BYTES: usize = 1048576;

/// Maximum bytes to sniff for content-based MIME detection.
pub const SNIFF_LIMIT_BYTES: usize = 8000;

// ---------------------------------------------------------------- sniffing

/// A byte that counts against text: a C0 control other than tab, newline
/// and carriage return, or DEL.
pub open spec fn is_binary_control(b: u8) -> bool {
    (b < 0x20 || b == 0x7f) && b != 0x09 && b != 0x0a && b != 0x0d
}

/// Number of binary control bytes in `d`.
pub open spec fn control_count(d: Seq<u8>) -> nat
    decreases d.len(),
{
    if d.len() == 0 {
        0
    } else {
        control_count(d.drop_last()) + if is_binary_control(d.last()) {
            1nat
        } else {
            0nat
        }
    }
}

/// The text heuristic: empty data is text; otherwise no NUL byte, valid
/// UTF-8, and binary control bytes make up less than 30% of the data.
pub open spec fn looks_like_text(d: Seq<u8>) -> bool {
    d.len() == 0 || (!d.contains(0u8) && valid_utf8(d) && control_count(d) * 10 < 3 * d.len())
}

pub proof fn lemma_control_count_le(d: Seq<u8>)
    ensures
        control_count(d) <= d.len(),
    decreases d.len(),
{
    if d.len() > 0 {
        lemma_control_count_le(d.drop_last());
    }
}

/// Heuristic content sniff: `true` if the bytes look like text (no NUL
/// byte, valid UTF-8, fewer than 30% non-printable control characters
/// other than `\t`, `\n`, `\r`).
pub fn sniff_is_text(data: &[u8]) -> (b: bool)
    ensures
        b == looks_like_text(data@),
{
    let n = data.len();
    if n == 0 {
        return true;
    }
    let mut i: usize = 0;
    let mut count: usize = 0;
    while i < n
        invariant
            i <= n == data@.len(),
            count as nat == control_count(data@.take(i as int)),
            count <= i,
            forall|k: int| 0 <= k < i ==> data@[k] != 0u8,
        decreases n - i,
    {
        let b = data[i];
        if b == 0 {
            assert(data@.contains(0u8));
            return false;
        }
        assert(data@.take(i + 1).drop_last() =~= data@.take(i as int));
        if (b < 0x20 || b == 0x7f) && b != 0x09 && b != 0x0a && b != 0x0d {
            count = count + 1;
        }
        i = i + 1;
    }
    assert(data@.take(n as int) =~= data@);
    assert(!data@.contains(0u8));
    if crate::bindings::str_from_utf8(data).is_err() {
        return false;
    }
    (count as u128) * 10 < 3 * (n as u128)
}

// ------------------------------------------------------------- MIME types

/// Extensions whose registered MIME type is not text but whose files are
/// source text (`.ts` is MPEG-2 Transport Stream in the IANA registry).
pub open spec fn custom_mime(ext: Seq<char>) -> Option<Seq<char>> {
    if ext == "ts"@ {
        Some("text/typescript"@)
    } else if ext == "tsx"@ {
        Some("text/tsx"@)
    } else {
        None
    }
}

/// Override MIME types for file extensions that are source text.
pub fn custom_mime_for_ext(ext: &str) -> (r: Option<&'static str>)
    ensures
        r matches Some(m) ==> custom_mime(ext@) == Some(m@),
        r is None ==> custom_mime(ext@) is None,
{
    let v = chars_of(ext);
    if chars_eq_str(&v, "ts") {
        Some("text/typescript")
    } else if chars_eq_str(&v, "tsx") {
        Some("text/tsx")
    } else {
        None
    }
}

/// Where the file name of `s[..end]` ends once trailing separators and
/// trailing `.` components are dropped (`Path::components` drops both).
pub open spec fn name_end(s: Seq<char>, end: int) -> int
    decreases end,
{
    if end <= 0 {
        0
    } else if s[end - 1] == '/' {
        name_end(s, end - 1)
    } else if s[end - 1] == '.' && (end == 1 || s[end - 2] == '/') {
        name_end(s, end - 1)
    } else {
        end
    }
}

/// `Path::extension` of a file path: the last component (trailing
/// separators and `.` components dropped), then the text after its last dot,
/// unless that dot starts it; none for `..`, the root or an empty path.
pub open spec fn path_extension(path: Seq<char>) -> Option<Seq<char>> {
    let trimmed = path.take(name_end(path, path.len() as int));
    let name = trimmed.skip(rfind_before(trimmed, slash_pred(), trimmed.len() as int) + 1);
    let k = rfind_before(name, dot_pred(), name.len() as int);
    if k > 0 && name != ".."@ {
        Some(name.skip(k + 1))
    } else {
        None
    }
}

pub open spec fn slash_pred() -> spec_fn(char) -> bool {
    |c: char| c == '/'
}

/// The MIME type an extension implies: the source-text overrides first,
/// then `mime_guess`, else `application/octet-stream`.
pub open spec fn mime_for_path(path: Seq<char>) -> Seq<char> {
    match path_extension(path) {
        None => "application/octet-stream"@,
        Some(ext) => match custom_mime(ascii_lower_seq(ext)) {
            Some(m) => m,
            None => match mime_guess_first(ext) {
                Some(m) => m,
                None => "application/octet-stream"@,
            },
        },
    }
}

fn after_last(v: &Vec<char>, c: char) -> (r: usize)
    ensures
        c == '/' ==> r == rfind_before(v@, slash_pred(), v@.len() as int) + 1,
        c == '.' ==> r == rfind_before(v@, dot_pred(), v@.len() as int) + 1,
        r <= v@.len(),
{
    let mut i = v.len();
    while i > 0 && v[i - 1] != c
        invariant
            i <= v@.len(),
            c == '/' ==> rfind_before(v@, slash_pred(), v@.len() as int) == rfind_before(
                v@,
                slash_pred(),
                i as int,
            ),
            c == '.' ==> rfind_before(v@, dot_pred(), v@.len() as int) == rfind_before(
                v@,
                dot_pred(),
                i as int,
            ),
        decreases i,
    {
        i = i - 1;
    }
    i
}

/// The extension of a file path, as `Path::extension` gives it.
pub fn path_extension_of(path: &str) -> (r: Option<String>)
    ensures
        r matches Some(e) ==> path_extension(path@) == Some(e@),
        r is None ==> path_extension(path@) is None,
{
    let full = chars_of(path);
    let mut e = full.len();
    while e > 0 && (full[e - 1] == '/' || (full[e - 1] == '.' && (e == 1 || full[e - 2] == '/')))
        invariant
            e <= full@.len(),
            name_end(full@, full@.len() as int) == name_end(full@, e as int),
        decreases e,
    {
        e = e - 1;
    }
    let v = slice_chars(&full, 0, e);
    assert(v@ =~= path@.take(name_end(path@, path@.len() as int)));
    let s = after_last(&v, '/');
    let name = slice_chars(&v, s, v.len());
    assert(name@ =~= v@.skip(rfind_before(v@, slash_pred(), v@.len() as int) + 1));
    let d = after_last(&name, '.');
    if d <= 1 || chars_eq_str(&name, "..") {
        return None;
    }
    let ext = slice_chars(&name, d, name.len());
    assert(ext@ =~= name@.skip(d as int));
    Some(string_from_chars(&ext))
}

/// The MIME type the extension of `path` implies.
pub fn mime_by_extension(path: &str) -> (r: String)
    ensures
        r@ == mime_for_path(path@),
{
    match path_extension_of(path) {
        None => String::from_str("application/octet-stream"),
        Some(ext) => {
            let v = chars_of(ext.as_str());
            let lower = ascii_lower_chars(&v);
            let lower_s = string_from_chars(&lower);
            match custom_mime_for_ext(lower_s.as_str()) {
                Some(m) => String::from_str(m),
                None => match mime_guess_from_ext(ext.as_str()) {
                    Some(m) => m,
                    None => String::from_str("application/octet-stream"),
                },
            }
        },
    }
}

/// `mime_guess::from_path(path).first_or_octet_stream()`: the first MIME
/// type registered for the path's extension, else `application/octet-stream`.
pub open spec fn registered_mime_for_path(path: Seq<char>) -> Seq<char> {
    match path_extension(path) {
        None => "application/octet-stream"@,
        Some(ext) => match mime_guess_first(ext) {
            Some(m) => m,
            None => "application/octet-stream"@,
        },
    }
}

/// The registered MIME type of a path's extension, with no overrides.
pub fn registered_mime_by_path(path: &str) -> (r: String)
    ensures
        r@ == registered_mime_for_path(path@),
{
    match path_extension_of(path) {
        None => String::from_str("application/octet-stream"),
        Some(ext) => match mime_guess_from_ext(ext.as_str()) {
            Some(m) => m,
            None => String::from_str("application/octet-stream"),
        },
    }
}

/// The MIME type of a workspace file: by extension, and when that says
/// nothing, by sniffing `head`, the first bytes read from the file (`None`
/// when the file could not be read).
pub open spec fn guessed_mime(path: Seq<char>, head: Option<Seq<u8>>) -> Seq<char> {
    let m = mime_for_path(path);
    if m != "application/octet-stream"@ {
        m
    } else {
        match head {
            Some(h) => if looks_like_text(h) {
                "text/plain"@
            } else {
                m
            },
            None => m,
        }
    }
}

pub open spec fn opt_bytes(o: Option<&[u8]>) -> Option<Seq<u8>> {
    match o {
        Some(b) => Some(b@),
        None => None,
    }
}

/// The MIME type of a workspace file, from its path and, for unknown
/// extensions, the first bytes of its content.
pub fn guess_mime(path: &str, head: Option<&[u8]>) -> (r: String)
    ensures
        r@ == guessed_mime(path@, opt_bytes(head)),
{
    let m = mime_by_extension(path);
    let mv = chars_of(m.as_str());
    if !chars_eq_str(&mv, "application/octet-stream") {
        return m;
    }
    match head {
        Some(h) => {
            if sniff_is_text(h) {
                String::from_str("text/plain")
            } else {
                m
            }
        },
        None => m,
    }
}

/// MIME types read inline as text.
pub open spec fn text_mime(m: Seq<char>) -> bool {
    ||| "text/"@.is_prefix_of(m)
    ||| m == "application/json"@
    ||| m == "application/javascript"@
    ||| m == "application/xml"@
    ||| m == "application/x-yaml"@
    ||| m == "application/x-sh"@
    ||| m == "application/x-toml"@
}

/// Whether a MIME type represents a text file suitable for inline reading.
pub fn is_text_mime(mime: &str) -> (b: bool)
    ensures
        b == text_mime(mime@),
{
    let m = chars_of(mime);
    has_prefix_str(&m, "text/") || chars_eq_str(&m, "application/json") || chars_eq_str(
        &m,
        "application/javascript",
    ) || chars_eq_str(&m, "application/xml") || chars_eq_str(&m, "application/x-yaml")
        || chars_eq_str(&m, "application/x-sh") || chars_eq_str(&m, "application/x-toml")
}

/// MIME types that run scripts or host active content when rendered inline.
pub open spec fn script_mime(m: Seq<char>) -> bool {
    ||| m == "text/html"@
    ||| m == "application/xhtml+xml"@
    ||| m == "image/svg+xml"@
    ||| m == "application/xml"@
    ||| m == "text/xml"@
    ||| "+xml"@.is_suffix_of(m)
}

/// Whether inline responses of this MIME type need a sandboxing CSP.
pub fn needs_script_sandbox(mime_type: &str) -> (b: bool)
    ensures
        b == script_mime(mime_type@),
{
    let m = chars_of(mime_type);
    chars_eq_str(&m, "text/html") || chars_eq_str(&m, "application/xhtml+xml") || chars_eq_str(
        &m,
        "image/svg+xml",
    ) || chars_eq_str(&m, "application/xml") || chars_eq_str(&m, "text/xml") || has_suffix_str(
        &m,
        "+xml",
    )
}

/// Content-Type for raw bytes served to a browser.
pub open spec fn served_type(m: Seq<char>) -> Seq<char> {
    if m == "text/typescript"@ || m == "text/tsx"@ {
        "text/plain; charset=utf-8"@
    } else if "text/"@.is_prefix_of(m) {
        m + "; charset=utf-8"@
    } else {
        m
    }
}

/// Content-Type used when serving raw bytes directly to a browser: the
/// TypeScript subtypes render as plain text and text types get an explicit
/// UTF-8 charset.
pub fn served_content_type(mime_type: &str) -> (r: String)
    ensures
        r@ == served_type(mime_type@),
{
    let m = chars_of(mime_type);
    if chars_eq_str(&m, "text/typescript") || chars_eq_str(&m, "text/tsx") {
        String::from_str("text/plain; charset=utf-8")
    } else if has_prefix_str(&m, "text/") {
        let mut out = string_from_chars(&m);
        push_str(&mut out, "; charset=utf-8");
        out
    } else {
        string_from_chars(&m)
    }
}

// ------------------------------------------------------------ byte ranges

/// Inclusive byte range resolved from a `Range` header.
#[derive(Debug, Clone, Copy, PartialEq, Eq, Structural)]
pub struct ByteRange {
    pub start: u64,
    pub end: u64,
}

/// Outcome of interpreting a `Range` header against a resource length.
#[derive(Debug, Clone, Copy, PartialEq, Eq, Structural)]
pub enum RangeOutcome {
    /// Serve the full representation (no usable range).
    Full,
    /// Serve the partial range with 206.
    Partial(ByteRange),
    /// Range cannot be satisfied; respond 416.
    Unsatisfiable,
}

/// Resolution of a parsed `start`/`end` pair against the resource length.
pub open spec fn finish_range(start: u64, end: u64, len: u64) -> RangeOutcome {
    if len == 0 || start >= len {
        RangeOutcome::Unsatisfiable
    } else if end < start {
        RangeOutcome::Full
    } else {
        RangeOutcome::Partial(
            ByteRange { start, end: if end < len - 1 { end } else { (len - 1) as u64 } },
        )
    }
}

/// `Range` interpretation for the suffix form `bytes=-N`.
pub open spec fn suffix_range(end_spec: Seq<char>, len: u64) -> RangeOutcome {
    match parse_u64(trim(end_spec)) {
        None => RangeOutcome::Full,
        Some(suffix) => if suffix == 0 {
            RangeOutcome::Unsatisfiable
        } else {
            let s = if suffix < len {
                suffix
            } else {
                len
            };
            finish_range(
                (len - s) as u64,
                if len == 0 {
                    0u64
                } else {
                    (len - 1) as u64
                },
                len,
            )
        },
    }
}

/// `Range` interpretation for the forms `bytes=A-` and `bytes=A-B`.
pub open spec fn start_range(start_spec: Seq<char>, end_spec: Seq<char>, len: u64) -> RangeOutcome {
    match parse_u64(trim(start_spec)) {
        None => RangeOutcome::Full,
        Some(start) => if trim(end_spec).len() == 0 {
            finish_range(
                start,
                if len == 0 {
                    0u64
                } else {
                    (len - 1) as u64
                },
                len,
            )
        } else {
            match parse_u64(trim(end_spec)) {
                None => RangeOutcome::Full,
                Some(end) => finish_range(start, end, len),
            }
        },
    }
}

/// The meaning of a single-range `bytes=` header against length `len`:
/// malformed headers and multi-range requests fall back to `Full`.
pub open spec fn range_outcome(value: Seq<char>, len: u64) -> RangeOutcome {
    let t = trim(value);
    if !"bytes="@.is_prefix_of(t) {
        RangeOutcome::Full
    } else {
        let spec_part = t.skip(6);
        if spec_part.contains(',') {
            RangeOutcome::Full
        } else {
            match split_once(spec_part, '-') {
                None => RangeOutcome::Full,
                Some(parts) => if trim(parts.0).len() == 0 {
                    suffix_range(parts.1, len)
                } else {
                    start_range(parts.0, parts.1, len)
                },
            }
        }
    }
}

fn finish_range_exec(start: u64, end: u64, len: u64) -> (r: RangeOutcome)
    ensures
        r == finish_range(start, end, len),
{
    if len == 0 || start >= len {
        return RangeOutcome::Unsatisfiable;
    }
    if end < start {
        return RangeOutcome::Full;
    }
    let last = len - 1;
    RangeOutcome::Partial(ByteRange { start, end: if end < last { end } else { last } })
}

/// Parse a single-range `bytes=` header against `len`. Malformed headers
/// and multi-range requests fall back to `Full` (the server may ignore
/// Range). A partial range always lies inside the resource.
pub fn parse_range_header(value: &str, len: u64) -> (r: RangeOutcome)
    ensures
        r == range_outcome(value@, len),
        r matches RangeOutcome::Partial(br) ==> br.start <= br.end < len,
{
    let raw = chars_of(value);
    let t = trim_chars(&raw);
    if !has_prefix_str(&t, "bytes=") {
        return RangeOutcome::Full;
    }
    proof {
        reveal_strlit("bytes=");
    }
    let spec_part = slice_chars(&t, 6, t.len());
    assert(spec_part@ =~= t@.skip(6));
    if contains_char(&spec_part, ',') {
        return RangeOutcome::Full;
    }
    let dash = find_char(&spec_part, '-');
    proof {
        lemma_find_from_bounds(spec_part@, '-', 0);
    }
    if dash == spec_part.len() {
        return RangeOutcome::Full;
    }
    let start_spec = slice_chars(&spec_part, 0, dash);
    let end_spec = slice_chars(&spec_part, dash + 1, spec_part.len());
    assert(start_spec@ =~= spec_part@.take(dash as int));
    assert(end_spec@ =~= spec_part@.skip(dash + 1));
    let ts = trim_chars(&start_spec);
    let te = trim_chars(&end_spec);
    if ts.len() == 0 {
        match parse_u64_chars(&te) {
            None => RangeOutcome::Full,
            Some(suffix) => {
                if suffix == 0 {
                    return RangeOutcome::Unsatisfiable;
                }
                let s = if suffix < len {
                    suffix
                } else {
                    len
                };
                let last = if len == 0 {
                    0
                } else {
                    len - 1
                };
                finish_range_exec(len - s, last, len)
            },
        }
    } else {
        match parse_u64_chars(&ts) {
            None => RangeOutcome::Full,
            Some(start) => {
                if te.len() == 0 {
                    let last = if len == 0 {
                        0
                    } else {
                        len - 1
                    };
                    finish_range_exec(start, last, len)
                } else {
                    match parse_u64_chars(&te) {
                        None => RangeOutcome::Full,
                        Some(end) => finish_range_exec(start, end, len),
                    }
                }
            },
        }
    }
}

// ---------------------------------------------------------- entity tags

/// Whitespace and a weak validator `W/` prefix removed from an entity tag.
pub open spec fn strip_weak(v: Seq<char>) -> Seq<char> {
    let t = trim(v);
    if "W/"@.is_prefix_of(t) {
        t.skip(2)
    } else {
        t
    }
}

/// Strip whitespace and a weak validator `W/` prefix from an entity tag.
pub fn strip_weak_tag(value: &Vec<char>) -> (r: Vec<char>)
    ensures
        r@ == strip_weak(value@),
{
    let t = trim_chars(value);
    if has_prefix_str(&t, "W/") {
        proof {
            reveal_strlit("W/");
        }
        slice_chars(&t, 2, t.len())
    } else {
        t
    }
}

/// The pieces of `s.split(c)`.
pub open spec fn split_pieces(s: Seq<char>, c: char) -> Seq<Seq<char>>
    decreases s.len(),
{
    let i = find_from(s, c, 0);
    if i < s.len() && i >= 0 {
        seq![s.take(i)] + split_pieces(s.skip(i + 1), c)
    } else {
        seq![s]
    }
}

/// Whether an `If-None-Match` header value matches an entity tag (weak
/// comparison: `W/` prefixes are ignored; `*` matches any tag).
pub open spec fn none_match(if_none_match: Seq<char>, etag: Seq<char>) -> bool {
    let value = trim(if_none_match);
    value == "*"@ || exists|k: int|
        0 <= k < split_pieces(value, ',').len() && #[trigger] strip_weak(
            split_pieces(value, ',')[k],
        ) == strip_weak(etag)
}

/// Whether some piece of `s.split(',')` matches `tag` after weak stripping.
fn any_piece_matches(s: &Vec<char>, tag: &Vec<char>) -> (r: bool)
    ensures
        r == exists|k: int|
            0 <= k < split_pieces(s@, ',').len() && #[trigger] strip_weak(
                split_pieces(s@, ',')[k],
            ) == tag@,
    decreases s@.len(),
{
    let i = find_char(s, ',');
    proof {
        lemma_find_from_bounds(s@, ',', 0);
    }
    let ghost pieces = split_pieces(s@, ',');
    if i < s.len() {
        let head = slice_chars(s, 0, i);
        let rest = slice_chars(s, i + 1, s.len());
        assert(head@ =~= s@.take(i as int));
        assert(rest@ =~= s@.skip(i + 1));
        assert(pieces =~= seq![s@.take(i as int)] + split_pieces(s@.skip(i + 1), ','));
        let h = strip_weak_tag(&head);
        if chars_eq(&h, tag) {
            assert(strip_weak(pieces[0]) == tag@);
            return true;
        }
        let r = any_piece_matches(&rest, tag);
        proof {
            let tail = split_pieces(s@.skip(i + 1), ',');
            if r {
                let k = choose|k: int|
                    0 <= k < tail.len() && #[trigger] strip_weak(tail[k]) == tag@;
                assert(pieces[k + 1] == tail[k]);
            }
            if !r {
                assert forall|k: int| 0 <= k < pieces.len() implies #[trigger] strip_weak(
                    pieces[k],
                ) != tag@ by {
                    if k > 0 {
                        assert(pieces[k] == tail[k - 1]);
                    }
                }
            }
        }
        r
    } else {
        assert(pieces =~= seq![s@]);
        let h = strip_weak_tag(s);
        let r = chars_eq(&h, tag);
        proof {
            if r {
                assert(strip_weak(pieces[0]) == tag@);
            }
        }
        r
    }
}

/// Whether an `If-None-Match` header matches the current entity tag.
/// Weak comparison per RFC 9110: `W/` prefixes are ignored.
pub fn if_none_match_matches(if_none_match: &str, etag: &str) -> (b: bool)
    ensures
        b == none_match(if_none_match@, etag@),
{
    let raw = chars_of(if_none_match);
    let value = trim_chars(&raw);
    if chars_eq_str(&value, "*") {
        return true;
    }
    let e = chars_of(etag);
    let tag = strip_weak_tag(&e);
    any_piece_matches(&value, &tag)
}

/// Whether an `If-Range` value authorizes a range: exact entity tag or
/// exact Last-Modified echo (strong comparison).
pub open spec fn range_authorized(if_range: Seq<char>, etag: Seq<char>, last_modified: Option<Seq<char>>) -> bool {
    trim(if_range) == etag || (last_modified matches Some(lm) && trim(if_range) == lm)
}

/// Whether an `If-Range` header authorizes serving a range. Accepts the
/// exact entity tag or an exact Last-Modified date echo; client-sent weak
/// tags never match.
pub fn if_range_matches(if_range: &str, etag: &str, last_modified: Option<&str>) -> (b: bool)
    ensures
        b == range_authorized(
            if_range@,
            etag@,
            match last_modified {
                Some(l) => Some(l@),
                None => None,
            },
        ),
{
    let raw = chars_of(if_range);
    let value = trim_chars(&raw);
    if chars_eq_str(&value, etag) {
        return true;
    }
    match last_modified {
        Some(lm) => chars_eq_str(&value, lm),
        None => false,
    }
}

/// FNV-1a 64-bit offset basis and prime.
pub const FNV_OFFSET: u64 = 0xcbf29ce484222325;

pub const FNV_PRIME: u64 = 0x00000100000001b3;

/// FNV-1a over `bytes`.
pub open spec fn fnv1a(bytes: Seq<u8>) -> u64
    decreases bytes.len(),
{
    if bytes.len() == 0 {
        FNV_OFFSET
    } else {
        (fnv1a(bytes.drop_last()) ^ (bytes.last() as u64)).wrapping_mul(FNV_PRIME)
    }
}

/// Little-endian bytes of a `u64` (`u64::to_le_bytes`).
pub open spec fn le_bytes_u64(n: u64) -> Seq<u8> {
    Seq::new(8, |i: int| ((n >> (8 * i) as u64) & 0xff) as u8)
}

/// Little-endian bytes of a `u128` (`u128::to_le_bytes`).
pub open spec fn le_bytes_u128(n: u128) -> Seq<u8> {
    Seq::new(16, |i: int| ((n >> (8 * i) as u128) & 0xff) as u8)
}

/// The modification time in nanoseconds since the epoch, `0` when unknown.
pub open spec fn mtime_or_zero(mtime_nanos: Option<u128>) -> u128 {
    match mtime_nanos {
        Some(n) => n,
        None => 0,
    }
}

/// The strong entity tag: `"<fnv1a hex>-<mtime hex>"` where the hash runs
/// over the path bytes, the size's little-endian bytes and the mtime's.
pub open spec fn etag_of(relative_path_bytes: Seq<u8>, size: u64, mtime_nanos: Option<u128>) -> Seq<char> {
    let nanos = mtime_or_zero(mtime_nanos);
    let hash = fnv1a(relative_path_bytes + le_bytes_u64(size) + le_bytes_u128(nanos));
    seq!['"'] + hex_lower(hash as nat) + seq!['-'] + hex_lower(nanos as nat) + seq!['"']
}

fn fnv_step_all(hash: u64, bytes: &Vec<u8>, prefix: Ghost<Seq<u8>>) -> (h: u64)
    requires
        hash == fnv1a(prefix@),
    ensures
        h == fnv1a(prefix@ + bytes@),
{
    let mut h = hash;
    let mut i: usize = 0;
    assert(prefix@ + bytes@.take(0) =~= prefix@);
    while i < bytes.len()
        invariant
            i <= bytes@.len(),
            h == fnv1a(prefix@ + bytes@.take(i as int)),
        decreases bytes.len() - i,
    {
        let b = bytes[i];
        assert((prefix@ + bytes@.take(i + 1)).drop_last() =~= prefix@ + bytes@.take(i as int));
        h = (h ^ (b as u64)).wrapping_mul(FNV_PRIME);
        i = i + 1;
    }
    assert(bytes@.take(bytes@.len() as int) =~= bytes@);
    h
}

/// Build a strong entity tag from identity, size, and modification time
/// (nanoseconds since the epoch; `None` when unknown). Uses FNV-1a so the
/// validator stays stable across Rust releases.
pub fn build_etag(relative_path: &str, size: u64, mtime_nanos: Option<u128>) -> (r: String)
    ensures
        r@ == etag_of(relative_path.spec_bytes(), size, mtime_nanos),
{
    let nanos: u128 = match mtime_nanos {
        Some(n) => n,
        None => 0,
    };
    let path_bytes = relative_path.as_bytes();
    let mut pb: Vec<u8> = Vec::new();
    let mut i: usize = 0;
    while i < path_bytes.len()
        invariant
            i <= path_bytes@.len(),
            pb@ == path_bytes@.take(i as int),
        decreases path_bytes.len() - i,
    {
        pb.push(path_bytes[i]);
        i = i + 1;
        assert(pb@ =~= path_bytes@.take(i as int));
    }
    assert(path_bytes@.take(path_bytes@.len() as int) =~= path_bytes@);
    let mut sb: Vec<u8> = Vec::new();
    let mut k: u64 = 0;
    while k < 8
        invariant
            k <= 8,
            sb@ == le_bytes_u64(size).take(k as int),
        decreases 8 - k,
    {
        sb.push(((size >> (8 * k)) & 0xff) as u8);
        k = k + 1;
        assert(sb@ =~= le_bytes_u64(size).take(k as int));
    }
    assert(le_bytes_u64(size).take(8) =~= le_bytes_u64(size));
    let mut nb: Vec<u8> = Vec::new();
    let mut k2: u128 = 0;
    while k2 < 16
        invariant
            k2 <= 16,
            nb@ == le_bytes_u128(nanos).take(k2 as int),
        decreases 16 - k2,
    {
        nb.push(((nanos >> (8 * k2)) & 0xff) as u8);
        k2 = k2 + 1;
        assert(nb@ =~= le_bytes_u128(nanos).take(k2 as int));
    }
    assert(le_bytes_u128(nanos).take(16) =~= le_bytes_u128(nanos));
    assert(Seq::<u8>::empty() + pb@ =~= pb@);
    let h1 = fnv_step_all(FNV_OFFSET, &pb, Ghost(Seq::empty()));
    let h2 = fnv_step_all(h1, &sb, Ghost(pb@));
    let h3 = fnv_step_all(h2, &nb, Ghost(pb@ + sb@));
    let mut out = String::new();
    out.push('"');
    push_hex_lower(&mut out, h3 as u128);
    out.push('-');
    push_hex_lower(&mut out, nanos);
    out.push('"');
    assert(out@ =~= etag_of(relative_path.spec_bytes(), size, mtime_nanos));
    out
}

// ------------------------------------------------- content disposition

/// Characters that cannot appear raw inside a quoted filename.
pub open spec fn quote_safe(c: char) -> char {
    if c == '"' || c == '\\' || c == '\r' || c == '\n' {
        '_'
    } else {
        c
    }
}

/// Bytes kept unencoded in an RFC 5987 `filename*` value.
pub open spec fn attr_char(b: u8) -> bool {
    ||| is_ascii_alnum_u32(b as u32)
    ||| b == 0x21 || b == 0x23 || b == 0x24 || b == 0x26 || b == 0x2b || b == 0x2d || b == 0x2e
    ||| b == 0x5e || b == 0x5f || b == 0x60 || b == 0x7c || b == 0x7e
}

/// RFC 5987 percent-encoding of `bytes` (uppercase hex).
pub open spec fn rfc5987_encode(bytes: Seq<u8>) -> Seq<char>
    decreases bytes.len(),
{
    if bytes.len() == 0 {
        Seq::empty()
    } else {
        rfc5987_encode(bytes.drop_last()) + if attr_char(bytes.last()) {
            seq![(bytes.last() as u32) as char]
        } else {
            percent_byte(bytes.last())
        }
    }
}

/// The `Content-Disposition` value for a download of `filename`.
pub open spec fn disposition_of(filename: Seq<char>, filename_bytes: Seq<u8>) -> Seq<char> {
    if is_ascii_chars(filename) {
        "attachment; filename=\""@ + Seq::new(filename.len(), |i: int| quote_safe(filename[i]))
            + "\""@
    } else {
        "attachment; filename*=UTF-8''"@ + rfc5987_encode(filename_bytes)
    }
}

/// Build a `Content-Disposition` value for a download. ASCII filenames use
/// the quoted form with quoting characters replaced; other filenames use
/// the RFC 5987/8187 extended form.
pub fn attachment_disposition(filename: &str) -> (r: String)
    ensures
        r@ == disposition_of(filename@, filename.spec_bytes()),
{
    if filename.is_ascii() {
        let v = chars_of(filename);
        let mut out = String::from_str("attachment; filename=\"");
        let ghost start = out@;
        let mut i: usize = 0;
        while i < v.len()
            invariant
                i <= v@.len(),
                v@ == filename@,
                out@ == start + Seq::new(i as nat, |j: int| quote_safe(v@[j])),
            decreases v.len() - i,
        {
            let c = v[i];
            let d = if c == '"' || c == '\\' || c == '\r' || c == '\n' {
                '_'
            } else {
                c
            };
            out.push(d);
            i = i + 1;
            assert(out@ =~= start + Seq::new(i as nat, |j: int| quote_safe(v@[j])));
        }
        out.push('"');
        proof {
            reveal_strlit("\"");
        }
        assert(out@ =~= disposition_of(filename@, filename.spec_bytes()));
        out
    } else {
        let bytes = filename.as_bytes();
        let mut out = String::from_str("attachment; filename*=UTF-8''");
        let ghost start = out@;
        let mut i: usize = 0;
        assert(bytes@.take(0) =~= Seq::<u8>::empty());
        while i < bytes.len()
            invariant
                i <= bytes@.len(),
                out@ == start + rfc5987_encode(bytes@.take(i as int)),
            decreases bytes.len() - i,
        {
            let b = bytes[i];
            assert(bytes@.take(i + 1).drop_last() =~= bytes@.take(i as int));
            let keep = (0x30 <= b && b <= 0x39) || (0x41 <= b && b <= 0x5a) || (0x61 <= b && b
                <= 0x7a) || b == 0x21 || b == 0x23 || b == 0x24 || b == 0x26 || b == 0x2b || b
                == 0x2d || b == 0x2e || b == 0x5e || b == 0x5f || b == 0x60 || b == 0x7c || b
                == 0x7e;
            if keep {
                out.push(crate::text::char_from_ascii_u32(b as u32));
            } else {
                push_percent_byte(&mut out, b);
            }
            i = i + 1;
            assert(out@ =~= start + rfc5987_encode(bytes@.take(i as int)));
        }
        assert(bytes@.take(bytes@.len() as int) =~= bytes@);
        out
    }
}


// ---------------------------------------------------------- file responses

/// The characters of an optional string.
pub open spec fn opt_chars(o: Option<String>) -> Option<Seq<char>> {
    match o {
        Some(s) => Some(s@),
        None => None,
    }
}

/// The characters of an optional string slice.
pub open spec fn opt_str_chars(o: Option<&str>) -> Option<Seq<char>> {
    match o {
        Some(s) => Some(s@),
        None => None,
    }
}

/// A file's modification time: whole seconds since the Unix epoch (negative
/// before it) and the nanoseconds past that second.
#[derive(Debug, Clone, Copy, PartialEq, Eq)]
pub struct FileTime {
    pub secs: i64,
    pub nanos: u32,
}

/// Nanoseconds since the Unix epoch, for a time not before it (what
/// `duration_since(UNIX_EPOCH)` gives); `None` for an earlier time.
pub open spec fn mtime_nanos_of(t: Option<FileTime>) -> Option<u128> {
    match t {
        Some(t) => if t.secs >= 0 {
            Some((t.secs * 1_000_000_000 + t.nanos) as u128)
        } else {
            None
        },
        None => None,
    }
}

/// The `Last-Modified` value of a file: its time as an HTTP date.
pub open spec fn last_modified_of(t: Option<FileTime>) -> Option<Seq<char>> {
    match t {
        Some(t) => http_date(t.secs, t.nanos),
        None => None,
    }
}

/// How raw file bytes are answered.
#[derive(Debug)]
pub enum FileResponsePlan {
    /// `304 Not Modified` with the validators.
    NotModified { etag: String, last_modified: Option<String> },
    /// `416 Range Not Satisfiable` with `Content-Range: bytes */<size>`.
    RangeNotSatisfiable { unsatisfied_range: String },
    /// `200` (or `206` when `partial`) streaming `length` bytes from `start`.
    Stream {
        partial: bool,
        start: u64,
        length: u64,
        content_type: String,
        content_range: Option<String>,
        etag: String,
        last_modified: Option<String>,
        content_disposition: Option<String>,
        sandbox: bool,
    },
}

/// The range that is served: the `Range` header applies only when there is
/// no `If-Range` or the `If-Range` value authorizes it.
pub open spec fn effective_range(
    range: Option<Seq<char>>,
    if_range: Option<Seq<char>>,
    etag: Seq<char>,
    last_modified: Option<Seq<char>>,
    file_size: u64,
) -> RangeOutcome {
    match range {
        None => RangeOutcome::Full,
        Some(r) => {
            let authorized = match if_range {
                Some(ir) => range_authorized(ir, etag, last_modified),
                None => true,
            };
            if authorized {
                range_outcome(r, file_size)
            } else {
                RangeOutcome::Full
            }
        },
    }
}

/// `Content-Range` for a partial response.
pub open spec fn content_range_of(start: u64, end: u64, size: u64) -> Seq<char> {
    "bytes "@ + decimal(start as nat) + seq!['-'] + decimal(end as nat) + seq!['/'] + decimal(
        size as nat,
    )
}

fn content_range_value(start: u64, end: u64, size: u64) -> (r: String)
    ensures
        r@ == content_range_of(start, end, size),
{
    let mut out = String::from_str("bytes ");
    push_decimal(&mut out, start);
    out.push('-');
    push_decimal(&mut out, end);
    out.push('/');
    push_decimal(&mut out, size);
    assert(out@ =~= content_range_of(start, end, size));
    out
}

/// Decide how to answer a request for a file's raw bytes: a conditional
/// `If-None-Match` hit gives 304; otherwise an authorized `Range` gives 206
/// or 416; downloads carry a `Content-Disposition` (`download` when the
/// path has no file name) and inline active content is sandboxed.
pub fn serve_file_bytes(
    relative_path: &str,
    file_name: Option<&str>,
    mime_type: &str,
    file_size: u64,
    modified: Option<FileTime>,
    want_download: bool,
    if_none_match: Option<&str>,
    range: Option<&str>,
    if_range: Option<&str>,
) -> (r: FileResponsePlan)
    requires
        modified matches Some(t) ==> t.nanos < 1_000_000_000,
    ensures
        ({
            let etag = etag_of(relative_path.spec_bytes(), file_size, mtime_nanos_of(modified));
            let lm = last_modified_of(modified);
            let not_modified = match if_none_match {
                Some(inm) => none_match(inm@, etag),
                None => false,
            };
            let outcome = effective_range(
                opt_str_chars(range),
                opt_str_chars(if_range),
                etag,
                lm,
                file_size,
            );
            &&& not_modified <==> r is NotModified
            &&& r matches FileResponsePlan::NotModified { etag: e, last_modified: l } ==> e@
                == etag && opt_chars(l) == lm
            &&& (!not_modified && outcome == RangeOutcome::Unsatisfiable) <==> r is RangeNotSatisfiable
            &&& r matches FileResponsePlan::RangeNotSatisfiable { unsatisfied_range } ==> unsatisfied_range@
                == "bytes */"@ + decimal(file_size as nat)
            &&& r matches FileResponsePlan::Stream {
                partial,
                start,
                length,
                content_type,
                content_range,
                etag: e,
                last_modified: l,
                content_disposition,
                sandbox,
            } ==> {
                &&& e@ == etag
                &&& opt_chars(l) == lm
                &&& content_type@ == if want_download {
                    mime_type@
                } else {
                    served_type(mime_type@)
                }
                &&& sandbox == (!want_download && script_mime(mime_type@))
                &&& (want_download ==> (content_disposition matches Some(d) && d@ == disposition_of(
                    match file_name {
                        Some(n) => n@,
                        None => "download"@,
                    },
                    match file_name {
                        Some(n) => n.spec_bytes(),
                        None => "download".spec_bytes(),
                    },
                )))
                &&& (!want_download ==> content_disposition is None)
                &&& match outcome {
                    RangeOutcome::Partial(br) => {
                        &&& partial
                        &&& start == br.start
                        &&& length == br.end - br.start + 1
                        &&& start + length <= file_size
                        &&& (content_range matches Some(cr) && cr@ == content_range_of(
                            br.start,
                            br.end,
                            file_size,
                        ))
                    },
                    _ => !partial && start == 0 && length == file_size && content_range is None,
                }
            }
        }),
{
    let mtime_nanos: Option<u128> = match modified {
        Some(t) => if t.secs >= 0 {
            Some((t.secs as u128) * 1_000_000_000u128 + (t.nanos as u128))
        } else {
            None
        },
        None => None,
    };
    let last_modified: Option<String> = match modified {
        Some(t) => http_date_text(t.secs, t.nanos),
        None => None,
    };
    let etag = build_etag(relative_path, file_size, mtime_nanos);
    if let Some(inm) = if_none_match {
        if if_none_match_matches(inm, etag.as_str()) {
            return FileResponsePlan::NotModified { etag, last_modified };
        }
    }
    let mut outcome = RangeOutcome::Full;
    if let Some(range_header) = range {
        let authorized = match if_range {
            Some(ir) => {
                let lm: Option<&str> = match &last_modified {
                    Some(l) => Some(l.as_str()),
                    None => None,
                };
                if_range_matches(ir, etag.as_str(), lm)
            },
            None => true,
        };
        if authorized {
            outcome = parse_range_header(range_header, file_size);
        }
    }
    match outcome {
        RangeOutcome::Unsatisfiable => {
            let mut cr = String::from_str("bytes */");
            push_decimal(&mut cr, file_size);
            FileResponsePlan::RangeNotSatisfiable { unsatisfied_range: cr }
        },
        RangeOutcome::Full => {
            let content_type = if want_download {
                String::from_str(mime_type)
            } else {
                served_content_type(mime_type)
            };
            let content_disposition = if want_download {
                let name = match file_name {
                    Some(n) => n,
                    None => "download",
                };
                Some(attachment_disposition(name))
            } else {
                None
            };
            let sandbox = !want_download && needs_script_sandbox(mime_type);
            FileResponsePlan::Stream {
                partial: false,
                start: 0,
                length: file_size,
                content_type,
                content_range: None,
                etag,
                last_modified,
                content_disposition,
                sandbox,
            }
        },
        RangeOutcome::Partial(br) => {
            let length = br.end - br.start + 1;
            let content_type = if want_download {
                String::from_str(mime_type)
            } else {
                served_content_type(mime_type)
            };
            let content_disposition = if want_download {
                let name = match file_name {
                    Some(n) => n,
                    None => "download",
                };
                Some(attachment_disposition(name))
            } else {
                None
            };
            let sandbox = !want_download && needs_script_sandbox(mime_type);
            let content_range = content_range_value(br.start, br.end, file_size);
            FileResponsePlan::Stream {
                partial: true,
                start: br.start,
                length,
                content_type,
                content_range: Some(content_range),
                etag,
                last_modified,
                content_disposition,
                sandbox,
            }
        },
    }
}

/// A UTF-8 continuation byte (`0x80..=0xBF`).
pub open spec fn is_continuation(b: u8) -> bool {
    0x80 <= b && b <= 0xBF
}

/// End of the text preview of `d` when it is cut at `limit` bytes: the cut
/// backs up over continuation bytes just before it.
pub open spec fn preview_cut(d: Seq<u8>, end: int) -> int
    decreases end,
{
    if end <= 0 {
        0
    } else if !is_continuation(d[end - 1]) {
        end
    } else {
        preview_cut(d, end - 1)
    }
}

/// Number of bytes of `data` that the JSON text preview keeps: all of it
/// when it fits in `limit` bytes, otherwise the cut at `limit` backed up
/// so that it does not end inside a run of continuation bytes.
pub fn text_preview_end(data: &[u8], limit: usize) -> (end: usize)
    ensures
        data@.len() <= limit ==> end == data@.len(),
        data@.len() > limit ==> end == preview_cut(data@, limit as int),
        end <= data@.len(),
{
    if data.len() <= limit {
        return data.len();
    }
    let mut end = limit;
    while end > 0 && 0x80 <= data[end - 1] && data[end - 1] <= 0xBF
        invariant
            end <= limit < data@.len(),
            preview_cut(data@, limit as int) == preview_cut(data@, end as int),
        decreases end,
    {
        end = end - 1;
    }
    end
}

// ------------------------------------------------------------------ laws

/// `If-Range` uses strong comparison: a weak validator sent by the client
/// never authorizes a range against a strong entity tag (nor against a
/// Last-Modified date, which is never weak).
pub proof fn weak_if_range_never_authorizes_a_range(if_range: Seq<char>, etag: Seq<char>, last_modified: Option<Seq<char>>)
    requires
        "W/"@.is_prefix_of(trim(if_range)),
        !"W/"@.is_prefix_of(etag),
        last_modified matches Some(lm) ==> !"W/"@.is_prefix_of(lm),
    ensures
        !range_authorized(if_range, etag, last_modified),
{
}

/// `If-None-Match: *` matches every entity tag, so a cached asset is
/// always revalidated by it.
pub proof fn bare_star_is_a_wildcard(etag: Seq<char>)
    ensures
        none_match("*"@, etag),
{
    reveal_strlit("*");
    let s = "*"@;
    assert(!crate::text::is_ws(s[0]));
    assert(crate::text::leading_ws(s) == 0);
    assert(s.skip(0) =~= s);
    assert(crate::text::trailing_ws(s) == 0);
    assert(s.take(1) =~= s);
}

/// A character that cannot end a header line or a quoted string.
pub open spec fn header_safe(c: char) -> bool {
    c != '\r' && c != '\n' && c != '"' && c != '\\'
}

proof fn lemma_rfc5987_header_safe(bytes: Seq<u8>)
    ensures
        forall|i: int| 0 <= i < rfc5987_encode(bytes).len() ==> header_safe(#[trigger] rfc5987_encode(bytes)[i]),
    decreases bytes.len(),
{
    if bytes.len() > 0 {
        lemma_rfc5987_header_safe(bytes.drop_last());
        let prev = rfc5987_encode(bytes.drop_last());
        let b = bytes.last();
        let tail = if attr_char(b) {
            seq![(b as u32) as char]
        } else {
            percent_byte(b)
        };
        assert(rfc5987_encode(bytes) == prev + tail);
        assert forall|i: int| 0 <= i < tail.len() implies header_safe(#[trigger] tail[i]) by {
            if attr_char(b) {
                assert(b != 0x0d && b != 0x0a && b != 0x22 && b != 0x5c);
            } else {
                let hi = (b / 16) as nat;
                let lo = (b % 16) as nat;
                assert(hi < 16 && lo < 16);
            }
        }
        assert forall|i: int| 0 <= i < rfc5987_encode(bytes).len() implies header_safe(
            #[trigger] rfc5987_encode(bytes)[i],
        ) by {
            if i < prev.len() {
                assert(rfc5987_encode(bytes)[i] == prev[i]);
            } else {
                assert(rfc5987_encode(bytes)[i] == tail[i - prev.len()]);
            }
        }
    }
}

/// A download's `Content-Disposition` value cannot end the header line or
/// break out of its filename: it holds no CR or LF anywhere, and the
/// filename, quoted or percent-encoded, holds no quote or backslash.
pub proof fn dispositions_keep_the_filename_contained(filename: Seq<char>, filename_bytes: Seq<u8>)
    ensures
        forall|i: int|
            0 <= i < disposition_of(filename, filename_bytes).len() ==> {
                let c = #[trigger] disposition_of(filename, filename_bytes)[i];
                c != '\r' && c != '\n'
            },
        is_ascii_chars(filename) ==> {
            let quoted = Seq::new(filename.len(), |i: int| quote_safe(filename[i]));
            &&& disposition_of(filename, filename_bytes) == "attachment; filename=\""@ + quoted + "\""@
            &&& forall|i: int| 0 <= i < quoted.len() ==> header_safe(#[trigger] quoted[i])
        },
        !is_ascii_chars(filename) ==> {
            let encoded = rfc5987_encode(filename_bytes);
            &&& disposition_of(filename, filename_bytes) == "attachment; filename*=UTF-8''"@ + encoded
            &&& forall|i: int| 0 <= i < encoded.len() ==> header_safe(#[trigger] encoded[i])
        },
{
    reveal_strlit("attachment; filename=\"");
    reveal_strlit("\"");
    reveal_strlit("attachment; filename*=UTF-8''");
    lemma_rfc5987_header_safe(filename_bytes);
    let d = disposition_of(filename, filename_bytes);
    if is_ascii_chars(filename) {
        let quoted = Seq::new(filename.len(), |i: int| quote_safe(filename[i]));
        let pre = "attachment; filename=\""@;
        assert forall|i: int| 0 <= i < d.len() implies #[trigger] d[i] != '\r' && d[i] != '\n' by {
            if i < pre.len() {
                assert(d[i] == pre[i]);
            } else if i < pre.len() + quoted.len() {
                assert(d[i] == quoted[i - pre.len()]);
            } else {
                assert(d[i] == '"');
            }
        }
    } else {
        let encoded = rfc5987_encode(filename_bytes);
        let pre = "attachment; filename*=UTF-8''"@;
        assert forall|i: int| 0 <= i < d.len() implies #[trigger] d[i] != '\r' && d[i] != '\n' by {
            if i < pre.len() {
                assert(d[i] == pre[i]);
            } else {
                assert(d[i] == encoded[i - pre.len()]);
            }
        }
    }
}

} // verus!
