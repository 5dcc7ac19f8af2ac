//! The request-side rules of the Drata client: region resolution, query
//! encoding, the write guardrail, multipart bodies, cursor pagination and the
//! rendering of API errors. The HTTP exchange itself is performed by the
//! caller, which hands the decisions below the responses it got.

use vstd::prelude::*;
use vstd::utf8::encode_utf8;
use crate::json::{Json, JsonV, member, member_str, member_array, str_eq};
use crate::text::{decimal, lowercase_of, push_char, push_decimal, push_str, to_lowercase};
use crate::json::{items_view, lemma_items_view};
use crate::pointer::{all_digits, digits_value};

verus! {

/// Base URL of the US region (the default).
pub const US_BASE_URL: &'static str = "https://public-api.drata.com/public/v2";
/// Base URL of the EU region.
pub const EU_BASE_URL: &'static str = "https://public-api.eu.drata.com/public/v2";
/// Base URL of the APAC region.
pub const APAC_BASE_URL: &'static str = "https://public-api.apac.drata.com/public/v2";

/// Per-page size requested from cursor-paginated list endpoints.
pub const PAGINATION_SIZE: u32 = 50;
/// How many times a rate-limited request is retried.
pub const MAX_RETRY_ATTEMPTS: u32 = 3;
/// Delay before a retry when the server names none, in seconds.
pub const DEFAULT_RETRY_DELAY_SECS: u64 = 5;
/// Upper bound on a server-provided retry delay, in seconds.
pub const MAX_RETRY_DELAY_SECS: u64 = 60;
/// Timeout of one HTTP request, in seconds.
pub const REQUEST_TIMEOUT_SECS: u64 = 30;
/// Hard cap on the pages drained by cursor pagination.
pub const MAX_PAGES: u32 = 10000;

// ---------------------------------------------------------------------------
// Query encoding
// ---------------------------------------------------------------------------

/// The bytes that are percent-encoded in a query parameter value: ASCII
/// controls, every non-ASCII byte, the RFC 3986 reserved set used in queries,
/// and `+`, `=`, `&`, which carry meaning to query parsers.
pub open spec fn query_escaped(b: u8) -> bool {
    ||| b < 0x20
    ||| b >= 0x7f
    ||| b == 0x20 // ' '
    ||| b == 0x22 // '"'
    ||| b == 0x23 // '#'
    ||| b == 0x3c // '<'
    ||| b == 0x3e // '>'
    ||| b == 0x5b // '['
    ||| b == 0x5c // '\'
    ||| b == 0x5d // ']'
    ||| b == 0x5e // '^'
    ||| b == 0x60 // '`'
    ||| b == 0x7b // '{'
    ||| b == 0x7c // '|'
    ||| b == 0x7d // '}'
    ||| b == 0x26 // '&'
    ||| b == 0x2b // '+'
    ||| b == 0x3d // '='
}

/// The uppercase hexadecimal digit for `d < 16`.
pub open spec fn hex_upper(d: u8) -> char {
    match d {
        0u8 => '0',
        1u8 => '1',
        2u8 => '2',
        3u8 => '3',
        4u8 => '4',
        5u8 => '5',
        6u8 => '6',
        7u8 => '7',
        8u8 => '8',
        9u8 => '9',
        10u8 => 'A',
        11u8 => 'B',
        12u8 => 'C',
        13u8 => 'D',
        14u8 => 'E',
        _ => 'F',
    }
}

/// `%` followed by the two uppercase hex digits of `b`.
pub open spec fn percent_triplet(b: u8) -> Seq<char> {
    seq!['%', hex_upper(b / 16), hex_upper(b % 16)]
}

/// How one byte of a query value is written.
pub open spec fn encode_byte(b: u8) -> Seq<char> {
    if query_escaped(b) {
        percent_triplet(b)
    } else {
        seq![b as char]
    }
}

/// The percent-encoding of a byte sequence.
pub open spec fn encode_bytes(bs: Seq<u8>) -> Seq<char>
    decreases bs.len(),
{
    if bs.len() == 0 {
        Seq::empty()
    } else {
        encode_bytes(bs.drop_last()) + encode_byte(bs.last())
    }
}

/// The percent-encoding of a string's UTF-8 bytes, for use as a query value.
pub open spec fn encoded_query(s: Seq<char>) -> Seq<char> {
    encode_bytes(encode_utf8(s))
}

/// A character that stands for itself in a query value: printable ASCII,
/// none of the characters that `query_escaped` encodes.
pub open spec fn query_safe(c: char) -> bool {
    &&& '!' <= c <= '~'
    &&& c != '"' && c != '#' && c != '<' && c != '>' && c != '[' && c != '\\' && c != ']' && c != '^'
    &&& c != '`' && c != '{' && c != '|' && c != '}' && c != '&' && c != '+' && c != '='
}

/// Every character of an encoded byte is safe in a query value.
proof fn lemma_encode_byte_safe(b: u8)
    ensures
        forall|i: int| 0 <= i < encode_byte(b).len() ==> query_safe(#[trigger] encode_byte(b)[i]),
{
    if query_escaped(b) {
        let t = percent_triplet(b);
        assert(t[0] == '%');
        assert(query_safe(hex_upper(b / 16)));
        assert(query_safe(hex_upper(b % 16)));
    } else {
        assert(0x21 <= b <= 0x7e);
        assert(query_safe(b as char));
    }
}

/// The encoding of any byte sequence holds only safe characters.
proof fn lemma_encode_bytes_safe(bs: Seq<u8>)
    ensures
        forall|i: int| 0 <= i < encode_bytes(bs).len() ==> query_safe(#[trigger] encode_bytes(bs)[i]),
    decreases bs.len(),
{
    if bs.len() > 0 {
        lemma_encode_bytes_safe(bs.drop_last());
        lemma_encode_byte_safe(bs.last());
        let prev = encode_bytes(bs.drop_last());
        let last = encode_byte(bs.last());
        assert forall|i: int| 0 <= i < encode_bytes(bs).len() implies query_safe(#[trigger] encode_bytes(bs)[i]) by {
            if i < prev.len() {
                assert(encode_bytes(bs)[i] == prev[i]);
            } else {
                assert(encode_bytes(bs)[i] == last[i - prev.len()]);
            }
        }
    }
}

/// An encoded query value is safe to place in a URL: every character is
/// printable ASCII and none is a separator or reserved character, whatever
/// the input (spaces, `&`, `=`, non-ASCII text).
pub proof fn lemma_encoded_query_safe(s: Seq<char>)
    ensures
        forall|i: int| 0 <= i < encoded_query(s).len() ==> query_safe(#[trigger] encoded_query(s)[i]),
{
    lemma_encode_bytes_safe(encode_utf8(s));
}


/// `percent_encoding::percent_encode_byte`: the three-character `%XX` form of
/// a byte, with uppercase hex digits.
#[verifier::external_body]
fn percent_encode_byte(b: u8) -> (r: &'static str)
    ensures
        r@ == percent_triplet(b),
{
    percent_encoding::percent_encode_byte(b)
}

/// Percent-encodes a string for safe use as a URL query parameter value.
pub fn encode_query(value: &str) -> (r: String)
    ensures
        r@ == encoded_query(value@),
{
    let bytes = value.as_bytes();
    let mut out = String::new();
    let mut i: usize = 0;
    while i < bytes.len()
        invariant
            i <= bytes@.len(),
            bytes@ == encode_utf8(value@),
            out@ == encode_bytes(bytes@.subrange(0, i as int)),
        decreases bytes.len() - i,
    {
        let b = bytes[i];
        let escaped = b < 0x20 || b >= 0x7f || b == 0x20 || b == 0x22 || b == 0x23 || b == 0x3c
            || b == 0x3e || b == 0x5b || b == 0x5c || b == 0x5d || b == 0x5e || b == 0x60 || b == 0x7b
            || b == 0x7c || b == 0x7d || b == 0x26 || b == 0x2b || b == 0x3d;
        if escaped {
            push_str(&mut out, percent_encode_byte(b));
        } else {
            push_char(&mut out, b as char);
        }
        proof {
            assert(bytes@.subrange(0, i + 1).drop_last() =~= bytes@.subrange(0, i as int));
        }
        i = i + 1;
    }
    assert(bytes@.subrange(0, bytes@.len() as int) =~= bytes@);
    out
}

// ---------------------------------------------------------------------------
// Regions
// ---------------------------------------------------------------------------

/// What `format!("{:?}", s)` gives for a string slice: the string in double
/// quotes with the standard library's escaping.
pub uninterp spec fn debug_text(s: Seq<char>) -> Seq<char>;

/// `<str as Debug>::fmt`, through `format!("{:?}", ..)`.
#[verifier::external_body]
pub(crate) fn debug_quote(s: &str) -> (r: String)
    ensures
        r@ == debug_text(s@),
{
    format!("{:?}", s)
}

/// A region name that is none of `us`, `eu`, `apac` (after lowercasing).
#[derive(Debug)]
pub struct RegionError {
    /// The lowercased region name that was given.
    pub region: String,
}

impl RegionError {
    /// The message shown to the user: names the bad region and lists the
    /// valid ones.
    pub fn message(&self) -> (r: String)
        ensures
            r@ == region_error_text(self.region@),
    {
        let mut m = String::new();
        push_str(&mut m, "Unknown region ");
        push_str(&mut m, debug_quote(self.region.as_str()).as_str());
        push_str(
            &mut m,
            ". Valid values: us, eu, apac. Set the correct region in your profile (`drata login --region <region>`) or via --region / DRATA_REGION.",
        );
        m
    }
}

/// The text of the unknown-region error for the (lowercased) `region`.
pub open spec fn region_error_text(region: Seq<char>) -> Seq<char> {
    "Unknown region "@ + debug_text(region)
        + ". Valid values: us, eu, apac. Set the correct region in your profile (`drata login --region <region>`) or via --region / DRATA_REGION."@
}

/// The base URL a region name selects, if any (case-insensitive).
pub open spec fn region_base_url(region: Seq<char>) -> Option<Seq<char>> {
    lowered_base_url(lowercase_of(region))
}

/// The base URL a lower-cased region name selects, if any.
pub open spec fn lowered_base_url(low: Seq<char>) -> Option<Seq<char>> {
    if low == "us"@ {
        Some(US_BASE_URL@)
    } else if low == "eu"@ {
        Some(EU_BASE_URL@)
    } else if low == "apac"@ {
        Some(APAC_BASE_URL@)
    } else {
        None
    }
}

/// Resolves a region name to its base URL. Fails for an unknown region, so
/// that the bearer token is never sent to an unintended endpoint.
pub fn base_url_for_region(region: &str) -> (r: Result<&'static str, RegionError>)
    ensures
        r is Ok <==> region_base_url(region@) is Some,
        r matches Ok(u) ==> Some(u@) == region_base_url(region@),
        r matches Err(e) ==> e.region@ == lowercase_of(region@),
{
    base_url_for_lowered(to_lowercase(region))
}

/// Resolves a region name that is already lower-cased.
pub fn base_url_for_lowered(low: String) -> (r: Result<&'static str, RegionError>)
    ensures
        r is Ok <==> lowered_base_url(low@) is Some,
        r matches Ok(u) ==> Some(u@) == lowered_base_url(low@),
        r matches Err(e) ==> e.region@ == low@,
{
    if str_eq(low.as_str(), "us") {
        Ok(US_BASE_URL)
    } else if str_eq(low.as_str(), "eu") {
        Ok(EU_BASE_URL)
    } else if str_eq(low.as_str(), "apac") {
        Ok(APAC_BASE_URL)
    } else {
        Err(RegionError { region: low })
    }
}

// ---------------------------------------------------------------------------
// Write guardrail
// ---------------------------------------------------------------------------

/// A non-GET request on a client whose credential is not write-enabled.
/// Writes are off by default: the request is refused before it is sent.
#[derive(Debug)]
pub struct WriteGuardError {
    pub method: String,
    pub path: String,
}

/// The text of the write-guard error for `method` and `path`.
pub open spec fn write_guard_text(method: Seq<char>, path: Seq<char>) -> Seq<char> {
    "write blocked: the active Drata credential is not write-enabled.\nNon-GET requests ("@ + method + " "@
        + path
        + ") require a credential with `allow-writes: true`.\nSet it on the active profile in credentials.json, or pass --allow-writes."@
}

impl WriteGuardError {
    /// The message shown to the user.
    pub fn message(&self) -> (r: String)
        ensures
            r@ == write_guard_text(self.method@, self.path@),
    {
        let mut m = String::new();
        push_str(&mut m, "write blocked: the active Drata credential is not write-enabled.\nNon-GET requests (");
        push_str(&mut m, self.method.as_str());
        push_str(&mut m, " ");
        push_str(&mut m, self.path.as_str());
        push_str(
            &mut m,
            ") require a credential with `allow-writes: true`.\nSet it on the active profile in credentials.json, or pass --allow-writes.",
        );
        m
    }
}

/// Whether a JSON request with `method` may be sent: GET always, anything
/// else only on a write-enabled client.
pub fn write_guard(method: &str, path: &str, allow_writes: bool) -> (r: Result<(), WriteGuardError>)
    ensures
        r is Ok <==> (method@ == "GET"@ || allow_writes),
        r matches Err(e) ==> e.method@ == method@ && e.path@ == path@,
{
    if str_eq(method, "GET") || allow_writes {
        Ok(())
    } else {
        Err(WriteGuardError { method: method.to_string(), path: path.to_string() })
    }
}

/// Whether a multipart upload may be sent: only on a write-enabled client,
/// whatever the method.
pub fn multipart_guard(method: &str, path: &str, allow_writes: bool) -> (r: Result<(), WriteGuardError>)
    ensures
        r is Ok <==> allow_writes,
        r matches Err(e) ==> e.method@ == method@ && e.path@ == path@,
{
    if allow_writes {
        Ok(())
    } else {
        Err(WriteGuardError { method: method.to_string(), path: path.to_string() })
    }
}

// ---------------------------------------------------------------------------
// Multipart bodies
// ---------------------------------------------------------------------------

/// Text that can be taken as an owned `String`: `&str` and `String`.
pub trait IntoText: Sized {
    /// The characters the value stands for.
    spec fn text(&self) -> Seq<char>;

    /// The value as an owned string.
    fn into_text(self) -> (r: String)
        ensures
            r@ == self.text(),
    ;
}

impl<'a> IntoText for &'a str {
    open spec fn text(&self) -> Seq<char> {
        (*self)@
    }

    fn into_text(self) -> (r: String) {
        self.to_string()
    }
}

impl IntoText for String {
    open spec fn text(&self) -> Seq<char> {
        self@
    }

    fn into_text(self) -> (r: String) {
        self
    }
}

/// What `mime_guess::from_path(path).first_or_octet_stream()` renders to for
/// a path: the MIME type its extension maps to in the crate's static table,
/// `application/octet-stream` when there is none. It depends on the path
/// alone.
pub uninterp spec fn guessed_mime(path: Seq<char>) -> Seq<char>;

/// `mime_guess::from_path(..).first_or_octet_stream()`, as text.
#[verifier::external_body]
fn guess_mime(path: &str) -> (r: String)
    ensures
        r@ == guessed_mime(path@),
{
    mime_guess::from_path(path).first_or_octet_stream().to_string()
}

/// What `Path::file_name` gives for a path, when it is valid UTF-8: the
/// last component, `None` when the path ends in `..` or has no component.
/// It depends on the path alone.
pub uninterp spec fn path_file_name(path: Seq<char>) -> Option<Seq<char>>;

/// `std::path::Path::file_name`, as text.
#[verifier::external_body]
fn file_name(path: &str) -> (r: Option<String>)
    ensures
        match r {
            Some(n) => path_file_name(path@) == Some(n@),
            None => path_file_name(path@) is None,
        },
{
    std::path::Path::new(path).file_name().and_then(|n| n.to_str()).map(|n| n.to_string())
}

/// The file name an upload part is sent under: the path's last component,
/// or `upload` when it has none.
pub open spec fn upload_name(path: Seq<char>) -> Seq<char> {
    match path_file_name(path) {
        Some(n) => n,
        None => "upload"@,
    }
}

/// The file name and MIME type a file part is sent with.
pub fn upload_part_meta(path: &str) -> (r: (String, String))
    ensures
        r.0@ == upload_name(path@),
        r.1@ == guessed_mime(path@),
{
    let name = match file_name(path) {
        Some(n) => n,
        None => "upload".to_string(),
    };
    (name, guess_mime(path))
}

/// One named file part of a multipart/form-data body: `field` is the form
/// field name the endpoint expects (`file`, `files`, `externalEvidence`, ...)
/// and `path` the local file whose bytes are sent.
#[derive(Debug, Clone)]
pub struct FilePart {
    pub field: String,
    pub path: String,
}

/// A multipart/form-data body: named file parts plus scalar text fields, in
/// the order they were added.
#[derive(Debug)]
pub struct Multipart {
    pub files: Vec<FilePart>,
    pub fields: Vec<(String, String)>,
}

/// The field names and paths of the file parts.
pub open spec fn files_view(files: Seq<FilePart>) -> Seq<(Seq<char>, Seq<char>)> {
    files.map_values(|f: FilePart| (f.field@, f.path@))
}

/// The names and values of the scalar fields.
pub open spec fn fields_text(fields: Seq<(String, String)>) -> Seq<(Seq<char>, Seq<char>)> {
    fields.map_values(|f: (String, String)| (f.0@, f.1@))
}

impl Multipart {
    /// An empty body.
    pub fn new() -> (r: Self)
        ensures
            r.files@.len() == 0,
            r.fields@.len() == 0,
    {
        Multipart { files: Vec::new(), fields: Vec::new() }
    }

    /// A body with a single file part under `field`.
    pub fn single<F: IntoText, P: IntoText>(field: F, path: P) -> (r: Self)
        ensures
            files_view(r.files@) == seq![(field.text(), path.text())],
            r.fields@.len() == 0,
    {
        let mut form = Self::new();
        form.add_file(field, path);
        assert(files_view(form.files@) =~= seq![(field.text(), path.text())]);
        form
    }

    /// Appends a file part under the form field name `field`.
    pub fn add_file<F: IntoText, P: IntoText>(&mut self, field: F, path: P) -> (r: &mut Self)
        ensures
            files_view(r.files@) == files_view(old(self).files@).push((field.text(), path.text())),
            r.fields@ == old(self).fields@,
            *final(self) == *final(r),
    {
        let part = FilePart { field: field.into_text(), path: path.into_text() };
        self.files.push(part);
        assert(files_view(self.files@) =~= files_view(old(self).files@).push((field.text(), path.text())));
        self
    }

    /// Appends a scalar text field.
    pub fn add_field<N: IntoText, V: IntoText>(&mut self, name: N, value: V) -> (r: &mut Self)
        ensures
            fields_text(r.fields@) == fields_text(old(self).fields@).push((name.text(), value.text())),
            r.files@ == old(self).files@,
            *final(self) == *final(r),
    {
        let pair = (name.into_text(), value.into_text());
        self.fields.push(pair);
        assert(fields_text(self.fields@) =~= fields_text(old(self).fields@).push((name.text(), value.text())));
        self
    }

    /// Appends a scalar text field only when `value` is `Some`.
    pub fn add_opt_field<N: IntoText, V: IntoText>(&mut self, name: N, value: Option<V>) -> (r: &mut Self)
        ensures
            value is None ==> r.fields@ == old(self).fields@,
            value matches Some(v) ==> fields_text(r.fields@) == fields_text(old(self).fields@).push(
                (name.text(), v.text()),
            ),
            r.files@ == old(self).files@,
            *final(self) == *final(r),
    {
        match value {
            Some(v) => {
                let pair = (name.into_text(), v.into_text());
                self.fields.push(pair);
                assert(fields_text(self.fields@) =~= fields_text(old(self).fields@).push(
                    (name.text(), v.text()),
                ));
            },
            None => {},
        }
        self
    }

    /// True when the body carries no files and no fields.
    pub fn is_empty(&self) -> (r: bool)
        ensures
            r == (self.files@.len() == 0 && self.fields@.len() == 0),
    {
        self.files.len() == 0 && self.fields.len() == 0
    }
}

// ---------------------------------------------------------------------------
// Cursor pagination
// ---------------------------------------------------------------------------

/// The separator that starts the pagination parameters of `path`: `&` when
/// the path already carries a query, `?` otherwise.
pub open spec fn page_sep(path: Seq<char>) -> char {
    if path.contains('?') {
        '&'
    } else {
        '?'
    }
}

/// The request path for one page: the base path, the page size, and the
/// percent-encoded cursor when there is one.
pub open spec fn page_request(path: Seq<char>, cursor: Option<Seq<char>>) -> Seq<char> {
    path.push(page_sep(path)) + "size="@ + decimal(PAGINATION_SIZE as nat) + match cursor {
        Some(c) => "&cursor="@ + encoded_query(c),
        None => Seq::empty(),
    }
}

/// The first page is requested with `size=50` after `?`, or after `&` when
/// the path already carries a query.
pub proof fn lemma_first_page_request(path: Seq<char>)
    ensures
        page_request(path, None) == path.push(if path.contains('?') { '&' } else { '?' }) + seq!['s', 'i', 'z', 'e', '=', '5', '0'],
{
    reveal_strlit("size=");
    assert(decimal(5) == seq!['5']);
    assert(decimal(50) =~= seq!['5', '0']);
    assert(page_request(path, None) =~= path.push(page_sep(path)) + "size="@ + decimal(50));
    assert("size="@ =~= seq!['s', 'i', 'z', 'e', '=']);
}

/// The request for the page after cursor `c` is the first page's request
/// followed by `&cursor=` and the cursor percent-encoded (as `encode_query`
/// gives it): nothing of the cursor appears raw, so every character after
/// `cursor=` is safe in a query value (no `+`, `=`, `&`, `#` or space).
pub proof fn lemma_cursor_request(path: Seq<char>, c: Seq<char>)
    ensures
        page_request(path, Some(c)) == page_request(path, None) + "&cursor="@ + encoded_query(c),
        ({
            let head = page_request(path, None) + "&cursor="@;
            let full = page_request(path, Some(c));
            &&& full.subrange(0, head.len() as int) == head
            &&& forall|i: int| head.len() <= i < full.len() ==> query_safe(#[trigger] full[i])
        }),
{
    let head = page_request(path, None) + "&cursor="@;
    let full = page_request(path, Some(c));
    assert(full =~= head + encoded_query(c));
    lemma_encoded_query_safe(c);
    assert forall|i: int| head.len() <= i < full.len() implies query_safe(#[trigger] full[i]) by {
        assert(full[i] == encoded_query(c)[i - head.len()]);
    }
    assert(full.subrange(0, head.len() as int) =~= head);
}

/// The items a page carries: its `data` array, or nothing.
pub open spec fn page_items(resp: JsonV) -> Seq<JsonV> {
    match member_array(resp, "data"@) {
        Some(v) => v,
        None => Seq::empty(),
    }
}

/// The cursor of the next page: `pagination.cursor` when it is a non-empty
/// string; otherwise the listing is complete.
pub open spec fn next_cursor(resp: JsonV) -> Option<Seq<char>> {
    match member(resp, "pagination"@) {
        Some(p) => match member_str(p, "cursor"@) {
            Some(c) => if c.len() > 0 {
                Some(c)
            } else {
                None
            },
            None => None,
        },
        None => None,
    }
}

/// Why a cursor-paginated listing was abandoned.
#[derive(Debug)]
pub enum PageError {
    /// More than `MAX_PAGES` pages were requested.
    TooManyPages { path: String, streaming: bool },
    /// The server handed back a cursor it had already given: no forward
    /// progress.
    RepeatedCursor { cursor: String, path: String, streaming: bool },
}

impl PageError {
    /// The message shown to the user.
    pub fn message(&self) -> (r: String)
        ensures
            r@ == page_error_text(*self),
    {
        let mut m = String::new();
        match self {
            PageError::TooManyPages { path, streaming } => {
                if *streaming {
                    push_str(&mut m, "stream_all exceeded MAX_PAGES (");
                } else {
                    push_str(&mut m, "cursor pagination exceeded MAX_PAGES (");
                }
                push_decimal(&mut m, MAX_PAGES as u64);
                push_str(&mut m, ") for path ");
                push_str(&mut m, path.as_str());
                push_str(&mut m, "; the server may not be returning a terminal null cursor.");
                if !*streaming {
                    push_str(&mut m, " Use --all for streaming instead of buffering.");
                }
            },
            PageError::RepeatedCursor { cursor, path, streaming } => {
                push_str(&mut m, "repeated cursor ");
                push_str(&mut m, debug_quote(cursor.as_str()).as_str());
                if *streaming {
                    push_str(&mut m, " detected in stream_all on path ");
                } else {
                    push_str(&mut m, " detected on path ");
                }
                push_str(&mut m, path.as_str());
                push_str(&mut m, "; server is not making forward progress.");
                if !*streaming {
                    push_str(&mut m, " Aborting to avoid returning silently truncated results.");
                }
            },
        }
        m
    }
}

/// The text of a pagination error.
pub open spec fn page_error_text(e: PageError) -> Seq<char> {
    match e {
        PageError::TooManyPages { path, streaming } => (if streaming {
            "stream_all exceeded MAX_PAGES ("@
        } else {
            "cursor pagination exceeded MAX_PAGES ("@
        }) + decimal(MAX_PAGES as nat) + ") for path "@ + path@
            + "; the server may not be returning a terminal null cursor."@ + (if streaming {
            Seq::empty()
        } else {
            " Use --all for streaming instead of buffering."@
        }),
        PageError::RepeatedCursor { cursor, path, streaming } => "repeated cursor "@ + debug_text(cursor@) + (
        if streaming {
            " detected in stream_all on path "@
        } else {
            " detected on path "@
        }) + path@ + "; server is not making forward progress."@ + (if streaming {
            Seq::empty()
        } else {
            " Aborting to avoid returning silently truncated results."@
        }),
    }
}

/// The state of a cursor-paginated listing: the base path, the cursor to
/// send next, every cursor the server has handed out so far, and the number
/// of pages requested.
pub struct Paginator {
    path: String,
    streaming: bool,
    cursor: Option<String>,
    seen: Vec<String>,
    pages: u32,
}

/// The abstract state of a listing.
pub struct PagerV {
    pub path: Seq<char>,
    pub streaming: bool,
    pub cursor: Option<Seq<char>>,
    pub seen: Seq<Seq<char>>,
    pub pages: nat,
}

/// The characters of each string.
pub open spec fn strings_view(v: Seq<String>) -> Seq<Seq<char>> {
    v.map_values(|s: String| s@)
}

impl View for Paginator {
    type V = PagerV;

    closed spec fn view(&self) -> PagerV {
        PagerV {
            path: self.path@,
            streaming: self.streaming,
            cursor: match self.cursor {
                Some(c) => Some(c@),
                None => None,
            },
            seen: strings_view(self.seen@),
            pages: self.pages as nat,
        }
    }
}

impl Paginator {
    /// Every cursor was handed out once, the current cursor is the last one
    /// handed out, and at most `MAX_PAGES` pages were requested.
    #[verifier::type_invariant]
    closed spec fn inv(self) -> bool {
        &&& strings_view(self.seen@).no_duplicates()
        &&& self.pages <= MAX_PAGES
    }

    /// A listing of `path` that has not requested any page yet. `streaming`
    /// selects the wording of the errors of the NDJSON streaming path.
    pub fn new(path: &str, streaming: bool) -> (r: Paginator)
        ensures
            r@.path == path@,
            r@.streaming == streaming,
            r@.cursor is None,
            r@.seen.len() == 0,
            r@.pages == 0,
    {
        let p = Paginator {
            path: path.to_string(),
            streaming,
            cursor: None,
            seen: Vec::new(),
            pages: 0,
        };
        assert(strings_view(p.seen@) =~= Seq::<Seq<char>>::empty());
        p
    }

    /// The path of the next page to request. Refused once `MAX_PAGES` pages
    /// have been requested, so that a server that never returns a final
    /// page cannot keep the listing going forever.
    pub fn next_request(&mut self) -> (r: Result<String, PageError>)
        ensures
            r is Ok <==> old(self)@.pages < MAX_PAGES,
            r matches Ok(p) ==> p@ == page_request(old(self)@.path, old(self)@.cursor),
            r is Ok ==> final(self)@ == (PagerV { pages: old(self)@.pages + 1, ..old(self)@ }),
            r is Err ==> final(self)@ == old(self)@,
            r matches Err(e) ==> e == (PageError::TooManyPages {
                path: e->TooManyPages_path,
                streaming: old(self)@.streaming,
            }) && e->TooManyPages_path@ == old(self)@.path,
            final(self)@.pages <= MAX_PAGES,
    {
        proof {
            use_type_invariant(&*self);
        }
        if self.pages >= MAX_PAGES {
            return Err(PageError::TooManyPages { path: self.path.clone(), streaming: self.streaming });
        }
        *self = Paginator {
            path: self.path.clone(),
            streaming: self.streaming,
            cursor: self.cursor.clone(),
            seen: self.seen.clone(),
            pages: self.pages + 1,
        };
        let mut p = String::new();
        push_str(&mut p, self.path.as_str());
        let has_query = crate::text::has_char(crate::text::chars_of(self.path.as_str()).as_slice(), '?');
        if has_query {
            push_char(&mut p, '&');
        } else {
            push_char(&mut p, '?');
        }
        push_str(&mut p, "size=");
        push_decimal(&mut p, PAGINATION_SIZE as u64);
        match &self.cursor {
            Some(c) => {
                push_str(&mut p, "&cursor=");
                push_str(&mut p, encode_query(c.as_str()).as_str());
            },
            None => {},
        }
        assert(p@ =~= page_request(old(self)@.path, old(self)@.cursor));
        Ok(p)
    }

    /// Whether `c` was handed out before.
    fn was_seen(&self, c: &str) -> (r: bool)
        ensures
            r == self@.seen.contains(c@),
    {
        let mut i: usize = 0;
        while i < self.seen.len()
            invariant
                i <= self.seen@.len(),
                forall|k: int| 0 <= k < i ==> self.seen@[k]@ != c@,
            decreases self.seen.len() - i,
        {
            if str_eq(self.seen[i].as_str(), c) {
                assert(strings_view(self.seen@)[i as int] == c@);
                return true;
            }
            i = i + 1;
        }
        assert forall|k: int| 0 <= k < strings_view(self.seen@).len() implies strings_view(self.seen@)[k]
            != c@ by {
            assert(strings_view(self.seen@)[k] == self.seen@[k]@);
        }
        false
    }

    /// Takes in a page the server returned: gives back its items, and
    /// whether another page follows. A cursor the server already handed out
    /// aborts the listing rather than loop or return truncated results; the
    /// page's items are still handed back (a stream has written them before
    /// it stops).
    pub fn on_page(&mut self, resp: &Json) -> (r: (Vec<Json>, Result<bool, PageError>))
        ensures
            items_view(r.0@) == page_items(resp@),
            r.1 matches Ok(more) ==> more == next_cursor(resp@) is Some,
            next_cursor(resp@) is None ==> r.1 is Ok && final(self)@ == old(self)@,
            next_cursor(resp@) matches Some(c) ==> {
                if old(self)@.seen.contains(c) {
                    &&& r.1 matches Err(e)
                    &&& e matches PageError::RepeatedCursor { cursor, path, streaming }
                    &&& cursor@ == c
                    &&& path@ == old(self)@.path
                    &&& streaming == old(self)@.streaming
                    &&& final(self)@ == old(self)@
                } else {
                    &&& r.1 is Ok
                    &&& final(self)@ == (PagerV {
                        cursor: Some(c),
                        seen: old(self)@.seen.push(c),
                        ..old(self)@
                    })
                }
            },
            final(self)@.seen.no_duplicates(),
    {
        proof {
            use_type_invariant(&*self);
        }
        let mut items: Vec<Json> = Vec::new();
        match resp.get("data") {
            Some(d) => match d.as_array() {
                Some(arr) => {
                    proof {
                        lemma_items_view(arr@);
                    }
                    let mut i: usize = 0;
                    while i < arr.len()
                        invariant
                            i <= arr@.len(),
                            items_view(arr@).len() == arr@.len(),
                            forall|k: int| 0 <= k < arr@.len() ==> #[trigger] items_view(arr@)[k] == arr@[k]@,
                            items_view(items@) == items_view(arr@).subrange(0, i as int),
                        decreases arr.len() - i,
                    {
                        let c = arr[i].copy();
                        let ghost before = items@;
                        items.push(c);
                        proof {
                            assert(items@.drop_last() == before);
                            assert(items_view(arr@).subrange(0, i + 1) =~= items_view(arr@).subrange(
                                0,
                                i as int,
                            ).push(arr@[i as int]@));
                        }
                        i = i + 1;
                    }
                    assert(items_view(arr@).subrange(0, arr@.len() as int) =~= items_view(arr@));
                },
                None => {},
            },
            None => {},
        }
        let next: Option<&str> = match resp.get("pagination") {
            Some(p) => match p.get("cursor") {
                Some(c) => match c.as_str() {
                    Some(t) => if t.is_empty() {
                        None
                    } else {
                        Some(t)
                    },
                    None => None,
                },
                None => None,
            },
            None => None,
        };
        match next {
            Some(n) => {
                if self.was_seen(n) {
                    let e = PageError::RepeatedCursor {
                        cursor: n.to_string(),
                        path: self.path.clone(),
                        streaming: self.streaming,
                    };
                    return (items, Err(e));
                }
                let ghost old_seen = strings_view(self.seen@);
                let mut seen = self.seen.clone();
                proof {
                    assert(strings_view(seen@) =~= old_seen) by {
                        assert forall|k: int| 0 <= k < seen@.len() implies seen@[k]@ == self.seen@[k]@ by {
                            assert(cloned::<String>(self.seen@[k], seen@[k]));
                        }
                    }
                }
                seen.push(n.to_string());
                proof {
                    assert(strings_view(seen@) =~= old_seen.push(n@));
                    assert forall|a: int, b: int|
                        0 <= a < b < strings_view(seen@).len() implies strings_view(seen@)[a]
                        != strings_view(seen@)[b] by {
                        if b == old_seen.len() {
                            assert(old_seen[a] == strings_view(seen@)[a]);
                            assert(old_seen.contains(old_seen[a]));
                        }
                    }
                }
                *self = Paginator {
                    path: self.path.clone(),
                    streaming: self.streaming,
                    cursor: Some(n.to_string()),
                    seen,
                    pages: self.pages,
                };
                (items, Ok(true))
            },
            None => (items, Ok(false)),
        }
    }
}

// ---------------------------------------------------------------------------
// API errors
// ---------------------------------------------------------------------------

/// What `str::trim` leaves of a string: leading and trailing whitespace
/// (the Unicode White_Space characters) removed.
pub open spec fn trim_of(s: Seq<char>) -> Seq<char> {
    crate::text::trim_end(crate::text::trim_start(s))
}

/// `str::trim`.
#[verifier::external_body]
pub(crate) fn trim(s: &str) -> (r: &str)
    ensures
        r@ == trim_of(s@),
{
    s.trim()
}

/// The human-readable message of an error response, when the body carries
/// one: `message`, else `error.message`, else a string `error`.
pub open spec fn error_message(v: JsonV) -> Option<Seq<char>> {
    match member_str(v, "message"@) {
        Some(m) => Some(m),
        None => match member(v, "error"@) {
            Some(e) => match member_str(e, "message"@) {
                Some(m) => Some(m),
                None => match e {
                    JsonV::Str(m) => Some(m),
                    _ => None,
                },
            },
            None => None,
        },
    }
}

/// How one entry of an `errors` array is shown: a string as itself, any
/// other value as its compact JSON text.
pub open spec fn detail_text(v: JsonV) -> Seq<char> {
    match v {
        JsonV::Str(s) => s,
        _ => crate::json_text::compact(v),
    }
}

/// The entries of the `errors` array of an error body, shown as text.
pub open spec fn error_details(v: JsonV) -> Seq<Seq<char>> {
    match member_array(v, "errors"@) {
        Some(a) => a.map_values(|d: JsonV| detail_text(d)),
        None => Seq::empty(),
    }
}

/// Strings joined with `sep` between neighbours.
pub open spec fn join(parts: Seq<Seq<char>>, sep: Seq<char>) -> Seq<char>
    decreases parts.len(),
{
    if parts.len() == 0 {
        Seq::empty()
    } else if parts.len() == 1 {
        parts[0]
    } else {
        join(parts.drop_last(), sep) + sep + parts.last()
    }
}

/// The message of a failed API request. It always names the failing
/// `METHOD url`, and never hides the body: when no message is found at the
/// expected places, the raw body is shown.
pub open spec fn api_error_text(
    method: Seq<char>,
    url: Seq<char>,
    status: Seq<char>,
    body: Seq<char>,
    parsed: Option<JsonV>,
) -> Seq<char> {
    let head = "API error "@ + status + " on "@ + method + " "@ + url + ": "@;
    match parsed {
        Some(v) => match error_message(v) {
            Some(m) => head + m + if error_details(v).len() > 0 {
                "\nDetails: "@ + join(error_details(v), "; "@)
            } else {
                Seq::empty()
            },
            None => head + trim_of(body),
        },
        None => head + body,
    }
}

/// The first line of an API error: `API error <status> on <METHOD> <url>: `.
pub open spec fn error_head(method: Seq<char>, url: Seq<char>, status: Seq<char>) -> Seq<char> {
    "API error "@ + status + " on "@ + method + " "@ + url + ": "@
}

/// `text` is `head` followed by `m`, and then either nothing or a
/// `Details:` line.
pub open spec fn reports(text: Seq<char>, head: Seq<char>, m: Seq<char>) -> bool {
    let n = head.len() + m.len();
    &&& n <= text.len()
    &&& text.subrange(0, n as int) == head + m
    &&& (text.len() == n || (n + 10 <= text.len() && text.subrange(n as int, (n + 10) as int) == "\nDetails: "@))
}

/// Which message an API error shows. A top-level string `message` is shown
/// whatever else the body holds; without one, the `message` of an `error`
/// object; without that, an `error` that is itself a string. A body that is
/// not JSON is shown whole, so the failing request is always named and the
/// body never hidden.
pub proof fn lemma_error_message_precedence(
    method: Seq<char>,
    url: Seq<char>,
    status: Seq<char>,
    body: Seq<char>,
    v: JsonV,
)
    ensures
        member_str(v, "message"@) matches Some(m) ==> reports(
            api_error_text(method, url, status, body, Some(v)),
            error_head(method, url, status),
            m,
        ),
        member_str(v, "message"@) is None ==> (member(v, "error"@) matches Some(e) ==> (member_str(e, "message"@) matches Some(
            m,
        ) ==> reports(api_error_text(method, url, status, body, Some(v)), error_head(method, url, status), m))),
        member_str(v, "message"@) is None ==> (member(v, "error"@) matches Some(e) ==> (member_str(e, "message"@) is None ==> (
        e matches JsonV::Str(m) ==> reports(
            api_error_text(method, url, status, body, Some(v)),
            error_head(method, url, status),
            m,
        )))),
        api_error_text(method, url, status, body, None) == error_head(method, url, status) + body,
{
    let head = error_head(method, url, status);
    let text = api_error_text(method, url, status, body, Some(v));
    match error_message(v) {
        Some(m) => {
            let n = head.len() + m.len();
            if error_details(v).len() > 0 {
                reveal_strlit("\nDetails: ");
                assert("\nDetails: "@.len() == 10);
                let tail = "\nDetails: "@ + join(error_details(v), "; "@);
                assert(text =~= (head + m) + tail);
                assert(text.subrange(0, n as int) =~= head + m);
                assert(text.subrange(n as int, (n + 10) as int) =~= "\nDetails: "@);
            } else {
                assert(text =~= head + m);
                assert(text.subrange(0, n as int) =~= head + m);
            }
        },
        None => {},
    }
}

/// The message text of an error entry.
fn detail_of(v: &Json) -> (r: String)
    ensures
        r@ == detail_text(v@),
{
    match v.as_str() {
        Some(s) => s.to_string(),
        None => crate::json_text::to_compact(v),
    }
}

/// Formats an error response into a human-readable message. `status` is the
/// status line text (e.g. `400 Bad Request`); `parsed` is the body read as
/// JSON, `None` when it is not JSON.
pub fn format_api_error(method: &str, url: &str, status: &str, body: &str, parsed: Option<&Json>) -> (r: String)
    ensures
        r@ == api_error_text(method@, url@, status@, body@, match parsed {
            Some(v) => Some(v@),
            None => None,
        }),
{
    let mut m = String::new();
    push_str(&mut m, "API error ");
    push_str(&mut m, status);
    push_str(&mut m, " on ");
    push_str(&mut m, method);
    push_str(&mut m, " ");
    push_str(&mut m, url);
    push_str(&mut m, ": ");
    let ghost head = m@;
    match parsed {
        Some(v) => {
            let top: Option<&str> = match v.get("message") {
                Some(x) => x.as_str(),
                None => None,
            };
            let message: Option<&str> = match top {
                Some(t) => Some(t),
                None => match v.get("error") {
                    Some(e) => {
                        let inner: Option<&str> = match e.get("message") {
                            Some(x) => x.as_str(),
                            None => None,
                        };
                        match inner {
                            Some(t) => Some(t),
                            None => e.as_str(),
                        }
                    },
                    None => None,
                },
            };
            match message {
                Some(text) => {
                    assert(error_message(v@) == Some(text@));
                    push_str(&mut m, text);
                    match v.get("errors") {
                        Some(errs) => match errs.as_array() {
                            Some(arr) => {
                                if arr.len() > 0 {
                                    push_str(&mut m, "\nDetails: ");
                                    let ghost parts = error_details(v@);
                                    proof {
                                        crate::json::lemma_items_view(arr@);
                                    }
                                    let ghost start = m@;
                                    let mut i: usize = 0;
                                    while i < arr.len()
                                        invariant
                                            i <= arr@.len(),
                                            parts.len() == arr@.len(),
                                            forall|k: int| 0 <= k < arr@.len() ==> #[trigger] parts[k] == detail_text(arr@[k]@),
                                            m@ == start + join(parts.subrange(0, i as int), "; "@),
                                        decreases arr.len() - i,
                                    {
                                        if i > 0 {
                                            push_str(&mut m, "; ");
                                        }
                                        let d = detail_of(&arr[i]);
                                        push_str(&mut m, d.as_str());
                                        proof {
                                            let p = parts.subrange(0, i + 1);
                                            assert(p.drop_last() =~= parts.subrange(0, i as int));
                                            if i == 0 {
                                                assert(parts.subrange(0, 0).len() == 0);
                                            }
                                        }
                                        i = i + 1;
                                    }
                                    assert(parts.subrange(0, parts.len() as int) =~= parts);
                                    assert(m@ == head + text@ + "\nDetails: "@ + join(parts, "; "@));
                                } else {
                                    assert(error_details(v@).len() == 0);
                                }
                            },
                            None => {},
                        },
                        None => {},
                    }
                },
                None => {
                    assert(error_message(v@) is None);
                    push_str(&mut m, trim(body));
                },
            }
        },
        None => {
            push_str(&mut m, body);
        },
    }
    m
}

// ---------------------------------------------------------------------------
// Query strings
// ---------------------------------------------------------------------------

/// `key=value` pairs, percent-encoded, each preceded by its separator: `first`
/// before the first pair, `&` before the others.
pub open spec fn query_pairs(first: char, pairs: Seq<(Seq<char>, Seq<char>)>) -> Seq<char>
    decreases pairs.len(),
{
    if pairs.len() == 0 {
        Seq::empty()
    } else {
        query_pairs(first, pairs.drop_last()) + seq![if pairs.len() == 1 { first } else { '&' }]
            + encoded_query(pairs.last().0) + seq!['='] + encoded_query(pairs.last().1)
    }
}

/// `path` with the `pairs` appended as query parameters: after `?`, or after
/// `&` when the path already carries a query. No pairs leave it unchanged.
pub open spec fn with_query(path: Seq<char>, pairs: Seq<(Seq<char>, Seq<char>)>) -> Seq<char> {
    path + query_pairs(page_sep(path), pairs)
}

/// Appends one percent-encoded `key=value` pair after `sep`.
pub fn push_query_pair(out: &mut String, sep: char, key: &str, value: &str)
    ensures
        final(out)@ == old(out)@ + seq![sep] + encoded_query(key@) + seq!['='] + encoded_query(value@),
{
    push_char(out, sep);
    push_str(out, encode_query(key).as_str());
    push_char(out, '=');
    push_str(out, encode_query(value).as_str());
}

/// Query text built from pairs holds only URL-safe characters besides its
/// own `&` and `=` separators: every key and value is percent-encoded.
proof fn lemma_query_pairs_safe(first: char, pairs: Seq<(Seq<char>, Seq<char>)>)
    requires
        query_safe(first) || first == '&',
    ensures
        forall|i: int|
            0 <= i < query_pairs(first, pairs).len() ==> query_safe(#[trigger] query_pairs(first, pairs)[i])
                || query_pairs(first, pairs)[i] == '&' || query_pairs(first, pairs)[i] == '=',
    decreases pairs.len(),
{
    if pairs.len() > 0 {
        let prev = query_pairs(first, pairs.drop_last());
        lemma_query_pairs_safe(first, pairs.drop_last());
        let k = encoded_query(pairs.last().0);
        let v = encoded_query(pairs.last().1);
        lemma_encoded_query_safe(pairs.last().0);
        lemma_encoded_query_safe(pairs.last().1);
        let sep = seq![if pairs.len() == 1 { first } else { '&' }];
        let q = query_pairs(first, pairs);
        assert(q == prev + sep + k + seq!['='] + v);
        assert forall|i: int| 0 <= i < q.len() implies query_safe(#[trigger] q[i]) || q[i] == '&' || q[i] == '=' by {
            let a = prev.len() as int;
            let b = a + 1;
            let c = b + k.len();
            let d = c + 1;
            if i < a {
                assert(q[i] == prev[i]);
            } else if i < b {
                assert(q[i] == sep[0]);
            } else if i < c {
                assert(q[i] == k[i - b]);
            } else if i < d {
                assert(q[i] == '=');
            } else {
                assert(q[i] == v[i - d]);
            }
        }
    }
}

/// Appending query pairs keeps the path and adds only URL-safe characters
/// besides the `?`/`&` and `=` separators: keys and values (an `--expand`
/// value, a `--query` entry) are always percent-encoded.
pub proof fn lemma_with_query_encoded(path: Seq<char>, pairs: Seq<(Seq<char>, Seq<char>)>)
    ensures
        with_query(path, pairs).subrange(0, path.len() as int) == path,
        forall|i: int|
            path.len() <= i < with_query(path, pairs).len() ==> query_safe(#[trigger] with_query(path, pairs)[i])
                || with_query(path, pairs)[i] == '&' || with_query(path, pairs)[i] == '=',
{
    let sep = page_sep(path);
    lemma_query_pairs_safe(sep, pairs);
    let q = query_pairs(sep, pairs);
    let w = with_query(path, pairs);
    assert(w.subrange(0, path.len() as int) =~= path);
    assert forall|i: int| path.len() <= i < w.len() implies query_safe(#[trigger] w[i]) || w[i] == '&' || w[i] == '=' by {
        assert(w[i] == q[i - path.len()]);
    }
}

/// No pairs leave a path unchanged.
pub proof fn lemma_no_pairs_unchanged(path: Seq<char>)
    ensures
        with_query(path, Seq::empty()) == path,
{
    assert(path + Seq::<char>::empty() =~= path);
}

/// The first appended pair follows `?`, or `&` when the path already
/// carries a query; the path itself is kept as a prefix.
pub proof fn lemma_first_separator(path: Seq<char>, pairs: Seq<(Seq<char>, Seq<char>)>)
    requires
        pairs.len() > 0,
    ensures
        with_query(path, pairs).len() > path.len(),
        with_query(path, pairs).subrange(0, path.len() as int) == path,
        with_query(path, pairs)[path.len() as int] == (if path.contains('?') {
            '&'
        } else {
            '?'
        }),
    decreases pairs.len(),
{
    let sep = page_sep(path);
    lemma_query_pairs_start(sep, pairs);
    let q = query_pairs(sep, pairs);
    assert(with_query(path, pairs) == path + q);
    assert((path + q).subrange(0, path.len() as int) =~= path);
    assert((path + q)[path.len() as int] == q[0]);
}

/// Query pairs start with the first separator.
proof fn lemma_query_pairs_start(first: char, pairs: Seq<(Seq<char>, Seq<char>)>)
    requires
        pairs.len() > 0,
    ensures
        query_pairs(first, pairs).len() > 0,
        query_pairs(first, pairs)[0] == first,
    decreases pairs.len(),
{
    let prev = query_pairs(first, pairs.drop_last());
    let tail = seq![if pairs.len() == 1 { first } else { '&' }] + encoded_query(pairs.last().0) + seq!['=']
        + encoded_query(pairs.last().1);
    assert(query_pairs(first, pairs) == prev + tail);
    if pairs.len() > 1 {
        lemma_query_pairs_start(first, pairs.drop_last());
        assert((prev + tail)[0] == prev[0]);
    } else {
        assert(prev.len() == 0);
        assert((prev + tail)[0] == tail[0]);
    }
}

/// The separator before the first parameter appended to `path`.
pub fn query_sep(path: &str) -> (c: char)
    ensures
        c == page_sep(path@),
{
    if crate::text::has_char(crate::text::chars_of(path).as_slice(), '?') {
        '&'
    } else {
        '?'
    }
}

// ---------------------------------------------------------------------------
// Responses and retries
// ---------------------------------------------------------------------------

/// The number a `Retry-After` value denotes, read as `str::parse::<u64>`
/// reads it: an optional `+`, then at least one decimal digit, within the
/// range of `u64`.
pub open spec fn u64_text(t: Seq<char>) -> Option<nat> {
    let d = if t.len() > 0 && t[0] == '+' {
        t.drop_first()
    } else {
        t
    };
    if d.len() == 0 || !all_digits(d) || digits_value(d) > u64::MAX {
        None
    } else {
        Some(digits_value(d))
    }
}

/// Parses a decimal `u64` the way `str::parse::<u64>` does.
pub fn parse_u64(s: &str) -> (r: Option<u64>)
    ensures
        match u64_text(s@) {
            Some(n) => r == Some(n as u64),
            None => r is None,
        },
{
    let cs = crate::text::chars_of(s);
    let start: usize = if cs.len() > 0 && cs[0] == '+' { 1 } else { 0 };
    let ghost d = if s@.len() > 0 && s@[0] == '+' { s@.drop_first() } else { s@ };
    assert(cs@.subrange(start as int, cs@.len() as int) =~= d);
    if start == cs.len() {
        return None;
    }
    let mut v: u64 = 0;
    let mut i: usize = start;
    while i < cs.len()
        invariant
            start <= i <= cs@.len(),
            cs@ == s@,
            d == (if s@.len() > 0 && s@[0] == '+' { s@.drop_first() } else { s@ }),
            d.len() > 0,
            d == cs@.subrange(start as int, cs@.len() as int),
            all_digits(d.subrange(0, i - start)),
            v as nat == digits_value(d.subrange(0, i - start)),
        decreases cs.len() - i,
    {
        let c = cs[i];
        let ghost k = i - start;
        proof {
            assert(d.subrange(0, k + 1).drop_last() =~= d.subrange(0, k));
            assert(d.subrange(0, k + 1).last() == c);
        }
        if c < '0' || c > '9' {
            assert(!all_digits(d));
            return None;
        }
        let dg = (c as u32 - '0' as u32) as u64;
        if v > (u64::MAX - dg) / 10 {
            proof {
                crate::pointer::lemma_digits_prefix_le(d, k + 1);
                assert(digits_value(d.subrange(0, k + 1)) == v * 10 + dg);
                assert(v * 10 + dg > u64::MAX) by (nonlinear_arith)
                    requires
                        v > (u64::MAX - dg) / 10,
                        dg <= 9,
                ;
                assert(all_digits(d.subrange(0, k + 1)));
            }
            return None;
        }
        v = v * 10 + dg;
        i = i + 1;
    }
    assert(d.subrange(0, d.len() as int) =~= d);
    Some(v)
}

/// The seconds to wait before retrying a rate-limited request: the
/// server's `Retry-After` when it is a number, else the default, and never
/// more than `MAX_RETRY_DELAY_SECS`.
pub open spec fn retry_delay(retry_after: Option<Seq<char>>) -> nat {
    let asked: nat = match retry_after {
        Some(h) => match u64_text(h) {
            Some(n) => n,
            None => DEFAULT_RETRY_DELAY_SECS as nat,
        },
        None => DEFAULT_RETRY_DELAY_SECS as nat,
    };
    if asked < MAX_RETRY_DELAY_SECS {
        asked
    } else {
        MAX_RETRY_DELAY_SECS as nat
    }
}

/// A rate-limited request never waits longer than `MAX_RETRY_DELAY_SECS`; it
/// waits what the server's numeric `Retry-After` asks when that is within the
/// bound, and `DEFAULT_RETRY_DELAY_SECS` when the header is missing or not a
/// number.
pub proof fn lemma_retry_delay_bounded(retry_after: Option<Seq<char>>)
    ensures
        retry_delay(retry_after) <= MAX_RETRY_DELAY_SECS,
        retry_after matches Some(h) ==> (u64_text(h) matches Some(n) ==> (n <= MAX_RETRY_DELAY_SECS ==> retry_delay(
            retry_after,
        ) == n)),
        retry_after matches Some(h) ==> (u64_text(h) is None ==> retry_delay(retry_after) == DEFAULT_RETRY_DELAY_SECS),
        retry_after is None ==> retry_delay(retry_after) == DEFAULT_RETRY_DELAY_SECS,
{
}

/// What to do with the response to the `attempts`-th sending of a request.
#[derive(Debug, Clone, Copy, PartialEq, Eq, Structural)]
pub enum Reply {
    /// 429: wait `delay` seconds and send it again.
    Retry { delay: u64 },
    /// 429 once too often: give up.
    RateLimited,
    /// 204: the result is JSON `null`.
    NoContent,
    /// Any other status outside 2xx: an API error.
    Failed,
    /// A 2xx status: the body is the JSON result.
    Success,
}

/// Decides on the response to the `attempts`-th sending (counting from 1):
/// a 429 is retried after the delay the server asks for (bounded) until
/// `MAX_RETRY_ATTEMPTS` attempts were made; 204 is `null`; other non-2xx
/// statuses are errors.
pub fn on_response(attempts: u32, status: u16, retry_after: Option<&str>) -> (r: Reply)
    ensures
        status == 429 && attempts > MAX_RETRY_ATTEMPTS ==> r == Reply::RateLimited,
        status == 429 && attempts <= MAX_RETRY_ATTEMPTS ==> r == (Reply::Retry {
            delay: retry_delay(
                match retry_after {
                    Some(h) => Some(h@),
                    None => None,
                },
            ) as u64,
        }),
        status == 204 ==> r == Reply::NoContent,
        status != 429 && status != 204 && !(200 <= status < 300) ==> r == Reply::Failed,
        status != 204 && 200 <= status < 300 ==> r == Reply::Success,
        r matches Reply::Retry { delay } ==> delay <= MAX_RETRY_DELAY_SECS && attempts <= MAX_RETRY_ATTEMPTS,
{
    if status == 429 {
        if attempts > MAX_RETRY_ATTEMPTS {
            return Reply::RateLimited;
        }
        let asked = match retry_after {
            Some(h) => match parse_u64(h) {
                Some(n) => n,
                None => DEFAULT_RETRY_DELAY_SECS,
            },
            None => DEFAULT_RETRY_DELAY_SECS,
        };
        let delay = if asked < MAX_RETRY_DELAY_SECS { asked } else { MAX_RETRY_DELAY_SECS };
        return Reply::Retry { delay };
    }
    if status == 204 {
        return Reply::NoContent;
    }
    if status < 200 || status >= 300 {
        return Reply::Failed;
    }
    Reply::Success
}

/// The error after too many rate-limited attempts.
pub open spec fn rate_limited_text(multipart: bool) -> Seq<char> {
    if multipart {
        "Rate limited after 3 attempts (multipart)"@
    } else {
        "Rate limited after 3 attempts"@
    }
}

/// Whether a failed GET of a lookup means the resource is absent: a 404 is
/// "not there" (the lookup answers `None`); any other failure stays an error.
pub fn failure_means_absent(status: u16) -> (r: bool)
    ensures
        r == (status == 404),
{
    status == 404
}

/// The message after too many rate-limited attempts of a JSON or a
/// multipart request.
pub fn rate_limited_message(multipart: bool) -> (r: String)
    ensures
        r@ == rate_limited_text(multipart),
{
    let mut m = String::new();
    if multipart {
        push_str(&mut m, "Rate limited after 3 attempts (multipart)");
    } else {
        push_str(&mut m, "Rate limited after 3 attempts");
    }
    m
}

} // verus!
