//! The calls into other crates, each with the contract that the library
//! relies on.
use vstd::prelude::*;
use vstd::utf8::*;

use crate::text::{no_breaks, opt_text, texts};

verus! {

/// What the library reads of a parsed URL.
#[derive(Debug)]
pub struct UrlParts {
    /// The text of the URL.
    pub text: String,
    pub scheme: String,
    pub host: Option<String>,
    /// The port, where it is not the usual one of the scheme.
    pub port: Option<u16>,
    /// The segments of the path, still percent-encoded; none where the path
    /// is opaque, as in `magnet:?xt=...`.
    pub path_segments: Option<Vec<String>>,
    /// The query, still percent-encoded.
    pub query: Option<String>,
    /// The decoded pairs of the query, in order.
    pub query_pairs: Vec<(String, String)>,
    /// The fragment, still percent-encoded.
    pub fragment: Option<String>,
}

/// What a [`UrlParts`] stands for.
pub struct UrlView {
    pub text: Seq<char>,
    pub scheme: Seq<char>,
    pub host: Option<Seq<char>>,
    pub port: Option<u16>,
    pub path_segments: Option<Seq<Seq<char>>>,
    pub query: Option<Seq<char>>,
    pub query_pairs: Seq<(Seq<char>, Seq<char>)>,
    pub fragment: Option<Seq<char>>,
}

/// The texts of a list of pairs of strings.
pub open spec fn pair_texts(v: Seq<(String, String)>) -> Seq<(Seq<char>, Seq<char>)> {
    v.map_values(|p: (String, String)| (p.0@, p.1@))
}

impl View for UrlParts {
    type V = UrlView;

    open spec fn view(&self) -> UrlView {
        UrlView {
            text: self.text@,
            scheme: self.scheme@,
            host: opt_text(self.host),
            port: self.port,
            path_segments: match self.path_segments {
                Some(segments) => Some(texts(segments@)),
                None => None,
            },
            query: opt_text(self.query),
            query_pairs: pair_texts(self.query_pairs@),
            fragment: opt_text(self.fragment),
        }
    }
}

/// What a result of texts stands for.
pub open spec fn text_result(r: Result<String, String>) -> Result<Seq<char>, Seq<char>> {
    match r {
        Ok(text) => Ok(text@),
        Err(reason) => Err(reason@),
    }
}

/// What `url::Url::parse` makes of a text: the parts of the URL, or the
/// message of the error.
pub uninterp spec fn parsed_url(input: Seq<char>) -> Result<UrlView, Seq<char>>;

/// The text of the URL that `url::Url::join` makes of a reference, against the
/// URL that the first text is parsed into; or the message of the error, of the
/// parse or of the join.
pub uninterp spec fn joined_url(base: Seq<char>, reference: Seq<char>) -> Result<
    Seq<char>,
    Seq<char>,
>;

/// The text of the URL that the first text is parsed into, without its
/// fragment and with the given pairs for its query.
pub uninterp spec fn requeried_url(
    input: Seq<char>,
    pairs: Seq<(Seq<char>, Seq<char>)>,
) -> Option<Seq<char>>;

/// The text of the URL that a text is parsed into, without its query.
pub uninterp spec fn unqueried_url(input: Seq<char>) -> Option<Seq<char>>;

/// A magnet link of one topic: the BitTorrent info-hash of the given text.
pub open spec fn magnet_text(hash: Seq<char>) -> Seq<char> {
    "magnet:?xt=urn:btih:"@ + hash
}

/// Whether a text is made of ASCII letters and digits.
pub open spec fn is_alphanumeric(s: Seq<char>) -> bool {
    forall|i: int|
        0 <= i < s.len() ==> '0' <= #[trigger] s[i] <= '9' || 'A' <= s[i] <= 'Z' || 'a' <= s[i]
            <= 'z'
}

/// What a parse result stands for.
pub open spec fn parse_view(r: Result<UrlParts, String>) -> Result<UrlView, Seq<char>> {
    match r {
        Ok(parts) => Ok(parts@),
        Err(reason) => Err(reason@),
    }
}

/// A plain magnet link is read as a URL of that scheme, with its topic for the
/// only pair.
pub open spec fn reads_magnet(input: Seq<char>, url: Result<UrlView, Seq<char>>) -> bool {
    forall|hash: Seq<char>|
        is_alphanumeric(hash) && input == #[trigger] magnet_text(hash) ==> (url matches Ok(parts)
            && parts.scheme == "magnet"@ && parts.query_pairs == seq![
            ("xt"@, "urn:btih:"@ + hash),
        ])
}

/// Only a question mark brings a query, and only a query brings pairs.
pub open spec fn reads_query(input: Seq<char>, url: Result<UrlView, Seq<char>>) -> bool {
    url matches Ok(parts) ==> {
        &&& !input.contains('?') ==> parts.query is None
        &&& parts.query is None ==> parts.query_pairs.len() == 0
    }
}

/// Whether a URL is one of the web.
pub open spec fn is_web(url: UrlView) -> bool {
    url.scheme == "http"@ || url.scheme == "https"@
}

/// Whether a URL is one of the web whose own text is read as that URL. That is
/// not so of every URL of the web: a host of many ideographs is accepted, and
/// the long label of ASCII that stands for it in the text is not.
pub open spec fn reads_as_itself(url: UrlView) -> bool {
    is_web(url) && parsed_url(url.text) == Ok::<UrlView, Seq<char>>(url)
}

/// Whether a text is a plain name of a file: ASCII letters, digits, hyphens,
/// underscores and dots, and not dots alone.
pub open spec fn is_plain_name(s: Seq<char>) -> bool {
    &&& forall|i: int|
        0 <= i < s.len() ==> '0' <= #[trigger] s[i] <= '9' || 'A' <= s[i] <= 'Z' || 'a' <= s[i]
            <= 'z' || s[i] == '-' || s[i] == '_' || s[i] == '.'
    &&& exists|i: int| 0 <= i < s.len() && #[trigger] s[i] != '.'
}

/// The URL of a file beside the one that a URL names.
pub open spec fn beside(base: UrlView, name: Seq<char>, text: Seq<char>) -> UrlView {
    UrlView {
        text,
        path_segments: Some(
            match base.path_segments {
                Some(segments) => segments.drop_last().push(name),
                None => seq![name],
            },
        ),
        query: None,
        query_pairs: Seq::empty(),
        fragment: None,
        ..base
    }
}

/// A plain name is joined to a URL of the web, whose own text is read as that
/// URL, in place of its last segment, and the text of the joined URL is read as
/// the joined URL.
pub open spec fn joins_name(
    base: Result<UrlView, Seq<char>>,
    name: Seq<char>,
    joined: Result<Seq<char>, Seq<char>>,
) -> bool {
    base matches Ok(url) ==> reads_as_itself(url) && is_plain_name(name) ==> (joined matches Ok(
        text,
    ) && parsed_url(text) == Ok::<UrlView, Seq<char>>(beside(url, name, text)))
}

/// The fragment of a URL as it stands at the end of the URL's text.
pub open spec fn fragment_text(fragment: Option<Seq<char>>) -> Seq<char> {
    match fragment {
        Some(f) => "#"@ + f,
        None => Seq::empty(),
    }
}

/// Whether two URLs differ in nothing but their texts and their queries.
pub open spec fn same_place(a: UrlView, b: UrlView) -> bool {
    &&& a.scheme == b.scheme
    &&& a.host == b.host
    &&& a.port == b.port
    &&& a.path_segments == b.path_segments
    &&& a.fragment == b.fragment
}

/// A URL of the web, whose own text is read as that URL, and whose pairs were
/// written anew: followed by the fragment of the URL before, it is read as the
/// same place with the new pairs, and writing those again changes nothing. It
/// is read at all where the fragment starts within four gigabytes.
pub open spec fn writes_pairs(
    before: Result<UrlView, Seq<char>>,
    pairs: Seq<(Seq<char>, Seq<char>)>,
    bare: Option<Seq<char>>,
) -> bool {
    before matches Ok(url) ==> reads_as_itself(url) ==> (bare matches Some(text) && {
        let whole = text + fragment_text(url.fragment);
        &&& text.len() <= u32::MAX ==> parsed_url(whole) is Ok
        &&& parsed_url(whole) matches Ok(after) ==> {
            &&& same_place(after, url)
            &&& after.text == whole
            &&& requeried_url(whole, pairs) == Some(text)
        }
    })
}

/// A URL of the web whose query was removed. The text of one that has no query
/// stays. Where the URL's own text is read as the URL, the result is read as the
/// same place without a query, and removing the query again changes nothing.
pub open spec fn clears_query(
    before: Result<UrlView, Seq<char>>,
    cleared: Option<Seq<char>>,
) -> bool {
    before matches Ok(url) ==> is_web(url) ==> (cleared matches Some(text) && {
        &&& url.query is None ==> text == url.text
        &&& reads_as_itself(url) ==> {
            &&& parsed_url(text) == Ok::<UrlView, Seq<char>>(
                UrlView { text, query: None, query_pairs: Seq::empty(), ..url },
            )
            &&& unqueried_url(text) == Some(text)
        }
    })
}

/// Whether the text of a URL, where there is one, is a single line.
pub open spec fn is_single_line(text: Option<Seq<char>>) -> bool {
    text matches Some(t) ==> no_breaks(t)
}

/// Whether the fragment of a URL is a single line.
pub open spec fn reads_fragment(url: Result<UrlView, Seq<char>>) -> bool {
    url matches Ok(parts) ==> is_single_line(parts.fragment)
}

/// Calls `url::Url::parse`, and reads the parts of the URL that it returns
/// with `as_str`, `scheme`, `host_str`, `port`, `path_segments`, `query`,
/// `query_pairs` and `fragment`. The contract claims that they depend on the
/// text alone, that a plain magnet link is a URL of that scheme with its topic
/// for the only pair, nothing in it being encoded, that a text without a
/// question mark gives no query and a URL without a query no pairs, and that a
/// fragment holds no line breaks: the parser skips them.
#[verifier::external_body]
pub(crate) fn url_parse(input: &str) -> (r: Result<UrlParts, String>)
    ensures
        parse_view(r) == parsed_url(input@),
        reads_magnet(input@, parse_view(r)),
        reads_query(input@, parse_view(r)),
        reads_fragment(parse_view(r)),
{
    match url::Url::parse(input) {
        Ok(u) => Ok(UrlParts {
            text: u.as_str().to_owned(),
            scheme: u.scheme().to_owned(),
            host: u.host_str().map(str::to_owned),
            port: u.port(),
            path_segments: u.path_segments().map(|s| s.map(str::to_owned).collect()),
            query: u.query().map(str::to_owned),
            query_pairs: u.query_pairs().into_owned().collect(),
            fragment: u.fragment().map(str::to_owned),
        }),
        Err(e) => Err(e.to_string()),
    }
}

/// Calls `url::Url::join` on the URL that the base is parsed into. The
/// contract claims that the text of the joined URL, or the message of the
/// error, depends on the two texts alone, and that the text holds no line
/// breaks. It also claims that a plain name takes the place of the last segment
/// of a URL of the web, without query and fragment. The text before the path is
/// left as it is, so the result is read as that URL where the text of the base
/// is read as the base.
#[verifier::external_body]
pub(crate) fn url_join(base: &str, reference: &str) -> (r: Result<String, String>)
    ensures
        text_result(r) == joined_url(base@, reference@),
        joins_name(parsed_url(base@), reference@, text_result(r)),
        r matches Ok(text) ==> no_breaks(text@),
{
    url::Url::parse(base).and_then(|u| u.join(reference)).map(|u| u.to_string()).map_err(
        |e| e.to_string(),
    )
}

/// Replaces the query of a URL with `url::Url::query_pairs_mut`, `clear` and
/// `extend_pairs`, after `set_fragment(None)`. The URL has a query already:
/// otherwise the call panics on a URL of more than four gigabytes. The
/// contract claims that the text depends on the arguments alone, that there is
/// one, and that reading the URL back, with any fragment appended, gives the
/// pairs that were written: the query that is written holds letters, digits
/// and `*-._+%&=` alone, and nothing before it holds a `?` or a `#`. No URL
/// holds a line break. Of a URL of the web it also claims what [`writes_pairs`]
/// says: only the query is touched, so the result is read where the text of
/// the URL is.
#[verifier::external_body]
pub(crate) fn url_set_pairs(input: &str, pairs: &Vec<(String, String)>) -> (r: Option<String>)
    requires
        parsed_url(input@) matches Ok(parts) && parts.query_pairs.len() > 0,
        pairs@.len() > 0,
    ensures
        opt_text(r) == requeried_url(input@, pair_texts(pairs@)),
        r is Some,
        forall|tail: Seq<char>|
            tail.len() == 0 || tail[0] == '#' ==> (#[trigger] parsed_url(r->0@ + tail) matches Ok(
                parts,
            ) ==> parts.query_pairs == pair_texts(pairs@)),
        writes_pairs(parsed_url(input@), pair_texts(pairs@), opt_text(r)),
        is_single_line(opt_text(r)),
{
    let mut u = url::Url::parse(input).ok()?;
    u.set_fragment(None);
    u.query_pairs_mut().clear().extend_pairs(pairs);
    Some(u.to_string())
}

/// Removes the query of a URL with `url::Url::set_query(None)`. The contract
/// claims that the text depends on the argument alone, that there is one
/// exactly where the argument is a URL, and that reading the URL back gives no
/// pairs. No URL holds a line break. Of a URL of the web it also claims what
/// [`clears_query`] says: only the query is touched, so the result is read
/// where the text of the URL is.
#[verifier::external_body]
pub(crate) fn url_clear_query(input: &str) -> (r: Option<String>)
    ensures
        opt_text(r) == unqueried_url(input@),
        r is Some <==> parsed_url(input@) is Ok,
        r matches Some(text) ==> (parsed_url(text@) matches Ok(parts) ==> parts.query_pairs.len()
            == 0),
        clears_query(parsed_url(input@), opt_text(r)),
        is_single_line(opt_text(r)),
{
    let mut u = url::Url::parse(input).ok()?;
    u.set_query(None);
    Some(u.to_string())
}

/// The capital hexadecimal digit of a number below sixteen.
pub open spec fn hex_digit_upper(d: nat) -> char {
    if d < 10 {
        (48 + d) as u8 as char
    } else {
        (55 + d) as u8 as char
    }
}

/// The small hexadecimal digit of a number below sixteen.
pub open spec fn hex_digit_lower(d: nat) -> char {
    if d < 10 {
        (48 + d) as u8 as char
    } else {
        (87 + d) as u8 as char
    }
}

/// Whether a byte is an ASCII letter or digit.
pub open spec fn is_alphanumeric_byte(b: u8) -> bool {
    48 <= b <= 57 || 65 <= b <= 90 || 97 <= b <= 122
}

/// The percent-encoding of a byte: ASCII letters and digits stand for
/// themselves.
pub open spec fn percent_byte(b: u8) -> Seq<char> {
    if is_alphanumeric_byte(b) {
        seq![b as char]
    } else {
        seq!['%', hex_digit_upper((b / 16) as nat), hex_digit_upper((b % 16) as nat)]
    }
}

/// The percent-encoding of a row of bytes.
pub open spec fn percent_encoded(bytes: Seq<u8>) -> Seq<char>
    decreases bytes.len(),
{
    if bytes.len() == 0 {
        Seq::empty()
    } else {
        percent_encoded(bytes.drop_last()) + percent_byte(bytes.last())
    }
}

/// Two small hexadecimal digits for each byte.
pub open spec fn hex_encoded(bytes: Seq<u8>) -> Seq<char>
    decreases bytes.len(),
{
    if bytes.len() == 0 {
        Seq::empty()
    } else {
        hex_encoded(bytes.drop_last()).push(hex_digit_lower((bytes.last() / 16) as nat)).push(
            hex_digit_lower((bytes.last() % 16) as nat),
        )
    }
}

/// Calls `percent_encoding::utf8_percent_encode` with `NON_ALPHANUMERIC`: every
/// byte of the UTF-8 form but ASCII letters and digits becomes a percent sign
/// and two capital hexadecimal digits.
#[verifier::external_body]
pub(crate) fn percent_encode(value: &str) -> (r: String)
    ensures
        r@ == percent_encoded(encode_utf8(value@)),
{
    percent_encoding::utf8_percent_encode(value, percent_encoding::NON_ALPHANUMERIC).to_string()
}

/// Calls `hex::encode`: two small hexadecimal digits for each byte, the high
/// half first.
#[verifier::external_body]
pub(crate) fn hex_encode(bytes: &Vec<u8>) -> (r: String)
    ensures
        r@ == hex_encoded(bytes@),
{
    hex::encode(bytes)
}

/// Whether a byte may stand in the value of an HTTP header.
pub open spec fn is_header_byte(b: u8) -> bool {
    b == 9 || (b >= 32 && b != 127)
}

/// Whether a text may be the value of an HTTP header.
pub open spec fn is_header_value(s: Seq<char>) -> bool {
    forall|i: int|
        0 <= i < encode_utf8(s).len() ==> is_header_byte(#[trigger] encode_utf8(s)[i])
}

/// Calls `axum::http::HeaderValue::from_str`, which refuses a text whose UTF-8
/// form holds a control byte other than the tab, and returns the message of
/// its error.
#[verifier::external_body]
pub(crate) fn header_value_error(value: &str) -> (r: Option<String>)
    ensures
        r is None <==> is_header_value(value@),
        r matches Some(message) ==> message@ == "failed to parse header value"@,
{
    axum::http::HeaderValue::from_str(value).err().map(|e| e.to_string())
}

/// The error of `std::str::from_utf8`.
#[verifier::external_type_specification]
#[verifier::external_body]
pub struct ExUtf8Error(std::str::Utf8Error);

/// `std::str::from_utf8` reads the bytes as text exactly where they are valid
/// UTF-8, and the text is the one that they encode.
pub assume_specification[ std::str::from_utf8 ](v: &[u8]) -> (r: Result<
    &str,
    std::str::Utf8Error,
>)
    ensures
        r is Ok <==> valid_utf8(v@),
        r matches Ok(s) ==> s@ == decode_utf8(v@),
;

} // verus!
