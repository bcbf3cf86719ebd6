//! URLs, percent-encoding and timestamps.
use vstd::prelude::*;
use crate::error::{text_outcome, Error, ErrorView};
use crate::size::byte_size;
use crate::split::{join, join_parts, push_part, split, split_on};
use crate::text::{copy, opt_view, pair_view, views};

verus! {

/// A URL as it is written in full, and the parts that requests are decided by. The port is the
/// one that the scheme implies where the URL names none. The path is still percent-encoded; the
/// query is not.
pub struct UrlParts {
    pub text: String,
    pub scheme: String,
    pub host: Option<String>,
    pub port: Option<u16>,
    pub path: String,
    pub query: Vec<(String, String)>,
}

/// What the parts of a URL hold.
#[verifier::ext_equal]
pub struct UrlView {
    pub text: Seq<char>,
    pub scheme: Seq<char>,
    pub host: Option<Seq<char>>,
    pub port: Option<u16>,
    pub path: Seq<char>,
    pub query: Seq<(Seq<char>, Seq<char>)>,
}

/// The texts that a list of pairs of strings holds.
pub open spec fn pairs_view(pairs: Seq<(String, String)>) -> Seq<(Seq<char>, Seq<char>)> {
    pairs.map_values(|pair: (String, String)| pair_view(pair))
}

impl View for UrlParts {
    type V = UrlView;

    open spec fn view(&self) -> UrlView {
        UrlView {
            text: self.text@,
            scheme: self.scheme@,
            host: opt_view(self.host),
            port: self.port,
            path: self.path@,
            query: pairs_view(self.query@),
        }
    }
}

/// What the outcome of an operation on texts holds.
pub open spec fn text_result(r: Result<String, String>) -> Result<Seq<char>, Seq<char>> {
    match r {
        Ok(text) => Ok(text@),
        Err(fault) => Err(fault@),
    }
}

/// What the outcome of parsing a URL holds.
pub open spec fn parts_result(r: Result<UrlParts, String>) -> Result<UrlView, Seq<char>> {
    match r {
        Ok(parts) => Ok(parts@),
        Err(fault) => Err(fault@),
    }
}

/// The greatest number of characters that a URL is put together from.
pub const URL_LIMIT: usize = 0x1000_0000;

/// What `url::Url::parse` makes of a text: the parts of the URL, or the message of the fault.
pub uninterp spec fn parsed_url(text: Seq<char>) -> Result<UrlView, Seq<char>>;

/// The URL that `url::Url` gives for a text once pairs are appended to its query, or the message
/// of the fault in the text.
pub uninterp spec fn extended_url(
    text: Seq<char>,
    pairs: Seq<(Seq<char>, Seq<char>)>,
) -> Result<Seq<char>, Seq<char>>;

/// The URL that `url::Url` gives for a text once it has another host and path and no query.
pub uninterp spec fn moved_url(text: Seq<char>, host: Seq<char>, path: Seq<char>) -> Option<Seq<char>>;

/// The message of the fault that `percent_encoding` finds in a text whose decoded bytes are no
/// UTF-8.
pub uninterp spec fn decoding_fault(text: Seq<char>) -> Seq<char>;

/// The instant that `chrono` reads in an RFC 3339 timestamp: seconds since the epoch, and the
/// nanoseconds within the second.
pub uninterp spec fn rfc3339_instant(text: Seq<char>) -> Option<(i64, u32)>;

/// Parses a URL.
///
/// Calls `url::Url::parse` and reads the parts off the result. The outcome depends on the text
/// alone.
#[verifier::external_body]
pub(crate) fn parse_url(text: &str) -> (r: Result<UrlParts, String>)
    ensures
        parts_result(r) == parsed_url(text@),
{
    let url = url::Url::parse(text).map_err(|fault| fault.to_string())?;
    Ok(UrlParts {
        text: url.as_str().to_owned(),
        scheme: url.scheme().to_owned(),
        host: url.host_str().map(str::to_owned),
        port: url.port_or_known_default(),
        path: url.path().to_owned(),
        query: url.query_pairs().map(|(name, value)| (name.into_owned(), value.into_owned())).collect(),
    })
}

/// How many characters a URL and the pairs for its query have.
pub open spec fn query_size(text: Seq<char>, pairs: Seq<(Seq<char>, Seq<char>)>) -> nat
    decreases pairs.len(),
{
    if pairs.len() == 0 {
        text.len()
    } else {
        query_size(text, pairs.drop_last()) + pairs.last().0.len() + pairs.last().1.len() + 2
    }
}

/// A URL with pairs appended to its query.
///
/// Calls `url::Url::parse` and `extend_pairs` on its `query_pairs_mut`. It fails exactly where
/// the text is no URL, with the fault that parsing it gives. The bound keeps the result below
/// the four gigabytes that the crate can represent.
#[verifier::external_body]
pub(crate) fn extend_query(text: &str, pairs: &Vec<(String, String)>) -> (r: Result<String, String>)
    requires
        query_size(text@, pairs_view(pairs@)) <= URL_LIMIT,
    ensures
        text_result(r) == extended_url(text@, pairs_view(pairs@)),
        r is Ok <==> parsed_url(text@) is Ok,
        r is Err ==> parsed_url(text@)->Err_0 == text_result(r)->Err_0,
{
    let mut url = url::Url::parse(text).map_err(|fault| fault.to_string())?;
    url.query_pairs_mut().extend_pairs(pairs);
    Ok(String::from(url))
}

/// Whether a URL keeps within the four gigabytes that the crate `url` can represent once it has
/// another host and path. Each byte of the path takes up to three in the URL, and a host of an
/// ordinary length, however it is written, less than the rest of the margin.
pub open spec fn fits_moved(text: Seq<char>, host: Seq<char>, path: Seq<char>) -> bool {
    parsed_url(text) matches Ok(url) ==> {
        &&& host.len() <= 253
        &&& byte_size(url.text) + 3 * byte_size(path) + 0x1_0000 <= u32::MAX
    }
}

/// A URL with another host and path, and without a query.
///
/// Calls `url::Url::parse`, then `set_host`, `set_path` and `set_query` on the result; there is
/// none where the text is no URL or cannot have the host. The bound leaves out the URLs whose
/// parts lie too far apart for the crate, on which these functions panic.
#[verifier::external_body]
pub(crate) fn move_url(text: &str, host: &str, path: &str) -> (r: Option<String>)
    requires
        fits_moved(text@, host@, path@),
    ensures
        opt_view(r) == moved_url(text@, host@, path@),
{
    let mut url = url::Url::parse(text).ok()?;
    url.set_host(Some(host)).ok()?;
    url.set_path(path);
    url.set_query(None);
    Some(String::from(url))
}

/// The number that a hexadecimal digit stands for.
pub open spec fn hex_value(byte: u8) -> Option<u8> {
    if 0x30 <= byte <= 0x39 {
        Some((byte - 0x30) as u8)
    } else if 0x41 <= byte <= 0x46 {
        Some((byte - 0x37) as u8)
    } else if 0x61 <= byte <= 0x66 {
        Some((byte - 0x57) as u8)
    } else {
        None
    }
}

/// The bytes with each percent sign and the two hexadecimal digits behind it replaced by the byte
/// that they stand for.
pub open spec fn percent_decoded(bytes: Seq<u8>) -> Seq<u8>
    decreases bytes.len(),
{
    if bytes.len() == 0 {
        Seq::empty()
    } else if bytes[0] == 0x25 && bytes.len() >= 3 && hex_value(bytes[1]) is Some && hex_value(
        bytes[2],
    ) is Some {
        seq![(hex_value(bytes[1])->0 * 16 + hex_value(bytes[2])->0) as u8] + percent_decoded(
            bytes.skip(3),
        )
    } else {
        seq![bytes[0]] + percent_decoded(bytes.skip(1))
    }
}

/// The text that a percent-encoded text stands for, or the fault where its bytes are no UTF-8.
pub open spec fn decoded_text(text: Seq<char>) -> Result<Seq<char>, Seq<char>> {
    let bytes = percent_decoded(vstd::utf8::encode_utf8(text));
    if vstd::utf8::valid_utf8(bytes) {
        Ok(vstd::utf8::decode_utf8(bytes))
    } else {
        Err(decoding_fault(text))
    }
}

/// Decodes a percent-encoded text.
///
/// Calls `percent_encoding::percent_decode_str` and its `decode_utf8`: each percent sign with two
/// hexadecimal digits becomes a byte, every other byte stays, and the bytes are read as UTF-8.
/// The message of a fault depends on the text alone.
#[verifier::external_body]
pub(crate) fn percent_decode(text: &str) -> (r: Result<String, String>)
    ensures
        text_result(r) == decoded_text(text@),
        r matches Err(fault) ==> fault@ == decoding_fault(text@),
{
    match percent_encoding::percent_decode_str(text).decode_utf8() {
        Ok(decoded) => Ok(decoded.into_owned()),
        Err(fault) => Err(fault.to_string()),
    }
}

/// Reads an RFC 3339 timestamp.
///
/// Calls `chrono::DateTime::parse_from_rfc3339` and reads the instant off the result. The outcome
/// depends on the text alone.
#[verifier::external_body]
pub(crate) fn parse_rfc3339(text: &str) -> (r: Option<(i64, u32)>)
    ensures
        r == rfc3339_instant(text@),
{
    let instant = chrono::DateTime::parse_from_rfc3339(text).ok()?;
    Some((instant.timestamp(), instant.timestamp_subsec_nanos()))
}

/// The upper-case hexadecimal digit that stands for a number below sixteen.
pub open spec fn hex_digit(value: u8) -> char {
    if value < 10 {
        (0x30 + value) as char
    } else {
        (0x37 + value) as char
    }
}

/// A percent sign and the two hexadecimal digits of a byte.
pub open spec fn percent_byte(byte: u8) -> Seq<char> {
    seq!['%', hex_digit(byte / 16), hex_digit(byte % 16)]
}

/// Whether a byte is an ASCII letter or digit.
pub open spec fn is_alphanumeric(byte: u8) -> bool {
    0x30 <= byte <= 0x39 || 0x41 <= byte <= 0x5a || 0x61 <= byte <= 0x7a
}

/// Bytes in the encoding of a URL's query: letters, digits and `*-._` stay, a space becomes a
/// plus sign, and every other byte is percent-encoded.
pub open spec fn form_encoded(bytes: Seq<u8>) -> Seq<char>
    decreases bytes.len(),
{
    if bytes.len() == 0 {
        Seq::empty()
    } else {
        form_encoded(bytes.drop_last()) + form_byte(bytes.last())
    }
}

/// A byte in the encoding of a URL's query.
pub open spec fn form_byte(byte: u8) -> Seq<char> {
    if is_alphanumeric(byte) || byte == 0x2a || byte == 0x2d || byte == 0x2e || byte == 0x5f {
        seq![byte as char]
    } else if byte == 0x20 {
        seq!['+']
    } else {
        percent_byte(byte)
    }
}

/// A text as a value in the query of a URL.
///
/// Calls `lpcli::client::urlenc`, which serialises the UTF-8 bytes of the text as a form does.
#[verifier::external_body]
pub(crate) fn encode_query_value(text: &str) -> (r: String)
    ensures
        r@ == form_encoded(vstd::utf8::encode_utf8(text@)),
{
    lpcli::client::urlenc(text)
}

/// A byte in the path of a Git file URL: letters, digits and `-._~+` stay, and every other byte
/// is percent-encoded.
pub open spec fn path_byte(byte: u8) -> Seq<char> {
    if is_alphanumeric(byte) || byte == 0x2d || byte == 0x2e || byte == 0x5f || byte == 0x7e || byte
        == 0x2b {
        seq![byte as char]
    } else {
        percent_byte(byte)
    }
}

/// The bytes of a path segment, each as it stands in the path of a Git file URL.
pub open spec fn segment_encoded(bytes: Seq<u8>) -> Seq<char>
    decreases bytes.len(),
{
    if bytes.len() == 0 {
        Seq::empty()
    } else {
        segment_encoded(bytes.drop_last()) + path_byte(bytes.last())
    }
}

/// A path whose segments are encoded for a Git file URL.
pub open spec fn encoded_path(path: Seq<char>) -> Seq<char> {
    join(
        split_on(path, '/').map_values(
            |segment: Seq<char>| segment_encoded(vstd::utf8::encode_utf8(segment)),
        ),
        "/"@,
    )
}

fn to_hex_digit(value: u8) -> (r: char)
    requires
        value < 16,
    ensures
        r == hex_digit(value),
{
    if value < 10 {
        (0x30u8 + value) as char
    } else {
        (0x37u8 + value) as char
    }
}

fn encode_segment(segment: &str) -> (r: String)
    ensures
        r@ == segment_encoded(vstd::utf8::encode_utf8(segment@)),
{
    let bytes = segment.as_bytes();
    let mut out = String::new();
    assert(bytes@.take(0) =~= Seq::empty());
    for i in 0..bytes.len()
        invariant
            bytes@ == vstd::utf8::encode_utf8(segment@),
            out@ == segment_encoded(bytes@.take(i as int)),
    {
        let byte = bytes[i];
        let ghost done = out@;
        assert(bytes@.take(i + 1).drop_last() =~= bytes@.take(i as int));
        if (0x30 <= byte && byte <= 0x39) || (0x41 <= byte && byte <= 0x5a) || (0x61 <= byte && byte
            <= 0x7a) || byte == 0x2d || byte == 0x2e || byte == 0x5f || byte == 0x7e || byte == 0x2b {
            out.push(byte as char);
        } else {
            out.push('%');
            out.push(to_hex_digit(byte / 16));
            out.push(to_hex_digit(byte % 16));
        }
        assert(out@ =~= done + path_byte(byte));
    }
    assert(bytes@.take(bytes@.len() as int) =~= bytes@);
    out
}

/// A path whose segments are encoded for a Git file URL: letters, digits and `-._~+` stay, and
/// every other byte of a segment is percent-encoded.
pub fn encode_path(path: &str) -> (r: String)
    ensures
        r@ == encoded_path(path@),
{
    let segments = split(path, '/');
    let mut encoded: Vec<String> = Vec::new();
    let ghost each = |segment: Seq<char>| segment_encoded(vstd::utf8::encode_utf8(segment));
    assert(views(encoded@) =~= views(segments@).take(0).map_values(each));
    for i in 0..segments.len()
        invariant
            views(encoded@) == views(segments@).take(i as int).map_values(each),
            each == (|segment: Seq<char>| segment_encoded(vstd::utf8::encode_utf8(segment))),
    {
        push_part(&mut encoded, encode_segment(segments[i].as_str()));
        assert(views(encoded@) =~= views(segments@).take(i + 1).map_values(each));
    }
    assert(views(segments@).take(segments@.len() as int) =~= views(segments@));
    join_parts(&encoded, "/")
}

/// Whether an instant is no earlier than another.
pub open spec fn not_before(instant: (i64, u32), other: (i64, u32)) -> bool {
    instant.0 > other.0 || (instant.0 == other.0 && instant.1 >= other.1)
}

/// Whether an instant is no earlier than another.
pub fn is_not_before(instant: (i64, u32), other: (i64, u32)) -> (r: bool)
    ensures
        r == not_before(instant, other),
{
    instant.0 > other.0 || (instant.0 == other.0 && instant.1 >= other.1)
}

/// Appends a pair of texts to a list.
pub fn push_pair(pairs: &mut Vec<(String, String)>, name: &str, value: &str)
    ensures
        pairs_view(final(pairs)@) == pairs_view(old(pairs)@).push((name@, value@)),
{
    pairs.push((copy(name), copy(value)));
    assert(pairs_view(pairs@) =~= pairs_view(old(pairs)@).push((name@, value@)));
}

/// A list without pairs.
pub fn no_pairs() -> (r: Vec<(String, String)>)
    ensures
        pairs_view(r@) == Seq::<(Seq<char>, Seq<char>)>::empty(),
{
    let r: Vec<(String, String)> = Vec::new();
    assert(pairs_view(r@) =~= Seq::<(Seq<char>, Seq<char>)>::empty());
    r
}

/// A copy of a list of pairs.
pub fn copy_pairs(pairs: &Vec<(String, String)>) -> (r: Vec<(String, String)>)
    ensures
        pairs_view(r@) == pairs_view(pairs@),
{
    let mut out = no_pairs();
    assert(pairs_view(pairs@).take(0) =~= Seq::empty());
    for i in 0..pairs.len()
        invariant
            pairs_view(out@) == pairs_view(pairs@).take(i as int),
    {
        push_pair(&mut out, pairs[i].0.as_str(), pairs[i].1.as_str());
        assert(pairs_view(out@) =~= pairs_view(pairs@).take(i + 1));
    }
    assert(pairs_view(pairs@).take(pairs@.len() as int) =~= pairs_view(pairs@));
    out
}

/// A URL, and the pairs that its query is to be extended with.
pub struct UrlQuery {
    pub base: String,
    pub pairs: Vec<(String, String)>,
}

/// What a URL with pairs for its query holds.
#[verifier::ext_equal]
pub struct UrlQueryView {
    pub base: Seq<char>,
    pub pairs: Seq<(Seq<char>, Seq<char>)>,
}

impl View for UrlQuery {
    type V = UrlQueryView;

    open spec fn view(&self) -> UrlQueryView {
        UrlQueryView { base: self.base@, pairs: pairs_view(self.pairs@) }
    }
}

impl UrlQueryView {
    /// Whether the URL stays within what can be represented.
    pub open spec fn fits(self) -> bool {
        query_size(self.base, self.pairs) <= URL_LIMIT
    }

    /// The URL, or the error where the base is none.
    pub open spec fn address(self) -> Result<Seq<char>, ErrorView> {
        match extended_url(self.base, self.pairs) {
            Ok(url) => Ok(url),
            Err(source) => Err(ErrorView::Url { url: self.base, source }),
        }
    }
}

impl UrlQuery {
    /// Whether the URL stays within what can be represented.
    pub fn fits(&self) -> (r: bool)
        ensures
            r == self@.fits(),
    {
        let ghost all = pairs_view(self.pairs@);
        let mut size: usize = crate::text::characters(self.base.as_str()).len();
        if size > URL_LIMIT {
            proof {
                lemma_query_size(self.base@, all, 0);
                assert(all.take(0) =~= Seq::empty());
            }
            return false;
        }
        assert(all.take(0) =~= Seq::empty());
        for i in 0..self.pairs.len()
            invariant
                all == pairs_view(self.pairs@),
                size == query_size(self.base@, all.take(i as int)),
                size <= URL_LIMIT,
        {
            let name: usize = crate::text::characters(self.pairs[i].0.as_str()).len();
            let value: usize = crate::text::characters(self.pairs[i].1.as_str()).len();
            proof {
                assert(all.take(i + 1).drop_last() =~= all.take(i as int));
                assert(all.take(i + 1).last() == pair_view(self.pairs@[i as int]));
                lemma_query_size(self.base@, all, i + 1);
            }
            if name > URL_LIMIT || value > URL_LIMIT || size + name + value + 2 > URL_LIMIT {
                return false;
            }
            size = size + name + value + 2;
        }
        assert(all.take(all.len() as int) =~= all);
        true
    }

    /// The URL, or the error where the base is none.
    pub fn address(&self) -> (r: Result<String, Error>)
        requires
            self@.fits(),
        ensures
            text_outcome(r) == self@.address(),
    {
        match extend_query(self.base.as_str(), &self.pairs) {
            Ok(url) => Ok(url),
            Err(source) => Err(Error::Url { url: copy(self.base.as_str()), source }),
        }
    }
}

proof fn lemma_query_size(text: Seq<char>, pairs: Seq<(Seq<char>, Seq<char>)>, count: int)
    requires
        0 <= count <= pairs.len(),
    ensures
        query_size(text, pairs.take(count)) <= query_size(text, pairs),
    decreases pairs.len() - count,
{
    if count == pairs.len() {
        assert(pairs.take(count) =~= pairs);
    } else {
        assert(pairs.take(count + 1).drop_last() =~= pairs.take(count));
        lemma_query_size(text, pairs, count + 1);
    }
}

} // verus!
