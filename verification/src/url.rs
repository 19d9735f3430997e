//! Endpoint URLs.
//!
//! A [`Url`] holds the text of a URL. Parsing and path arithmetic are the
//! work of the `url` crate, as `reqwest` exports it; this module names what
//! that crate returns and builds the library's values from it.

use vstd::prelude::*;
use vstd::string::StringSliceAdditionalSpecFns;
use vstd::utf8::encode_utf8;

use crate::error::{Error, ErrorKind};

verus! {

/// The serialization that `Url::parse` of the `url` crate gives for `input`,
/// or `None` where it refuses `input`.
pub uninterp spec fn parsed_url(input: Seq<char>) -> Option<Seq<char>>;

/// The serialization of the URL written as `url` once the `url` crate has
/// dropped one trailing slash of its path and appended `segments` as path
/// segments, or `None` where `url` does not parse or has no path that
/// segments can be added to.
pub uninterp spec fn extended_url(url: Seq<char>, segments: Seq<Seq<char>>) -> Option<Seq<char>>;

/// The error of the `url` crate's parser.
#[verifier::external_type_specification]
#[verifier::external_body]
pub struct ExUrlError(reqwest::UrlError);

/// The texts of path segments.
pub open spec fn segment_texts(segments: Seq<&str>) -> Seq<Seq<char>> {
    segments.map_values(|segment: &str| segment@)
}

/// The most bytes that the text of a URL may hold: the `url` crate addresses
/// it by 32-bit offsets.
pub const MAX_URL_BYTES: u64 = 0xffff_ffff;

/// How many bytes one byte of a URL's text may become when the text is
/// parsed: a character of a host name may be spelled out in many and each of
/// those written in several; anything else is at most escaped.
pub const URL_GROWTH: u64 = 256;

/// How many bytes one byte of a path segment may become: escaped, three.
pub const SEGMENT_GROWTH: u64 = 3;

/// The most bytes that `segments` can add to a URL: every byte of a segment
/// escaped, and one slash for every segment.
pub open spec fn segments_size(segments: Seq<Seq<char>>) -> nat
    decreases segments.len(),
{
    if segments.len() == 0 {
        0
    } else {
        segments_size(segments.drop_last()) + 1 + (SEGMENT_GROWTH as nat) * encode_utf8(
            segments.last(),
        ).len()
    }
}

/// Whether `url` with `segments` appended is sure to stay within
/// [`MAX_URL_BYTES`], however its text grows when it is parsed and escaped.
pub open spec fn extension_fits(url: Seq<char>, segments: Seq<Seq<char>>) -> bool {
    URL_GROWTH * encode_utf8(url).len() + segments_size(segments) <= MAX_URL_BYTES
}

/// Calls `Url::parse` of the `url` crate and hands back the serialization.
///
/// Trusted: the result is the named value [`parsed_url`] of the input; the
/// parser is a function of its input alone, and refuses by returning an
/// error.
#[verifier::external_body]
fn parse_text(input: &str) -> (parsed: Result<String, reqwest::UrlError>)
    ensures
        match parsed_url(input@) {
            Some(text) => parsed matches Ok(s) && s@ == text,
            None => parsed is Err,
        },
{
    match reqwest::Url::parse(input) {
        Ok(url) => Ok(url.into_string()),
        Err(error) => Err(error),
    }
}

/// Calls `Url::path_segments_mut`, then `pop_if_empty` and `extend` of the
/// `url` crate's `PathSegmentsMut`, on the URL parsed from `url`.
///
/// Trusted: the result is the named value [`extended_url`] of the arguments.
/// The crate panics when the extended text outgrows its 32-bit offsets, so
/// the bound of [`extension_fits`] is required: under it the text cannot
/// grow that far.
#[verifier::external_body]
fn extend_text(url: &str, segments: &[&str]) -> (extended: Option<String>)
    requires
        extension_fits(url@, segment_texts(segments@)),
    ensures
        match extended_url(url@, segment_texts(segments@)) {
            Some(text) => extended matches Some(s) && s@ == text,
            None => extended is None,
        },
{
    let mut parsed = reqwest::Url::parse(url).ok()?;
    let _ = parsed.path_segments_mut().ok()?.pop_if_empty().extend(segments);
    Some(parsed.into_string())
}

/// The text of a URL.
#[derive(Clone, Debug, PartialEq, Eq, Hash)]
pub struct Url {
    text: String,
}

impl View for Url {
    type V = Seq<char>;

    closed spec fn view(&self) -> Seq<char> {
        self.text@
    }
}

/// What [`Url::from_parsed`] returns for the outcome `parsed` of the parser.
pub open spec fn url_from_parsed(parsed: Option<Seq<char>>, result: Result<Url, Error>) -> bool {
    match parsed {
        Some(text) => result matches Ok(url) && url@ == text,
        None => result matches Err(error) && error@ == (
            ErrorKind::InvalidEndpoint,
            "the endpoint is not a valid URL"@,
        ),
    }
}

/// What [`Url::from_extended`] returns for the outcome `extended` of a path
/// extension.
pub open spec fn url_from_extended(extended: Option<Seq<char>>, result: Result<Url, Error>) -> bool {
    match extended {
        Some(text) => result matches Ok(url) && url@ == text,
        None => result matches Err(error) && error@ == (
            ErrorKind::InvalidEndpoint,
            "the endpoint cannot be extended by a path"@,
        ),
    }
}

impl Url {
    /// Parse a URL.
    ///
    /// Succeeds exactly where the parser accepts `input`, with the parser's
    /// serialization as the URL's text; fails with `InvalidEndpoint`
    /// otherwise.
    pub fn parse(input: &str) -> (result: Result<Url, Error>)
        ensures
            url_from_parsed(parsed_url(input@), result),
    {
        Url::from_parsed(parse_text(input))
    }

    /// The URL or the error that an outcome of the parser stands for.
    pub fn from_parsed(parsed: Result<String, reqwest::UrlError>) -> (result: Result<Url, Error>)
        ensures
            url_from_parsed(
                match parsed {
                    Ok(text) => Some(text@),
                    Err(_) => None,
                },
                result,
            ),
    {
        match parsed {
            Ok(text) => Ok(Url { text }),
            Err(_) => Err(
                Error::new(
                    ErrorKind::InvalidEndpoint,
                    "the endpoint is not a valid URL".to_owned(),
                ),
            ),
        }
    }

    /// This URL with `segments` appended to its path, in order, each escaped
    /// as one path segment. One trailing slash of the path is dropped first.
    ///
    /// Fails with `InvalidEndpoint` where the URL has no path to extend, and
    /// where the extended text might exceed [`MAX_URL_BYTES`].
    pub fn extend(&self, segments: &[&str]) -> (result: Result<Url, Error>)
        ensures
            url_from_extended(
                if extension_fits(self@, segment_texts(segments@)) {
                    extended_url(self@, segment_texts(segments@))
                } else {
                    None
                },
                result,
            ),
    {
        if Url::fits(self.text.as_str(), segments) {
            Url::from_extended(extend_text(self.text.as_str(), segments))
        } else {
            Url::from_extended(None)
        }
    }

    /// The URL or the error that an outcome of a path extension stands for.
    pub fn from_extended(extended: Option<String>) -> (result: Result<Url, Error>)
        ensures
            url_from_extended(
                match extended {
                    Some(text) => Some(text@),
                    None => None,
                },
                result,
            ),
    {
        match extended {
            Some(text) => Ok(Url { text }),
            None => Err(
                Error::new(
                    ErrorKind::InvalidEndpoint,
                    "the endpoint cannot be extended by a path".to_owned(),
                ),
            ),
        }
    }

    /// Whether `url` with `segments` appended is sure to stay within
    /// [`MAX_URL_BYTES`].
    pub fn fits(url: &str, segments: &[&str]) -> (fits: bool)
        ensures
            fits == extension_fits(url@, segment_texts(segments@)),
    {
        let limit: u64 = MAX_URL_BYTES;
        let start: usize = url.as_bytes().len();
        if start as u64 > limit {
            return false;
        }
        if URL_GROWTH * (start as u64) > limit {
            return false;
        }
        let ghost texts = segment_texts(segments@);
        let mut total: u64 = URL_GROWTH * (start as u64);
        let mut index: usize = 0;
        while index < segments.len()
            invariant
                index <= segments.len(),
                limit == MAX_URL_BYTES,
                texts == segment_texts(segments@),
                total == URL_GROWTH * encode_utf8(url@).len() + segments_size(
                    texts.take(index as int),
                ),
                total <= limit,
            decreases segments.len() - index,
        {
            let length: usize = segments[index].as_bytes().len();
            proof {
                let next = texts.take(index as int + 1);
                assert(next.drop_last() == texts.take(index as int));
                assert(next.last() == segments@[index as int]@);
                lemma_size_grows(texts, index as int + 1);
            }
            if length as u64 > limit {
                return false;
            }
            total = total + 1 + SEGMENT_GROWTH * (length as u64);
            if total > limit {
                return false;
            }
            index = index + 1;
        }
        proof {
            assert(texts.take(index as int) == texts);
        }
        true
    }

    /// The text of this URL.
    pub fn as_str(&self) -> (text: &str)
        ensures
            text@ == self@,
    {
        self.text.as_str()
    }

    /// The text of this URL, owned.
    pub fn into_string(self) -> (text: String)
        ensures
            text@ == self@,
    {
        self.text
    }
}

/// A prefix of the segments is never larger than all of them.
proof fn lemma_size_grows(segments: Seq<Seq<char>>, prefix: int)
    requires
        0 <= prefix <= segments.len(),
    ensures
        segments_size(segments.take(prefix)) <= segments_size(segments),
    decreases segments.len() - prefix,
{
    if prefix < segments.len() {
        let next = segments.take(prefix + 1);
        assert(next.drop_last() == segments.take(prefix));
        lemma_size_grows(segments, prefix + 1);
    } else {
        assert(segments.take(prefix) == segments);
    }
}

} // verus!
