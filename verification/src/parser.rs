//! The page parser: where the picture's address stands in the publisher's
//! page.

use crate::text::text_result;
use vstd::prelude::*;

verus! {

/// What a search for a pattern's capture group found.
pub ghost enum Found {
    /// The pattern is no regular expression that the engine accepts.
    BadPattern,
    /// The pattern matches nowhere in the text.
    NoMatch,
    /// The pattern matches, but the group took no part in the match.
    NoGroup,
    /// The text that the group matched.
    Text(Seq<char>),
}

/// What a search for a pattern's capture group found, as a value.
#[derive(Debug, PartialEq, Eq)]
pub enum Capture {
    /// The pattern is no regular expression that the engine accepts.
    BadPattern,
    /// The pattern matches nowhere in the text.
    NoMatch,
    /// The pattern matches, but the group took no part in the match.
    NoGroup,
    /// The text that the group matched.
    Text(String),
}

impl View for Capture {
    type V = Found;

    open spec fn view(&self) -> Found {
        match self {
            Capture::BadPattern => Found::BadPattern,
            Capture::NoMatch => Found::NoMatch,
            Capture::NoGroup => Found::NoGroup,
            Capture::Text(text) => Found::Text(text@),
        }
    }
}

/// Why a page gave no picture address.
#[derive(Clone, Copy, Debug, PartialEq, Eq, Structural)]
pub enum ParseError {
    /// The page holds no image tag of the expected form.
    NoMatch,
    /// An image tag was found, but no address in it.
    NoCaptureGroup,
    /// The regular expression engine refused the image tag's pattern.
    BadPattern,
}

/// What the regular expression engine finds for capture group `group` of
/// `pattern` in its first match in `haystack`.
pub uninterp spec fn regex_capture(pattern: Seq<char>, haystack: Seq<char>, group: nat) -> Found;

/// The pattern of the image tag; its one group is the picture's address.
pub const IMAGE_PATTERN: &'static str = "<IMG SRC=\"(.+)\"";

/// The pattern of the image tag, as a text.
pub open spec fn image_pattern() -> Seq<char> {
    IMAGE_PATTERN@
}

/// The picture address that a search result stands for: the group's text,
/// unless there is none or it is empty.
pub open spec fn image_url_of(found: Found) -> Result<Seq<char>, ParseError> {
    match found {
        Found::BadPattern => Err(ParseError::BadPattern),
        Found::NoMatch => Err(ParseError::NoMatch),
        Found::NoGroup => Err(ParseError::NoCaptureGroup),
        Found::Text(text) => if text.len() == 0 {
            Err(ParseError::NoCaptureGroup)
        } else {
            Ok(text)
        },
    }
}

/// Turns a search result into the picture's address.
pub fn image_url_from(capture: Capture) -> (r: Result<String, ParseError>)
    ensures
        text_result(r) == image_url_of(capture@),
{
    match capture {
        Capture::BadPattern => Err(ParseError::BadPattern),
        Capture::NoMatch => Err(ParseError::NoMatch),
        Capture::NoGroup => Err(ParseError::NoCaptureGroup),
        Capture::Text(text) => {
            if text.as_str().is_empty() {
                Err(ParseError::NoCaptureGroup)
            } else {
                Ok(text)
            }
        },
    }
}

/// The address of the picture in the publisher's page: what the first image
/// tag of the page names as its source.
pub fn extract_image_url(html: &str) -> (r: Result<String, ParseError>)
    ensures
        text_result(r) == image_url_of(regex_capture(image_pattern(), html@, 1)),
{
    image_url_from(first_capture(IMAGE_PATTERN, html, 1))
}

/// Searches `haystack` with the `regex` crate: compiles `pattern` with
/// `Regex::new`, takes the first match with `Regex::captures`, and from it
/// the group with `Captures::get` and its text with `Match::as_str`. The
/// contract gives the outcome a name and claims that it depends on the
/// pattern, the text and the group's number alone.
#[verifier::external_body]
fn first_capture(pattern: &str, haystack: &str, group: usize) -> (r: Capture)
    ensures
        r@ == regex_capture(pattern@, haystack@, group as nat),
{
    match regex::Regex::new(pattern) {
        Err(_) => Capture::BadPattern,
        Ok(re) => match re.captures(haystack) {
            None => Capture::NoMatch,
            Some(found) => match found.get(group) {
                None => Capture::NoGroup,
                Some(text) => Capture::Text(text.as_str().to_string()),
            },
        },
    }
}

} // verus!
