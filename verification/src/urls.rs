//! Calls into the `url` crate, which reads and rewrites URLs.
//!
//! The crate's `Url` values stay inside this module: a URL enters and leaves as its
//! serialization, the text that `Url::into_string` gives. Nothing here is proved. Each
//! function states what the call is taken to return, by a name that stands for the result.

use vstd::prelude::*;
use crate::admission::{is_admitted, MAX_TEXT_LEN};

verus! {

/// `url::ParseError`: why `url` refused a text. It is carried, never looked into.
#[verifier::external_type_specification]
#[verifier::external_body]
pub struct ExParseError(url::ParseError);

/// What `url::Url::parse` makes of `input`: the serialization of the URL it reads there, or
/// `None` where it refuses the text.
pub uninterp spec fn url_parse(input: Seq<char>) -> Option<Seq<char>>;

/// What `url` makes of appending `segment` to the path of the URL written as `base`: the
/// serialization after `PathSegmentsMut::pop_if_empty` and `PathSegmentsMut::push`, or `None`
/// where `url::Url::parse` refuses `base` or `Url::path_segments_mut` refuses the URL because
/// it cannot be a base.
pub uninterp spec fn url_append(base: Seq<char>, segment: Seq<char>) -> Option<Seq<char>>;

/// Calls `url::Url::parse` on `input` and serializes the URL with `Url::into_string`.
/// The result is taken to depend on `input` alone, and is named `url_parse(input)`.
/// Only an admitted text is handed over: on others `idna`, which `Url::parse` calls for the
/// host, may panic.
#[verifier::external_body]
pub(crate) fn parse(input: &str) -> (parsed: Result<String, url::ParseError>)
    requires
        is_admitted(input@),
    ensures
        parsed matches Ok(text) ==> url_parse(input@) == Some(text@),
        parsed is Err ==> url_parse(input@) is None,
{
    url::Url::parse(input).map(url::Url::into_string)
}

/// Reads `base` with `url::Url::parse`, takes its path with `Url::path_segments_mut`, drops
/// an empty last segment with `PathSegmentsMut::pop_if_empty`, appends `segment` with
/// `PathSegmentsMut::push`, and serializes the URL with `Url::into_string`.
/// The result is taken to depend on the two texts alone, and is named
/// `url_append(base, segment)`. The base is an admitted text, as for `parse`. The bound on the
/// two lengths is there because `push` panics on a serialization that 32 bits cannot count.
#[verifier::external_body]
pub(crate) fn append(base: &str, segment: &str) -> (appended: Option<String>)
    requires
        is_admitted(base@),
        segment@.len() <= MAX_TEXT_LEN,
    ensures
        appended matches Some(text) ==> url_append(base@, segment@) == Some(text@),
        appended is None ==> url_append(base@, segment@) is None,
{
    let mut url = url::Url::parse(base).ok()?;
    url.path_segments_mut().ok()?.pop_if_empty().push(segment);
    Some(url.into_string())
}

} // verus!
