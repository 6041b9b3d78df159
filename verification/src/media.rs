//! Media types, as a response's content type names them.

use crate::text::same_text;
use vstd::prelude::*;
use vstd::string::*;

verus! {

/// A parsed media type such as `application/json; charset=utf-8`.
#[derive(Debug, PartialEq, Eq)]
pub struct MediaType {
    text: String,
    top_level: String,
    subtype: String,
}

/// What a media type holds, as plain text.
pub struct MediaTypeView {
    /// The whole media type, with its parameters.
    pub text: Seq<char>,
    /// The part before the slash, such as `application`.
    pub top_level: Seq<char>,
    /// The part after the slash, without suffix and parameters, such as
    /// `json`.
    pub subtype: Seq<char>,
}

/// What the `mime` crate makes of the text of a media type: nothing where
/// `mime::Mime::from_str` rejects the text, else the text that the parsed
/// value shows, its `type_()` and its `subtype()`, in this order.
pub uninterp spec fn parsed_media_type(text: Seq<char>) -> Option<
    (Seq<char>, Seq<char>, Seq<char>),
>;

/// The media type is `application/json`, whatever its parameters.
pub open spec fn is_json_media_type(media_type: MediaTypeView) -> bool {
    media_type.top_level == "application"@ && media_type.subtype == "json"@
}

/// Parses a media type with `mime::Mime::from_str` and reads the parsed
/// value with `as_ref()`, `type_()` and `subtype()`. All four depend on the
/// text alone; the contract names their results and claims nothing else.
#[verifier::external_body]
fn mime_parse(text: &str) -> (r: Option<(String, String, String)>)
    ensures
        match r {
            Some(parts) => parsed_media_type(text@) == Some((parts.0@, parts.1@, parts.2@)),
            None => parsed_media_type(text@) is None,
        },
{
    text.parse::<mime::Mime>().ok().map(
        |m|
            (
                m.as_ref().to_string(),
                m.type_().as_str().to_string(),
                m.subtype().as_str().to_string(),
            ),
    )
}

impl View for MediaType {
    type V = MediaTypeView;

    closed spec fn view(&self) -> MediaTypeView {
        MediaTypeView { text: self.text@, top_level: self.top_level@, subtype: self.subtype@ }
    }
}

impl MediaType {
    /// Parses the text of a media type; `None` where it is not one.
    pub fn parse(text: &str) -> (r: Option<MediaType>)
        ensures
            match r {
                Some(media_type) => parsed_media_type(text@) == Some(
                    (media_type@.text, media_type@.top_level, media_type@.subtype),
                ),
                None => parsed_media_type(text@) is None,
            },
    {
        match mime_parse(text) {
            Some(parts) => {
                let (text, top_level, subtype) = parts;
                Some(MediaType { text, top_level, subtype })
            },
            None => None,
        }
    }

    /// The whole media type, with its parameters.
    pub fn as_str(&self) -> (r: &str)
        ensures
            r@ == self@.text,
    {
        self.text.as_str()
    }

    /// The part before the slash.
    pub fn top_level(&self) -> (r: &str)
        ensures
            r@ == self@.top_level,
    {
        self.top_level.as_str()
    }

    /// The part after the slash, without suffix and parameters.
    pub fn subtype(&self) -> (r: &str)
        ensures
            r@ == self@.subtype,
    {
        self.subtype.as_str()
    }

    /// Tells whether the media type is `application/json`.
    pub fn is_json(&self) -> (r: bool)
        ensures
            r == is_json_media_type(self@),
    {
        same_text(self.top_level.as_str(), "application") && same_text(
            self.subtype.as_str(),
            "json",
        )
    }
}

impl Clone for MediaType {
    fn clone(&self) -> (r: Self)
        ensures
            r@ == self@,
    {
        MediaType {
            text: self.text.clone(),
            top_level: self.top_level.clone(),
            subtype: self.subtype.clone(),
        }
    }
}

} // verus!
