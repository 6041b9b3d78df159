//! The errors that the library reports, and the error body of the server.
//!
//! `ChillError` is a closed set: each variant carries what its case needs and
//! nothing else. An error that was caused by another one, of std or of an
//! outside crate, holds that other error, and its text ends with the text
//! of its cause.

use crate::json::{
    json_text_members, members_view, missing_field_error, read_json_text_members,
    unknown_field_error,
};
use crate::media::{MediaType, MediaTypeView};
use crate::record::{
    lemma_read_fields_known, read_fields, read_text_fields, FieldFault, FieldFaultView,
};
use crate::response::{decode_body, JsonResponse};
use crate::status::{class_of, status_text, StatusClass, StatusCode};
use vstd::prelude::*;
use vstd::string::*;

verus! {

/// `hyper::Error`: held as the cause of a transport error and shown through
/// its `Display`; nothing is known of what it holds.
#[verifier::external_type_specification]
#[verifier::external_body]
pub struct ExHyperError(hyper::Error);

/// `url::ParseError`: held as the cause of a URL error and shown through
/// its `Display`; nothing is known of what it holds.
#[verifier::external_type_specification]
#[verifier::external_body]
pub struct ExUrlParseError(url::ParseError);

/// `uuid::Error`: held as the cause of a digest error and shown through its
/// `Display`; nothing is known of what it holds.
#[verifier::external_type_specification]
#[verifier::external_body]
pub struct ExUuidError(uuid::Error);

/// `std::io::Error`: held as the cause of an input or output error and
/// shown through its `Display`; nothing is known of what it holds.
#[verifier::external_type_specification]
#[verifier::external_body]
pub struct ExIoError(std::io::Error);

/// `std::sync::mpsc::RecvError`: held as the cause of a channel error and
/// shown through its `Display`; nothing is known of what it holds.
#[verifier::external_type_specification]
#[verifier::external_body]
pub struct ExRecvError(std::sync::mpsc::RecvError);

/// Error information that the server sends in the body of a response when
/// it could not do what the request asked for.
#[derive(Debug, PartialEq, Eq, PartialOrd, Ord, Hash)]
pub struct ErrorResponse {
    error: String,
    reason: String,
}

/// What an `ErrorResponse` holds, as plain text.
pub struct ErrorResponseView {
    /// The short name of the error, such as `file_exists`.
    pub error: Seq<char>,
    /// The sentence that describes the error.
    pub reason: Seq<char>,
}

impl ErrorResponseView {
    /// The text of the error response: its name, a colon and a space, and
    /// its reason.
    pub open spec fn text(self) -> Seq<char> {
        self.error + ": "@ + self.reason
    }
}

impl View for ErrorResponse {
    type V = ErrorResponseView;

    closed spec fn view(&self) -> ErrorResponseView {
        ErrorResponseView { error: self.error@, reason: self.reason@ }
    }
}

/// The error response that the members of a JSON object stand for. The
/// object must have the members `error` and `reason` and no others; where a
/// name occurs twice the later member counts.
pub open spec fn decode_error_response(members: Seq<(Seq<char>, Seq<char>)>) -> Result<
    ErrorResponseView,
    FieldFaultView,
> {
    match read_fields(members, "error"@, "reason"@) {
        Err(name) => Err(FieldFaultView::Unknown(name)),
        Ok((None, _)) => Err(FieldFaultView::Missing("error"@)),
        Ok((Some(_), None)) => Err(FieldFaultView::Missing("reason"@)),
        Ok((Some(error), Some(reason))) => Ok(ErrorResponseView { error, reason }),
    }
}

/// Both fields of an error response are needed: the members of a JSON
/// object stand for one exactly if every member is named `error` or
/// `reason`, and there is a member of either name.
pub proof fn law_error_response_needs_both(members: Seq<(Seq<char>, Seq<char>)>)
    ensures
        decode_error_response(members) is Ok <==> {
            &&& forall|i: int|
                0 <= i < members.len() ==> (#[trigger] members[i]).0 == "error"@ || members[i].0
                    == "reason"@
            &&& exists|i: int| 0 <= i < members.len() && (#[trigger] members[i]).0 == "error"@
            &&& exists|i: int| 0 <= i < members.len() && (#[trigger] members[i]).0 == "reason"@
        },
{
    reveal_strlit("error");
    reveal_strlit("reason");
    assert("error"@ != "reason"@) by {
        assert("error"@.len() != "reason"@.len());
    }
    lemma_read_fields_known(members, "error"@, "reason"@);
}

/// The error response that a body stands for, where it stands for one: the
/// body is a JSON object whose members are texts, and those members are an
/// error response.
pub open spec fn error_response_of(body: Seq<u8>) -> Option<ErrorResponseView> {
    match json_text_members(body) {
        None => None,
        Some(members) => match decode_error_response(members) {
            Ok(response) => Some(response),
            Err(_) => None,
        },
    }
}

impl ErrorResponse {
    /// Makes an error response from its name and its reason.
    pub fn new(error: &str, reason: &str) -> (r: Self)
        ensures
            r@.error == error@,
            r@.reason == reason@,
    {
        ErrorResponse { error: String::from_str(error), reason: String::from_str(reason) }
    }

    /// The short name of the error, such as `file_exists`.
    pub fn error(&self) -> (r: &String)
        ensures
            r@ == self@.error,
    {
        &self.error
    }

    /// The sentence that describes the error, such as `The database could
    /// not be created, the file already exists.`
    pub fn reason(&self) -> (r: &String)
        ensures
            r@ == self@.reason,
    {
        &self.reason
    }

    /// The error response as text: its name, a colon and a space, and its
    /// reason.
    pub fn to_string(&self) -> (r: String)
        ensures
            r@ == self@.text(),
    {
        let mut text = self.error.clone();
        text.append(": ");
        text.append(self.reason.as_str());
        text
    }

    /// Makes an error response from the members of a JSON object. Both
    /// `error` and `reason` must be there, and nothing else may be.
    pub fn from_members(members: &Vec<(String, String)>) -> (r: Result<Self, FieldFault>)
        ensures
            match r {
                Ok(response) => decode_error_response(members_view(members@)) matches Ok(read)
                    && read == response@,
                Err(fault) => decode_error_response(members_view(members@)) matches Err(broken)
                    && broken == fault@,
            },
    {
        match read_text_fields(members, "error", "reason") {
            Err(name) => Err(FieldFault::Unknown(name)),
            Ok(fields) => {
                let (error, reason) = fields;
                match error {
                    None => Err(FieldFault::Missing("error")),
                    Some(error) => match reason {
                        None => Err(FieldFault::Missing("reason")),
                        Some(reason) => Ok(ErrorResponse { error, reason }),
                    },
                }
            },
        }
    }

    /// Decodes the body of a response as an error response. Whatever keeps
    /// the body from being one gives a `JsonDecode` error: a body that is no
    /// JSON object of texts, a member with another name than `error` and
    /// `reason`, or the lack of one of the two.
    pub fn from_json(body: &[u8]) -> (r: Result<Self, ChillError>)
        ensures
            match r {
                Ok(response) => error_response_of(body@) == Some(response@),
                Err(e) => error_response_of(body@) is None && e@ == ErrorView::JsonDecode,
            },
    {
        match read_json_text_members(body) {
            Err(cause) => Err(ChillError::JsonDecode { cause }),
            Ok(members) => match ErrorResponse::from_members(&members) {
                Ok(response) => Ok(response),
                Err(FieldFault::Unknown(name)) => Err(
                    ChillError::JsonDecode {
                        cause: unknown_field_error(name.as_str(), &["error", "reason"]),
                    },
                ),
                Err(FieldFault::Missing(name)) => Err(
                    ChillError::JsonDecode { cause: missing_field_error(name) },
                ),
            },
        }
    }
}

impl Clone for ErrorResponse {
    fn clone(&self) -> (r: Self)
        ensures
            r@ == self@,
    {
        ErrorResponse { error: self.error.clone(), reason: self.reason.clone() }
    }
}

/// Which rule a path broke.
#[derive(Clone, Copy, Debug, PartialEq, Eq)]
pub enum PathParseErrorKind {
    /// A segment holds a separator; the field is the separator that was
    /// found.
    BadSegment(&'static str),
    /// A segment is empty.
    EmptySegment,
    /// The path does not begin with a slash.
    NoLeadingSlash,
    /// The path has fewer segments than its kind of resource has.
    TooFewSegments,
    /// The path has more segments than its kind of resource has.
    TooManySegments,
    /// The path ends with a slash.
    TrailingSlash,
}

/// Which rule a path broke, with the separator of `BadSegment` as plain
/// text.
pub enum PathFault {
    /// A segment holds the separator.
    BadSegment(Seq<char>),
    /// A segment is empty.
    EmptySegment,
    /// The path does not begin with a slash.
    NoLeadingSlash,
    /// The path has fewer segments than its kind of resource has.
    TooFewSegments,
    /// The path has more segments than its kind of resource has.
    TooManySegments,
    /// The path ends with a slash.
    TrailingSlash,
}

impl PathFault {
    /// The sentence that tells which rule the path broke.
    pub open spec fn text(self) -> Seq<char> {
        match self {
            PathFault::BadSegment(separator) => "Segment is bad, unexpected \""@ + separator
                + "\""@,
            PathFault::EmptySegment => "Path segment is empty"@,
            PathFault::NoLeadingSlash => "Path does not begin with a slash"@,
            PathFault::TooFewSegments => "Too few path segments"@,
            PathFault::TooManySegments => "Too many path segments"@,
            PathFault::TrailingSlash => "Path ends with a slash"@,
        }
    }
}

impl View for PathParseErrorKind {
    type V = PathFault;

    open spec fn view(&self) -> PathFault {
        match self {
            PathParseErrorKind::BadSegment(separator) => PathFault::BadSegment(separator@),
            PathParseErrorKind::EmptySegment => PathFault::EmptySegment,
            PathParseErrorKind::NoLeadingSlash => PathFault::NoLeadingSlash,
            PathParseErrorKind::TooFewSegments => PathFault::TooFewSegments,
            PathParseErrorKind::TooManySegments => PathFault::TooManySegments,
            PathParseErrorKind::TrailingSlash => PathFault::TrailingSlash,
        }
    }
}

impl PathParseErrorKind {
    /// The error that caused this one: there never is one.
    pub fn cause(&self) -> (r: Option<ErrorCause<'_>>)
        ensures
            r is None,
    {
        None
    }

    /// The sentence that tells which rule the path broke.
    pub fn to_string(&self) -> (r: String)
        ensures
            r@ == self@.text(),
    {
        match self {
            PathParseErrorKind::BadSegment(separator) => {
                let mut text = String::from_str("Segment is bad, unexpected \"");
                text.append(separator);
                text.append("\"");
                text
            },
            PathParseErrorKind::EmptySegment => String::from_str("Path segment is empty"),
            PathParseErrorKind::NoLeadingSlash => String::from_str(
                "Path does not begin with a slash",
            ),
            PathParseErrorKind::TooFewSegments => String::from_str("Too few path segments"),
            PathParseErrorKind::TooManySegments => String::from_str("Too many path segments"),
            PathParseErrorKind::TrailingSlash => String::from_str("Path ends with a slash"),
        }
    }
}

/// Which rule a revision broke.
#[derive(Debug)]
pub enum RevisionParseErrorKind {
    /// The digest holds a character that is no hexadecimal digit.
    DigestNotAllHex,
    /// The digest holds hexadecimal digits only, but is no identifier of 32
    /// of them; the field is what `uuid` said of it.
    DigestParse(uuid::Error),
    /// The part before the dash is no number that `u64` holds; the field is
    /// what std said of it.
    NumberParse(core::num::ParseIntError),
    /// The revision has no dash, so it lacks a number or a digest.
    TooFewParts,
    /// The number is zero.
    ZeroSequenceNumber,
}

/// Which rule a revision broke, without the cause.
pub enum RevisionFault {
    /// The digest holds a character that is no hexadecimal digit.
    DigestNotAllHex,
    /// The digest is no identifier of 32 hexadecimal digits.
    DigestParse,
    /// The part before the dash is no number that `u64` holds.
    NumberParse,
    /// The revision has no dash.
    TooFewParts,
    /// The number is zero.
    ZeroSequenceNumber,
}

impl RevisionFault {
    /// The sentence that tells which rule the revision broke, given the text
    /// of the cause; a fault without a cause does not use that text.
    pub open spec fn text_with(self, cause: Seq<char>) -> Seq<char> {
        match self {
            RevisionFault::DigestNotAllHex => {
                "Digest part contains one or more non-hexadecimal characters"@
            },
            RevisionFault::DigestParse => "The digest part is invalid: "@ + cause,
            RevisionFault::NumberParse => "The number part is invalid: "@ + cause,
            RevisionFault::TooFewParts => "Too few parts, missing number part and/or digest part"@,
            RevisionFault::ZeroSequenceNumber => "The number part is zero"@,
        }
    }
}

impl View for RevisionParseErrorKind {
    type V = RevisionFault;

    open spec fn view(&self) -> RevisionFault {
        match self {
            RevisionParseErrorKind::DigestNotAllHex => RevisionFault::DigestNotAllHex,
            RevisionParseErrorKind::DigestParse(_) => RevisionFault::DigestParse,
            RevisionParseErrorKind::NumberParse(_) => RevisionFault::NumberParse,
            RevisionParseErrorKind::TooFewParts => RevisionFault::TooFewParts,
            RevisionParseErrorKind::ZeroSequenceNumber => RevisionFault::ZeroSequenceNumber,
        }
    }
}

impl RevisionParseErrorKind {
    /// The error that caused this one, where there is one.
    pub open spec fn cause_of(&self) -> Option<ErrorCause<'_>> {
        match self {
            RevisionParseErrorKind::DigestParse(cause) => Some(ErrorCause::Uuid(cause)),
            RevisionParseErrorKind::NumberParse(cause) => Some(ErrorCause::ParseInt(cause)),
            _ => None,
        }
    }

    /// The error that caused this one, where there is one.
    pub fn cause(&self) -> (r: Option<ErrorCause<'_>>)
        ensures
            r == self.cause_of(),
    {
        match self {
            RevisionParseErrorKind::DigestParse(cause) => Some(ErrorCause::Uuid(cause)),
            RevisionParseErrorKind::NumberParse(cause) => Some(ErrorCause::ParseInt(cause)),
            _ => None,
        }
    }

    /// The sentence that tells which rule the revision broke, ending with
    /// the text of the cause where there is one.
    pub fn to_string(&self) -> (r: String)
        ensures
            shows_with_cause(self.cause_of(), |cause: Seq<char>| self@.text_with(cause), r@),
    {
        match self {
            RevisionParseErrorKind::DigestNotAllHex => String::from_str(
                "Digest part contains one or more non-hexadecimal characters",
            ),
            RevisionParseErrorKind::DigestParse(cause) => {
                let shown = cause.to_string();
                let mut text = String::from_str("The digest part is invalid: ");
                text.append(shown.as_str());
                assert(ErrorCause::Uuid(cause).shown_as(shown));
                text
            },
            RevisionParseErrorKind::NumberParse(cause) => {
                let shown = cause.to_string();
                let mut text = String::from_str("The number part is invalid: ");
                text.append(shown.as_str());
                assert(ErrorCause::ParseInt(cause).shown_as(shown));
                text
            },
            RevisionParseErrorKind::TooFewParts => String::from_str(
                "Too few parts, missing number part and/or digest part",
            ),
            RevisionParseErrorKind::ZeroSequenceNumber => String::from_str(
                "The number part is zero",
            ),
        }
    }
}

/// What went wrong below the protocol, in the HTTP transport.
#[derive(Debug)]
pub enum TransportErrorKind {
    /// `hyper` reported an error.
    Hyper(hyper::Error),
}

impl TransportErrorKind {
    /// The error that caused this one.
    pub open spec fn cause_of(&self) -> Option<ErrorCause<'_>> {
        match self {
            TransportErrorKind::Hyper(cause) => Some(ErrorCause::Hyper(cause)),
        }
    }

    /// The error that caused this one.
    pub fn cause(&self) -> (r: Option<ErrorCause<'_>>)
        ensures
            r == self.cause_of(),
    {
        match self {
            TransportErrorKind::Hyper(cause) => Some(ErrorCause::Hyper(cause)),
        }
    }

    /// The text of the transport error, which is the text of its cause.
    pub fn to_string(&self) -> (r: String)
        ensures
            shows_with_cause(self.cause_of(), |cause: Seq<char>| cause, r@),
    {
        match self {
            TransportErrorKind::Hyper(cause) => {
                let shown = cause.to_string();
                assert(ErrorCause::Hyper(cause).shown_as(shown));
                shown
            },
        }
    }
}

/// The error of std or of an outside crate that caused an error of this
/// library.
#[derive(Clone, Copy, Debug)]
pub enum ErrorCause<'a> {
    /// A channel was closed while the library waited on it.
    ChannelReceive(&'a std::sync::mpsc::RecvError),
    /// Reading or writing failed.
    Io(&'a std::io::Error),
    /// `serde_json` could not decode or encode.
    Json(&'a serde_json::Error),
    /// `url` could not parse a URL.
    Url(&'a url::ParseError),
    /// `uuid` could not parse a digest.
    Uuid(&'a uuid::Error),
    /// std could not parse a number.
    ParseInt(&'a core::num::ParseIntError),
    /// `hyper` reported an error.
    Hyper(&'a hyper::Error),
}

impl<'a> ErrorCause<'a> {
    /// `text` is what the cause wrote of itself through its `Display`.
    pub open spec fn shown_as(&self, text: String) -> bool {
        match self {
            ErrorCause::ChannelReceive(cause) => to_string_from_display_ensures::<
                std::sync::mpsc::RecvError,
            >(cause, text),
            ErrorCause::Io(cause) => to_string_from_display_ensures::<std::io::Error>(cause, text),
            ErrorCause::Json(cause) => to_string_from_display_ensures::<serde_json::Error>(
                cause,
                text,
            ),
            ErrorCause::Url(cause) => to_string_from_display_ensures::<url::ParseError>(
                cause,
                text,
            ),
            ErrorCause::Uuid(cause) => to_string_from_display_ensures::<uuid::Error>(cause, text),
            ErrorCause::ParseInt(cause) => to_string_from_display_ensures::<
                core::num::ParseIntError,
            >(cause, text),
            ErrorCause::Hyper(cause) => to_string_from_display_ensures::<hyper::Error>(
                cause,
                text,
            ),
        }
    }

    /// The text of the cause, as its `Display` writes it.
    pub fn to_string(&self) -> (r: String)
        ensures
            self.shown_as(r),
    {
        match *self {
            ErrorCause::ChannelReceive(cause) => cause.to_string(),
            ErrorCause::Io(cause) => cause.to_string(),
            ErrorCause::Json(cause) => cause.to_string(),
            ErrorCause::Url(cause) => cause.to_string(),
            ErrorCause::Uuid(cause) => cause.to_string(),
            ErrorCause::ParseInt(cause) => cause.to_string(),
            ErrorCause::Hyper(cause) => cause.to_string(),
        }
    }
}

/// `text` is `frame` around the text of the cause: without a cause the
/// frame is given the empty text, with one it is given a text that the
/// cause wrote of itself.
pub open spec fn shows_with_cause(
    cause: Option<ErrorCause<'_>>,
    frame: spec_fn(Seq<char>) -> Seq<char>,
    text: Seq<char>,
) -> bool {
    match cause {
        None => text == frame(Seq::empty()),
        Some(cause) => exists|shown: String| #[trigger]
            cause.shown_as(shown) && text == frame(shown@),
    }
}

/// An error that the library reports.
#[derive(Debug)]
#[allow(inconsistent_fields)]
pub enum ChillError {
    /// A channel inside the library was closed.
    ChannelReceive { cause: std::sync::mpsc::RecvError, description: &'static str },
    /// The database already exists.
    DatabaseExists(ErrorResponse),
    /// A document with the same id already exists, or the given revision
    /// is not the latest revision of the document.
    DocumentConflict(ErrorResponse),
    /// The document is deleted.
    DocumentIsDeleted,
    /// Reading or writing failed.
    Io { cause: std::io::Error, description: &'static str },
    /// A body could not be decoded from JSON.
    JsonDecode { cause: serde_json::Error },
    /// A value could not be encoded as JSON.
    JsonEncode { cause: serde_json::Error },
    /// An error that stands in for a real one.
    Mock { extra_description: String },
    /// The database, document or other resource does not exist or is
    /// deleted.
    NotFound(ErrorResponse),
    /// A path is badly formed.
    PathParse(PathParseErrorKind),
    /// The response has no content type, or one that is not JSON.
    ResponseNotJson(Option<MediaType>),
    /// A revision is badly formed.
    RevisionParse { kind: RevisionParseErrorKind },
    /// The server answered with a status that has no variant of its own.
    ServerResponse { status_code: StatusCode, error_response: Option<ErrorResponse> },
    /// The HTTP transport failed.
    Transport { kind: TransportErrorKind },
    /// The client may not do what it asked for.
    Unauthorized(ErrorResponse),
    /// The server answered with success, but not in the shape that was
    /// expected.
    UnexpectedResponse(&'static str),
    /// A URL has a scheme where none was expected.
    UrlNotSchemeRelative,
    /// A URL is badly formed.
    UrlParse { cause: url::ParseError },
}

/// What a `ChillError` holds, as plain values and without its cause.
pub enum ErrorView {
    ChannelReceive { description: Seq<char> },
    DatabaseExists(ErrorResponseView),
    DocumentConflict(ErrorResponseView),
    DocumentIsDeleted,
    Io { description: Seq<char> },
    JsonDecode,
    JsonEncode,
    Mock { extra_description: Seq<char> },
    NotFound(ErrorResponseView),
    PathParse(PathFault),
    ResponseNotJson(Option<MediaTypeView>),
    RevisionParse(RevisionFault),
    ServerResponse { status_code: u16, error_response: Option<ErrorResponseView> },
    Transport,
    Unauthorized(ErrorResponseView),
    UnexpectedResponse(Seq<char>),
    UrlNotSchemeRelative,
    UrlParse,
}

/// What an optional error response holds.
pub open spec fn option_error_response_view(o: Option<ErrorResponse>) -> Option<
    ErrorResponseView,
> {
    match o {
        Some(response) => Some(response@),
        None => None,
    }
}

/// What an optional media type holds.
pub open spec fn option_media_type_view(o: Option<MediaType>) -> Option<MediaTypeView> {
    match o {
        Some(media_type) => Some(media_type@),
        None => None,
    }
}

impl ErrorView {
    /// The short sentence that names the kind of the error.
    pub open spec fn description(self) -> Seq<char> {
        match self {
            ErrorView::ChannelReceive { description } => description,
            ErrorView::DatabaseExists(_) => "The database already exists"@,
            ErrorView::DocumentConflict(_) => "A conflicting document with the same id exists"@,
            ErrorView::DocumentIsDeleted => "The document is deleted"@,
            ErrorView::Io { description } => description,
            ErrorView::JsonDecode => "An error occurred while decoding JSON"@,
            ErrorView::JsonEncode => "An error occurred while encoding JSON"@,
            ErrorView::Mock { .. } => "A error occurred while test-mocking"@,
            ErrorView::NotFound(_) => "The resource cannot be found"@,
            ErrorView::PathParse(_) => "The path is badly formatted"@,
            ErrorView::ResponseNotJson(Some(_)) => "The response has non-JSON content"@,
            ErrorView::ResponseNotJson(None) => "The response content has no type"@,
            ErrorView::RevisionParse(_) => "The revision is badly formatted"@,
            ErrorView::ServerResponse { status_code, .. } => {
                if class_of(status_code) == StatusClass::ClientError || class_of(status_code)
                    == StatusClass::ServerError {
                    "The CouchDB server responded with an error"@
                } else {
                    "The CouchDB server responded with an unexpected status"@
                }
            },
            ErrorView::Transport => "An HTTP transport error occurred"@,
            ErrorView::Unauthorized(_) => "The CouchDB client has insufficient privilege"@,
            ErrorView::UnexpectedResponse(_) => "The CouchDB server responded unexpectedly"@,
            ErrorView::UrlNotSchemeRelative => "The URL is not scheme relative"@,
            ErrorView::UrlParse => "The URL is badly formatted"@,
        }
    }

    /// The status of a server response in brackets: the text of the status
    /// code, then its reason phrase once more where one is on record.
    pub open spec fn status_in_brackets(status_code: u16) -> Seq<char> {
        " ("@ + status_text(status_code) + match crate::status::canonical_reason_of(status_code) {
            Some(reason) => ": "@ + reason + ")"@,
            None => ")"@,
        }
    }

    /// The full text of the error, given the text of its cause: the
    /// description, and after it what the variant carries. An error without
    /// a cause does not use that text.
    pub open spec fn text_with(self, cause: Seq<char>) -> Seq<char> {
        let description = self.description();
        match self {
            ErrorView::ChannelReceive { .. } => description + ": "@ + cause,
            ErrorView::DatabaseExists(response) => description + ": "@ + response.text(),
            ErrorView::DocumentConflict(response) => description + ": "@ + response.text(),
            ErrorView::DocumentIsDeleted => description,
            ErrorView::Io { .. } => description + ": "@ + cause,
            ErrorView::JsonDecode => description + ": "@ + cause,
            ErrorView::JsonEncode => description + ": "@ + cause,
            ErrorView::Mock { extra_description } => description + ": "@ + extra_description,
            ErrorView::NotFound(response) => description + ": "@ + response.text(),
            ErrorView::PathParse(fault) => description + ": "@ + fault.text(),
            ErrorView::ResponseNotJson(Some(media_type)) => description + ": Content type is "@
                + media_type.text,
            ErrorView::ResponseNotJson(None) => description,
            ErrorView::RevisionParse(fault) => description + ": "@ + fault.text_with(cause),
            ErrorView::ServerResponse { status_code, error_response } => description
                + Self::status_in_brackets(status_code) + match error_response {
                Some(response) => ": "@ + response.text(),
                None => Seq::empty(),
            },
            ErrorView::Transport => description + ": "@ + cause,
            ErrorView::Unauthorized(response) => description + ": "@ + response.text(),
            ErrorView::UnexpectedResponse(what) => description + ": "@ + what,
            ErrorView::UrlNotSchemeRelative => description,
            ErrorView::UrlParse => description + ": "@ + cause,
        }
    }
}

impl View for ChillError {
    type V = ErrorView;

    open spec fn view(&self) -> ErrorView {
        match self {
            ChillError::ChannelReceive { description, .. } => ErrorView::ChannelReceive {
                description: description@,
            },
            ChillError::DatabaseExists(response) => ErrorView::DatabaseExists(response@),
            ChillError::DocumentConflict(response) => ErrorView::DocumentConflict(response@),
            ChillError::DocumentIsDeleted => ErrorView::DocumentIsDeleted,
            ChillError::Io { description, .. } => ErrorView::Io { description: description@ },
            ChillError::JsonDecode { .. } => ErrorView::JsonDecode,
            ChillError::JsonEncode { .. } => ErrorView::JsonEncode,
            ChillError::Mock { extra_description } => ErrorView::Mock {
                extra_description: extra_description@,
            },
            ChillError::NotFound(response) => ErrorView::NotFound(response@),
            ChillError::PathParse(kind) => ErrorView::PathParse(kind@),
            ChillError::ResponseNotJson(content_type) => ErrorView::ResponseNotJson(
                option_media_type_view(*content_type),
            ),
            ChillError::RevisionParse { kind } => ErrorView::RevisionParse(kind@),
            ChillError::ServerResponse { status_code, error_response } => {
                ErrorView::ServerResponse {
                    status_code: status_code@,
                    error_response: option_error_response_view(*error_response),
                }
            },
            ChillError::Transport { .. } => ErrorView::Transport,
            ChillError::Unauthorized(response) => ErrorView::Unauthorized(response@),
            ChillError::UnexpectedResponse(what) => ErrorView::UnexpectedResponse(what@),
            ChillError::UrlNotSchemeRelative => ErrorView::UrlNotSchemeRelative,
            ChillError::UrlParse { .. } => ErrorView::UrlParse,
        }
    }
}

impl ChillError {
    /// The error for a response whose status has no variant of its own: a
    /// `ServerResponse` with the status, and with the error body of the
    /// response where the content is one.
    pub fn server_response(response: &JsonResponse) -> (r: Self)
        ensures
            r@ == (ErrorView::ServerResponse {
                status_code: response@.status_code,
                error_response: error_response_of(response@.content),
            }),
    {
        ChillError::ServerResponse {
            status_code: response.status_code(),
            error_response: match response.decode_error_response() {
                Ok(decoded) => Some(decoded),
                Err(_) => None,
            },
        }
    }

    /// The error for a response that says that the database exists:
    /// `DatabaseExists` with the error body of the response, or the error of
    /// decoding that body.
    pub fn database_exists(response: &JsonResponse) -> (r: Self)
        ensures
            r@ == match decode_body(response@.content) {
                Ok(decoded) => ErrorView::DatabaseExists(decoded),
                Err(e) => e,
            },
    {
        match response.decode_error_response() {
            Ok(decoded) => ChillError::DatabaseExists(decoded),
            Err(e) => e,
        }
    }

    /// The error for a response that says that a document is in conflict:
    /// `DocumentConflict` with the error body of the response, or the error
    /// of decoding that body.
    pub fn document_conflict(response: &JsonResponse) -> (r: Self)
        ensures
            r@ == match decode_body(response@.content) {
                Ok(decoded) => ErrorView::DocumentConflict(decoded),
                Err(e) => e,
            },
    {
        match response.decode_error_response() {
            Ok(decoded) => ChillError::DocumentConflict(decoded),
            Err(e) => e,
        }
    }

    /// The error for a response that says that the resource is not there:
    /// `NotFound` with the error body of the response, or the error of
    /// decoding that body.
    pub fn not_found(response: &JsonResponse) -> (r: Self)
        ensures
            r@ == match decode_body(response@.content) {
                Ok(decoded) => ErrorView::NotFound(decoded),
                Err(e) => e,
            },
    {
        match response.decode_error_response() {
            Ok(decoded) => ChillError::NotFound(decoded),
            Err(e) => e,
        }
    }

    /// The error for a response that says that the client may not do what
    /// it asked for: `Unauthorized` with the error body of the response, or
    /// the error of decoding that body.
    pub fn unauthorized(response: &JsonResponse) -> (r: Self)
        ensures
            r@ == match decode_body(response@.content) {
                Ok(decoded) => ErrorView::Unauthorized(decoded),
                Err(e) => e,
            },
    {
        match response.decode_error_response() {
            Ok(decoded) => ChillError::Unauthorized(decoded),
            Err(e) => e,
        }
    }

    /// The error that caused this one, where there is one.
    pub open spec fn cause_of(&self) -> Option<ErrorCause<'_>> {
        match self {
            ChillError::ChannelReceive { cause, .. } => Some(ErrorCause::ChannelReceive(cause)),
            ChillError::Io { cause, .. } => Some(ErrorCause::Io(cause)),
            ChillError::JsonDecode { cause } => Some(ErrorCause::Json(cause)),
            ChillError::JsonEncode { cause } => Some(ErrorCause::Json(cause)),
            ChillError::RevisionParse { kind } => kind.cause_of(),
            ChillError::Transport { kind } => kind.cause_of(),
            ChillError::UrlParse { cause } => Some(ErrorCause::Url(cause)),
            _ => None,
        }
    }

    /// The short sentence that names the kind of the error.
    pub fn description(&self) -> (r: &'static str)
        ensures
            r@ == self@.description(),
    {
        match self {
            ChillError::ChannelReceive { description, .. } => description,
            ChillError::DatabaseExists(_) => "The database already exists",
            ChillError::DocumentConflict(_) => "A conflicting document with the same id exists",
            ChillError::DocumentIsDeleted => "The document is deleted",
            ChillError::Io { description, .. } => description,
            ChillError::JsonDecode { .. } => "An error occurred while decoding JSON",
            ChillError::JsonEncode { .. } => "An error occurred while encoding JSON",
            ChillError::Mock { .. } => "A error occurred while test-mocking",
            ChillError::NotFound(_) => "The resource cannot be found",
            ChillError::PathParse(_) => "The path is badly formatted",
            ChillError::ResponseNotJson(Some(_)) => "The response has non-JSON content",
            ChillError::ResponseNotJson(None) => "The response content has no type",
            ChillError::RevisionParse { .. } => "The revision is badly formatted",
            ChillError::ServerResponse { status_code, .. } => {
                match status_code.class() {
                    StatusClass::ClientError
                    | StatusClass::ServerError => "The CouchDB server responded with an error",
                    _ => "The CouchDB server responded with an unexpected status",
                }
            },
            ChillError::Transport { .. } => "An HTTP transport error occurred",
            ChillError::Unauthorized(_) => "The CouchDB client has insufficient privilege",
            ChillError::UnexpectedResponse(_) => "The CouchDB server responded unexpectedly",
            ChillError::UrlNotSchemeRelative => "The URL is not scheme relative",
            ChillError::UrlParse { .. } => "The URL is badly formatted",
        }
    }

    /// The error that caused this one, where there is one.
    pub fn cause(&self) -> (r: Option<ErrorCause<'_>>)
        ensures
            r == self.cause_of(),
    {
        match self {
            ChillError::ChannelReceive { cause, .. } => Some(ErrorCause::ChannelReceive(cause)),
            ChillError::Io { cause, .. } => Some(ErrorCause::Io(cause)),
            ChillError::JsonDecode { cause } => Some(ErrorCause::Json(cause)),
            ChillError::JsonEncode { cause } => Some(ErrorCause::Json(cause)),
            ChillError::PathParse(kind) => kind.cause(),
            ChillError::RevisionParse { kind } => kind.cause(),
            ChillError::Transport { kind } => kind.cause(),
            ChillError::UrlParse { cause } => Some(ErrorCause::Url(cause)),
            _ => None,
        }
    }

    /// The full text of the error: its description, then what the variant
    /// carries, ending with the text of the cause where there is one.
    pub fn to_string(&self) -> (r: String)
        ensures
            shows_with_cause(self.cause_of(), |cause: Seq<char>| self@.text_with(cause), r@),
    {
        let mut text = String::from_str(self.description());
        match self {
            ChillError::ChannelReceive { cause, .. } => {
                let shown = cause.to_string();
                text.append(": ");
                text.append(shown.as_str());
                assert(ErrorCause::ChannelReceive(cause).shown_as(shown));
            },
            ChillError::Io { cause, .. } => {
                let shown = cause.to_string();
                text.append(": ");
                text.append(shown.as_str());
                assert(ErrorCause::Io(cause).shown_as(shown));
            },
            ChillError::JsonDecode { cause } => {
                let shown = cause.to_string();
                text.append(": ");
                text.append(shown.as_str());
                assert(ErrorCause::Json(cause).shown_as(shown));
            },
            ChillError::JsonEncode { cause } => {
                let shown = cause.to_string();
                text.append(": ");
                text.append(shown.as_str());
                assert(ErrorCause::Json(cause).shown_as(shown));
            },
            ChillError::UrlParse { cause } => {
                let shown = cause.to_string();
                text.append(": ");
                text.append(shown.as_str());
                assert(ErrorCause::Url(cause).shown_as(shown));
            },
            ChillError::DatabaseExists(response)
            | ChillError::DocumentConflict(response)
            | ChillError::NotFound(response)
            | ChillError::Unauthorized(response) => {
                let shown = response.to_string();
                text.append(": ");
                text.append(shown.as_str());
            },
            ChillError::DocumentIsDeleted
            | ChillError::UrlNotSchemeRelative
            | ChillError::ResponseNotJson(None) => {},
            ChillError::Mock { extra_description } => {
                text.append(": ");
                text.append(extra_description.as_str());
            },
            ChillError::PathParse(kind) => {
                let shown = kind.to_string();
                text.append(": ");
                text.append(shown.as_str());
            },
            ChillError::ResponseNotJson(Some(content_type)) => {
                text.append(": Content type is ");
                text.append(content_type.as_str());
            },
            ChillError::RevisionParse { kind } => {
                let shown = kind.to_string();
                text.append(": ");
                text.append(shown.as_str());
                proof {
                    if let Some(cause) = kind.cause_of() {
                        let inner = choose|inner: String| #[trigger]
                            cause.shown_as(inner) && shown@ == kind@.text_with(inner@);
                        assert(cause.shown_as(inner));
                    }
                }
            },
            ChillError::Transport { kind } => {
                let shown = kind.to_string();
                text.append(": ");
                text.append(shown.as_str());
                proof {
                    let cause = kind.cause_of().unwrap();
                    let inner = choose|inner: String| #[trigger]
                        cause.shown_as(inner) && shown@ == inner@;
                    assert(cause.shown_as(inner));
                }
            },
            ChillError::ServerResponse { status_code, error_response } => {
                let ghost description = text@;
                let status = status_code.to_string();
                text.append(" (");
                text.append(status.as_str());
                match status_code.canonical_reason() {
                    Some(reason) => {
                        text.append(": ");
                        text.append(reason);
                        text.append(")");
                    },
                    None => {
                        text.append(")");
                    },
                }
                assert(text@ =~= description + ErrorView::status_in_brackets(status_code@));
                match error_response {
                    Some(response) => {
                        let shown = response.to_string();
                        text.append(": ");
                        text.append(shown.as_str());
                        assert(text@ =~= description + ErrorView::status_in_brackets(
                            status_code@,
                        ) + (": "@ + response@.text()));
                    },
                    None => {
                        assert(text@ =~= description + ErrorView::status_in_brackets(
                            status_code@,
                        ) + Seq::<char>::empty());
                    },
                }
            },
            ChillError::UnexpectedResponse(what) => {
                text.append(": ");
                text.append(what);
            },
        }
        text
    }
}

} // verus!
