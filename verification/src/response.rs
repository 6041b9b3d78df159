//! Responses of the server, and what they mean for the request that was
//! made.
//!
//! A response is judged once, in two steps. First its content type: where
//! the request expects JSON, a response that does not say that it holds
//! JSON is refused whatever its status. Then its status together with what
//! the request was for: the same status can mean different things for
//! different requests, and each status that tells of a failure asks for
//! the error body of the server, which is decoded from the content.

use crate::error::{
    error_response_of, option_media_type_view, ChillError, ErrorResponse, ErrorResponseView,
    ErrorView,
};
use crate::json::{is_json_text, json_members, read_json, read_json_members};
use crate::media::{is_json_media_type, MediaType, MediaTypeView};
use crate::status::{class_of, StatusClass, StatusCode};
use vstd::prelude::*;

verus! {

/// What a request was made for, as far as it changes what a status means.
#[derive(Clone, Copy, Debug, PartialEq, Eq, Structural)]
pub enum Intent {
    /// The request reads a resource.
    Lookup,
    /// The request creates a database.
    CreateDatabase,
    /// The request writes a document.
    DocumentWrite,
}

/// What the content of a response is expected to be where the request
/// succeeds.
#[derive(Clone, Copy, Debug, PartialEq, Eq, Structural)]
pub enum Payload {
    /// JSON: the response must say so in its content type.
    Json,
    /// Anything else, such as the bytes of an attachment.
    Other,
}

/// A response whose content type says that it holds JSON.
#[derive(Debug)]
pub struct JsonResponse {
    status_code: StatusCode,
    content: Vec<u8>,
}

/// What a response holds, as plain values.
pub struct JsonResponseView {
    /// The number of the status code.
    pub status_code: u16,
    /// The bytes of the content.
    pub content: Seq<u8>,
}

/// What is said of a response with a successful status whose content is not
/// a JSON object.
pub const NOT_AN_OBJECT: &'static str = "The response content is not a JSON object";

/// What became of decoding an error body: the error response, or the error
/// that tells why there is none.
pub open spec fn decoded_view(decoded: Result<ErrorResponse, ChillError>) -> Result<
    ErrorResponseView,
    ErrorView,
> {
    match decoded {
        Ok(response) => Ok(response@),
        Err(e) => Err(e@),
    }
}

/// What decoding the error body of `body` gives: the error response that
/// the body stands for, or a `JsonDecode` error.
pub open spec fn decode_body(body: Seq<u8>) -> Result<ErrorResponseView, ErrorView> {
    match error_response_of(body) {
        Some(response) => Ok(response),
        None => Err(ErrorView::JsonDecode),
    }
}

/// The error that a status without success stands for, given what the
/// request was for and what became of decoding the error body. A status
/// with a meaning of its own needs the error body, and the failure to decode
/// it is the error then. Every other status gives a `ServerResponse` with
/// the error body if there is one.
pub open spec fn error_of_status(
    intent: Intent,
    status_code: u16,
    decoded: Result<ErrorResponseView, ErrorView>,
) -> ErrorView {
    if status_code == 404 {
        match decoded {
            Ok(response) => ErrorView::NotFound(response),
            Err(e) => e,
        }
    } else if status_code == 401 || status_code == 403 {
        match decoded {
            Ok(response) => ErrorView::Unauthorized(response),
            Err(e) => e,
        }
    } else if status_code == 409 && intent == Intent::CreateDatabase {
        match decoded {
            Ok(response) => ErrorView::DatabaseExists(response),
            Err(e) => e,
        }
    } else if status_code == 409 && intent == Intent::DocumentWrite {
        match decoded {
            Ok(response) => ErrorView::DocumentConflict(response),
            Err(e) => e,
        }
    } else {
        ErrorView::ServerResponse {
            status_code,
            error_response: match decoded {
                Ok(response) => Some(response),
                Err(_) => None,
            },
        }
    }
}

/// The error that a status stands for when the content of the response is
/// JSON, or nothing where the status tells of success and the content is as
/// expected. A successful status asks for content that is JSON, and a JSON
/// object; every other status is an error.
pub open spec fn error_of_json(intent: Intent, status_code: u16, content: Seq<u8>) -> Option<
    ErrorView,
> {
    if class_of(status_code) == StatusClass::Success {
        if !is_json_text(content) {
            Some(ErrorView::JsonDecode)
        } else if json_members(content) is None {
            Some(ErrorView::UnexpectedResponse(NOT_AN_OBJECT@))
        } else {
            None
        }
    } else {
        Some(error_of_status(intent, status_code, decode_body(content)))
    }
}

/// The error that a response stands for, or nothing where the response
/// tells of success.
///
/// Where the request expects JSON, the content type is judged first:
/// without one, or with one that is not JSON, the response is refused
/// whatever its status, and else it is judged as `error_of_json` says. Where
/// the request expects other content, a successful status is success, and
/// every other status is an error as it is for JSON.
pub open spec fn error_of(
    intent: Intent,
    payload: Payload,
    status_code: u16,
    content_type: Option<MediaTypeView>,
    content: Seq<u8>,
) -> Option<ErrorView> {
    if payload == Payload::Json {
        if content_type matches Some(media_type) && is_json_media_type(media_type) {
            error_of_json(intent, status_code, content)
        } else {
            Some(ErrorView::ResponseNotJson(content_type))
        }
    } else if class_of(status_code) == StatusClass::Success {
        None
    } else {
        Some(error_of_status(intent, status_code, decode_body(content)))
    }
}

/// A response tells of success only with a status from 200 to 299, and
/// where JSON is expected, only with a content type that is JSON. With any
/// other status it stands for an error. Where JSON is expected, another
/// content type gives `ResponseNotJson`, whatever the status.
pub proof fn law_success(
    intent: Intent,
    payload: Payload,
    status_code: u16,
    content_type: Option<MediaTypeView>,
    content: Seq<u8>,
)
    ensures
        error_of(intent, payload, status_code, content_type, content) is None ==> 200
            <= status_code < 300,
        error_of(intent, Payload::Json, status_code, content_type, content) is None
            ==> content_type is Some && is_json_media_type(content_type->0),
        !(content_type matches Some(media_type) && is_json_media_type(media_type)) ==> error_of(
            intent,
            Payload::Json,
            status_code,
            content_type,
            content,
        ) == Some(ErrorView::ResponseNotJson(content_type)),
        !(200 <= status_code < 300) ==> error_of(
            intent,
            payload,
            status_code,
            content_type,
            content,
        ) is Some,
{
}

/// A status with a meaning of its own never gives an error without the
/// error body of the server: the error holds that body, or it is the
/// failure to decode it.
pub proof fn law_error_body_is_kept(
    intent: Intent,
    status_code: u16,
    decoded: Result<ErrorResponseView, ErrorView>,
)
    ensures
        match decoded {
            Ok(response) => {
                let e = error_of_status(intent, status_code, decoded);
                ||| e == ErrorView::NotFound(response)
                ||| e == ErrorView::Unauthorized(response)
                ||| e == ErrorView::DatabaseExists(response)
                ||| e == ErrorView::DocumentConflict(response)
                ||| e == (ErrorView::ServerResponse {
                    status_code,
                    error_response: Some(response),
                })
            },
            Err(failure) => {
                let e = error_of_status(intent, status_code, decoded);
                ||| e == failure
                ||| e == (ErrorView::ServerResponse { status_code, error_response: None })
            },
        },
{
}

impl View for JsonResponse {
    type V = JsonResponseView;

    closed spec fn view(&self) -> JsonResponseView {
        JsonResponseView { status_code: self.status_code@, content: self.content@ }
    }
}

impl JsonResponse {
    /// Makes a response from its status, its content type and its content.
    /// A response without a content type, or with one that is not JSON, is
    /// refused as `ResponseNotJson`.
    pub fn new(status_code: StatusCode, content_type: Option<MediaType>, content: Vec<u8>) -> (r:
        Result<JsonResponse, ChillError>)
        ensures
            match r {
                Ok(response) => {
                    &&& content_type matches Some(media_type) && is_json_media_type(media_type@)
                    &&& response@ == (JsonResponseView {
                        status_code: status_code@,
                        content: content@,
                    })
                },
                Err(e) => {
                    &&& !(content_type matches Some(media_type) && is_json_media_type(
                        media_type@,
                    ))
                    &&& e@ == ErrorView::ResponseNotJson(option_media_type_view(content_type))
                },
            },
    {
        let is_json = match &content_type {
            Some(media_type) => media_type.is_json(),
            None => false,
        };
        if is_json {
            Ok(JsonResponse { status_code, content })
        } else {
            Err(ChillError::ResponseNotJson(content_type))
        }
    }

    /// The status of the response.
    pub fn status_code(&self) -> (r: StatusCode)
        ensures
            r@ == self@.status_code,
    {
        self.status_code
    }

    /// The bytes of the content.
    pub fn content(&self) -> (r: &Vec<u8>)
        ensures
            r@ == self@.content,
    {
        &self.content
    }

    /// Decodes the content as the error body of the server.
    pub fn decode_error_response(&self) -> (r: Result<ErrorResponse, ChillError>)
        ensures
            decoded_view(r) == decode_body(self@.content),
    {
        ErrorResponse::from_json(self.content.as_slice())
    }
}

/// The error that a status without success stands for, given what the
/// request was for and what became of decoding the error body.
pub fn status_error(
    intent: Intent,
    status_code: StatusCode,
    decoded: Result<ErrorResponse, ChillError>,
) -> (r: ChillError)
    ensures
        r@ == error_of_status(intent, status_code@, decoded_view(decoded)),
{
    let code = status_code.as_u16();
    let own_meaning = code == 404 || code == 401 || code == 403 || (code == 409 && (intent
        == Intent::CreateDatabase || intent == Intent::DocumentWrite));
    if !own_meaning {
        return ChillError::ServerResponse {
            status_code,
            error_response: match decoded {
                Ok(response) => Some(response),
                Err(_) => None,
            },
        };
    }
    match decoded {
        Err(e) => e,
        Ok(response) => {
            if code == 404 {
                ChillError::NotFound(response)
            } else if code == 409 {
                if intent == Intent::CreateDatabase {
                    ChillError::DatabaseExists(response)
                } else {
                    ChillError::DocumentConflict(response)
                }
            } else {
                ChillError::Unauthorized(response)
            }
        },
    }
}

/// Judges a status and the content that came with it, where the content
/// type says that the content is JSON: `Ok` where the response tells of
/// success, else the error that it stands for.
pub fn classify_json(intent: Intent, status_code: StatusCode, content: &[u8]) -> (r: Result<
    (),
    ChillError,
>)
    ensures
        match r {
            Ok(_) => error_of_json(intent, status_code@, content@) is None,
            Err(e) => error_of_json(intent, status_code@, content@) == Some(e@),
        },
{
    match status_code.class() {
        StatusClass::Success => {
            match read_json(content) {
                Err(cause) => Err(ChillError::JsonDecode { cause }),
                Ok(_) => match read_json_members(content) {
                    Err(_) => Err(ChillError::UnexpectedResponse(NOT_AN_OBJECT)),
                    Ok(_) => Ok(()),
                },
            }
        },
        _ => Err(status_error(intent, status_code, ErrorResponse::from_json(content))),
    }
}

/// Judges a response with JSON content: `Ok` where it tells of success,
/// else the error that it stands for.
pub fn classify_response(intent: Intent, response: &JsonResponse) -> (r: Result<(), ChillError>)
    ensures
        match r {
            Ok(_) => error_of_json(intent, response@.status_code, response@.content) is None,
            Err(e) => error_of_json(intent, response@.status_code, response@.content) == Some(
                e@,
            ),
        },
{
    classify_json(intent, response.status_code, response.content.as_slice())
}

/// Judges what a server answered: `Ok` where the answer tells of success,
/// so that the caller can go on to decode the content, else the one error
/// that the answer stands for.
pub fn classify(
    intent: Intent,
    payload: Payload,
    status_code: StatusCode,
    content_type: Option<MediaType>,
    content: &[u8],
) -> (r: Result<(), ChillError>)
    ensures
        match r {
            Ok(_) => error_of(
                intent,
                payload,
                status_code@,
                option_media_type_view(content_type),
                content@,
            ) is None,
            Err(e) => error_of(
                intent,
                payload,
                status_code@,
                option_media_type_view(content_type),
                content@,
            ) == Some(e@),
        },
{
    match payload {
        Payload::Json => {
            let is_json = match &content_type {
                Some(media_type) => media_type.is_json(),
                None => false,
            };
            if is_json {
                classify_json(intent, status_code, content)
            } else {
                Err(ChillError::ResponseNotJson(content_type))
            }
        },
        Payload::Other => match status_code.class() {
            StatusClass::Success => Ok(()),
            _ => Err(status_error(intent, status_code, ErrorResponse::from_json(content))),
        },
    }
}

} // verus!
