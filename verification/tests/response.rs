use chill::error::{ChillError, ErrorResponse};
use chill::media::MediaType;
use chill::response::{
    classify, classify_json, classify_response, status_error, Intent, JsonResponse, Payload,
    NOT_AN_OBJECT,
};
use chill::status::{StatusClass, StatusCode};

fn judge(
    intent: Intent,
    status: u16,
    content_type: Option<&str>,
    body: &str,
) -> Result<(), ChillError> {
    classify(
        intent,
        Payload::Json,
        StatusCode::from_u16(status).unwrap(),
        content_type.and_then(MediaType::parse),
        body.as_bytes(),
    )
}

fn judge_other(
    intent: Intent,
    status: u16,
    content_type: Option<&str>,
    body: &str,
) -> Result<(), ChillError> {
    classify(
        intent,
        Payload::Other,
        StatusCode::from_u16(status).unwrap(),
        content_type.and_then(MediaType::parse),
        body.as_bytes(),
    )
}

const JSON: Option<&str> = Some("application/json");
const NOT_FOUND_BODY: &str = "{\"error\":\"not_found\",\"reason\":\"missing\"}";
const FILE_EXISTS_BODY: &str = "{\"error\":\"file_exists\",\"reason\":\"The database could not be created, the file already exists.\"}";

#[test]
fn classify_not_found() {
    let got = judge(Intent::Lookup, 404, JSON, NOT_FOUND_BODY).unwrap_err();
    assert!(matches!(got, ChillError::NotFound(x) if x == ErrorResponse::new("not_found", "missing")));
    for intent in [Intent::CreateDatabase, Intent::DocumentWrite] {
        assert!(matches!(
            judge(intent, 404, JSON, NOT_FOUND_BODY),
            Err(ChillError::NotFound(_))
        ));
    }
}

#[test]
fn classify_database_exists() {
    let got = judge(Intent::CreateDatabase, 409, JSON, FILE_EXISTS_BODY).unwrap_err();
    let expected = ErrorResponse::new(
        "file_exists",
        "The database could not be created, the file already exists.",
    );
    assert!(matches!(got, ChillError::DatabaseExists(x) if x == expected));
}

#[test]
fn classify_document_conflict() {
    let got = judge(Intent::DocumentWrite, 409, JSON, FILE_EXISTS_BODY).unwrap_err();
    let expected = ErrorResponse::new(
        "file_exists",
        "The database could not be created, the file already exists.",
    );
    assert!(matches!(got, ChillError::DocumentConflict(x) if x == expected));
}

#[test]
fn classify_conflict_without_its_intent_is_a_server_response() {
    match judge(Intent::Lookup, 409, JSON, FILE_EXISTS_BODY).unwrap_err() {
        ChillError::ServerResponse { status_code, error_response } => {
            assert_eq!(409, status_code.as_u16());
            assert_eq!("file_exists", error_response.unwrap().error());
        },
        other => panic!("expected a server response, got {:?}", other),
    }
}

#[test]
fn classify_unauthorized() {
    let body = "{\"error\":\"unauthorized\",\"reason\":\"You are not a server admin.\"}";
    for intent in [Intent::Lookup, Intent::CreateDatabase, Intent::DocumentWrite] {
        for status in [401, 403] {
            let got = judge(intent, status, JSON, body).unwrap_err();
            assert!(matches!(
                got,
                ChillError::Unauthorized(x) if x == ErrorResponse::new("unauthorized", "You are not a server admin.")
            ));
        }
    }
}

#[test]
fn classify_server_error_with_bad_body() {
    match judge(Intent::Lookup, 500, JSON, "<html>oops</html>").unwrap_err() {
        ChillError::ServerResponse { status_code, error_response } => {
            assert_eq!(500, status_code.as_u16());
            assert_eq!(None, error_response);
        },
        other => panic!("expected a server response, got {:?}", other),
    }
}

#[test]
fn classify_server_error_with_error_body() {
    match judge(Intent::DocumentWrite, 500, JSON, "{\"error\":\"boom\",\"reason\":\"broke\"}")
        .unwrap_err()
    {
        ChillError::ServerResponse { status_code, error_response } => {
            assert_eq!(500, status_code.as_u16());
            assert_eq!(Some(ErrorResponse::new("boom", "broke")), error_response);
        },
        other => panic!("expected a server response, got {:?}", other),
    }
}

#[test]
fn classify_response_not_json() {
    match judge(Intent::Lookup, 200, Some("text/plain"), "{}").unwrap_err() {
        ChillError::ResponseNotJson(Some(content_type)) => {
            assert_eq!("text/plain", content_type.as_str());
            assert_eq!("text", content_type.top_level());
            assert_eq!("plain", content_type.subtype());
        },
        other => panic!("expected a content type error, got {:?}", other),
    }
    assert!(matches!(
        judge(Intent::Lookup, 200, None, "{}"),
        Err(ChillError::ResponseNotJson(None))
    ));
    assert!(matches!(
        judge(Intent::Lookup, 404, Some("text/html"), NOT_FOUND_BODY),
        Err(ChillError::ResponseNotJson(Some(_)))
    ));
    assert!(matches!(
        judge(Intent::Lookup, 200, Some("application/hal+json"), "{}"),
        Err(ChillError::ResponseNotJson(Some(_)))
    ));
}

#[test]
fn classify_success() {
    assert!(judge(Intent::Lookup, 200, JSON, "{\"_id\": \"doc\", \"count\": 3}").is_ok());
    assert!(judge(Intent::CreateDatabase, 201, JSON, "{\"ok\":true}").is_ok());
    assert!(judge(Intent::DocumentWrite, 202, Some("application/json; charset=utf-8"), "{}").is_ok());
    assert!(judge(Intent::Lookup, 200, Some("Application/JSON"), "{}").is_ok());
}

#[test]
fn classify_success_with_bad_content() {
    assert!(matches!(
        judge(Intent::Lookup, 200, JSON, "{\"_id\": "),
        Err(ChillError::JsonDecode { .. })
    ));
    assert!(matches!(
        judge(Intent::Lookup, 200, JSON, ""),
        Err(ChillError::JsonDecode { .. })
    ));
    assert!(matches!(
        judge(Intent::Lookup, 200, JSON, "[1, 2, 3]"),
        Err(ChillError::UnexpectedResponse(what)) if what == NOT_AN_OBJECT
    ));
    assert!(matches!(
        judge(Intent::CreateDatabase, 201, JSON, "true"),
        Err(ChillError::UnexpectedResponse(_))
    ));
}

#[test]
fn classify_status_with_own_meaning_needs_the_error_body() {
    assert!(matches!(
        judge(Intent::Lookup, 404, JSON, "not json"),
        Err(ChillError::JsonDecode { .. })
    ));
    assert!(matches!(
        judge(Intent::Lookup, 401, JSON, "{\"error\":\"unauthorized\"}"),
        Err(ChillError::JsonDecode { .. })
    ));
    assert!(matches!(
        judge(Intent::CreateDatabase, 409, JSON, "{\"reason\":\"x\"}"),
        Err(ChillError::JsonDecode { .. })
    ));
    assert!(matches!(
        judge(Intent::DocumentWrite, 409, JSON, "[]"),
        Err(ChillError::JsonDecode { .. })
    ));
}

#[test]
fn classify_other_statuses_are_server_responses() {
    for status in [100, 301, 400, 412, 418, 503, 600, 999] {
        match judge(Intent::Lookup, status, JSON, NOT_FOUND_BODY).unwrap_err() {
            ChillError::ServerResponse { status_code, error_response } => {
                assert_eq!(status, status_code.as_u16());
                assert_eq!(Some(ErrorResponse::new("not_found", "missing")), error_response);
            },
            other => panic!("expected a server response, got {:?}", other),
        }
    }
}

#[test]
fn classify_response_judges_a_json_response() {
    let response = JsonResponse::new(
        StatusCode::from_u16(404).unwrap(),
        MediaType::parse("application/json"),
        NOT_FOUND_BODY.as_bytes().to_vec(),
    )
    .unwrap();
    assert!(matches!(
        classify_response(Intent::Lookup, &response),
        Err(ChillError::NotFound(_))
    ));
    assert_eq!(
        ErrorResponse::new("not_found", "missing"),
        response.decode_error_response().unwrap()
    );
    assert_eq!(StatusClass::ClientError, response.status_code().class());
    let fine = JsonResponse::new(
        StatusCode::from_u16(200).unwrap(),
        MediaType::parse("application/json"),
        b"{}".to_vec(),
    )
    .unwrap();
    assert!(classify_response(Intent::Lookup, &fine).is_ok());
    assert!(matches!(fine.decode_error_response(), Err(ChillError::JsonDecode { .. })));
}

#[test]
fn json_response_wants_json_content() {
    let status = StatusCode::from_u16(200).unwrap();
    assert!(matches!(
        JsonResponse::new(status, None, Vec::new()),
        Err(ChillError::ResponseNotJson(None))
    ));
    assert!(matches!(
        JsonResponse::new(status, MediaType::parse("image/png"), Vec::new()),
        Err(ChillError::ResponseNotJson(Some(_)))
    ));
    assert!(JsonResponse::new(status, MediaType::parse("application/json"), Vec::new()).is_ok());
}

#[test]
fn status_error_goes_by_status_and_intent() {
    let decoded = || Ok(ErrorResponse::new("e", "r"));
    let failed = || Err(ChillError::DocumentIsDeleted);
    let status = |code: u16| StatusCode::from_u16(code).unwrap();
    assert!(matches!(
        status_error(Intent::Lookup, status(404), decoded()),
        ChillError::NotFound(_)
    ));
    assert!(matches!(
        status_error(Intent::Lookup, status(404), failed()),
        ChillError::DocumentIsDeleted
    ));
    assert!(matches!(
        status_error(Intent::Lookup, status(403), decoded()),
        ChillError::Unauthorized(_)
    ));
    assert!(matches!(
        status_error(Intent::CreateDatabase, status(409), decoded()),
        ChillError::DatabaseExists(_)
    ));
    assert!(matches!(
        status_error(Intent::DocumentWrite, status(409), decoded()),
        ChillError::DocumentConflict(_)
    ));
    assert!(matches!(
        status_error(Intent::DocumentWrite, status(409), failed()),
        ChillError::DocumentIsDeleted
    ));
    assert!(matches!(
        status_error(Intent::Lookup, status(409), failed()),
        ChillError::ServerResponse { error_response: None, .. }
    ));
    assert!(matches!(
        status_error(Intent::Lookup, status(502), decoded()),
        ChillError::ServerResponse { error_response: Some(_), .. }
    ));
}

#[test]
fn classify_other_payload_skips_the_content_type() {
    assert!(judge_other(Intent::Lookup, 200, Some("image/png"), "\u{89}PNG").is_ok());
    assert!(judge_other(Intent::Lookup, 200, None, "").is_ok());
    assert!(judge_other(Intent::Lookup, 204, JSON, "[1]").is_ok());
    assert!(matches!(
        judge_other(Intent::Lookup, 404, JSON, NOT_FOUND_BODY),
        Err(ChillError::NotFound(_))
    ));
    assert!(matches!(
        judge_other(Intent::Lookup, 404, Some("text/html"), NOT_FOUND_BODY),
        Err(ChillError::NotFound(_))
    ));
    assert!(matches!(
        judge_other(Intent::Lookup, 404, Some("text/html"), "<html></html>"),
        Err(ChillError::JsonDecode { .. })
    ));
    assert!(matches!(
        judge_other(Intent::DocumentWrite, 409, None, FILE_EXISTS_BODY),
        Err(ChillError::DocumentConflict(_))
    ));
    assert!(matches!(
        judge_other(Intent::Lookup, 500, None, "oops"),
        Err(ChillError::ServerResponse { error_response: None, .. })
    ));
    assert!(matches!(
        judge_other(Intent::Lookup, 302, None, ""),
        Err(ChillError::ServerResponse { error_response: None, .. })
    ));
}

#[test]
fn classify_json_judges_status_and_content() {
    let status = |code: u16| StatusCode::from_u16(code).unwrap();
    assert!(classify_json(Intent::Lookup, status(200), b"{}").is_ok());
    assert!(matches!(
        classify_json(Intent::Lookup, status(200), b"{"),
        Err(ChillError::JsonDecode { .. })
    ));
    assert!(matches!(
        classify_json(Intent::Lookup, status(200), b"7"),
        Err(ChillError::UnexpectedResponse(_))
    ));
    assert!(matches!(
        classify_json(Intent::Lookup, status(404), NOT_FOUND_BODY.as_bytes()),
        Err(ChillError::NotFound(_))
    ));
}
