use starling::error::{ApiError, StorageError};

#[test]
fn not_found_answers_404() {
    let (code, message) = ApiError::NotFound.into_response();
    assert_eq!(code, 404);
    assert_eq!(message, "not found");
}

#[test]
fn bad_request_answers_400_with_its_message() {
    let (code, message) = ApiError::BadRequest("missing name".to_string()).into_response();
    assert_eq!(code, 400);
    assert_eq!(message, "missing name");
}

#[test]
fn storage_errors_answer_500_with_their_text() {
    let e: ApiError = StorageError::Db("connection refused".to_string()).into();
    assert_eq!(e, ApiError::Storage(StorageError::Db("connection refused".to_string())));
    assert_eq!(e.status_code(), 500);
    assert_eq!(e.message(), "db error: connection refused");
    let e = ApiError::from(StorageError::Serde("expected value".to_string()));
    assert_eq!(e.into_response(), (500, "serde error: expected value".to_string()));
}

#[test]
fn storage_error_messages() {
    assert_eq!(StorageError::Db("x".to_string()).message(), "db error: x");
    assert_eq!(StorageError::Serde("y".to_string()).message(), "serde error: y");
}
