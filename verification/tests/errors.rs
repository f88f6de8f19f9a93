use filedrop::error::ServiceError;

const ALL: [ServiceError; 6] = [
    ServiceError::BadRequest,
    ServiceError::NotFound,
    ServiceError::MissingHostHeader,
    ServiceError::MalformedHost,
    ServiceError::IoError,
    ServiceError::SizeLimitExceeded,
];

#[test]
fn status_codes() {
    assert_eq!(ServiceError::BadRequest.status_code(), 400);
    assert_eq!(ServiceError::NotFound.status_code(), 404);
    assert_eq!(ServiceError::MissingHostHeader.status_code(), 400);
    assert_eq!(ServiceError::MalformedHost.status_code(), 500);
    assert_eq!(ServiceError::IoError.status_code(), 500);
    assert_eq!(ServiceError::SizeLimitExceeded.status_code(), 413);
}

#[test]
fn client_and_server_errors() {
    assert!(ServiceError::BadRequest.is_client_error());
    assert!(ServiceError::NotFound.is_client_error());
    assert!(ServiceError::MissingHostHeader.is_client_error());
    assert!(ServiceError::SizeLimitExceeded.is_client_error());
    assert!(!ServiceError::MalformedHost.is_client_error());
    assert!(!ServiceError::IoError.is_client_error());
}

#[test]
fn messages_are_short_plain_text() {
    assert_eq!(
        ServiceError::BadRequest.message(),
        "At least one attachment is required"
    );
    assert_eq!(ServiceError::NotFound.message(), "File not found");
    assert_eq!(
        ServiceError::MissingHostHeader.message(),
        "Host header not present"
    );
    assert_eq!(
        ServiceError::MalformedHost.message(),
        "Host header is not a valid host"
    );
    assert_eq!(ServiceError::IoError.message(), "Internal server error");
    assert_eq!(ServiceError::SizeLimitExceeded.message(), "Upload is too large");
}

#[test]
fn messages_name_no_path() {
    for error in ALL {
        let text = error.message();
        assert!(!text.is_empty());
        assert!(!text.contains('/'));
        assert!(!text.contains("uploads"));
        assert!(!text.contains('\n'));
    }
}
