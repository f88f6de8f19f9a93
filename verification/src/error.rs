//! What can go wrong while serving a request, and how it is reported.

use vstd::prelude::*;

verus! {

/// Every failure the service reports to a client.
#[derive(Clone, Copy, Debug, PartialEq, Eq, Structural)]
pub enum ServiceError {
    /// The upload form held no field that could be stored.
    BadRequest,
    /// No file is stored under the requested name.
    NotFound,
    /// The request carried no `Host` header.
    MissingHostHeader,
    /// The `Host` header cannot serve as the authority of a URL.
    MalformedHost,
    /// Reading, writing or deleting on disk failed.
    IoError,
    /// The upload grew past the size ceiling.
    SizeLimitExceeded,
}

impl ServiceError {
    /// The HTTP status that stands for this failure.
    pub open spec fn spec_status_code(self) -> u16 {
        match self {
            ServiceError::BadRequest => 400,
            ServiceError::NotFound => 404,
            ServiceError::MissingHostHeader => 400,
            ServiceError::MalformedHost => 500,
            ServiceError::IoError => 500,
            ServiceError::SizeLimitExceeded => 413,
        }
    }

    /// The plain-text body sent with the status. It never names a path on disk.
    pub open spec fn spec_message(self) -> Seq<char> {
        match self {
            ServiceError::BadRequest => "At least one attachment is required"@,
            ServiceError::NotFound => "File not found"@,
            ServiceError::MissingHostHeader => "Host header not present"@,
            ServiceError::MalformedHost => "Host header is not a valid host"@,
            ServiceError::IoError => "Internal server error"@,
            ServiceError::SizeLimitExceeded => "Upload is too large"@,
        }
    }

    /// Whether the client, not the server, is at fault.
    pub open spec fn spec_is_client_error(self) -> bool {
        400 <= self.spec_status_code() < 500
    }

    #[verifier::when_used_as_spec(spec_status_code)]
    pub fn status_code(self) -> (code: u16)
        ensures
            code == self.spec_status_code(),
    {
        match self {
            ServiceError::BadRequest => 400,
            ServiceError::NotFound => 404,
            ServiceError::MissingHostHeader => 400,
            ServiceError::MalformedHost => 500,
            ServiceError::IoError => 500,
            ServiceError::SizeLimitExceeded => 413,
        }
    }

    pub fn message(self) -> (text: String)
        ensures
            text@ == self.spec_message(),
    {
        let text: &str = match self {
            ServiceError::BadRequest => "At least one attachment is required",
            ServiceError::NotFound => "File not found",
            ServiceError::MissingHostHeader => "Host header not present",
            ServiceError::MalformedHost => "Host header is not a valid host",
            ServiceError::IoError => "Internal server error",
            ServiceError::SizeLimitExceeded => "Upload is too large",
        };
        text.to_owned()
    }

    #[verifier::when_used_as_spec(spec_is_client_error)]
    pub fn is_client_error(self) -> (client: bool)
        ensures
            client == self.spec_is_client_error(),
    {
        let code: u16 = self.status_code();
        400 <= code && code < 500
    }
}

} // verus!
