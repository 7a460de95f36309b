use vstd::prelude::*;
use vstd::string::StringExecFns;

verus! {

/// The kinds of failure that an operation reports.
#[derive(Clone, Copy, Debug, PartialEq, Eq, Structural)]
pub enum ApiError {
    InternalError,
    GenericInvalidRequest,
    MissingHeaders,
    InvalidApiKey,
    InvalidSignature,
    ServerAlreadyConnected,
    ResourceNotFound,
    InvalidRequestOrigin,
    NotImplemented,
    TooManyRequests,
}

pub type ApiResult<T> = Result<T, ApiError>;

impl ApiError {
    /// The HTTP status that goes with each kind.
    pub open spec fn spec_status_code(self) -> u16 {
        match self {
            ApiError::InternalError => 500,
            ApiError::GenericInvalidRequest => 400,
            ApiError::ServerAlreadyConnected => 400,
            ApiError::MissingHeaders => 400,
            ApiError::InvalidApiKey => 403,
            ApiError::InvalidSignature => 403,
            ApiError::InvalidRequestOrigin => 403,
            ApiError::ResourceNotFound => 404,
            ApiError::NotImplemented => 501,
            ApiError::TooManyRequests => 429,
        }
    }

    /// The stable string code of each kind.
    pub open spec fn spec_code(self) -> Seq<char> {
        match self {
            ApiError::InternalError => "internal_error"@,
            ApiError::GenericInvalidRequest => "invalid_request"@,
            ApiError::MissingHeaders => "missing_headers"@,
            ApiError::InvalidApiKey => "invalid_api_key"@,
            ApiError::InvalidSignature => "invalid_signature"@,
            ApiError::ServerAlreadyConnected => "server_already_connected"@,
            ApiError::ResourceNotFound => "resource_not_found"@,
            ApiError::InvalidRequestOrigin => "invalid_request_origin"@,
            ApiError::NotImplemented => "not_implemented"@,
            ApiError::TooManyRequests => "too_many_requests"@,
        }
    }

    /// The body of the response that reports this failure: a JSON object
    /// whose `error` member is the string code.
    pub open spec fn spec_error_body(self) -> Seq<char> {
        "{\n\t\t\t\t\"error\": \""@ + self.spec_code() + "\"\n\t\t\t}"@
    }

    pub fn error_body(&self) -> (body: String)
        ensures
            body@ == self.spec_error_body(),
    {
        let mut body = "{\n\t\t\t\t\"error\": \"".to_string();
        body.append(self.code());
        body.append("\"\n\t\t\t}");
        body
    }

    pub fn status_code(&self) -> (status: u16)
        ensures
            status == self.spec_status_code(),
    {
        match self {
            ApiError::InternalError => 500,
            ApiError::GenericInvalidRequest
            | ApiError::ServerAlreadyConnected
            | ApiError::MissingHeaders => 400,
            ApiError::InvalidApiKey
            | ApiError::InvalidSignature
            | ApiError::InvalidRequestOrigin => 403,
            ApiError::ResourceNotFound => 404,
            ApiError::NotImplemented => 501,
            ApiError::TooManyRequests => 429,
        }
    }

    pub fn code(&self) -> (code: &'static str)
        ensures
            code@ == self.spec_code(),
    {
        match self {
            ApiError::InternalError => "internal_error",
            ApiError::GenericInvalidRequest => "invalid_request",
            ApiError::MissingHeaders => "missing_headers",
            ApiError::InvalidApiKey => "invalid_api_key",
            ApiError::InvalidSignature => "invalid_signature",
            ApiError::ServerAlreadyConnected => "server_already_connected",
            ApiError::ResourceNotFound => "resource_not_found",
            ApiError::InvalidRequestOrigin => "invalid_request_origin",
            ApiError::NotImplemented => "not_implemented",
            ApiError::TooManyRequests => "too_many_requests",
        }
    }
}

} // verus!
