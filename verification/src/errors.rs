//! The error taxonomy of the library, with its mapping to status codes
//! and to the error reply body.

use vstd::prelude::*;
use vstd::string::StringExecFns;
use crate::models::ErrorResponse;

verus! {

/// Every failure the library distinguishes. `NoDataAvailable` means a
/// series fetch kept zero usable points; `ExternalApiError` is a
/// transport or non-JSON failure of the upstream source;
/// `SerializationError` a malformed structured payload; the two
/// not-found kinds and `InternalError` are reserved for callers.
#[derive(Debug, Clone)]
pub enum ApiError {
    CountryNotFound(String),
    IndicatorNotFound(String),
    NoDataAvailable,
    ExternalApiError(String),
    SerializationError(String),
    InternalError,
}

impl ApiError {
    /// The status code each kind maps to: 404 for the not-found kinds
    /// and for missing data, 502 for upstream faults, 500 otherwise.
    pub open spec fn spec_status_code(&self) -> u16 {
        match self {
            ApiError::CountryNotFound(_) => 404,
            ApiError::IndicatorNotFound(_) => 404,
            ApiError::NoDataAvailable => 404,
            ApiError::ExternalApiError(_) => 502,
            ApiError::SerializationError(_) => 502,
            ApiError::InternalError => 500,
        }
    }

    /// The status line text that goes into the `error` field of a reply.
    pub open spec fn spec_status_text(&self) -> Seq<char> {
        match self {
            ApiError::CountryNotFound(_) => "404 Not Found"@,
            ApiError::IndicatorNotFound(_) => "404 Not Found"@,
            ApiError::NoDataAvailable => "404 Not Found"@,
            ApiError::ExternalApiError(_) => "502 Bad Gateway"@,
            ApiError::SerializationError(_) => "502 Bad Gateway"@,
            ApiError::InternalError => "500 Internal Server Error"@,
        }
    }

    /// The human-readable description that goes into the `message` field.
    pub open spec fn spec_message(&self) -> Seq<char> {
        match self {
            ApiError::CountryNotFound(id) => "Country not found: "@ + id@,
            ApiError::IndicatorNotFound(id) => "Indicator not found: "@ + id@,
            ApiError::NoDataAvailable => "No data available"@,
            ApiError::ExternalApiError(m) => "External API error: "@ + m@,
            ApiError::SerializationError(m) => "Serialization error: "@ + m@,
            ApiError::InternalError => "Internal server error"@,
        }
    }

    pub fn status_code(&self) -> (code: u16)
        ensures
            code == self.spec_status_code(),
    {
        match self {
            ApiError::CountryNotFound(_) => 404,
            ApiError::IndicatorNotFound(_) => 404,
            ApiError::NoDataAvailable => 404,
            ApiError::ExternalApiError(_) => 502,
            ApiError::SerializationError(_) => 502,
            ApiError::InternalError => 500,
        }
    }

    pub fn status_text(&self) -> (t: String)
        ensures
            t@ == self.spec_status_text(),
    {
        match self {
            ApiError::CountryNotFound(_) => "404 Not Found".to_owned(),
            ApiError::IndicatorNotFound(_) => "404 Not Found".to_owned(),
            ApiError::NoDataAvailable => "404 Not Found".to_owned(),
            ApiError::ExternalApiError(_) => "502 Bad Gateway".to_owned(),
            ApiError::SerializationError(_) => "502 Bad Gateway".to_owned(),
            ApiError::InternalError => "500 Internal Server Error".to_owned(),
        }
    }

    pub fn message(&self) -> (m: String)
        ensures
            m@ == self.spec_message(),
    {
        match self {
            ApiError::CountryNotFound(id) => "Country not found: ".to_owned().concat(
                id.as_str(),
            ),
            ApiError::IndicatorNotFound(id) => "Indicator not found: ".to_owned().concat(
                id.as_str(),
            ),
            ApiError::NoDataAvailable => "No data available".to_owned(),
            ApiError::ExternalApiError(m) => "External API error: ".to_owned().concat(m.as_str()),
            ApiError::SerializationError(m) => "Serialization error: ".to_owned().concat(
                m.as_str(),
            ),
            ApiError::InternalError => "Internal server error".to_owned(),
        }
    }

    /// The reply body for this error: the status line and the description.
    pub fn to_response(&self) -> (r: ErrorResponse)
        ensures
            r.error@ == self.spec_status_text(),
            r.message@ == self.spec_message(),
    {
        ErrorResponse { error: self.status_text(), message: self.message() }
    }
}

} // verus!
