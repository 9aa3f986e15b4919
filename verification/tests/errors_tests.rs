use world_indicators::errors::ApiError;

#[test]
fn status_codes_follow_the_taxonomy() {
    assert_eq!(ApiError::CountryNotFound("USA".to_string()).status_code(), 404);
    assert_eq!(ApiError::IndicatorNotFound("X".to_string()).status_code(), 404);
    assert_eq!(ApiError::NoDataAvailable.status_code(), 404);
    assert_eq!(ApiError::ExternalApiError("down".to_string()).status_code(), 502);
    assert_eq!(ApiError::SerializationError("bad".to_string()).status_code(), 502);
    assert_eq!(ApiError::InternalError.status_code(), 500);
}

#[test]
fn messages_carry_their_detail() {
    assert_eq!(
        ApiError::CountryNotFound("USA".to_string()).message(),
        "Country not found: USA"
    );
    assert_eq!(
        ApiError::IndicatorNotFound("SP.POP.TOTL".to_string()).message(),
        "Indicator not found: SP.POP.TOTL"
    );
    assert_eq!(ApiError::NoDataAvailable.message(), "No data available");
    assert_eq!(
        ApiError::ExternalApiError("connection refused".to_string()).message(),
        "External API error: connection refused"
    );
    assert_eq!(
        ApiError::SerializationError("trailing comma".to_string()).message(),
        "Serialization error: trailing comma"
    );
    assert_eq!(ApiError::InternalError.message(), "Internal server error");
}

#[test]
fn error_reply_body_has_status_text_and_message() {
    let r = ApiError::NoDataAvailable.to_response();
    assert_eq!(r.error, "404 Not Found");
    assert_eq!(r.message, "No data available");

    let r = ApiError::ExternalApiError("boom".to_string()).to_response();
    assert_eq!(r.error, "502 Bad Gateway");
    assert_eq!(r.message, "External API error: boom");

    let r = ApiError::InternalError.to_response();
    assert_eq!(r.error, "500 Internal Server Error");
}
