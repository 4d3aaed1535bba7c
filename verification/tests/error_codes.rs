use ipregistry::error::parse_api_error;
use ipregistry::{ApiError, ApiErrorPayload, Error, ErrorCode};

#[test]
fn error_code_roundtrip() {
    let codes = [
        "BAD_REQUEST",
        "DISABLED_API_KEY",
        "FORBIDDEN_IP",
        "FORBIDDEN_ORIGIN",
        "FORBIDDEN_IP_ORIGIN",
        "INTERNAL",
        "INSUFFICIENT_CREDITS",
        "INVALID_API_KEY",
        "INVALID_ASN",
        "INVALID_FILTER_SYNTAX",
        "INVALID_IP_ADDRESS",
        "MISSING_API_KEY",
        "RESERVED_ASN",
        "RESERVED_IP_ADDRESS",
        "TOO_MANY_ASNS",
        "TOO_MANY_IPS",
        "TOO_MANY_REQUESTS",
        "TOO_MANY_USER_AGENTS",
        "UNKNOWN_ASN",
    ];
    for raw in codes {
        let code = ErrorCode::from_raw(raw);
        assert!(!matches!(code, ErrorCode::Other(_)), "{raw} not recognized");
        assert_eq!(code.as_str(), raw);
    }
}

#[test]
fn error_code_is_case_and_space_insensitive() {
    assert_eq!(
        ErrorCode::from_raw(" invalid_api_key "),
        ErrorCode::InvalidApiKey
    );
}

#[test]
fn unknown_error_code_is_preserved() {
    let code = ErrorCode::from_raw("SOMETHING_NEW");
    assert_eq!(code, ErrorCode::Other("SOMETHING_NEW".to_owned()));
    assert_eq!(code.as_str(), "SOMETHING_NEW");
}

#[test]
fn unknown_error_code_keeps_original_case_and_spaces() {
    let code = ErrorCode::from_raw("  Something_New\t");
    assert_eq!(code, ErrorCode::Other("  Something_New\t".to_owned()));
    assert_eq!(code.as_str(), "  Something_New\t");
}

#[test]
fn error_code_ignores_unicode_white_space() {
    assert_eq!(
        ErrorCode::from_raw("\u{3000}too_many_ips\u{a0}\n"),
        ErrorCode::TooManyIps
    );
    assert_eq!(ErrorCode::from_raw(""), ErrorCode::Other(String::new()));
}

#[test]
fn api_error_display() {
    let err = ApiError {
        code: Some(ErrorCode::InvalidIpAddress),
        message: "the IP address is invalid".to_owned(),
        resolution: "provide a valid IPv4 or IPv6 address".to_owned(),
        status: Some(400),
    };
    assert_eq!(
        err.to_display_string(),
        "ipregistry: the IP address is invalid (INVALID_IP_ADDRESS): \
         provide a valid IPv4 or IPv6 address"
    );
}

#[test]
fn api_error_display_without_details() {
    let err = ApiError {
        code: None,
        message: String::new(),
        resolution: String::new(),
        status: Some(502),
    };
    assert_eq!(err.to_display_string(), "ipregistry: API error");
}

#[test]
fn api_error_display_with_unknown_code_and_no_resolution() {
    let err = ApiError {
        code: Some(ErrorCode::Other("NEW_CODE".to_owned())),
        message: "something happened".to_owned(),
        resolution: String::new(),
        status: None,
    };
    assert_eq!(
        err.to_display_string(),
        "ipregistry: something happened (NEW_CODE)"
    );
}

#[test]
fn parse_api_error_with_payload() {
    // The body `{"code":"INVALID_API_KEY","message":"key is invalid","resolution":"fix it"}`.
    let payload = ApiErrorPayload {
        code: "INVALID_API_KEY".to_owned(),
        message: "key is invalid".to_owned(),
        resolution: "fix it".to_owned(),
    };
    let err = parse_api_error(Some(payload), 403);
    assert_eq!(err.code, Some(ErrorCode::InvalidApiKey));
    assert_eq!(err.message, "key is invalid");
    assert_eq!(err.resolution, "fix it");
    assert_eq!(err.status, Some(403));
}

#[test]
fn parse_api_error_with_unrecognizable_body() {
    // The body `<html>Bad Gateway</html>` is no error payload.
    let err = parse_api_error(None, 502);
    assert_eq!(err.code, None);
    assert_eq!(err.message, "unexpected HTTP status 502");
    assert_eq!(err.status, Some(502));
}

#[test]
fn parse_api_error_with_empty_code_falls_back_to_status() {
    let payload = ApiErrorPayload {
        code: String::new(),
        message: "ignored".to_owned(),
        resolution: "ignored".to_owned(),
    };
    let err = parse_api_error(Some(payload), 404);
    assert_eq!(err.code, None);
    assert_eq!(err.message, "unexpected HTTP status 404");
    assert_eq!(err.resolution, "");
    assert_eq!(err.status, Some(404));
    assert_eq!(parse_api_error(None, 0).message, "unexpected HTTP status 0");
    assert_eq!(
        parse_api_error(None, 65535).message,
        "unexpected HTTP status 65535"
    );
}

#[test]
fn payload_into_api_error_keeps_unknown_code() {
    let payload = ApiErrorPayload {
        code: "brand_new".to_owned(),
        message: "m".to_owned(),
        resolution: "r".to_owned(),
    };
    let err = payload.into_api_error(None);
    assert_eq!(err.code, Some(ErrorCode::Other("brand_new".to_owned())));
    assert_eq!(err.status, None);
}

#[test]
fn error_accessors_expose_api_errors_only() {
    let api = ApiError {
        code: Some(ErrorCode::TooManyRequests),
        message: "rate limit exceeded".to_owned(),
        resolution: "slow down".to_owned(),
        status: Some(429),
    };
    let err = Error::Api(api.clone());
    assert_eq!(err.as_api(), Some(&api));
    assert_eq!(err.code(), Some(&ErrorCode::TooManyRequests));

    let err = Error::Api(ApiError::missing_result());
    assert_eq!(err.code(), None);
    assert_eq!(
        err.as_api().unwrap().message,
        "missing result for requested IP address"
    );

    let err = Error::Config("invalid base URL: x".to_owned());
    assert_eq!(err.as_api(), None);
    assert_eq!(err.code(), None);
}
