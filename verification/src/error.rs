//! Errors returned by the client, and the API's typed error codes.

use reqwest::Error as TransportError;
use serde_json::Error as DecodeError;
use vstd::prelude::*;
use vstd::string::*;

use crate::text::{
    chars_of, decimal_chars, is_white_space, string_of, trim_chars, trim_spec, upper_chars,
    upper_spec, decimal_spec,
};

verus! {

/// The error type returned by all client operations.
///
/// It separates failures reported by the Ipregistry API ([`Error::Api`],
/// carrying a typed [`ErrorCode`]) from failures on the client side.
#[derive(Debug)]
#[non_exhaustive]
pub enum Error {
    /// The Ipregistry API reported a failure, such as an invalid IP address,
    /// an exhausted credit balance, or throttling.
    Api(ApiError),
    /// The request could not be sent or the response could not be read: a
    /// network error, a timeout, or a TLS failure.
    Transport(TransportError),
    /// A successful response could not be decoded as the expected JSON shape.
    Decode(DecodeError),
    /// The client was misconfigured, for example with a base URL that cannot
    /// be parsed.
    Config(String),
}

impl Error {
    /// Returns the underlying [`ApiError`] when the API reported the failure.
    pub fn as_api(&self) -> (r: Option<&ApiError>)
        ensures
            r == (match self {
                Error::Api(e) => Some(e),
                _ => None,
            }),
    {
        match self {
            Error::Api(err) => Some(err),
            _ => None,
        }
    }

    /// Returns the typed [`ErrorCode`] when the API reported the failure with
    /// a recognizable code.
    pub fn code(&self) -> (r: Option<&ErrorCode>)
        ensures
            r == (match self {
                Error::Api(e) => match e.code {
                    Some(c) => Some(&c),
                    None => None,
                },
                _ => None,
            }),
    {
        match self {
            Error::Api(err) => match &err.code {
                Some(c) => Some(c),
                None => None,
            },
            _ => None,
        }
    }
}

/// A failure reported by the Ipregistry API, such as an invalid IP address,
/// an exhausted credit balance, or throttling.
///
/// In batch lookups an `ApiError` may also describe the failure of a single
/// entry rather than of the whole request; such per-entry errors carry no
/// [`status`](ApiError::status).
#[derive(Debug, Clone, PartialEq, Eq)]
pub struct ApiError {
    /// The error code returned by the API, or `None` when the response did not
    /// carry a recognizable error payload. Unrecognized codes are preserved in
    /// [`ErrorCode::Other`].
    pub code: Option<ErrorCode>,
    /// A human-readable description of the error.
    pub message: String,
    /// A suggestion on how to resolve the error, when available.
    pub resolution: String,
    /// The HTTP status of the failed request, or `None` for per-entry errors
    /// in batch responses.
    pub status: Option<u16>,
}

/// A strongly typed Ipregistry API error code. Codes not known to this
/// version of the crate are preserved verbatim in [`ErrorCode::Other`].
#[derive(Debug, Clone, PartialEq, Eq, Hash)]
#[non_exhaustive]
pub enum ErrorCode {
    /// The request is malformed.
    BadRequest,
    /// The API key exists but is disabled.
    DisabledApiKey,
    /// Lookups for this IP address are not allowed for the API key.
    ForbiddenIp,
    /// Requests from this origin are not allowed for the API key.
    ForbiddenOrigin,
    /// Requests from this IP address or origin are not allowed.
    ForbiddenIpOrigin,
    /// The API encountered an internal error.
    Internal,
    /// The account has no credits left.
    InsufficientCredits,
    /// The API key is not valid.
    InvalidApiKey,
    /// The requested Autonomous System Number is malformed.
    InvalidAsn,
    /// The `fields` selection expression is malformed.
    InvalidFilterSyntax,
    /// The requested IP address is malformed.
    InvalidIpAddress,
    /// No API key was supplied.
    MissingApiKey,
    /// The requested Autonomous System Number is reserved.
    ReservedAsn,
    /// The requested IP address is reserved (private, loopback, ...).
    ReservedIpAddress,
    /// The batch request contains more ASNs than allowed.
    TooManyAsns,
    /// The batch request contains more IP addresses than allowed.
    TooManyIps,
    /// The API key is rate limited and the limit was exceeded.
    TooManyRequests,
    /// The request contains more User-Agent strings than allowed.
    TooManyUserAgents,
    /// The requested Autonomous System Number is unknown.
    UnknownAsn,
    /// An error code this version of the crate does not know about, preserved
    /// verbatim.
    Other(String),
}

/// The code that the API writes for `n`, when `n` is one of the codes known
/// to this crate.
pub open spec fn known_code(n: Seq<char>) -> Option<ErrorCode> {
    if n == "BAD_REQUEST"@ {
        Some(ErrorCode::BadRequest)
    } else if n == "DISABLED_API_KEY"@ {
        Some(ErrorCode::DisabledApiKey)
    } else if n == "FORBIDDEN_IP"@ {
        Some(ErrorCode::ForbiddenIp)
    } else if n == "FORBIDDEN_ORIGIN"@ {
        Some(ErrorCode::ForbiddenOrigin)
    } else if n == "FORBIDDEN_IP_ORIGIN"@ {
        Some(ErrorCode::ForbiddenIpOrigin)
    } else if n == "INTERNAL"@ {
        Some(ErrorCode::Internal)
    } else if n == "INSUFFICIENT_CREDITS"@ {
        Some(ErrorCode::InsufficientCredits)
    } else if n == "INVALID_API_KEY"@ {
        Some(ErrorCode::InvalidApiKey)
    } else if n == "INVALID_ASN"@ {
        Some(ErrorCode::InvalidAsn)
    } else if n == "INVALID_FILTER_SYNTAX"@ {
        Some(ErrorCode::InvalidFilterSyntax)
    } else if n == "INVALID_IP_ADDRESS"@ {
        Some(ErrorCode::InvalidIpAddress)
    } else if n == "MISSING_API_KEY"@ {
        Some(ErrorCode::MissingApiKey)
    } else if n == "RESERVED_ASN"@ {
        Some(ErrorCode::ReservedAsn)
    } else if n == "RESERVED_IP_ADDRESS"@ {
        Some(ErrorCode::ReservedIpAddress)
    } else if n == "TOO_MANY_ASNS"@ {
        Some(ErrorCode::TooManyAsns)
    } else if n == "TOO_MANY_IPS"@ {
        Some(ErrorCode::TooManyIps)
    } else if n == "TOO_MANY_REQUESTS"@ {
        Some(ErrorCode::TooManyRequests)
    } else if n == "TOO_MANY_USER_AGENTS"@ {
        Some(ErrorCode::TooManyUserAgents)
    } else if n == "UNKNOWN_ASN"@ {
        Some(ErrorCode::UnknownAsn)
    } else {
        None
    }
}

/// The normalized form under which a raw code is recognized: trimmed of
/// white space and upper-cased (ASCII).
pub open spec fn normalized_code(raw: Seq<char>) -> Seq<char> {
    upper_spec(trim_spec(raw))
}

/// `c` is what [`ErrorCode::from_raw`] gives for `raw`: the known code whose
/// text equals the normalized `raw`, or else `Other` holding `raw` verbatim.
pub open spec fn parsed_code(raw: Seq<char>, c: ErrorCode) -> bool {
    match known_code(normalized_code(raw)) {
        Some(k) => c == k,
        None => c matches ErrorCode::Other(s) && s@ == raw,
    }
}

impl ErrorCode {
    /// The raw form of the code, as the API writes it.
    pub open spec fn code_text(self) -> Seq<char> {
        match self {
            ErrorCode::BadRequest => "BAD_REQUEST"@,
            ErrorCode::DisabledApiKey => "DISABLED_API_KEY"@,
            ErrorCode::ForbiddenIp => "FORBIDDEN_IP"@,
            ErrorCode::ForbiddenOrigin => "FORBIDDEN_ORIGIN"@,
            ErrorCode::ForbiddenIpOrigin => "FORBIDDEN_IP_ORIGIN"@,
            ErrorCode::Internal => "INTERNAL"@,
            ErrorCode::InsufficientCredits => "INSUFFICIENT_CREDITS"@,
            ErrorCode::InvalidApiKey => "INVALID_API_KEY"@,
            ErrorCode::InvalidAsn => "INVALID_ASN"@,
            ErrorCode::InvalidFilterSyntax => "INVALID_FILTER_SYNTAX"@,
            ErrorCode::InvalidIpAddress => "INVALID_IP_ADDRESS"@,
            ErrorCode::MissingApiKey => "MISSING_API_KEY"@,
            ErrorCode::ReservedAsn => "RESERVED_ASN"@,
            ErrorCode::ReservedIpAddress => "RESERVED_IP_ADDRESS"@,
            ErrorCode::TooManyAsns => "TOO_MANY_ASNS"@,
            ErrorCode::TooManyIps => "TOO_MANY_IPS"@,
            ErrorCode::TooManyRequests => "TOO_MANY_REQUESTS"@,
            ErrorCode::TooManyUserAgents => "TOO_MANY_USER_AGENTS"@,
            ErrorCode::UnknownAsn => "UNKNOWN_ASN"@,
            ErrorCode::Other(raw) => raw@,
        }
    }

    /// Parses a raw API error code, mapping unrecognized codes to
    /// [`ErrorCode::Other`]. Surrounding white space and ASCII case are
    /// ignored.
    pub fn from_raw(raw: &str) -> (r: Self)
        ensures
            parsed_code(raw@, r),
    {
        let v = upper_chars(&trim_chars(&chars_of(raw)));
        let n = string_of(&v);
        if n == String::from_str("BAD_REQUEST") {
            ErrorCode::BadRequest
        } else if n == String::from_str("DISABLED_API_KEY") {
            ErrorCode::DisabledApiKey
        } else if n == String::from_str("FORBIDDEN_IP") {
            ErrorCode::ForbiddenIp
        } else if n == String::from_str("FORBIDDEN_ORIGIN") {
            ErrorCode::ForbiddenOrigin
        } else if n == String::from_str("FORBIDDEN_IP_ORIGIN") {
            ErrorCode::ForbiddenIpOrigin
        } else if n == String::from_str("INTERNAL") {
            ErrorCode::Internal
        } else if n == String::from_str("INSUFFICIENT_CREDITS") {
            ErrorCode::InsufficientCredits
        } else if n == String::from_str("INVALID_API_KEY") {
            ErrorCode::InvalidApiKey
        } else if n == String::from_str("INVALID_ASN") {
            ErrorCode::InvalidAsn
        } else if n == String::from_str("INVALID_FILTER_SYNTAX") {
            ErrorCode::InvalidFilterSyntax
        } else if n == String::from_str("INVALID_IP_ADDRESS") {
            ErrorCode::InvalidIpAddress
        } else if n == String::from_str("MISSING_API_KEY") {
            ErrorCode::MissingApiKey
        } else if n == String::from_str("RESERVED_ASN") {
            ErrorCode::ReservedAsn
        } else if n == String::from_str("RESERVED_IP_ADDRESS") {
            ErrorCode::ReservedIpAddress
        } else if n == String::from_str("TOO_MANY_ASNS") {
            ErrorCode::TooManyAsns
        } else if n == String::from_str("TOO_MANY_IPS") {
            ErrorCode::TooManyIps
        } else if n == String::from_str("TOO_MANY_REQUESTS") {
            ErrorCode::TooManyRequests
        } else if n == String::from_str("TOO_MANY_USER_AGENTS") {
            ErrorCode::TooManyUserAgents
        } else if n == String::from_str("UNKNOWN_ASN") {
            ErrorCode::UnknownAsn
        } else {
            ErrorCode::Other(raw.to_owned())
        }
    }

    /// Returns the raw form of the code, as returned by the API.
    pub fn as_str(&self) -> (r: &str)
        ensures
            r@ == self.code_text(),
    {
        match self {
            ErrorCode::BadRequest => "BAD_REQUEST",
            ErrorCode::DisabledApiKey => "DISABLED_API_KEY",
            ErrorCode::ForbiddenIp => "FORBIDDEN_IP",
            ErrorCode::ForbiddenOrigin => "FORBIDDEN_ORIGIN",
            ErrorCode::ForbiddenIpOrigin => "FORBIDDEN_IP_ORIGIN",
            ErrorCode::Internal => "INTERNAL",
            ErrorCode::InsufficientCredits => "INSUFFICIENT_CREDITS",
            ErrorCode::InvalidApiKey => "INVALID_API_KEY",
            ErrorCode::InvalidAsn => "INVALID_ASN",
            ErrorCode::InvalidFilterSyntax => "INVALID_FILTER_SYNTAX",
            ErrorCode::InvalidIpAddress => "INVALID_IP_ADDRESS",
            ErrorCode::MissingApiKey => "MISSING_API_KEY",
            ErrorCode::ReservedAsn => "RESERVED_ASN",
            ErrorCode::ReservedIpAddress => "RESERVED_IP_ADDRESS",
            ErrorCode::TooManyAsns => "TOO_MANY_ASNS",
            ErrorCode::TooManyIps => "TOO_MANY_IPS",
            ErrorCode::TooManyRequests => "TOO_MANY_REQUESTS",
            ErrorCode::TooManyUserAgents => "TOO_MANY_USER_AGENTS",
            ErrorCode::UnknownAsn => "UNKNOWN_ASN",
            ErrorCode::Other(raw) => raw.as_str(),
        }
    }
}

/// A character that the API's error codes are written with.
pub open spec fn is_code_char(c: char) -> bool {
    ('A' <= c && c <= 'Z') || c == '_'
}

proof fn lemma_code_form_is_normal(s: Seq<char>)
    requires
        s.len() > 0,
        forall|i: int| 0 <= i < s.len() ==> is_code_char(#[trigger] s[i]),
    ensures
        normalized_code(s) == s,
{
    assert(!is_white_space(s[0]));
    assert(!is_white_space(s.last()));
    assert(s.skip(0) =~= s);
    assert(trim_spec(s) =~= s);
    assert(upper_spec(s) =~= s);
}

/// The characters of the API's code texts.
proof fn lemma_code_literals()
    ensures
        "BAD_REQUEST"@ == seq!['B', 'A', 'D', '_', 'R', 'E', 'Q', 'U', 'E', 'S', 'T'],
        "DISABLED_API_KEY"@ == seq!['D', 'I', 'S', 'A', 'B', 'L', 'E', 'D', '_', 'A', 'P', 'I', '_', 'K', 'E', 'Y'],
        "FORBIDDEN_IP"@ == seq!['F', 'O', 'R', 'B', 'I', 'D', 'D', 'E', 'N', '_', 'I', 'P'],
        "FORBIDDEN_ORIGIN"@ == seq!['F', 'O', 'R', 'B', 'I', 'D', 'D', 'E', 'N', '_', 'O', 'R', 'I', 'G', 'I', 'N'],
        "FORBIDDEN_IP_ORIGIN"@ == seq!['F', 'O', 'R', 'B', 'I', 'D', 'D', 'E', 'N', '_', 'I', 'P', '_', 'O', 'R', 'I', 'G', 'I', 'N'],
        "INTERNAL"@ == seq!['I', 'N', 'T', 'E', 'R', 'N', 'A', 'L'],
        "INSUFFICIENT_CREDITS"@ == seq!['I', 'N', 'S', 'U', 'F', 'F', 'I', 'C', 'I', 'E', 'N', 'T', '_', 'C', 'R', 'E', 'D', 'I', 'T', 'S'],
        "INVALID_API_KEY"@ == seq!['I', 'N', 'V', 'A', 'L', 'I', 'D', '_', 'A', 'P', 'I', '_', 'K', 'E', 'Y'],
        "INVALID_ASN"@ == seq!['I', 'N', 'V', 'A', 'L', 'I', 'D', '_', 'A', 'S', 'N'],
        "INVALID_FILTER_SYNTAX"@ == seq!['I', 'N', 'V', 'A', 'L', 'I', 'D', '_', 'F', 'I', 'L', 'T', 'E', 'R', '_', 'S', 'Y', 'N', 'T', 'A', 'X'],
        "INVALID_IP_ADDRESS"@ == seq!['I', 'N', 'V', 'A', 'L', 'I', 'D', '_', 'I', 'P', '_', 'A', 'D', 'D', 'R', 'E', 'S', 'S'],
        "MISSING_API_KEY"@ == seq!['M', 'I', 'S', 'S', 'I', 'N', 'G', '_', 'A', 'P', 'I', '_', 'K', 'E', 'Y'],
        "RESERVED_ASN"@ == seq!['R', 'E', 'S', 'E', 'R', 'V', 'E', 'D', '_', 'A', 'S', 'N'],
        "RESERVED_IP_ADDRESS"@ == seq!['R', 'E', 'S', 'E', 'R', 'V', 'E', 'D', '_', 'I', 'P', '_', 'A', 'D', 'D', 'R', 'E', 'S', 'S'],
        "TOO_MANY_ASNS"@ == seq!['T', 'O', 'O', '_', 'M', 'A', 'N', 'Y', '_', 'A', 'S', 'N', 'S'],
        "TOO_MANY_IPS"@ == seq!['T', 'O', 'O', '_', 'M', 'A', 'N', 'Y', '_', 'I', 'P', 'S'],
        "TOO_MANY_REQUESTS"@ == seq!['T', 'O', 'O', '_', 'M', 'A', 'N', 'Y', '_', 'R', 'E', 'Q', 'U', 'E', 'S', 'T', 'S'],
        "TOO_MANY_USER_AGENTS"@ == seq!['T', 'O', 'O', '_', 'M', 'A', 'N', 'Y', '_', 'U', 'S', 'E', 'R', '_', 'A', 'G', 'E', 'N', 'T', 'S'],
        "UNKNOWN_ASN"@ == seq!['U', 'N', 'K', 'N', 'O', 'W', 'N', '_', 'A', 'S', 'N'],
{
    reveal_strlit("BAD_REQUEST");
    reveal_strlit("DISABLED_API_KEY");
    reveal_strlit("FORBIDDEN_IP");
    reveal_strlit("FORBIDDEN_ORIGIN");
    reveal_strlit("FORBIDDEN_IP_ORIGIN");
    reveal_strlit("INTERNAL");
    reveal_strlit("INSUFFICIENT_CREDITS");
    reveal_strlit("INVALID_API_KEY");
    reveal_strlit("INVALID_ASN");
    reveal_strlit("INVALID_FILTER_SYNTAX");
    reveal_strlit("INVALID_IP_ADDRESS");
    reveal_strlit("MISSING_API_KEY");
    reveal_strlit("RESERVED_ASN");
    reveal_strlit("RESERVED_IP_ADDRESS");
    reveal_strlit("TOO_MANY_ASNS");
    reveal_strlit("TOO_MANY_IPS");
    reveal_strlit("TOO_MANY_REQUESTS");
    reveal_strlit("TOO_MANY_USER_AGENTS");
    reveal_strlit("UNKNOWN_ASN");
    assert("BAD_REQUEST"@ =~= seq!['B', 'A', 'D', '_', 'R', 'E', 'Q', 'U', 'E', 'S', 'T']);
    assert("DISABLED_API_KEY"@ =~= seq!['D', 'I', 'S', 'A', 'B', 'L', 'E', 'D', '_', 'A', 'P', 'I', '_', 'K', 'E', 'Y']);
    assert("FORBIDDEN_IP"@ =~= seq!['F', 'O', 'R', 'B', 'I', 'D', 'D', 'E', 'N', '_', 'I', 'P']);
    assert("FORBIDDEN_ORIGIN"@ =~= seq!['F', 'O', 'R', 'B', 'I', 'D', 'D', 'E', 'N', '_', 'O', 'R', 'I', 'G', 'I', 'N']);
    assert("FORBIDDEN_IP_ORIGIN"@ =~= seq!['F', 'O', 'R', 'B', 'I', 'D', 'D', 'E', 'N', '_', 'I', 'P', '_', 'O', 'R', 'I', 'G', 'I', 'N']);
    assert("INTERNAL"@ =~= seq!['I', 'N', 'T', 'E', 'R', 'N', 'A', 'L']);
    assert("INSUFFICIENT_CREDITS"@ =~= seq!['I', 'N', 'S', 'U', 'F', 'F', 'I', 'C', 'I', 'E', 'N', 'T', '_', 'C', 'R', 'E', 'D', 'I', 'T', 'S']);
    assert("INVALID_API_KEY"@ =~= seq!['I', 'N', 'V', 'A', 'L', 'I', 'D', '_', 'A', 'P', 'I', '_', 'K', 'E', 'Y']);
    assert("INVALID_ASN"@ =~= seq!['I', 'N', 'V', 'A', 'L', 'I', 'D', '_', 'A', 'S', 'N']);
    assert("INVALID_FILTER_SYNTAX"@ =~= seq!['I', 'N', 'V', 'A', 'L', 'I', 'D', '_', 'F', 'I', 'L', 'T', 'E', 'R', '_', 'S', 'Y', 'N', 'T', 'A', 'X']);
    assert("INVALID_IP_ADDRESS"@ =~= seq!['I', 'N', 'V', 'A', 'L', 'I', 'D', '_', 'I', 'P', '_', 'A', 'D', 'D', 'R', 'E', 'S', 'S']);
    assert("MISSING_API_KEY"@ =~= seq!['M', 'I', 'S', 'S', 'I', 'N', 'G', '_', 'A', 'P', 'I', '_', 'K', 'E', 'Y']);
    assert("RESERVED_ASN"@ =~= seq!['R', 'E', 'S', 'E', 'R', 'V', 'E', 'D', '_', 'A', 'S', 'N']);
    assert("RESERVED_IP_ADDRESS"@ =~= seq!['R', 'E', 'S', 'E', 'R', 'V', 'E', 'D', '_', 'I', 'P', '_', 'A', 'D', 'D', 'R', 'E', 'S', 'S']);
    assert("TOO_MANY_ASNS"@ =~= seq!['T', 'O', 'O', '_', 'M', 'A', 'N', 'Y', '_', 'A', 'S', 'N', 'S']);
    assert("TOO_MANY_IPS"@ =~= seq!['T', 'O', 'O', '_', 'M', 'A', 'N', 'Y', '_', 'I', 'P', 'S']);
    assert("TOO_MANY_REQUESTS"@ =~= seq!['T', 'O', 'O', '_', 'M', 'A', 'N', 'Y', '_', 'R', 'E', 'Q', 'U', 'E', 'S', 'T', 'S']);
    assert("TOO_MANY_USER_AGENTS"@ =~= seq!['T', 'O', 'O', '_', 'M', 'A', 'N', 'Y', '_', 'U', 'S', 'E', 'R', '_', 'A', 'G', 'E', 'N', 'T', 'S']);
    assert("UNKNOWN_ASN"@ =~= seq!['U', 'N', 'K', 'N', 'O', 'W', 'N', '_', 'A', 'S', 'N']);
}

/// Each known code is recognized from the API's text named after it, and
/// from no other text: for any raw text, `from_raw` gives a known variant
/// exactly when the text, trimmed and upper-cased, is that variant's API
/// code (for example `INSUFFICIENT_CREDITS` for
/// [`ErrorCode::InsufficientCredits`], `TOO_MANY_REQUESTS` for
/// [`ErrorCode::TooManyRequests`]).
pub proof fn lemma_code_names(raw: Seq<char>, c: ErrorCode)
    requires
        parsed_code(raw, c),
    ensures
        (normalized_code(raw) == "BAD_REQUEST"@) == (c == ErrorCode::BadRequest),
        (normalized_code(raw) == "DISABLED_API_KEY"@) == (c == ErrorCode::DisabledApiKey),
        (normalized_code(raw) == "FORBIDDEN_IP"@) == (c == ErrorCode::ForbiddenIp),
        (normalized_code(raw) == "FORBIDDEN_ORIGIN"@) == (c == ErrorCode::ForbiddenOrigin),
        (normalized_code(raw) == "FORBIDDEN_IP_ORIGIN"@) == (c == ErrorCode::ForbiddenIpOrigin),
        (normalized_code(raw) == "INTERNAL"@) == (c == ErrorCode::Internal),
        (normalized_code(raw) == "INSUFFICIENT_CREDITS"@) == (c == ErrorCode::InsufficientCredits),
        (normalized_code(raw) == "INVALID_API_KEY"@) == (c == ErrorCode::InvalidApiKey),
        (normalized_code(raw) == "INVALID_ASN"@) == (c == ErrorCode::InvalidAsn),
        (normalized_code(raw) == "INVALID_FILTER_SYNTAX"@) == (c == ErrorCode::InvalidFilterSyntax),
        (normalized_code(raw) == "INVALID_IP_ADDRESS"@) == (c == ErrorCode::InvalidIpAddress),
        (normalized_code(raw) == "MISSING_API_KEY"@) == (c == ErrorCode::MissingApiKey),
        (normalized_code(raw) == "RESERVED_ASN"@) == (c == ErrorCode::ReservedAsn),
        (normalized_code(raw) == "RESERVED_IP_ADDRESS"@) == (c == ErrorCode::ReservedIpAddress),
        (normalized_code(raw) == "TOO_MANY_ASNS"@) == (c == ErrorCode::TooManyAsns),
        (normalized_code(raw) == "TOO_MANY_IPS"@) == (c == ErrorCode::TooManyIps),
        (normalized_code(raw) == "TOO_MANY_REQUESTS"@) == (c == ErrorCode::TooManyRequests),
        (normalized_code(raw) == "TOO_MANY_USER_AGENTS"@) == (c == ErrorCode::TooManyUserAgents),
        (normalized_code(raw) == "UNKNOWN_ASN"@) == (c == ErrorCode::UnknownAsn),
{
    lemma_code_literals();
    assert("FORBIDDEN_IP_ORIGIN"@.len() == 19);
    assert("FORBIDDEN_IP"@.len() == 12);
    assert("FORBIDDEN_ORIGIN"@.len() == 16);
}

/// Each known variant is written as the API's code named after it, which
/// is what [`ErrorCode::as_str`] returns.
pub proof fn lemma_code_texts()
    ensures
        ErrorCode::BadRequest.code_text() == "BAD_REQUEST"@,
        ErrorCode::DisabledApiKey.code_text() == "DISABLED_API_KEY"@,
        ErrorCode::ForbiddenIp.code_text() == "FORBIDDEN_IP"@,
        ErrorCode::ForbiddenOrigin.code_text() == "FORBIDDEN_ORIGIN"@,
        ErrorCode::ForbiddenIpOrigin.code_text() == "FORBIDDEN_IP_ORIGIN"@,
        ErrorCode::Internal.code_text() == "INTERNAL"@,
        ErrorCode::InsufficientCredits.code_text() == "INSUFFICIENT_CREDITS"@,
        ErrorCode::InvalidApiKey.code_text() == "INVALID_API_KEY"@,
        ErrorCode::InvalidAsn.code_text() == "INVALID_ASN"@,
        ErrorCode::InvalidFilterSyntax.code_text() == "INVALID_FILTER_SYNTAX"@,
        ErrorCode::InvalidIpAddress.code_text() == "INVALID_IP_ADDRESS"@,
        ErrorCode::MissingApiKey.code_text() == "MISSING_API_KEY"@,
        ErrorCode::ReservedAsn.code_text() == "RESERVED_ASN"@,
        ErrorCode::ReservedIpAddress.code_text() == "RESERVED_IP_ADDRESS"@,
        ErrorCode::TooManyAsns.code_text() == "TOO_MANY_ASNS"@,
        ErrorCode::TooManyIps.code_text() == "TOO_MANY_IPS"@,
        ErrorCode::TooManyRequests.code_text() == "TOO_MANY_REQUESTS"@,
        ErrorCode::TooManyUserAgents.code_text() == "TOO_MANY_USER_AGENTS"@,
        ErrorCode::UnknownAsn.code_text() == "UNKNOWN_ASN"@,
{
}

/// Every code known to this crate is recognized from its own text:
/// `ErrorCode::from_raw(c.as_str())` gives `c` back.
pub proof fn lemma_known_code_roundtrip(c: ErrorCode)
    requires
        !(c is Other),
    ensures
        parsed_code(c.code_text(), c),
{
    lemma_code_literals();
    lemma_code_form_is_normal(c.code_text());
}

/// An unrecognized code is preserved verbatim: when `from_raw` gives `c` for
/// a `raw` text that names no known code, `c.as_str()` is `raw` again.
pub proof fn lemma_unknown_code_preserved(raw: Seq<char>, c: ErrorCode)
    requires
        parsed_code(raw, c),
        known_code(normalized_code(raw)) is None,
    ensures
        c is Other,
        c.code_text() == raw,
{
}

/// Recognition ignores ASCII case and surrounding white space: two raw texts
/// with the same normalized form that names a known code give the same code.
pub proof fn lemma_code_ignores_case_and_space(
    raw1: Seq<char>,
    raw2: Seq<char>,
    c1: ErrorCode,
    c2: ErrorCode,
)
    requires
        parsed_code(raw1, c1),
        parsed_code(raw2, c2),
        normalized_code(raw1) == normalized_code(raw2),
        known_code(normalized_code(raw1)) is Some,
    ensures
        c1 == c2,
{
}

/// The human-readable text of an [`ApiError`]:
/// `ipregistry: <message or "API error">[ (<code>)][: <resolution>]`.
pub open spec fn api_error_text(e: ApiError) -> Seq<char> {
    let head = "ipregistry: "@ + if e.message@.len() == 0 {
        "API error"@
    } else {
        e.message@
    };
    let with_code = match e.code {
        Some(c) => head + " ("@ + c.code_text() + ")"@,
        None => head,
    };
    if e.resolution@.len() == 0 {
        with_code
    } else {
        with_code + ": "@ + e.resolution@
    }
}

/// The message given to an error response whose body holds no recognizable
/// error payload.
pub open spec fn unexpected_status_text(status: u16) -> Seq<char> {
    "unexpected HTTP status "@ + decimal_spec(status as nat)
}

impl ApiError {
    /// Formats the error for display (what `to_string()` gives for this
    /// error): `ipregistry: ` followed by the message (or `API error` when it
    /// is empty), the code in parentheses when present, and `: ` with the
    /// resolution when it is not empty.
    pub fn to_display_string(&self) -> (r: String)
        ensures
            r@ == api_error_text(*self),
    {
        let mut out = String::from_str("ipregistry: ");
        if self.message.unicode_len() == 0 {
            out.append("API error");
        } else {
            out.append(self.message.as_str());
        }
        match &self.code {
            Some(code) => {
                out.append(" (");
                out.append(code.as_str());
                out.append(")");
            },
            None => {},
        }
        if self.resolution.unicode_len() != 0 {
            out.append(": ");
            out.append(self.resolution.as_str());
        }
        out
    }

    /// The per-entry error reported when a batch response holds fewer
    /// results than addresses were requested.
    pub fn missing_result() -> (r: ApiError)
        ensures
            is_missing_result(r),
    {
        ApiError {
            code: None,
            message: String::from_str("missing result for requested IP address"),
            resolution: String::new(),
            status: None,
        }
    }
}

/// Mirrors the JSON error body returned by the API.
#[derive(Debug, Clone, PartialEq, Eq)]
pub struct ApiErrorPayload {
    /// The raw error code.
    pub code: String,
    /// A human-readable description of the error.
    pub message: String,
    /// A suggestion on how to resolve the error.
    pub resolution: String,
}

/// `e` is the typed error of payload `p` for HTTP status `status`: its code
/// is parsed from the payload's code unless that is empty, and the message
/// and resolution are the payload's.
pub open spec fn payload_error(p: ApiErrorPayload, status: Option<u16>, e: ApiError) -> bool {
    &&& p.code@.len() == 0 ==> e.code is None
    &&& p.code@.len() != 0 ==> (e.code matches Some(c) && parsed_code(p.code@, c))
    &&& e.message == p.message
    &&& e.resolution == p.resolution
    &&& e.status == status
}

/// `e` is the error reported for a batch entry that the response lacks.
pub open spec fn is_missing_result(e: ApiError) -> bool {
    &&& e.code is None
    &&& e.message@ == "missing result for requested IP address"@
    &&& e.resolution@.len() == 0
    &&& e.status is None
}

impl ApiErrorPayload {
    /// Converts a decoded payload into a typed [`ApiError`]: the code is
    /// parsed with [`ErrorCode::from_raw`] unless it is empty.
    pub fn into_api_error(self, status: Option<u16>) -> (r: ApiError)
        ensures
            payload_error(self, status, r),
    {
        let code = if self.code.unicode_len() == 0 {
            None
        } else {
            Some(ErrorCode::from_raw(self.code.as_str()))
        };
        ApiError { code, message: self.message, resolution: self.resolution, status }
    }
}

/// Builds the [`ApiError`] for a non-2xx response with the given status.
/// `payload` is the response body decoded as an error payload, or `None`
/// when the body is not one. A payload with a non-empty code gives a typed
/// error; anything else gives a generic `unexpected HTTP status` message.
pub fn parse_api_error(payload: Option<ApiErrorPayload>, status: u16) -> (r: ApiError)
    ensures
        r.status == Some(status),
        match payload {
            Some(p) if p.code@.len() != 0 => payload_error(p, Some(status), r),
            _ => {
                &&& r.code is None
                &&& r.message@ == unexpected_status_text(status)
                &&& r.resolution@.len() == 0
            },
        },
{
    match payload {
        Some(p) => {
            if p.code.unicode_len() != 0 {
                return p.into_api_error(Some(status));
            }
        },
        None => {},
    }
    let mut message = String::from_str("unexpected HTTP status ");
    let digits = string_of(&decimal_chars(status as u64));
    message.append(digits.as_str());
    ApiError { code: None, message, resolution: String::new(), status: Some(status) }
}

} // verus!
