//! Declarations of the outside types that values of this crate carry.

use reqwest::Error as TransportError;
use serde_json::Error as DecodeError;
use vstd::prelude::*;

verus! {

/// `reqwest::Error`, carried opaquely by [`crate::error::Error::Transport`].
#[verifier::external_type_specification]
#[verifier::external_body]
pub struct ExTransportError(TransportError);

/// `serde_json::Error`, carried opaquely by [`crate::error::Error::Decode`].
#[verifier::external_type_specification]
#[verifier::external_body]
pub struct ExDecodeError(DecodeError);

/// `url::Url`, the parsed base URL of a client and the URLs built from it.
#[verifier::external_type_specification]
#[verifier::external_body]
pub struct ExUrl(url::Url);

/// `url::ParseError`, the reason `Url::parse` refused a text.
#[verifier::external_type_specification]
#[verifier::external_body]
pub struct ExUrlParseError(url::ParseError);

} // verus!
