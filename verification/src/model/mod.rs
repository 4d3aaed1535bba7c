//! Data types returned by the Ipregistry API.
//!
//! The API returns `null` for data points it does not know, and omits fields
//! that were excluded with a `fields` selection. Nested objects are always
//! present as values and plain fields fall back to their default (an empty
//! string, `0`, `false`, ...). `Option` is reserved for fields whose default
//! value would be ambiguous, such as [`Connection::asn`].

mod ip_info;
mod location;
mod user_agent;

pub use ip_info::{
    Carrier, Company, CompanyType, Connection, ConnectionType, Currency, CurrencyFormat,
    CurrencyFormatAffix, IpInfo, IpType, RequesterIpInfo, Security, TimeZone,
};
pub use location::{Continent, Country, Flag, Language, Location, Region};
pub use user_agent::{
    UserAgent, UserAgentDevice, UserAgentEngine, UserAgentOs, is_bot, looks_like_bot,
};
