//! The information associated with an IP address.

use vstd::prelude::*;

use super::location::Location;
use super::user_agent::UserAgent;

verus! {

/// The comprehensive set of information associated with an IP address, as
/// returned by the Ipregistry API. Nested objects are always present as values;
/// data points the API does not know hold their default value.
#[derive(Debug, Clone, PartialEq, Eq, Default)]
pub struct IpInfo {
    /// The IP address the data refers to, in its textual form, or `None` when
    /// excluded by a `fields` selection.
    pub ip: Option<String>,
    /// The IP version.
    pub ip_type: Option<IpType>,
    /// The reverse-DNS hostname, when hostname resolution is requested and
    /// available.
    pub hostname: Option<String>,
    /// Mobile carrier information.
    pub carrier: Carrier,
    /// Ownership information for the IP address.
    pub company: Company,
    /// Network connection information.
    pub connection: Connection,
    /// Currency information for the IP address location.
    pub currency: Currency,
    /// Geographical location.
    pub location: Location,
    /// Threat-intelligence flags.
    pub security: Security,
    /// Time zone information for the IP address location.
    pub time_zone: TimeZone,
}

/// [`IpInfo`] enriched with the parsed User-Agent of the requester, as returned
/// by an origin lookup.
#[derive(Debug, Clone, PartialEq, Eq, Default)]
pub struct RequesterIpInfo {
    /// The IP data for the requester address.
    pub info: IpInfo,
    /// The parsed User-Agent of the requester, or `None` when the API did not
    /// return any.
    pub user_agent: Option<UserAgent>,
}

/// The version of an IP address.
#[derive(Debug, Clone, PartialEq, Eq, Hash)]
#[non_exhaustive]
pub enum IpType {
    /// An IPv4 address.
    V4,
    /// An IPv6 address.
    V6,
    /// The IP version could not be determined.
    Unknown,
    /// A value this version of the crate does not know about.
    Other(String),
}

/// Mobile carrier information associated with an IP address.
#[derive(Debug, Clone, PartialEq, Eq, Default)]
pub struct Carrier {
    /// The carrier name.
    pub name: String,
    /// The Mobile Country Code.
    pub mcc: String,
    /// The Mobile Network Code.
    pub mnc: String,
}

/// The kind of company that owns an IP address.
#[derive(Debug, Clone, PartialEq, Eq, Hash)]
#[non_exhaustive]
pub enum CompanyType {
    /// A regular business.
    Business,
    /// An educational institution.
    Education,
    /// A government agency.
    Government,
    /// A hosting or cloud provider.
    Hosting,
    /// An Internet service provider.
    Isp,
    /// A value this version of the crate does not know about.
    Other(String),
}

/// Ownership information for an IP address.
#[derive(Debug, Clone, PartialEq, Eq, Default)]
pub struct Company {
    /// The company name.
    pub name: String,
    /// The company domain.
    pub domain: String,
    /// The kind of company, or `None` when unknown.
    pub company_type: Option<CompanyType>,
}

/// The kind of network an IP address belongs to.
#[derive(Debug, Clone, PartialEq, Eq, Hash)]
#[non_exhaustive]
pub enum ConnectionType {
    /// A business network.
    Business,
    /// An educational institution network.
    Education,
    /// A government network.
    Government,
    /// A hosting or cloud provider network.
    Hosting,
    /// An inactive network.
    Inactive,
    /// An Internet service provider network.
    Isp,
    /// A value this version of the crate does not know about.
    Other(String),
}

/// Network connection information for an IP address.
#[derive(Debug, Clone, PartialEq, Eq, Default)]
pub struct Connection {
    /// The Autonomous System Number, or `None` when unknown.
    pub asn: Option<u32>,
    /// The domain of the Autonomous System.
    pub domain: String,
    /// The organization operating the Autonomous System.
    pub organization: String,
    /// The BGP route (CIDR prefix) announcing the IP address.
    pub route: String,
    /// The kind of network, or `None` when unknown.
    pub connection_type: Option<ConnectionType>,
}

/// Currency information for an IP address location.
#[derive(Debug, Clone, PartialEq, Eq, Default)]
pub struct Currency {
    /// The ISO 4217 currency code (for example `USD`).
    pub code: String,
    /// The currency name in English.
    pub name: String,
    /// The currency name in the local language.
    pub name_native: String,
    /// The plural form of the currency name in English.
    pub plural: String,
    /// The plural form of the currency name in the local language.
    pub plural_native: String,
    /// The currency symbol (for example `$`).
    pub symbol: String,
    /// The currency symbol in the local script.
    pub symbol_native: String,
    /// How monetary values are formatted for the currency.
    pub format: CurrencyFormat,
}

/// How monetary values are formatted for a currency.
#[derive(Debug, Clone, PartialEq, Eq, Default)]
pub struct CurrencyFormat {
    /// The character separating the integer part from the fraction.
    pub decimal_separator: String,
    /// The character grouping thousands.
    pub group_separator: String,
    /// The affixes applied around negative amounts.
    pub negative: CurrencyFormatAffix,
    /// The affixes applied around positive amounts.
    pub positive: CurrencyFormatAffix,
}

/// The prefix and suffix applied around a formatted monetary value.
#[derive(Debug, Clone, PartialEq, Eq, Default)]
pub struct CurrencyFormatAffix {
    /// Text placed before the amount.
    pub prefix: String,
    /// Text placed after the amount.
    pub suffix: String,
}

/// Threat-intelligence flags for an IP address.
#[derive(Debug, Clone, Copy, PartialEq, Eq, Default)]
pub struct Security {
    /// The IP address is a known source of abuse (spam, scraping, ...).
    pub is_abuser: bool,
    /// The IP address is a known source of attacks.
    pub is_attacker: bool,
    /// The IP address is a bogon (not in any range allocated for public use).
    pub is_bogon: bool,
    /// The IP address belongs to a cloud provider.
    pub is_cloud_provider: bool,
    /// The IP address is an open proxy.
    pub is_proxy: bool,
    /// The IP address is a relay (for example iCloud Private Relay).
    pub is_relay: bool,
    /// The IP address is a Tor node.
    pub is_tor: bool,
    /// The IP address is a Tor exit node.
    pub is_tor_exit: bool,
    /// The IP address anonymizes its user (VPN, proxy, relay, or Tor).
    pub is_anonymous: bool,
    /// The IP address is considered a threat.
    pub is_threat: bool,
    /// The IP address belongs to a VPN provider.
    pub is_vpn: bool,
}

/// Time zone information for an IP address location.
#[derive(Debug, Clone, PartialEq, Eq, Default)]
pub struct TimeZone {
    /// The IANA time zone identifier (for example `America/Los_Angeles`).
    pub id: String,
    /// The time zone abbreviation (for example `PDT`).
    pub abbreviation: String,
    /// The current local time in RFC 3339 format.
    pub current_time: String,
    /// The time zone name (for example `Pacific Daylight Time`).
    pub name: String,
    /// The current offset from UTC in seconds.
    pub offset: i32,
    /// Whether daylight saving time is currently in effect.
    pub in_daylight_saving: bool,
}

} // verus!
