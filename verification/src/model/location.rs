//! The geographical location associated with an IP address.
//!
//! Decimal-degree coordinates and the other real-valued data points are held
//! as the bit patterns of their IEEE 754 binary64 values (`f64::to_bits`):
//! this crate carries them unchanged and computes nothing with them.

use vstd::prelude::*;

verus! {

/// The geographical location associated with an IP address.
#[derive(Debug, Clone, PartialEq, Eq, Default)]
pub struct Location {
    /// Continent-level information.
    pub continent: Continent,
    /// Country-level information.
    pub country: Country,
    /// Administrative region (state/province) information.
    pub region: Region,
    /// The city name.
    pub city: String,
    /// The postal code.
    pub postal: String,
    /// The decimal-degree latitude (binary64 bits), or `None` when unavailable.
    pub latitude_bits: Option<u64>,
    /// The decimal-degree longitude (binary64 bits), or `None` when unavailable.
    pub longitude_bits: Option<u64>,
    /// The primary language spoken at the location.
    pub language: Language,
    /// Whether the location is within a European Union member state.
    pub in_eu: bool,
}

/// Continent-level information for a location.
#[derive(Debug, Clone, PartialEq, Eq, Default)]
pub struct Continent {
    /// The two-letter continent code (for example `NA`).
    pub code: String,
    /// The continent name.
    pub name: String,
}

/// Country-level information for a location.
#[derive(Debug, Clone, PartialEq, Eq, Default)]
pub struct Country {
    /// The total land area in square kilometers (binary64 bits).
    pub area_bits: u64,
    /// The ISO 3166-1 alpha-2 codes of bordering countries.
    pub borders: Vec<String>,
    /// The international calling code (for example `1`).
    pub calling_code: String,
    /// The capital city.
    pub capital: String,
    /// The ISO 3166-1 alpha-2 country code (for example `US`).
    pub code: String,
    /// The country name.
    pub name: String,
    /// The estimated number of inhabitants.
    pub population: u64,
    /// The number of inhabitants per square kilometer (binary64 bits).
    pub population_density_bits: u64,
    /// Representations of the country flag.
    pub flag: Flag,
    /// The languages spoken in the country.
    pub languages: Vec<Language>,
    /// The country-code top-level domain (for example `.us`).
    pub tld: String,
}

/// Administrative region (state/province) information.
#[derive(Debug, Clone, PartialEq, Eq, Default)]
pub struct Region {
    /// The region code, typically the ISO 3166-2 subdivision code.
    pub code: String,
    /// The region name.
    pub name: String,
}

/// Language information.
#[derive(Debug, Clone, PartialEq, Eq, Default)]
pub struct Language {
    /// The ISO 639-1 language code (for example `en`).
    pub code: String,
    /// The language name in English.
    pub name: String,
    /// The language's name in the language itself.
    pub native_name: String,
}

/// Representations of a country flag across several icon sets.
#[derive(Debug, Clone, PartialEq, Eq, Default)]
pub struct Flag {
    /// The flag as an emoji character.
    pub emoji: String,
    /// The Unicode code points of the emoji flag.
    pub emoji_unicode: String,
    /// A URL to the EmojiTwo flag icon.
    pub emojitwo: String,
    /// A URL to the Noto flag icon.
    pub noto: String,
    /// A URL to the Twemoji flag icon.
    pub twemoji: String,
    /// A URL to the Wikimedia flag image.
    pub wikimedia: String,
}

} // verus!
