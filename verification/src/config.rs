//! The settings of a marketplace, with their defaults.

use vstd::prelude::*;
use crate::models::marketplace::settings_fit;
use crate::utils::amount::{spelled_signed, spelled_unsigned};
use crate::utils::text::{comma_list, split_list, text_views};
use crate::{MAX_BASE_FEE, MAX_DURATION_SECONDS, MAX_SLOT_DURATION_MS};

verus! {

/// Port that the server listens on when none is set.
pub const DEFAULT_PORT: u32 = 8080;

/// Slot duration, in milliseconds, when none is set.
pub const DEFAULT_SLOT_DURATION_MS: i64 = 400;

/// Base fee, in lamports, when none is set: 0.001 SOL.
pub const DEFAULT_BASE_FEE: u64 = 1_000_000;

/// Time between two ticks, in milliseconds, when none is set.
pub const DEFAULT_ADVANCE_SLOT_INTERVAL_MS: u64 = 400;

/// Duration of an AOT auction, in seconds, when none is set.
pub const DEFAULT_AOT_DURATION_SEC: i64 = 35;

/// Where the server listens and who may call it.
#[derive(Debug, PartialEq, Eq)]
pub struct ServerConfig {
    pub host: String,
    pub port: u32,
    pub cors_allowed_origins: Vec<String>,
}

/// The pace and the price level of the slot window.
#[derive(Clone, Copy, Debug, PartialEq, Eq, Structural)]
pub struct MarketplaceConfig {
    pub slot_duration_ms: i64,
    pub base_fee_lamports: u64,
    pub advance_slot_interval_ms: u64,
}

/// How long an AOT auction stays open.
#[derive(Clone, Copy, Debug, PartialEq, Eq, Structural)]
pub struct AuctionConfig {
    pub aot_default_duration_sec: i64,
}

/// All the settings.
#[derive(Debug, PartialEq, Eq)]
pub struct GlobalConfig {
    pub server: ServerConfig,
    pub marketplace: MarketplaceConfig,
    pub auction: AuctionConfig,
}

/// The port that a text spells: digits, with or without the sign `+`
/// before them, that make a number of 32 bits.
pub open spec fn parsed_port(text: Seq<char>) -> Option<u32> {
    match spelled_unsigned(text) {
        Some(number) => if number <= u32::MAX {
            Some(number as u32)
        } else {
            None
        },
        None => None,
    }
}

/// Reads a port: `str::parse::<u32>`, with `None` for a text that is no
/// number of that type.
///
/// Assumed: the call takes digits, with or without the sign `+` before
/// them and nothing else around them, and gives the number that they
/// spell in decimal if the type holds it.
#[verifier::external_body]
fn parse_port(text: &str) -> (port: Option<u32>)
    ensures
        port == parsed_port(text@),
{
    text.parse::<u32>().ok()
}

/// The signed number that a text spells: digits, with or without one of
/// the signs `+` and `-` before them, that make a number of 64 bits.
pub open spec fn parsed_signed(text: Seq<char>) -> Option<i64> {
    match spelled_signed(text) {
        Some(number) => if i64::MIN <= number <= i64::MAX {
            Some(number as i64)
        } else {
            None
        },
        None => None,
    }
}

/// Reads a signed number: `str::parse::<i64>`, with `None` for a text that
/// is no number of that type.
///
/// Assumed: the call takes digits, with or without one of the signs `+`
/// and `-` before them and nothing else around them, and gives the number
/// that they spell in decimal if the type holds it.
#[verifier::external_body]
fn parse_signed(text: &str) -> (number: Option<i64>)
    ensures
        number == parsed_signed(text@),
{
    text.parse::<i64>().ok()
}

/// The unsigned number that a text spells: digits, with or without the
/// sign `+` before them, that make a number of 64 bits.
pub open spec fn parsed_unsigned(text: Seq<char>) -> Option<u64> {
    match spelled_unsigned(text) {
        Some(number) => if number <= u64::MAX {
            Some(number as u64)
        } else {
            None
        },
        None => None,
    }
}

/// Reads an unsigned number: `str::parse::<u64>`, with `None` for a text
/// that is no number of that type.
///
/// Assumed: the call takes digits, with or without the sign `+` before
/// them and nothing else around them, and gives the number that they
/// spell in decimal if the type holds it.
#[verifier::external_body]
fn parse_unsigned(text: &str) -> (number: Option<u64>)
    ensures
        number == parsed_unsigned(text@),
{
    text.parse::<u64>().ok()
}

/// The signed number that a setting spells, if it is set and spells one.
pub open spec fn signed_of(text: Option<String>) -> Option<i64> {
    match text {
        Some(text) => parsed_signed(text@),
        None => None,
    }
}

/// The unsigned number that a setting spells, if it is set and spells one.
pub open spec fn unsigned_of(text: Option<String>) -> Option<u64> {
    match text {
        Some(text) => parsed_unsigned(text@),
        None => None,
    }
}

/// The signed number that a setting spells, if it is set and spells one.
pub fn signed_setting(text: Option<String>) -> (number: Option<i64>)
    ensures
        number == signed_of(text),
{
    match text {
        Some(text) => parse_signed(text.as_str()),
        None => None,
    }
}

/// The unsigned number that a setting spells, if it is set and spells one.
pub fn unsigned_setting(text: Option<String>) -> (number: Option<u64>)
    ensures
        number == unsigned_of(text),
{
    match text {
        Some(text) => parse_unsigned(text.as_str()),
        None => None,
    }
}

/// The origins that a setting lists, if it is set: its parts between the
/// commas, each without the white space around it.
pub fn origins_setting(text: Option<String>) -> (origins: Option<Vec<String>>)
    ensures
        origins is Some == text is Some,
        text is Some ==> text_views((origins->0)@) == comma_list((text->0)@),
{
    match text {
        Some(text) => Some(split_list(text.as_str())),
        None => None,
    }
}

/// The port that a setting means.
pub open spec fn port_of(text: Option<String>) -> u32 {
    match text {
        Some(text) => match parsed_port(text@) {
            Some(port) => port,
            None => DEFAULT_PORT,
        },
        None => DEFAULT_PORT,
    }
}

/// The port that a setting means: the number that the text spells, or the
/// default where the text is missing or spells none.
pub fn port_setting(text: Option<String>) -> (port: u32)
    ensures
        port == port_of(text),
{
    match text {
        Some(text) => match parse_port(text.as_str()) {
            Some(port) => port,
            None => DEFAULT_PORT,
        },
        None => DEFAULT_PORT,
    }
}

impl MarketplaceConfig {
    /// The settings of the slot window, each with its default where it is
    /// missing.
    pub fn with_defaults(
        slot_duration_ms: Option<i64>,
        base_fee_lamports: Option<u64>,
        advance_slot_interval_ms: Option<u64>,
    ) -> (config: Self)
        ensures
            config.slot_duration_ms == match slot_duration_ms {
                Some(duration) => duration,
                None => DEFAULT_SLOT_DURATION_MS,
            },
            config.base_fee_lamports == match base_fee_lamports {
                Some(fee) => fee,
                None => DEFAULT_BASE_FEE,
            },
            config.advance_slot_interval_ms == match advance_slot_interval_ms {
                Some(interval) => interval,
                None => DEFAULT_ADVANCE_SLOT_INTERVAL_MS,
            },
    {
        MarketplaceConfig {
            slot_duration_ms: match slot_duration_ms {
                Some(duration) => duration,
                None => DEFAULT_SLOT_DURATION_MS,
            },
            base_fee_lamports: match base_fee_lamports {
                Some(fee) => fee,
                None => DEFAULT_BASE_FEE,
            },
            advance_slot_interval_ms: match advance_slot_interval_ms {
                Some(interval) => interval,
                None => DEFAULT_ADVANCE_SLOT_INTERVAL_MS,
            },
        }
    }

    /// Whether a marketplace can be opened with the settings.
    pub fn is_usable(&self) -> (usable: bool)
        ensures
            usable == settings_fit(self.slot_duration_ms, self.base_fee_lamports),
    {
        -MAX_SLOT_DURATION_MS <= self.slot_duration_ms && self.slot_duration_ms
            <= MAX_SLOT_DURATION_MS && self.base_fee_lamports <= MAX_BASE_FEE
    }
}

impl AuctionConfig {
    /// The settings of the auctions, with the default duration where it is
    /// missing.
    pub fn with_defaults(aot_default_duration_sec: Option<i64>) -> (config: Self)
        ensures
            config.aot_default_duration_sec == match aot_default_duration_sec {
                Some(duration) => duration,
                None => DEFAULT_AOT_DURATION_SEC,
            },
    {
        AuctionConfig {
            aot_default_duration_sec: match aot_default_duration_sec {
                Some(duration) => duration,
                None => DEFAULT_AOT_DURATION_SEC,
            },
        }
    }

    /// Whether an auction can be opened for the duration.
    pub fn is_usable(&self) -> (usable: bool)
        ensures
            usable == (-MAX_DURATION_SECONDS <= self.aot_default_duration_sec
                <= MAX_DURATION_SECONDS),
    {
        -MAX_DURATION_SECONDS <= self.aot_default_duration_sec && self.aot_default_duration_sec
            <= MAX_DURATION_SECONDS
    }
}

impl ServerConfig {
    /// The settings of the server: the host, or every address where none is
    /// set; the port that `port` spells, or else the default; the origins,
    /// or the local front end where none are set.
    pub fn with_defaults(
        host: Option<String>,
        port: Option<String>,
        cors_allowed_origins: Option<Vec<String>>,
    ) -> (config: Self)
        ensures
            config.host@ == match host {
                Some(host) => host@,
                None => "0.0.0.0"@,
            },
            config.port == port_of(port),
            match cors_allowed_origins {
                Some(origins) => config.cors_allowed_origins == origins,
                None => config.cors_allowed_origins@.len() == 1 && config.cors_allowed_origins@[0]@
                    == "http://localhost:3000"@,
            },
    {
        let host = match host {
            Some(host) => host,
            None => "0.0.0.0".to_owned(),
        };
        let origins = match cors_allowed_origins {
            Some(origins) => origins,
            None => {
                let mut origins: Vec<String> = Vec::new();
                origins.push("http://localhost:3000".to_owned());
                origins
            },
        };
        ServerConfig { host, port: port_setting(port), cors_allowed_origins: origins }
    }
}

impl GlobalConfig {
    /// All the settings from their texts, each with its default where it
    /// is missing or spells no number. The port is taken from `port`, or
    /// from `server_port` where `port` is missing; the origins are the
    /// parts of `cors_origins` between the commas. The base fee comes as
    /// an amount.
    pub fn from_values(
        host: Option<String>,
        port: Option<String>,
        server_port: Option<String>,
        cors_origins: Option<String>,
        slot_duration_ms: Option<String>,
        base_fee_lamports: Option<u64>,
        advance_slot_interval_ms: Option<String>,
        aot_default_duration_sec: Option<String>,
    ) -> (config: Self)
        ensures
            config.marketplace == MarketplaceConfig::with_defaults_spec(
                signed_of(slot_duration_ms),
                base_fee_lamports,
                unsigned_of(advance_slot_interval_ms),
            ),
            config.auction.aot_default_duration_sec == match signed_of(aot_default_duration_sec) {
                Some(duration) => duration,
                None => DEFAULT_AOT_DURATION_SEC,
            },
            config.server.host@ == match host {
                Some(host) => host@,
                None => "0.0.0.0"@,
            },
            config.server.port == port_of(
                match port {
                    Some(port) => Some(port),
                    None => server_port,
                },
            ),
            match cors_origins {
                Some(text) => text_views(config.server.cors_allowed_origins@) == comma_list(text@),
                None => config.server.cors_allowed_origins@.len() == 1
                    && config.server.cors_allowed_origins@[0]@ == "http://localhost:3000"@,
            },
    {
        let port = match port {
            Some(port) => Some(port),
            None => server_port,
        };
        GlobalConfig {
            server: ServerConfig::with_defaults(host, port, origins_setting(cors_origins)),
            marketplace: MarketplaceConfig::with_defaults(
                signed_setting(slot_duration_ms),
                base_fee_lamports,
                unsigned_setting(advance_slot_interval_ms),
            ),
            auction: AuctionConfig::with_defaults(signed_setting(aot_default_duration_sec)),
        }
    }
}

impl MarketplaceConfig {
    /// The settings of the slot window, each with its default where it is
    /// missing.
    pub open spec fn with_defaults_spec(
        slot_duration_ms: Option<i64>,
        base_fee_lamports: Option<u64>,
        advance_slot_interval_ms: Option<u64>,
    ) -> MarketplaceConfig {
        MarketplaceConfig {
            slot_duration_ms: match slot_duration_ms {
                Some(duration) => duration,
                None => DEFAULT_SLOT_DURATION_MS,
            },
            base_fee_lamports: match base_fee_lamports {
                Some(fee) => fee,
                None => DEFAULT_BASE_FEE,
            },
            advance_slot_interval_ms: match advance_slot_interval_ms {
                Some(interval) => interval,
                None => DEFAULT_ADVANCE_SLOT_INTERVAL_MS,
            },
        }
    }
}

} // verus!
