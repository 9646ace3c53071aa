//! Network registration and network time.

use crate::at::tokenizer::{layout_of, scan, scanned, Token, TokenView};
use crate::at::{first_line_of, short_request, AtCommandRequest, AtCommandRequestView, AtCommandResponse, AtError, DEFAULT_TIMEOUT_MS};
use vstd::prelude::*;
use vstd::string::StringSliceAdditionalSpecFns;

verus! {

/// Whether the modem reports changes of registration unasked.
#[derive(Debug, Clone, Copy, PartialEq, Eq)]
pub enum NetworkRegistrationUrcConfig {
    /// 0: no unsolicited registration lines.
    UrcDisabled,
    /// 1: unsolicited `+CREG: <stat>`.
    UrcEnabled,
    /// 2: unsolicited `+CREG: <stat>[,<lac>,<ci>]`.
    UrcVerbose,
}

/// The modem's registration with the network.
#[derive(Debug, Clone, Copy, PartialEq, Eq)]
pub enum NetworkRegistrationState {
    /// 0: not registered and not searching.
    NotRegistered,
    /// 1: registered with the home network.
    Registered,
    /// 2: not registered, searching for an operator.
    NotRegisteredSearching,
    /// 3: registration denied.
    RegistrationDenied,
    /// 4: unknown.
    Unknown,
    /// 5: registered, roaming.
    RegisteredRoaming,
    /// 6: registered for SMS only.
    RegisteredSmsOnly,
}

/// The reporting mode that a number stands for.
pub open spec fn urc_config_of(value: int) -> Result<NetworkRegistrationUrcConfig, AtError> {
    if value == 0 {
        Ok(NetworkRegistrationUrcConfig::UrcDisabled)
    } else if value == 1 {
        Ok(NetworkRegistrationUrcConfig::UrcEnabled)
    } else if value == 2 {
        Ok(NetworkRegistrationUrcConfig::UrcVerbose)
    } else {
        Err(AtError::EnumParseError(value as i64))
    }
}

/// The registration that a number stands for. Besides 0 to 6, the value
/// 11 that some firmware sends is taken as searching.
pub open spec fn registration_state_of(value: int) -> Result<NetworkRegistrationState, AtError> {
    if value == 0 {
        Ok(NetworkRegistrationState::NotRegistered)
    } else if value == 1 {
        Ok(NetworkRegistrationState::Registered)
    } else if value == 2 || value == 11 {
        Ok(NetworkRegistrationState::NotRegisteredSearching)
    } else if value == 3 {
        Ok(NetworkRegistrationState::RegistrationDenied)
    } else if value == 4 {
        Ok(NetworkRegistrationState::Unknown)
    } else if value == 5 {
        Ok(NetworkRegistrationState::RegisteredRoaming)
    } else if value == 6 {
        Ok(NetworkRegistrationState::RegisteredSmsOnly)
    } else {
        Err(AtError::EnumParseError(value as i64))
    }
}

impl NetworkRegistrationUrcConfig {
    /// The reporting mode that `value` stands for.
    pub fn try_from(value: u32) -> (r: Result<Self, AtError>)
        ensures
            r == urc_config_of(value as int),
    {
        match value {
            0 => Ok(NetworkRegistrationUrcConfig::UrcDisabled),
            1 => Ok(NetworkRegistrationUrcConfig::UrcEnabled),
            2 => Ok(NetworkRegistrationUrcConfig::UrcVerbose),
            _ => Err(AtError::EnumParseError(value as i64)),
        }
    }
}

impl NetworkRegistrationState {
    /// The registration that `value` stands for.
    pub fn try_from(value: u32) -> (r: Result<Self, AtError>)
        ensures
            r == registration_state_of(value as int),
    {
        match value {
            0 => Ok(NetworkRegistrationState::NotRegistered),
            1 => Ok(NetworkRegistrationState::Registered),
            2 => Ok(NetworkRegistrationState::NotRegisteredSearching),
            3 => Ok(NetworkRegistrationState::RegistrationDenied),
            4 => Ok(NetworkRegistrationState::Unknown),
            5 => Ok(NetworkRegistrationState::RegisteredRoaming),
            6 => Ok(NetworkRegistrationState::RegisteredSmsOnly),
            11 => Ok(NetworkRegistrationState::NotRegisteredSearching),
            _ => Err(AtError::EnumParseError(value as i64)),
        }
    }
}

/// The layout of a registration line: `+CREG: <n>,<stat>`, with or without
/// location fields behind it.
pub open spec fn creg_layout() -> Seq<TokenView> {
    seq![
        TokenView::Tag { text: "+CREG: ".spec_bytes() },
        TokenView::Unsigned { limit: 0xffff_ffff },
        TokenView::Tag { text: ",".spec_bytes() },
        TokenView::Unsigned { limit: 0xffff_ffff },
    ]
}

/// What a registration line says: a line of another shape is a parse
/// error, and a number outside its known values an enumeration error, the
/// reporting mode being looked at first.
pub open spec fn registration_of(line: Seq<u8>) -> Result<
    (NetworkRegistrationUrcConfig, NetworkRegistrationState),
    AtError,
> {
    match scanned(line, creg_layout()) {
        Some(values) => match urc_config_of(values[1]) {
            Ok(n) => match registration_state_of(values[3]) {
                Ok(stat) => Ok((n, stat)),
                Err(e) => Err(e),
            },
            Err(e) => Err(e),
        },
        None => Err(AtError::ParseError),
    }
}

/// What the response to the registration query says.
pub open spec fn network_registration_of(response: Seq<Seq<u8>>) -> Result<
    (NetworkRegistrationUrcConfig, NetworkRegistrationState),
    AtError,
> {
    match first_line_of(response) {
        Ok(line) => registration_of(line),
        Err(e) => Err(e),
    }
}

/// The registration query, `AT+CREG?`.
pub fn get_network_registration() -> (r: AtCommandRequest)
    ensures
        r@ == (AtCommandRequestView {
            command: "AT+CREG?".spec_bytes(),
            timeout_ms: DEFAULT_TIMEOUT_MS,
            urc_prefix: None,
        }),
{
    proof {
        reveal_strlit("AT+CREG?");
        crate::text::lemma_ascii_len("AT+CREG?");
    }
    short_request("AT+CREG?")
}

/// Reads a registration line.
pub fn parse_registration(line: &[u8]) -> (r: Result<
    (NetworkRegistrationUrcConfig, NetworkRegistrationState),
    AtError,
>)
    ensures
        r == registration_of(line@),
{
    let table = vec![
        Token::Tag { text: "+CREG: " },
        Token::Unsigned { limit: 0xffff_ffff },
        Token::Tag { text: "," },
        Token::Unsigned { limit: 0xffff_ffff },
    ];
    assert(layout_of(table@) =~= creg_layout());
    match scan(line, table.as_slice()) {
        Some(values) => {
            let n = NetworkRegistrationUrcConfig::try_from(values[1] as u32)?;
            let stat = NetworkRegistrationState::try_from(values[3] as u32)?;
            Ok((n, stat))
        },
        None => Err(AtError::ParseError),
    }
}

/// Reads the response to the registration query.
pub fn parse_network_registration(response: &AtCommandResponse) -> (r: Result<
    (NetworkRegistrationUrcConfig, NetworkRegistrationState),
    AtError,
>)
    ensures
        r == network_registration_of(response@),
{
    let line = response.line(0)?;
    parse_registration(line)
}

/// The command that switches the automatic update of time and time zone
/// from the network on (`AT+CTZU=1`) or off (`AT+CTZU=0`).
pub fn set_automatic_time_and_time_zone_update(enable: bool) -> (r: AtCommandRequest)
    ensures
        r@ == (AtCommandRequestView {
            command: if enable {
                "AT+CTZU=1".spec_bytes()
            } else {
                "AT+CTZU=0".spec_bytes()
            },
            timeout_ms: DEFAULT_TIMEOUT_MS,
            urc_prefix: None,
        }),
{
    proof {
        reveal_strlit("AT+CTZU=1");
        reveal_strlit("AT+CTZU=0");
        crate::text::lemma_ascii_len("AT+CTZU=1");
        crate::text::lemma_ascii_len("AT+CTZU=0");
    }
    if enable {
        short_request("AT+CTZU=1")
    } else {
        short_request("AT+CTZU=0")
    }
}

} // verus!
