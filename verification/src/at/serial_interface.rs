//! The modem's sleep mode.

use crate::at::tokenizer::{layout_of, scan, scanned, Token, TokenView};
use crate::at::{first_line_of, short_request, AtCommandRequest, AtCommandRequestView, AtCommandResponse, AtError, DEFAULT_TIMEOUT_MS};
use vstd::prelude::*;
use vstd::string::StringSliceAdditionalSpecFns;

verus! {

/// How the modem sleeps.
#[derive(Debug, Clone, Copy, PartialEq, Eq)]
pub enum SleepMode {
    /// 0: it does not sleep.
    Off,
    /// 1: the DTR pin decides.
    DtrSleep,
    /// 2: it sleeps while its receive line is idle.
    RxSleep,
}

/// The sleep mode that a number stands for.
pub open spec fn sleep_mode_of(value: int) -> Result<SleepMode, AtError> {
    if value == 0 {
        Ok(SleepMode::Off)
    } else if value == 1 {
        Ok(SleepMode::DtrSleep)
    } else if value == 2 {
        Ok(SleepMode::RxSleep)
    } else {
        Err(AtError::EnumParseError(value as i64))
    }
}

impl SleepMode {
    /// The sleep mode that `value` stands for.
    pub fn try_from(value: u32) -> (r: Result<Self, AtError>)
        ensures
            r == sleep_mode_of(value as int),
    {
        match value {
            0 => Ok(SleepMode::Off),
            1 => Ok(SleepMode::DtrSleep),
            2 => Ok(SleepMode::RxSleep),
            _ => Err(AtError::EnumParseError(value as i64)),
        }
    }

    /// The number that stands for the mode.
    pub fn code(&self) -> (r: u32)
        ensures
            sleep_mode_of(r as int) == Ok::<SleepMode, AtError>(*self),
    {
        match self {
            SleepMode::Off => 0,
            SleepMode::DtrSleep => 1,
            SleepMode::RxSleep => 2,
        }
    }
}

/// The text of the command that sets a sleep mode.
pub open spec fn set_sleep_mode_command(mode: SleepMode) -> Seq<u8> {
    match mode {
        SleepMode::Off => "AT+CSCLK=0".spec_bytes(),
        SleepMode::DtrSleep => "AT+CSCLK=1".spec_bytes(),
        SleepMode::RxSleep => "AT+CSCLK=2".spec_bytes(),
    }
}

/// The command that sets the sleep mode, `AT+CSCLK=<mode>`.
pub fn set_sleep_mode(mode: SleepMode) -> (r: AtCommandRequest)
    ensures
        r@ == (AtCommandRequestView {
            command: set_sleep_mode_command(mode),
            timeout_ms: DEFAULT_TIMEOUT_MS,
            urc_prefix: None,
        }),
{
    proof {
        reveal_strlit("AT+CSCLK=0");
        reveal_strlit("AT+CSCLK=1");
        reveal_strlit("AT+CSCLK=2");
        crate::text::lemma_ascii_len("AT+CSCLK=0");
        crate::text::lemma_ascii_len("AT+CSCLK=1");
        crate::text::lemma_ascii_len("AT+CSCLK=2");
    }
    match mode {
        SleepMode::Off => short_request("AT+CSCLK=0"),
        SleepMode::DtrSleep => short_request("AT+CSCLK=1"),
        SleepMode::RxSleep => short_request("AT+CSCLK=2"),
    }
}

/// The sleep mode query, `AT+CSCLK?`.
pub fn read_sleep_mode() -> (r: AtCommandRequest)
    ensures
        r@ == (AtCommandRequestView {
            command: "AT+CSCLK?".spec_bytes(),
            timeout_ms: DEFAULT_TIMEOUT_MS,
            urc_prefix: None,
        }),
{
    proof {
        reveal_strlit("AT+CSCLK?");
        crate::text::lemma_ascii_len("AT+CSCLK?");
    }
    short_request("AT+CSCLK?")
}

/// The layout of a sleep mode line: `+CSCLK: <mode>`.
pub open spec fn csclk_layout() -> Seq<TokenView> {
    seq![
        TokenView::Tag { text: "+CSCLK: ".spec_bytes() },
        TokenView::Unsigned { limit: 0xffff_ffff },
    ]
}

/// What the response to the sleep mode query says: a missing line is a
/// line count mismatch, a line of another shape a parse error, and a mode
/// outside 0 to 2 an enumeration error.
pub open spec fn sleep_mode_response_of(response: Seq<Seq<u8>>) -> Result<SleepMode, AtError> {
    match first_line_of(response) {
        Ok(line) => match scanned(line, csclk_layout()) {
            Some(values) => sleep_mode_of(values[1]),
            None => Err(AtError::ParseError),
        },
        Err(e) => Err(e),
    }
}

/// Reads the response to the sleep mode query.
pub fn parse_sleep_mode(response: &AtCommandResponse) -> (r: Result<SleepMode, AtError>)
    ensures
        r == sleep_mode_response_of(response@),
{
    let line = response.line(0)?;
    let table = vec![Token::Tag { text: "+CSCLK: " }, Token::Unsigned { limit: 0xffff_ffff }];
    assert(layout_of(table@) =~= csclk_layout());
    match scan(line, table.as_slice()) {
        Some(values) => SleepMode::try_from(values[1] as u32),
        None => Err(AtError::ParseError),
    }
}

} // verus!
