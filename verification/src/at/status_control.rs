//! Signal quality, power-down and the modem's real-time clock.

use crate::at::tokenizer::{layout_of, scan, scanned, Token, TokenView};
use crate::at::{first_line_of, short_request, AtCommandRequest, AtCommandRequestView, AtCommandResponse, AtError, DEFAULT_TIMEOUT_MS};
use crate::time::{
    civil_day, civil_of_day, days_from_ce, is_calendar_date, is_moment, is_time_of_day, DateTime,
};
use vstd::prelude::*;
use vstd::string::StringSliceAdditionalSpecFns;

verus! {

/// Received signal strength in dBm.
#[derive(Debug, Clone, Copy, PartialEq, Eq)]
pub struct Rssi(pub i32);

impl Rssi {
    /// The strength in dBm.
    pub fn dbm(&self) -> (r: i32)
        ensures
            r == self.0,
    {
        self.0
    }
}

/// The strength that a raw value of the signal quality report stands
/// for: 0 to 31 are `-113 + 2 * raw` dBm; 99, which means that the strength
/// is not known, and every other value are enumeration errors.
pub open spec fn rssi_of(raw: int) -> Result<Rssi, AtError> {
    if 0 <= raw <= 31 {
        Ok(Rssi((-113 + 2 * raw) as i32))
    } else {
        Err(AtError::EnumParseError(raw as i64))
    }
}

/// The strength that a raw value stands for.
pub fn rssi_from_raw(raw: i32) -> (r: Result<Rssi, AtError>)
    ensures
        r == rssi_of(raw as int),
{
    if 0 <= raw && raw <= 31 {
        Ok(Rssi(-113 + raw * 2))
    } else {
        Err(AtError::EnumParseError(raw as i64))
    }
}

/// The signal quality query, `AT+CSQ`.
pub fn query_signal_quality() -> (r: AtCommandRequest)
    ensures
        r@ == (AtCommandRequestView {
            command: "AT+CSQ".spec_bytes(),
            timeout_ms: DEFAULT_TIMEOUT_MS,
            urc_prefix: None,
        }),
{
    proof {
        reveal_strlit("AT+CSQ");
        crate::text::lemma_ascii_len("AT+CSQ");
    }
    short_request("AT+CSQ")
}

/// The layout of a signal quality line: `+CSQ: <rssi>,<ber>`.
pub open spec fn csq_layout() -> Seq<TokenView> {
    seq![
        TokenView::Tag { text: "+CSQ: ".spec_bytes() },
        TokenView::Signed,
        TokenView::Tag { text: ",".spec_bytes() },
        TokenView::Unsigned { limit: 0xffff_ffff },
    ]
}

/// What the response to the signal quality query says: the strength and
/// the raw bit error rate. A missing line is a line count mismatch, a line
/// of another shape a parse error.
pub open spec fn signal_quality_of(response: Seq<Seq<u8>>) -> Result<(Rssi, u32), AtError> {
    match first_line_of(response) {
        Ok(line) => match scanned(line, csq_layout()) {
            Some(values) => match rssi_of(values[1]) {
                Ok(rssi) => Ok((rssi, values[3] as u32)),
                Err(e) => Err(e),
            },
            None => Err(AtError::ParseError),
        },
        Err(e) => Err(e),
    }
}

/// Reads the response to the signal quality query.
pub fn parse_signal_quality(response: &AtCommandResponse) -> (r: Result<(Rssi, u32), AtError>)
    ensures
        r == signal_quality_of(response@),
{
    let line = response.line(0)?;
    let table = vec![
        Token::Tag { text: "+CSQ: " },
        Token::Signed,
        Token::Tag { text: "," },
        Token::Unsigned { limit: 0xffff_ffff },
    ];
    assert(layout_of(table@) =~= csq_layout());
    match scan(line, table.as_slice()) {
        Some(values) => {
            let rssi = rssi_from_raw(values[1] as i32)?;
            Ok((rssi, values[3] as u32))
        },
        None => Err(AtError::ParseError),
    }
}

/// The command that powers the modem down, `AT+CPOF`.
pub fn power_down() -> (r: AtCommandRequest)
    ensures
        r@ == (AtCommandRequestView {
            command: "AT+CPOF".spec_bytes(),
            timeout_ms: DEFAULT_TIMEOUT_MS,
            urc_prefix: None,
        }),
{
    proof {
        reveal_strlit("AT+CPOF");
        crate::text::lemma_ascii_len("AT+CPOF");
    }
    short_request("AT+CPOF")
}

/// The real-time clock query, `AT+CCLK?`.
pub fn query_real_time_clock() -> (r: AtCommandRequest)
    ensures
        r@ == (AtCommandRequestView {
            command: "AT+CCLK?".spec_bytes(),
            timeout_ms: DEFAULT_TIMEOUT_MS,
            urc_prefix: None,
        }),
{
    proof {
        reveal_strlit("AT+CCLK?");
        crate::text::lemma_ascii_len("AT+CCLK?");
    }
    short_request("AT+CCLK?")
}

/// The fields that the clock reports, as read from the text.
pub struct RtcFields {
    /// The year, counted from 2000.
    pub year: int,
    pub month: int,
    pub day: int,
    pub hour: int,
    pub minute: int,
    pub second: int,
    /// Whether local time is ahead of UTC (`+`) or behind it (`-`).
    pub ahead: bool,
    /// The distance between local time and UTC in quarters of an hour.
    pub quarters: int,
}

/// The seconds from the beginning of day 0 to the moment of UTC that the
/// fields name: local time ahead of UTC is set back by the offset, and
/// local time behind UTC is set forward.
pub open spec fn utc_total_seconds(f: RtcFields) -> int {
    let local = days_from_ce(2000 + f.year, f.month, f.day) * 86_400 + f.hour * 3600 + f.minute
        * 60 + f.second;
    let offset = f.quarters * 900;
    if f.ahead {
        local - offset
    } else {
        local + offset
    }
}

/// The number of the day of UTC on which the moment falls that the fields
/// name.
pub open spec fn utc_day(f: RtcFields) -> int {
    utc_total_seconds(f) / 86_400
}

/// The second of its day of UTC at which the moment falls that the fields
/// name.
pub open spec fn utc_second_of_day(f: RtcFields) -> int {
    utc_total_seconds(f) % 86_400
}

/// Whether the fields name a moment: the text names a day that the
/// calendar has, in 1970 or later, and a time that the day has; and the
/// moment of UTC, which may fall on another day than the text names, falls
/// on a day that the calendar has, in 1970 or later.
pub open spec fn is_rtc_moment(f: RtcFields) -> bool {
    &&& 1970 <= 2000 + f.year <= 262_142
    &&& is_calendar_date(2000 + f.year, f.month, f.day)
    &&& is_time_of_day(f.hour, f.minute, f.second)
    &&& -0x8000_0000 <= utc_day(f) <= 0x7fff_ffff
    &&& civil_of_day(utc_day(f)) matches Some((y, m, d))
    &&& 1970 <= y
}

/// Whether `m` is the moment of UTC that the fields name: the day of UTC
/// by the calendar, and the second of that day.
pub open spec fn is_rtc_result(f: RtcFields, m: crate::time::DateTimeView) -> bool {
    &&& is_moment(m)
    &&& civil_of_day(utc_day(f)) == Some((m.year, m.month, m.day))
    &&& m.hour * 3600 + m.minute * 60 + m.second == utc_second_of_day(f)
}

/// The layout of a clock text: `YY/MM/DD,hh:mm:ss±zz`.
pub open spec fn rtc_layout() -> Seq<TokenView> {
    seq![
        TokenView::Signed,
        TokenView::Tag { text: "/".spec_bytes() },
        TokenView::Unsigned { limit: 0xffff_ffff },
        TokenView::Tag { text: "/".spec_bytes() },
        TokenView::Unsigned { limit: 0xffff_ffff },
        TokenView::Tag { text: ",".spec_bytes() },
        TokenView::Unsigned { limit: 0xffff_ffff },
        TokenView::Tag { text: ":".spec_bytes() },
        TokenView::Unsigned { limit: 0xffff_ffff },
        TokenView::Tag { text: ":".spec_bytes() },
        TokenView::Unsigned { limit: 0xffff_ffff },
        TokenView::Either { first: 43, second: 45 },
        TokenView::Unsigned { limit: 0xffff_ffff },
    ]
}

/// The layout of a clock line: `+CCLK: "YY/MM/DD,hh:mm:ss±zz"`.
pub open spec fn cclk_layout() -> Seq<TokenView> {
    seq![TokenView::Tag { text: "+CCLK: \"".spec_bytes() }] + rtc_layout() + seq![
        TokenView::Tag { text: "\"".spec_bytes() },
    ]
}

/// The fields among the numbers that a layout handed out, the year being
/// the number at position `base`.
pub open spec fn rtc_fields_of(values: Seq<int>, base: int) -> RtcFields {
    RtcFields {
        year: values[base],
        month: values[base + 2],
        day: values[base + 4],
        hour: values[base + 6],
        minute: values[base + 8],
        second: values[base + 10],
        ahead: values[base + 11] == 43,
        quarters: values[base + 12],
    }
}

/// Splits seconds counted from the beginning of day 0 into the number of
/// the day and the second of the day.
fn split_seconds(total: i64) -> (r: (i64, u32))
    requires
        -0x1_0000_0000_0000 <= total <= 0x1_0000_0000_0000,
    ensures
        r.0 == total / 86_400,
        r.1 == total % 86_400,
{
    let shifted: i64 = total + 0x1_0000_0000 * 86_400;
    let day: i64 = shifted / 86_400 - 0x1_0000_0000;
    let second: i64 = shifted % 86_400;
    proof {
        vstd::arithmetic::div_mod::lemma_fundamental_div_mod(shifted as int, 86_400);
        vstd::arithmetic::div_mod::lemma_fundamental_div_mod(total as int, 86_400);
        vstd::arithmetic::div_mod::lemma_mod_multiples_vanish(0x1_0000_0000, total as int, 86_400);
        assert(86_400 * 0x1_0000_0000 + total == shifted);
    }
    (day, second as u32)
}

/// Builds the moment that the fields name.
fn rtc_moment(
    year: i64,
    month: u32,
    day: u32,
    hour: u32,
    minute: u32,
    second: u32,
    ahead: bool,
    quarters: u32,
) -> (r: Option<DateTime>)
    requires
        -0x8000_0000 <= year <= 0x7fff_ffff,
    ensures
        r.is_some() == is_rtc_moment(
            RtcFields {
                year: year as int,
                month: month as int,
                day: day as int,
                hour: hour as int,
                minute: minute as int,
                second: second as int,
                ahead,
                quarters: quarters as int,
            },
        ),
        r matches Some(m) ==> is_rtc_result(
            RtcFields {
                year: year as int,
                month: month as int,
                day: day as int,
                hour: hour as int,
                minute: minute as int,
                second: second as int,
                ahead,
                quarters: quarters as int,
            },
            m@,
        ),
{
    let full_year: i64 = 2000 + year;
    if full_year < 1970 || full_year > 262_142 {
        return None;
    }
    if hour >= 24 || minute >= 60 || second >= 60 {
        return None;
    }
    let local_day: i64 = match civil_day(full_year as i32, month, day) {
        Some(n) => n as i64,
        None => { return None; },
    };
    let local: i64 = local_day * 86_400 + (hour as i64) * 3600 + (minute as i64) * 60 + (
    second as i64);
    let offset: i64 = (quarters as i64) * 900;
    let total: i64 = if ahead {
        local - offset
    } else {
        local + offset
    };
    let (utc_day, utc_second) = split_seconds(total);
    if utc_day < -0x8000_0000 || utc_day > 0x7fff_ffff {
        return None;
    }
    DateTime::from_day_and_second(utc_day as i32, utc_second)
}

/// Builds the moment that the numbers handed out by a layout name, the
/// year being the number at position `base`.
fn rtc_moment_at(values: &Vec<i64>, base: usize) -> (r: Option<DateTime>)
    requires
        base <= 1,
        values@.len() >= base + 13,
        -0x8000_0000 <= values@[base as int] <= 0x7fff_ffff,
        0 <= values@[base + 2] <= 0xffff_ffff,
        0 <= values@[base + 4] <= 0xffff_ffff,
        0 <= values@[base + 6] <= 0xffff_ffff,
        0 <= values@[base + 8] <= 0xffff_ffff,
        0 <= values@[base + 10] <= 0xffff_ffff,
        0 <= values@[base + 12] <= 0xffff_ffff,
    ensures
        r.is_some() == is_rtc_moment(
            rtc_fields_of(values@.map_values(|v: i64| v as int), base as int),
        ),
        r matches Some(m) ==> is_rtc_result(
            rtc_fields_of(values@.map_values(|v: i64| v as int), base as int),
            m@,
        ),
{
    rtc_moment(
        values[base],
        values[base + 2] as u32,
        values[base + 4] as u32,
        values[base + 6] as u32,
        values[base + 8] as u32,
        values[base + 10] as u32,
        values[base + 11] == 43,
        values[base + 12] as u32,
    )
}

/// What a clock text says: the moment of UTC that its fields name, or a
/// parse error where the text has another shape or the fields name no
/// moment.
pub open spec fn is_rtc_parse(input: Seq<u8>, r: Result<DateTime, AtError>) -> bool {
    match scanned(input, rtc_layout()) {
        Some(values) => if is_rtc_moment(rtc_fields_of(values, 0)) {
            r matches Ok(m) && is_rtc_result(rtc_fields_of(values, 0), m@)
        } else {
            r == Err::<DateTime, AtError>(AtError::ParseError)
        },
        None => r == Err::<DateTime, AtError>(AtError::ParseError),
    }
}

/// What the response to the clock query says: as [`is_rtc_parse`] for the
/// text between the quotes of its first line, and a line count mismatch
/// where the response has no line.
pub open spec fn is_rtc_response(response: Seq<Seq<u8>>, r: Result<DateTime, AtError>) -> bool {
    match first_line_of(response) {
        Ok(line) => match scanned(line, cclk_layout()) {
            Some(values) => if is_rtc_moment(rtc_fields_of(values, 1)) {
                r matches Ok(m) && is_rtc_result(rtc_fields_of(values, 1), m@)
            } else {
                r == Err::<DateTime, AtError>(AtError::ParseError)
            },
            None => r == Err::<DateTime, AtError>(AtError::ParseError),
        },
        Err(e) => r == Err::<DateTime, AtError>(e),
    }
}

/// Reads a clock text, `YY/MM/DD,hh:mm:ss±zz`, as a moment of UTC.
pub fn parse_rtc_date_time(input: &[u8]) -> (r: Result<DateTime, AtError>)
    ensures
        is_rtc_parse(input@, r),
{
    let table = vec![
        Token::Signed,
        Token::Tag { text: "/" },
        Token::Unsigned { limit: 0xffff_ffff },
        Token::Tag { text: "/" },
        Token::Unsigned { limit: 0xffff_ffff },
        Token::Tag { text: "," },
        Token::Unsigned { limit: 0xffff_ffff },
        Token::Tag { text: ":" },
        Token::Unsigned { limit: 0xffff_ffff },
        Token::Tag { text: ":" },
        Token::Unsigned { limit: 0xffff_ffff },
        Token::Either { first: 43, second: 45 },
        Token::Unsigned { limit: 0xffff_ffff },
    ];
    assert(layout_of(table@) =~= rtc_layout());
    match scan(input, table.as_slice()) {
        Some(values) => {
            proof {
                let ghost seen = scanned(input@, rtc_layout()).unwrap();
                assert(values@.map_values(|v: i64| v as int) =~= seen);
            }
            match rtc_moment_at(&values, 0) {
                Some(m) => Ok(m),
                None => Err(AtError::ParseError),
            }
        },
        None => Err(AtError::ParseError),
    }
}

/// Reads the response to the clock query.
pub fn parse_real_time_clock(response: &AtCommandResponse) -> (r: Result<DateTime, AtError>)
    ensures
        is_rtc_response(response@, r),
{
    let line = match response.line(0) {
        Ok(line) => line,
        Err(e) => { return Err(e); },
    };
    let table = vec![
        Token::Tag { text: "+CCLK: \"" },
        Token::Signed,
        Token::Tag { text: "/" },
        Token::Unsigned { limit: 0xffff_ffff },
        Token::Tag { text: "/" },
        Token::Unsigned { limit: 0xffff_ffff },
        Token::Tag { text: "," },
        Token::Unsigned { limit: 0xffff_ffff },
        Token::Tag { text: ":" },
        Token::Unsigned { limit: 0xffff_ffff },
        Token::Tag { text: ":" },
        Token::Unsigned { limit: 0xffff_ffff },
        Token::Either { first: 43, second: 45 },
        Token::Unsigned { limit: 0xffff_ffff },
        Token::Tag { text: "\"" },
    ];
    assert(layout_of(table@) =~= cclk_layout());
    match scan(line, table.as_slice()) {
        Some(values) => {
            proof {
                let ghost seen = scanned(line@, cclk_layout()).unwrap();
                assert(values@.map_values(|v: i64| v as int) =~= seen);
            }
            match rtc_moment_at(&values, 1) {
                Some(m) => Ok(m),
                None => Err(AtError::ParseError),
            }
        },
        None => Err(AtError::ParseError),
    }
}

} // verus!
