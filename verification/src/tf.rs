//! The SD card on SPI1 of the STM32F103 board: the SPI bus, its chip
//! select line and the clock that stamps files.

use vstd::prelude::*;

verus! {

/// The error of an operation that cannot fail: no function of this crate
/// returns it.
#[derive(Debug)]
pub struct NeverError;

/// SPI1, full duplex, one byte per transfer.
pub struct SPI1;

impl SPI1 {
    /// Read a received byte: the low byte of the data register, once the
    /// receive register is not empty.
    pub fn read(&mut self, data_register: u32) -> (r: Result<u8, NeverError>)
        ensures
            r == Ok::<u8, NeverError>((data_register % 0x100) as u8),
    {
        let byte: u8 = (data_register % 0x100) as u8;
        Ok(byte)
    }

    /// Send a byte: the word to put in the data register once the transmit
    /// register is empty.
    pub fn send(&mut self, word: u8) -> (r: Result<u32, NeverError>)
        ensures
            r == Ok::<u32, NeverError>(word as u32),
    {
        Ok(word as u32)
    }
}

/// Pin of GPIOA that selects the card.
pub const CS_PIN: u32 = 4;

/// The word for the bit set/reset register of GPIOA that sets pin `pin`
/// high (`high`) or low; every other pin keeps its level.
pub open spec fn bsrr_word(pin: u32, high: bool) -> u32 {
    if high {
        (1u32 << pin) as u32
    } else {
        (1u32 << (pin + 16)) as u32
    }
}

/// The chip select line of the card (PA4).
pub struct CS;

impl CS {
    /// Select the card: the bit set/reset word that drives PA4 low.
    pub fn set_low(&mut self) -> (r: Result<u32, NeverError>)
        ensures
            r == Ok::<u32, NeverError>(bsrr_word(CS_PIN, false)),
            r == Ok::<u32, NeverError>(0x0010_0000),
    {
        assert((1u32 << 20u32) == 0x0010_0000u32) by (bit_vector);
        Ok(1u32 << (CS_PIN + 16))
    }

    /// Release the card: the bit set/reset word that drives PA4 high.
    pub fn set_high(&mut self) -> (r: Result<u32, NeverError>)
        ensures
            r == Ok::<u32, NeverError>(bsrr_word(CS_PIN, true)),
            r == Ok::<u32, NeverError>(0x0000_0010),
    {
        assert((1u32 << 4u32) == 0x10u32) by (bit_vector);
        Ok(1u32 << CS_PIN)
    }
}

/// A moment on the FAT calendar, as the file system stores it.
#[derive(Clone, Copy, Debug, PartialEq, Eq, Structural)]
pub struct Timestamp {
    /// Add 1970 to get the calendar year.
    pub year_since_1970: u8,
    /// Add one to get the calendar month.
    pub zero_indexed_month: u8,
    /// Add one to get the calendar day.
    pub zero_indexed_day: u8,
    /// Hours past midnight.
    pub hours: u8,
    /// Minutes past the hour.
    pub minutes: u8,
    /// Seconds past the minute.
    pub seconds: u8,
}

/// Why a calendar date and time cannot be stored, if it cannot: the first
/// field out of range, checked from the year down to the seconds.
pub open spec fn calendar_error(year: u16, month: u8, day: u8, hours: u8, minutes: u8, seconds: u8) -> Option<Seq<char>> {
    if !(1970 <= year <= 2097) {
        Some("Bad year"@)
    } else if !(1 <= month <= 12) {
        Some("Bad month"@)
    } else if !(1 <= day <= 31) {
        Some("Bad day"@)
    } else if hours > 23 {
        Some("Bad hours"@)
    } else if minutes > 59 {
        Some("Bad minutes"@)
    } else if seconds > 59 {
        Some("Bad seconds"@)
    } else {
        None
    }
}

/// The stored form of a valid calendar date and time.
pub open spec fn calendar_timestamp(year: u16, month: u8, day: u8, hours: u8, minutes: u8, seconds: u8) -> Timestamp {
    Timestamp {
        year_since_1970: (year - 1970) as u8,
        zero_indexed_month: (month - 1) as u8,
        zero_indexed_day: (day - 1) as u8,
        hours,
        minutes,
        seconds,
    }
}

/// `embedded_sdmmc::Timestamp::from_calendar`: the stored form of a
/// calendar date and time when every field is in range (year 1970 to 2097,
/// month 1 to 12, day 1 to 31, hours up to 23, minutes and seconds up to
/// 59), else the message that names the first field out of range.
#[verifier::external_body]
fn timestamp_from_calendar(
    year: u16,
    month: u8,
    day: u8,
    hours: u8,
    minutes: u8,
    seconds: u8,
) -> (r: Result<Timestamp, &'static str>)
    ensures
        match calendar_error(year, month, day, hours, minutes, seconds) {
            Some(msg) => r is Err && r->Err_0@ == msg,
            None => r == Ok::<Timestamp, &'static str>(
                calendar_timestamp(year, month, day, hours, minutes, seconds),
            ),
        },
{
    match embedded_sdmmc::Timestamp::from_calendar(year, month, day, hours, minutes, seconds) {
        Ok(t) => Ok(
            Timestamp {
                year_since_1970: t.year_since_1970,
                zero_indexed_month: t.zero_indexed_month,
                zero_indexed_day: t.zero_indexed_day,
                hours: t.hours,
                minutes: t.minutes,
                seconds: t.seconds,
            },
        ),
        Err(e) => Err(e),
    }
}

/// The clock that stamps the files written to the card.
pub struct Time;

impl Time {
    /// The time stamp of every file: 2000-01-01 01:01:01.
    pub fn get_timestamp(&self) -> (t: Timestamp)
        ensures
            t == calendar_timestamp(2000, 1, 1, 1, 1, 1),
            t.year_since_1970 == 30 && t.zero_indexed_month == 0 && t.zero_indexed_day == 0,
            t.hours == 1 && t.minutes == 1 && t.seconds == 1,
    {
        timestamp_from_calendar(2000, 1, 1, 1, 1, 1).unwrap()
    }
}

} // verus!
