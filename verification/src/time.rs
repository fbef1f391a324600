//! The timestamp block that the stream-descriptor sink prepends: a
//! fixed 22-byte text of the shape `"[YYYY-MM-DD HH:MM:SS] "`.
//!
//! The formatting is pure and verified; only reading the clock is
//! trusted.

use vstd::prelude::*;

verus! {

/// The byte of the decimal digit `n % 10`.
pub open spec fn digit(n: nat) -> u8 {
    (48 + n % 10) as u8
}

/// The 22-byte timestamp block `"[YYYY-MM-DD HH:MM:SS] "` for the
/// given calendar parts, each field zero-padded to its fixed width.
pub open spec fn time_block(
    year: nat,
    month: nat,
    day: nat,
    hour: nat,
    minute: nat,
    second: nat,
) -> Seq<u8> {
    seq![
        91u8,  // '['
        digit(year / 1000),
        digit(year / 100),
        digit(year / 10),
        digit(year),
        45u8,  // '-'
        digit(month / 10),
        digit(month),
        45u8,  // '-'
        digit(day / 10),
        digit(day),
        32u8,  // ' '
        digit(hour / 10),
        digit(hour),
        58u8,  // ':'
        digit(minute / 10),
        digit(minute),
        58u8,  // ':'
        digit(second / 10),
        digit(second),
        93u8,  // ']'
        32u8,  // ' '
    ]
}

/// Whether `s` is the timestamp block of some moment a clock can
/// report: calendar parts within their documented ranges.
pub open spec fn is_time_block(s: Seq<u8>) -> bool {
    exists|year: nat, month: nat, day: nat, hour: nat, minute: nat, second: nat|
        {
            &&& year <= 9999
            &&& 1 <= month <= 12
            &&& 1 <= day <= 31
            &&& hour <= 23
            &&& minute <= 59
            &&& second <= 59
            &&& s == #[trigger] time_block(year, month, day, hour, minute, second)
        }
}

/// A formatted timestamp block, ready to be seeded into a sink.
pub struct TimeDate {
    stamp: Vec<u8>,
}

impl TimeDate {
    /// The block's bytes, as the contracts speak of them.
    pub closed spec fn bytes(self) -> Seq<u8> {
        self.stamp@
    }

    /// Formats the block for the given calendar parts. Fields wider
    /// than their column simply contribute their low decimal digits,
    /// so the block always has its fixed shape.
    pub fn new(year: u16, month: u8, day: u8, hour: u8, minute: u8, second: u8) -> (td: TimeDate)
        ensures
            td.bytes() == time_block(
                year as nat,
                month as nat,
                day as nat,
                hour as nat,
                minute as nat,
                second as nat,
            ),
    {
        let mut stamp: Vec<u8> = Vec::new();
        stamp.push(91);  // '['
        stamp.push(digit_byte_wide(year / 1000));
        stamp.push(digit_byte_wide(year / 100));
        stamp.push(digit_byte_wide(year / 10));
        stamp.push(digit_byte_wide(year));
        stamp.push(45);  // '-'
        stamp.push(digit_byte(month / 10));
        stamp.push(digit_byte(month));
        stamp.push(45);  // '-'
        stamp.push(digit_byte(day / 10));
        stamp.push(digit_byte(day));
        stamp.push(32);  // ' '
        stamp.push(digit_byte(hour / 10));
        stamp.push(digit_byte(hour));
        stamp.push(58);  // ':'
        stamp.push(digit_byte(minute / 10));
        stamp.push(digit_byte(minute));
        stamp.push(58);  // ':'
        stamp.push(digit_byte(second / 10));
        stamp.push(digit_byte(second));
        stamp.push(93);  // ']'
        stamp.push(32);  // ' '
        let td = TimeDate { stamp };
        proof {
            assert(td.stamp@ =~= time_block(
                year as nat,
                month as nat,
                day as nat,
                hour as nat,
                minute as nat,
                second as nat,
            ));
        }
        td
    }

    /// The block's bytes, for seeding a buffer.
    pub fn as_bytes(&self) -> (b: &[u8])
        ensures
            b@ == self.bytes(),
    {
        self.stamp.as_slice()
    }
}

/// The byte of the decimal digit `n % 10`.
fn digit_byte(n: u8) -> (d: u8)
    ensures
        d == digit(n as nat),
{
    n % 10 + 48
}

/// The byte of the decimal digit `n % 10`, for a wider field.
fn digit_byte_wide(n: u16) -> (d: u8)
    ensures
        d == digit(n as nat),
{
    (n % 10 + 48) as u8
}

/// Relies on `time::OffsetDateTime::now_utc` and its calendar and
/// clock accessors `year`, `month`, `day`, `hour`, `minute` and
/// `second`: the parts of the current moment, UTC. The ranges are the
/// ones the crate documents: years are range-validated to four
/// decimal digits either side of zero, months and days start at one,
/// and the clock fields are below their radix. (Reading the clock can
/// abort only on a host whose clock is outside the representable
/// years.)
#[verifier::external_body]
fn now_parts() -> (p: (i32, u8, u8, u8, u8, u8))
    ensures
        -9999 <= p.0 <= 9999,
        1 <= p.1 <= 12,
        1 <= p.2 <= 31,
        p.3 <= 23,
        p.4 <= 59,
        p.5 <= 59,
{
    let now = time::OffsetDateTime::now_utc();
    (now.year(), u8::from(now.month()), now.day(), now.hour(), now.minute(), now.second())
}

/// The timestamp block of the present moment, UTC. A clock before
/// year zero (which no host reports) is formatted as year zero.
pub fn get() -> (td: TimeDate)
    ensures
        td.bytes().len() == 22,
        is_time_block(td.bytes()),
{
    let (year, month, day, hour, minute, second) = now_parts();
    let y: u16 = if year < 0 {
        0
    } else {
        year as u16
    };
    let td = TimeDate::new(y, month, day, hour, minute, second);
    proof {
        assert(td.bytes() == time_block(
            y as nat,
            month as nat,
            day as nat,
            hour as nat,
            minute as nat,
            second as nat,
        ));
    }
    td
}

} // verus!
