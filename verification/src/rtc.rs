//! The registers of a DS3231 real-time clock, as they travel over I2C.
//!
//! The device keeps the time in binary-coded decimal, one field a register,
//! along with a temperature and a status byte. [`Rtc`] says which registers
//! to ask for and turns the bytes of a reply into values. It owns no bus: the
//! caller performs the transfer and hands in what came of it, the bytes or
//! the error of the bus, and an error comes back out untouched.

use vstd::prelude::*;
use crate::bits::bit_of;

verus! {

/// The device's address on the bus.
pub const ADDRESS: u8 = 0x68;

/// The first register of the time: seconds, then minutes, hours, day, month
/// and year.
pub const TIME_REGISTER: u8 = 0x00;

/// The status register.
pub const STATUS_REGISTER: u8 = 0x0F;

/// The first of the two temperature registers.
pub const TEMPERATURE_REGISTER: u8 = 0x11;

/// A point in time.
#[derive(Debug, Clone, Copy, PartialEq, Eq, Structural)]
pub struct DateTime {
    pub year: u16,
    pub month: u8,
    pub day: u8,
    pub hour: u8,
    pub minute: u8,
    pub second: u8,
}

impl DateTime {
    /// Every field is in the range that the device can hold: a year of this
    /// century, a month from 1 to 12, a day from 1 to 31, and a time of day.
    pub open spec fn is_valid(self) -> bool {
        &&& 2000 <= self.year <= 2099
        &&& 1 <= self.month <= 12
        &&& 1 <= self.day <= 31
        &&& self.hour <= 23
        &&& self.minute <= 59
        &&& self.second <= 59
    }
}

/// A read to perform on the bus: address the device, write the number of a
/// register, then read `length` bytes, which come from that register and the
/// ones after it.
#[derive(Debug, Clone, Copy, PartialEq, Eq, Structural)]
pub struct Request {
    pub address: u8,
    pub register: u8,
    pub length: usize,
}

/// The number that a byte of binary-coded decimal stands for: the high nibble
/// counts tens, the low nibble ones.
pub open spec fn bcd_value(byte: u8) -> u8 {
    ((byte / 16) * 10 + byte % 16) as u8
}

/// The byte of binary-coded decimal for a number: tens in the high nibble,
/// ones in the low. Tens beyond fifteen do not fit the nibble and lose their
/// upper bits.
pub open spec fn bcd_byte(value: u8) -> u8 {
    ((value / 10) % 16 * 16 + value % 10) as u8
}

/// The time that six registers hold, seconds first. Bits that are no part of
/// a number are dropped: the top bit of seconds and minutes, the top two of
/// hours and day, the top three of the month. The year counts from 2000.
pub open spec fn datetime_of(registers: Seq<u8>) -> DateTime {
    DateTime {
        second: bcd_value(registers[0] % 128),
        minute: bcd_value(registers[1] % 128),
        hour: bcd_value(registers[2] % 64),
        day: bcd_value(registers[3] % 64),
        month: bcd_value(registers[4] % 32),
        year: (2000 + bcd_value(registers[5])) as u16,
    }
}

/// The six registers for a time, seconds first. Of the year only the last
/// two digits are kept.
pub open spec fn registers_of(datetime: DateTime) -> Seq<u8> {
    seq![
        bcd_byte(datetime.second),
        bcd_byte(datetime.minute),
        bcd_byte(datetime.hour),
        bcd_byte(datetime.day),
        bcd_byte(datetime.month),
        bcd_byte((datetime.year % 100) as u8),
    ]
}

/// The temperature that the two temperature registers hold, in quarters of a
/// degree Celsius: the first is the whole degrees as a signed byte, the top
/// two bits of the second count the quarters.
pub open spec fn quarter_degrees(high: u8, low: u8) -> int {
    4 * (if high < 128 {
        high as int
    } else {
        high - 256
    }) + low / 64
}

/// Decodes one byte of binary-coded decimal.
pub fn bcd_decode(byte: u8) -> (value: u8)
    ensures
        value == bcd_value(byte),
{
    let tens = byte >> 4;
    let ones = byte & 0x0F;
    assert(tens == byte / 16 && ones == byte % 16) by (bit_vector)
        requires
            tens == byte >> 4,
            ones == byte & 0x0F,
    ;
    tens * 10 + ones
}

/// Encodes a number as one byte of binary-coded decimal.
pub fn bcd_encode(value: u8) -> (byte: u8)
    ensures
        byte == bcd_byte(value),
{
    let tens = value / 10;
    let ones = value % 10;
    let byte = (tens << 4) | ones;
    assert(byte == (tens % 16) * 16 + ones) by (bit_vector)
        requires
            byte == (tens << 4) | ones,
            ones < 10,
    ;
    byte
}

/// Binary-coded decimal loses nothing of a number of two digits: encoding
/// and then decoding gives the number back. That covers every field of a
/// time: seconds and minutes up to 59, hours up to 23, days up to 31, months
/// up to 12 and the two digits of the year.
pub proof fn lemma_bcd_round_trip(value: u8)
    requires
        value <= 99,
    ensures
        bcd_value(bcd_byte(value)) == value,
        bcd_byte(value) / 16 == value / 10,
        bcd_byte(value) % 16 == value % 10,
{
}

/// A valid time survives the registers: read back from the six registers
/// that were written for it, whatever bytes follow them, it is the same time.
pub proof fn lemma_datetime_round_trip(datetime: DateTime, rest: Seq<u8>)
    requires
        datetime.is_valid(),
    ensures
        datetime_of(registers_of(datetime) + rest) == datetime,
{
    let registers = registers_of(datetime) + rest;
    let year = (datetime.year % 100) as u8;
    assert(registers[0] == bcd_byte(datetime.second));
    assert(registers[1] == bcd_byte(datetime.minute));
    assert(registers[2] == bcd_byte(datetime.hour));
    assert(registers[3] == bcd_byte(datetime.day));
    assert(registers[4] == bcd_byte(datetime.month));
    assert(registers[5] == bcd_byte(year));
    lemma_bcd_round_trip(datetime.second);
    lemma_bcd_round_trip(datetime.minute);
    lemma_bcd_round_trip(datetime.hour);
    lemma_bcd_round_trip(datetime.day);
    lemma_bcd_round_trip(datetime.month);
    lemma_bcd_round_trip(year);
}

/// Masking off the top bits of a byte leaves the remainder by a power of two.
proof fn lemma_masks(byte: u8)
    ensures
        byte & 0x7F == byte % 128,
        byte & 0x3F == byte % 64,
        byte & 0x1F == byte % 32,
{
    assert(byte & 0x7F == byte % 128) by (bit_vector);
    assert(byte & 0x3F == byte % 64) by (bit_vector);
    assert(byte & 0x1F == byte % 32) by (bit_vector);
}

/// Driver of a DS3231.
pub struct Rtc {
    address: u8,
}

impl Rtc {
    /// The address on the bus that this driver speaks to.
    pub closed spec fn bus_address(self) -> u8 {
        self.address
    }

    /// A driver for the device at its fixed address.
    pub fn new() -> (rtc: Self)
        ensures
            rtc.bus_address() == ADDRESS,
    {
        Self { address: ADDRESS }
    }

    /// The address on the bus that this driver speaks to.
    pub fn address(&self) -> (address: u8)
        ensures
            address == self.bus_address(),
    {
        self.address
    }

    /// The read that fetches the time: seven bytes from the seconds register
    /// on.
    pub fn datetime_request(&self) -> (request: Request)
        ensures
            request == (Request {
                address: self.bus_address(),
                register: TIME_REGISTER,
                length: 7,
            }),
    {
        Request { address: self.address, register: TIME_REGISTER, length: 7 }
    }

    /// The read that fetches the temperature: both temperature registers.
    pub fn temperature_request(&self) -> (request: Request)
        ensures
            request == (Request {
                address: self.bus_address(),
                register: TEMPERATURE_REGISTER,
                length: 2,
            }),
    {
        Request { address: self.address, register: TEMPERATURE_REGISTER, length: 2 }
    }

    /// The read that fetches the status register.
    pub fn status_request(&self) -> (request: Request)
        ensures
            request == (Request {
                address: self.bus_address(),
                register: STATUS_REGISTER,
                length: 1,
            }),
    {
        Request { address: self.address, register: STATUS_REGISTER, length: 1 }
    }

    /// Tells whether the device answers, from the reply to
    /// [`datetime_request`](Self::datetime_request): it does where the read
    /// went through, whatever it read.
    pub fn init<E>(&self, reply: Result<[u8; 7], E>) -> (outcome: Result<(), E>)
        ensures
            match reply {
                Ok(_) => outcome == Ok::<(), E>(()),
                Err(error) => outcome == Err::<(), E>(error),
            },
    {
        match self.get_datetime(reply) {
            Ok(_) => Ok(()),
            Err(error) => Err(error),
        }
    }

    /// The time, from the reply to
    /// [`datetime_request`](Self::datetime_request). The seventh byte is not
    /// looked at.
    pub fn get_datetime<E>(&self, reply: Result<[u8; 7], E>) -> (outcome: Result<DateTime, E>)
        ensures
            match reply {
                Ok(data) => outcome == Ok::<DateTime, E>(datetime_of(data@)),
                Err(error) => outcome == Err::<DateTime, E>(error),
            },
    {
        let data = match reply {
            Ok(data) => data,
            Err(error) => { return Err(error); },
        };
        proof {
            lemma_masks(data[0]);
            lemma_masks(data[1]);
            lemma_masks(data[2]);
            lemma_masks(data[3]);
            lemma_masks(data[4]);
        }
        let second = bcd_decode(data[0] & 0x7F);
        let minute = bcd_decode(data[1] & 0x7F);
        let hour = bcd_decode(data[2] & 0x3F);
        let day = bcd_decode(data[3] & 0x3F);
        let month = bcd_decode(data[4] & 0x1F);
        let year = 2000 + (bcd_decode(data[5]) as u16);
        Ok(DateTime { year, month, day, hour, minute, second })
    }

    /// The bytes to write to the device to set the time: the number of the
    /// seconds register, then the six registers from seconds to year.
    pub fn set_datetime(&self, datetime: &DateTime) -> (frame: [u8; 7])
        ensures
            frame@ == seq![TIME_REGISTER] + registers_of(*datetime),
    {
        let second_bcd = bcd_encode(datetime.second);
        let minute_bcd = bcd_encode(datetime.minute);
        let hour_bcd = bcd_encode(datetime.hour);
        let day_bcd = bcd_encode(datetime.day);
        let month_bcd = bcd_encode(datetime.month);
        let year_remainder = (datetime.year % 100) as u8;
        let year_bcd = bcd_encode(year_remainder);
        let frame = [
            TIME_REGISTER,
            second_bcd,
            minute_bcd,
            hour_bcd,
            day_bcd,
            month_bcd,
            year_bcd,
        ];
        assert(frame@ =~= seq![TIME_REGISTER] + registers_of(*datetime));
        frame
    }

    /// The temperature in quarters of a degree Celsius, from the reply to
    /// [`temperature_request`](Self::temperature_request).
    pub fn get_temperature<E>(&self, reply: Result<[u8; 2], E>) -> (outcome: Result<i16, E>)
        ensures
            match reply {
                Ok(data) => outcome matches Ok(quarters) && quarters == quarter_degrees(
                    data@[0],
                    data@[1],
                ),
                Err(error) => outcome == Err::<i16, E>(error),
            },
    {
        let data = match reply {
            Ok(data) => data,
            Err(error) => { return Err(error); },
        };
        let high = data[0];
        let low = data[1];
        let degrees: i16 = if high < 128 {
            high as i16
        } else {
            (high as i16) - 256
        };
        let quarters = low >> 6;
        assert(quarters == low / 64) by (bit_vector)
            requires
                quarters == low >> 6,
        ;
        Ok(4 * degrees + (quarters as i16))
    }

    /// Whether the device is busy, from the reply to
    /// [`status_request`](Self::status_request): bit 2 of the status register.
    pub fn is_busy<E>(&self, reply: Result<[u8; 1], E>) -> (outcome: Result<bool, E>)
        ensures
            match reply {
                Ok(data) => outcome == Ok::<bool, E>(bit_of(data@[0], 2)),
                Err(error) => outcome == Err::<bool, E>(error),
            },
            reply matches Ok(data) ==> outcome == Ok::<bool, E>(data@[0] / 4 % 2 == 1),
    {
        let data = match reply {
            Ok(data) => data,
            Err(error) => { return Err(error); },
        };
        let status = data[0];
        assert(((status & 0x04) != 0) == bit_of(status, 2)) by (bit_vector);
        assert(((status & 0x04) != 0) == (status / 4 % 2 == 1)) by (bit_vector);
        Ok((status & 0x04) != 0)
    }
}

} // verus!
