use cloc::rtc::{
    bcd_decode, bcd_encode, DateTime, Request, Rtc, ADDRESS, STATUS_REGISTER,
    TEMPERATURE_REGISTER, TIME_REGISTER,
};

/// What a bus might report; the driver never looks inside.
#[derive(Debug, PartialEq)]
enum BusError {
    NoAcknowledge,
    Timeout,
}

#[test]
fn bcd_round_trip() {
    for value in 0u8..=99 {
        assert_eq!(bcd_decode(bcd_encode(value)), value);
    }
}

#[test]
fn bcd_bytes_read_as_written() {
    assert_eq!(bcd_encode(0), 0x00);
    assert_eq!(bcd_encode(9), 0x09);
    assert_eq!(bcd_encode(10), 0x10);
    assert_eq!(bcd_encode(59), 0x59);
    assert_eq!(bcd_encode(99), 0x99);
    assert_eq!(bcd_decode(0x00), 0);
    assert_eq!(bcd_decode(0x30), 30);
    assert_eq!(bcd_decode(0x59), 59);
    assert_eq!(bcd_decode(0x99), 99);
}

#[test]
fn bcd_beyond_two_digits() {
    assert_eq!(bcd_encode(100), 0xA0);
    assert_eq!(bcd_encode(159), 0xF9);
    assert_eq!(bcd_encode(160), 0x00);
    assert_eq!(bcd_encode(255), 0x95);
    assert_eq!(bcd_decode(0x1F), 25);
    assert_eq!(bcd_decode(0xFF), 165);
}

#[test]
fn the_device_is_at_its_address() {
    let rtc = Rtc::new();
    assert_eq!(ADDRESS, 0x68);
    assert_eq!(rtc.address(), 0x68);
}

#[test]
fn requests_name_the_registers() {
    let rtc = Rtc::new();
    assert_eq!(TIME_REGISTER, 0x00);
    assert_eq!(STATUS_REGISTER, 0x0F);
    assert_eq!(TEMPERATURE_REGISTER, 0x11);
    assert_eq!(
        rtc.datetime_request(),
        Request { address: 0x68, register: 0x00, length: 7 }
    );
    assert_eq!(
        rtc.status_request(),
        Request { address: 0x68, register: 0x0F, length: 1 }
    );
    assert_eq!(
        rtc.temperature_request(),
        Request { address: 0x68, register: 0x11, length: 2 }
    );
}

#[test]
fn registers_decode_to_a_time() {
    let rtc = Rtc::new();
    let reply: Result<[u8; 7], BusError> = Ok([0x00, 0x30, 0x09, 0x01, 0x01, 0x25, 0x00]);
    let datetime = rtc.get_datetime(reply).unwrap();
    assert_eq!(datetime.second, 0);
    assert_eq!(datetime.minute, 30);
    assert_eq!(datetime.hour, 9);
    assert_eq!(datetime.day, 1);
    assert_eq!(datetime.month, 1);
    assert_eq!(datetime.year, 2025);
}

#[test]
fn flag_bits_are_masked_off() {
    let rtc = Rtc::new();
    let reply: Result<[u8; 7], BusError> = Ok([0x30, 0x15, 0x09, 0x03, 0x24, 0x25, 0x00]);
    assert_eq!(
        rtc.get_datetime(reply),
        Ok(DateTime { year: 2025, month: 4, day: 3, hour: 9, minute: 15, second: 30 })
    );
    let reply: Result<[u8; 7], BusError> = Ok([0xD9, 0xC5, 0xE3, 0xF1, 0xF2, 0x99, 0xFF]);
    assert_eq!(
        rtc.get_datetime(reply),
        Ok(DateTime { year: 2099, month: 12, day: 31, hour: 23, minute: 45, second: 59 })
    );
}

#[test]
fn the_seventh_byte_is_not_read() {
    let rtc = Rtc::new();
    let one: Result<[u8; 7], BusError> = Ok([0x12, 0x34, 0x15, 0x27, 0x11, 0x24, 0x00]);
    let other: Result<[u8; 7], BusError> = Ok([0x12, 0x34, 0x15, 0x27, 0x11, 0x24, 0xA5]);
    let expected = DateTime { year: 2024, month: 11, day: 27, hour: 15, minute: 34, second: 12 };
    assert_eq!(rtc.get_datetime(one), Ok(expected));
    assert_eq!(rtc.get_datetime(other), Ok(expected));
}

#[test]
fn a_failed_read_gives_no_time() {
    let rtc = Rtc::new();
    assert_eq!(rtc.get_datetime(Err(BusError::NoAcknowledge)), Err(BusError::NoAcknowledge));
    assert_eq!(rtc.get_datetime(Err(BusError::Timeout)), Err(BusError::Timeout));
}

#[test]
fn init_succeeds_where_the_read_does() {
    let rtc = Rtc::new();
    let reply: Result<[u8; 7], BusError> = Ok([0x00, 0x30, 0x09, 0x01, 0x01, 0x25, 0x00]);
    assert_eq!(rtc.init(reply), Ok(()));
    let garbage: Result<[u8; 7], BusError> = Ok([0xFF; 7]);
    assert_eq!(rtc.init(garbage), Ok(()));
    assert_eq!(rtc.init(Err(BusError::NoAcknowledge)), Err(BusError::NoAcknowledge));
    assert_eq!(rtc.init(Err(BusError::Timeout)), Err(BusError::Timeout));
}

#[test]
fn a_time_encodes_to_a_frame() {
    let rtc = Rtc::new();
    let datetime = DateTime { year: 2025, month: 12, day: 31, hour: 23, minute: 59, second: 58 };
    assert_eq!(rtc.set_datetime(&datetime), [0x00, 0x58, 0x59, 0x23, 0x31, 0x12, 0x25]);
    let datetime = DateTime { year: 2000, month: 1, day: 1, hour: 0, minute: 0, second: 0 };
    assert_eq!(rtc.set_datetime(&datetime), [0x00, 0x00, 0x00, 0x00, 0x01, 0x01, 0x00]);
}

#[test]
fn only_two_digits_of_the_year_are_written() {
    let rtc = Rtc::new();
    let datetime = DateTime { year: 1999, month: 6, day: 15, hour: 12, minute: 0, second: 0 };
    assert_eq!(rtc.set_datetime(&datetime)[6], 0x99);
    let datetime = DateTime { year: 2107, month: 6, day: 15, hour: 12, minute: 0, second: 0 };
    assert_eq!(rtc.set_datetime(&datetime)[6], 0x07);
}

#[test]
fn a_time_written_is_the_time_read() {
    let rtc = Rtc::new();
    let times = [
        DateTime { year: 2000, month: 1, day: 1, hour: 0, minute: 0, second: 0 },
        DateTime { year: 2024, month: 2, day: 29, hour: 13, minute: 37, second: 42 },
        DateTime { year: 2099, month: 12, day: 31, hour: 23, minute: 59, second: 59 },
    ];
    for datetime in times {
        let frame = rtc.set_datetime(&datetime);
        for last in [0x00u8, 0x80, 0xFF] {
            let reply: Result<[u8; 7], BusError> =
                Ok([frame[1], frame[2], frame[3], frame[4], frame[5], frame[6], last]);
            assert_eq!(rtc.get_datetime(reply), Ok(datetime));
        }
    }
}

#[test]
fn every_field_survives_the_registers() {
    let rtc = Rtc::new();
    for value in 0u8..=59 {
        let datetime = DateTime {
            year: 2000 + (value as u16),
            month: 1 + value % 12,
            day: 1 + value % 31,
            hour: value % 24,
            minute: value,
            second: 59 - value,
        };
        let frame = rtc.set_datetime(&datetime);
        let reply: Result<[u8; 7], BusError> =
            Ok([frame[1], frame[2], frame[3], frame[4], frame[5], frame[6], 0]);
        assert_eq!(rtc.get_datetime(reply), Ok(datetime));
    }
}

#[test]
fn temperature_in_quarters() {
    let rtc = Rtc::new();
    let reply: Result<[u8; 2], BusError> = Ok([0x19, 0x40]);
    let quarters = rtc.get_temperature(reply).unwrap();
    assert_eq!(quarters, 101);
    assert_eq!((quarters as f32) * 0.25, 25.25);
}

#[test]
fn temperature_reads_the_top_two_bits_of_the_second_byte() {
    let rtc = Rtc::new();
    let reply: Result<[u8; 2], BusError> = Ok([0x00, 0x00]);
    assert_eq!(rtc.get_temperature(reply), Ok(0));
    let reply: Result<[u8; 2], BusError> = Ok([0x00, 0x3F]);
    assert_eq!(rtc.get_temperature(reply), Ok(0));
    let reply: Result<[u8; 2], BusError> = Ok([0x00, 0xC0]);
    assert_eq!(rtc.get_temperature(reply), Ok(3));
    let reply: Result<[u8; 2], BusError> = Ok([0x7F, 0xFF]);
    assert_eq!(rtc.get_temperature(reply), Ok(511));
}

#[test]
fn temperature_below_zero() {
    let rtc = Rtc::new();
    let reply: Result<[u8; 2], BusError> = Ok([0xFF, 0xC0]);
    assert_eq!(rtc.get_temperature(reply), Ok(-1));
    let reply: Result<[u8; 2], BusError> = Ok([0xE7, 0x00]);
    assert_eq!(rtc.get_temperature(reply), Ok(-100));
    let reply: Result<[u8; 2], BusError> = Ok([0x80, 0x00]);
    assert_eq!(rtc.get_temperature(reply), Ok(-512));
}

#[test]
fn a_failed_read_gives_no_temperature() {
    let rtc = Rtc::new();
    assert_eq!(rtc.get_temperature(Err(BusError::Timeout)), Err(BusError::Timeout));
}

#[test]
fn busy_is_bit_two_of_the_status() {
    let rtc = Rtc::new();
    let reply: Result<[u8; 1], BusError> = Ok([0x04]);
    assert_eq!(rtc.is_busy(reply), Ok(true));
    let reply: Result<[u8; 1], BusError> = Ok([0x00]);
    assert_eq!(rtc.is_busy(reply), Ok(false));
    let reply: Result<[u8; 1], BusError> = Ok([0xFB]);
    assert_eq!(rtc.is_busy(reply), Ok(false));
    let reply: Result<[u8; 1], BusError> = Ok([0xFF]);
    assert_eq!(rtc.is_busy(reply), Ok(true));
}

#[test]
fn a_failed_read_gives_no_status() {
    let rtc = Rtc::new();
    assert_eq!(rtc.is_busy(Err(BusError::NoAcknowledge)), Err(BusError::NoAcknowledge));
}
