//! Verified protocol cores for a seven-segment clock: the segment encoder,
//! the signalling sequences of a TPIC6B595 shift register, and the register
//! layout of a DS3231 real-time clock.
//!
//! Nothing here touches hardware. Each driver says which signals or bus
//! transfers are to be performed and interprets what came back; the caller
//! owns the pins and the bus and carries the transfers out.

pub mod bits;
pub mod digit;
pub mod register;
pub mod rtc;
pub mod tpic6b595;
